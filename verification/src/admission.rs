//! What a request for a run must bring, and what a run is granted.
use vstd::prelude::*;

use crate::config::{ConfigView, RlmConfig};
use crate::env::contexts_view;
use crate::text::{chars_of, is_space, trim, trimmed};
use crate::text_laws::trimming_takes_the_ends_only;

verus! {

/// Most bytes of a request's body.
pub const MAX_BODY_BYTES: u64 = 33_554_432;

/// Most contexts of a request.
pub const MAX_CONTEXTS: usize = 16;

/// Most characters of a context's name.
pub const NAME_CAP: usize = 64;

/// Fewest tokens of a response that a request can ask for, where the configuration has as many.
pub const MIN_TOKENS: u32 = 64;

// ----------------------------------------------------------------- requests

/// What a client asks to be allowed; nothing unless it says so.
pub struct Capabilities {
    pub memory: bool,
}

/// Limits that a client asks for.
pub struct Limits {
    pub max_iterations: Option<u32>,
    pub max_tokens: Option<u32>,
    pub max_run_seconds: Option<u64>,
}

/// A context that a client brings along.
pub struct ContextIn {
    pub name: String,
    pub text: String,
}

/// A request for a run.
pub struct RunRequest {
    pub prompt: String,
    pub contexts: Vec<ContextIn>,
    pub capabilities: Capabilities,
    pub limits: Limits,
}

/// What a request holds.
pub struct RequestView {
    pub prompt: Seq<char>,
    pub contexts: Seq<(Seq<char>, Seq<char>)>,
    pub memory: bool,
    pub limits: Limits,
}

impl View for RunRequest {
    type V = RequestView;

    open spec fn view(&self) -> RequestView {
        RequestView {
            prompt: self.prompt@,
            contexts: self.contexts@.map_values(|c: ContextIn| (c.name@, c.text@)),
            memory: self.capabilities.memory,
            limits: self.limits,
        }
    }
}

// ----------------------------------------------------------------- refusals

/// Why a request is refused.
pub enum Refusal {
    BodyTooLarge,
    BodyUnreadable,
    BadRequest(String),
    PromptRequired,
    TooManyContexts,
    ContextsTooLarge,
    QueueFull,
    Unauthorized,
    NotFound,
    UnknownRun,
}

pub enum RefusalView {
    BodyTooLarge,
    BodyUnreadable,
    BadRequest(Seq<char>),
    PromptRequired,
    TooManyContexts,
    ContextsTooLarge,
    QueueFull,
    Unauthorized,
    NotFound,
    UnknownRun,
}

impl View for Refusal {
    type V = RefusalView;

    open spec fn view(&self) -> RefusalView {
        match self {
            Refusal::BodyTooLarge => RefusalView::BodyTooLarge,
            Refusal::BodyUnreadable => RefusalView::BodyUnreadable,
            Refusal::BadRequest(e) => RefusalView::BadRequest(e@),
            Refusal::PromptRequired => RefusalView::PromptRequired,
            Refusal::TooManyContexts => RefusalView::TooManyContexts,
            Refusal::ContextsTooLarge => RefusalView::ContextsTooLarge,
            Refusal::QueueFull => RefusalView::QueueFull,
            Refusal::Unauthorized => RefusalView::Unauthorized,
            Refusal::NotFound => RefusalView::NotFound,
            Refusal::UnknownRun => RefusalView::UnknownRun,
        }
    }
}

/// The status code that a refusal is answered with.
pub open spec fn refusal_code(r: RefusalView) -> u16 {
    match r {
        RefusalView::BodyTooLarge => 413,
        RefusalView::BodyUnreadable => 400,
        RefusalView::BadRequest(_) => 400,
        RefusalView::PromptRequired => 400,
        RefusalView::TooManyContexts => 413,
        RefusalView::ContextsTooLarge => 413,
        RefusalView::QueueFull => 429,
        RefusalView::Unauthorized => 401,
        RefusalView::NotFound => 404,
        RefusalView::UnknownRun => 404,
    }
}

/// A refusal in words.
pub open spec fn refusal_text(r: RefusalView) -> Seq<char> {
    match r {
        RefusalView::BodyTooLarge => "body too large"@,
        RefusalView::BodyUnreadable => "unreadable or oversized body"@,
        RefusalView::BadRequest(e) => "bad request: "@ + e,
        RefusalView::PromptRequired => "prompt is required"@,
        RefusalView::TooManyContexts => "too many contexts"@,
        RefusalView::ContextsTooLarge => "contexts exceed configured size limit"@,
        RefusalView::QueueFull => "run queue is full"@,
        RefusalView::Unauthorized => "missing or invalid bearer token"@,
        RefusalView::NotFound => "not found"@,
        RefusalView::UnknownRun => "unknown run"@,
    }
}

impl Refusal {
    /// The status code that the refusal is answered with.
    pub fn code(&self) -> (r: u16)
        ensures
            r == refusal_code(self@),
    {
        match self {
            Refusal::BodyTooLarge => 413,
            Refusal::BodyUnreadable => 400,
            Refusal::BadRequest(_) => 400,
            Refusal::PromptRequired => 400,
            Refusal::TooManyContexts => 413,
            Refusal::ContextsTooLarge => 413,
            Refusal::QueueFull => 429,
            Refusal::Unauthorized => 401,
            Refusal::NotFound => 404,
            Refusal::UnknownRun => 404,
        }
    }

    /// The refusal in words.
    pub fn message(&self) -> (r: String)
        ensures
            r@ == refusal_text(self@),
    {
        match self {
            Refusal::BodyTooLarge => "body too large".to_owned(),
            Refusal::BodyUnreadable => "unreadable or oversized body".to_owned(),
            Refusal::BadRequest(e) => {
                let mut r = "bad request: ".to_owned();
                r.append(e.as_str());
                r
            },
            Refusal::PromptRequired => "prompt is required".to_owned(),
            Refusal::TooManyContexts => "too many contexts".to_owned(),
            Refusal::ContextsTooLarge => "contexts exceed configured size limit".to_owned(),
            Refusal::QueueFull => "run queue is full".to_owned(),
            Refusal::Unauthorized => "missing or invalid bearer token".to_owned(),
            Refusal::NotFound => "not found".to_owned(),
            Refusal::UnknownRun => "unknown run".to_owned(),
        }
    }
}

/// What is said against a body by the length that a request announces.
pub open spec fn announced_refusal(length: Option<u64>) -> Option<RefusalView> {
    match length {
        Some(n) if n > MAX_BODY_BYTES => Some(RefusalView::BodyTooLarge),
        _ => None,
    }
}

/// What is said against a body once it was read; without a length it could not be read.
pub open spec fn body_refusal(length: Option<u64>) -> Option<RefusalView> {
    match length {
        Some(n) if n <= MAX_BODY_BYTES => None,
        _ => Some(RefusalView::BodyUnreadable),
    }
}

pub open spec fn opt_refusal(r: Option<Refusal>) -> Option<RefusalView> {
    match r {
        Some(x) => Some(x@),
        None => None,
    }
}

/// Holds the length that a request announces against what is allowed.
pub fn check_announced(length: Option<u64>) -> (r: Option<Refusal>)
    ensures
        opt_refusal(r) == announced_refusal(length),
{
    match length {
        Some(n) => if n > MAX_BODY_BYTES {
            Some(Refusal::BodyTooLarge)
        } else {
            None
        },
        None => None,
    }
}

/// Holds the length of a body that was read against what is allowed.
pub fn check_body(length: Option<u64>) -> (r: Option<Refusal>)
    ensures
        opt_refusal(r) == body_refusal(length),
{
    match length {
        Some(n) => if n <= MAX_BODY_BYTES {
            None
        } else {
            Some(Refusal::BodyUnreadable)
        },
        None => Some(Refusal::BodyUnreadable),
    }
}

/// The characters of all contexts together.
pub open spec fn total_chars(contexts: Seq<(Seq<char>, Seq<char>)>) -> nat
    decreases contexts.len(),
{
    if contexts.len() == 0 {
        0
    } else {
        total_chars(contexts.drop_last()) + contexts.last().1.len()
    }
}

/// What is said against a request.
pub open spec fn request_refusal(req: RequestView, cfg: ConfigView) -> Option<RefusalView> {
    if trimmed(req.prompt).len() == 0 {
        Some(RefusalView::PromptRequired)
    } else if req.contexts.len() > MAX_CONTEXTS {
        Some(RefusalView::TooManyContexts)
    } else if total_chars(req.contexts) > cfg.daemon_max_context_chars {
        Some(RefusalView::ContextsTooLarge)
    } else {
        None
    }
}

/// Holds a request against what is allowed.
pub fn check_request(req: &RunRequest, cfg: &RlmConfig) -> (r: Option<Refusal>)
    ensures
        opt_refusal(r) == request_refusal(req@, cfg@),
{
    if trim(req.prompt.as_str()).as_str().is_empty() {
        return Some(Refusal::PromptRequired);
    }
    if req.contexts.len() > MAX_CONTEXTS {
        return Some(Refusal::TooManyContexts);
    }
    let ghost all = req@.contexts;
    let mut total: u128 = 0;
    assert(all.take(0) =~= seq![]);
    for i in 0..req.contexts.len()
        invariant
            all == req@.contexts,
            req.contexts@.len() <= MAX_CONTEXTS,
            total == total_chars(all.take(i as int)),
            total <= i * 0x1_0000_0000_0000_0000,
    {
        assert(all.take(i + 1).drop_last() =~= all.take(i as int));
        assert(all.take(i + 1).last() == all[i as int]);
        let count = req.contexts[i].text.as_str().unicode_len();
        total = total + count as u128;
    }
    assert(all.take(all.len() as int) =~= all);
    if total > cfg.daemon_max_context_chars as u128 {
        return Some(Refusal::ContextsTooLarge);
    }
    None
}

// -------------------------------------------------------------------- names

/// A character that names of contexts keep.
pub open spec fn name_char(c: char) -> bool {
    ||| 'a' <= c <= 'z'
    ||| 'A' <= c <= 'Z'
    ||| '0' <= c <= '9'
    ||| c == '_'
    ||| c == '-'
    ||| c == '.'
}

/// The characters of a text that names keep.
pub open spec fn kept(s: Seq<char>) -> Seq<char>
    decreases s.len(),
{
    if s.len() == 0 {
        seq![]
    } else if name_char(s.last()) {
        kept(s.drop_last()).push(s.last())
    } else {
        kept(s.drop_last())
    }
}

/// At most the first `n` items of a list.
pub open spec fn first_items<T>(s: Seq<T>, n: nat) -> Seq<T> {
    if s.len() <= n {
        s
    } else {
        s.take(n as int)
    }
}

/// A name that is safe to show: the first of its plain characters, or a name of our own where
/// there are none.
pub open spec fn safe_name(name: Seq<char>) -> Seq<char> {
    let cleaned = first_items(kept(name), NAME_CAP as nat);
    if cleaned.len() == 0 {
        "context"@
    } else {
        cleaned
    }
}

fn is_name_char(c: char) -> (r: bool)
    ensures
        r == name_char(c),
{
    ('a' <= c && c <= 'z') || ('A' <= c && c <= 'Z') || ('0' <= c && c <= '9') || c == '_' || c == '-'
        || c == '.'
}

/// Makes the name of a context safe to show.
pub fn sanitize_name(name: &str) -> (r: String)
    ensures
        r@ == safe_name(name@),
{
    let cs = chars_of(name);
    let mut out = String::new();
    let mut count: usize = 0;
    assert(name@.take(0) =~= seq![]);
    for i in 0..cs.len()
        invariant
            cs@ == name@,
            count == out@.len(),
            count <= NAME_CAP,
            out@ == first_items(kept(name@.take(i as int)), NAME_CAP as nat),
    {
        let c = cs[i];
        assert(name@.take(i + 1).drop_last() =~= name@.take(i as int));
        assert(name@.take(i + 1).last() == c);
        if is_name_char(c) && count < NAME_CAP {
            out.push(c);
            count = count + 1;
        }
        assert(out@ =~= first_items(kept(name@.take(i + 1)), NAME_CAP as nat));
    }
    assert(name@.take(cs@.len() as int) =~= name@);
    if count == 0 {
        "context".to_owned()
    } else {
        out
    }
}

// ------------------------------------------------------------------- grants

pub open spec fn at_most(a: u32, b: u32) -> u32 {
    if a <= b {
        a
    } else {
        b
    }
}

/// The limit that a run gets: what was asked for, but at least `least` and never more than the
/// ceiling.
pub open spec fn limited(asked: Option<u32>, least: u32, ceiling: u32) -> u32 {
    match asked {
        None => ceiling,
        Some(v) => at_most(
            if v >= least {
                v
            } else {
                least
            },
            ceiling,
        ),
    }
}

/// The wall-clock cap that a run gets, where zero means none: what was asked for, but never
/// beyond the ceiling.
pub open spec fn limited_seconds(asked: Option<u64>, ceiling: u64) -> u64 {
    match asked {
        None => ceiling,
        Some(v) => if ceiling == 0 {
            v
        } else if v == 0 || v > ceiling {
            ceiling
        } else {
            v
        },
    }
}

/// The configuration that a run gets.
pub open spec fn run_config(cfg: ConfigView, limits: Limits) -> ConfigView {
    ConfigView {
        max_iterations: limited(limits.max_iterations, 1, cfg.max_iterations),
        max_tokens: limited(limits.max_tokens, MIN_TOKENS, cfg.max_tokens),
        max_run_seconds: limited_seconds(limits.max_run_seconds, cfg.max_run_seconds),
        ..cfg
    }
}

/// Whether a run may use the memory: the client asks for it and the configuration allows it.
pub open spec fn memory_granted(req: RequestView, cfg: ConfigView) -> bool {
    req.memory && cfg.daemon_allow_memory
}

/// A run that was admitted and waits for its turn.
pub struct PendingRun {
    pub prompt: String,
    pub contexts: Vec<(String, String)>,
    pub run_cfg: RlmConfig,
    pub allow_memory: bool,
}

/// What a waiting run holds.
pub struct PendingView {
    pub prompt: Seq<char>,
    pub contexts: Seq<(Seq<char>, Seq<char>)>,
    pub run_cfg: ConfigView,
    pub allow_memory: bool,
}

impl View for PendingRun {
    type V = PendingView;

    open spec fn view(&self) -> PendingView {
        PendingView {
            prompt: self.prompt@,
            contexts: contexts_view(self.contexts@),
            run_cfg: self.run_cfg@,
            allow_memory: self.allow_memory,
        }
    }
}

/// The contexts of a request under safe names.
pub open spec fn safe_contexts(contexts: Seq<(Seq<char>, Seq<char>)>) -> Seq<(Seq<char>, Seq<char>)> {
    contexts.map_values(|c: (Seq<char>, Seq<char>)| (safe_name(c.0), c.1))
}

/// What a request is granted.
pub open spec fn granted(req: RequestView, cfg: ConfigView) -> PendingView {
    PendingView {
        prompt: req.prompt,
        contexts: safe_contexts(req.contexts),
        run_cfg: run_config(cfg, req.limits),
        allow_memory: memory_granted(req, cfg),
    }
}

fn limit(asked: Option<u32>, least: u32, ceiling: u32) -> (r: u32)
    ensures
        r == limited(asked, least, ceiling),
{
    match asked {
        None => ceiling,
        Some(v) => {
            let v = if v >= least {
                v
            } else {
                least
            };
            if v <= ceiling {
                v
            } else {
                ceiling
            }
        },
    }
}

fn limit_seconds(asked: Option<u64>, ceiling: u64) -> (r: u64)
    ensures
        r == limited_seconds(asked, ceiling),
{
    match asked {
        None => ceiling,
        Some(v) => if ceiling == 0 {
            v
        } else if v == 0 || v > ceiling {
            ceiling
        } else {
            v
        },
    }
}

/// Grants a request what it may have.
pub fn grant(req: RunRequest, cfg: &RlmConfig) -> (r: PendingRun)
    ensures
        r@ == granted(req@, cfg@),
{
    let mut run_cfg = cfg.clone();
    run_cfg.max_iterations = limit(req.limits.max_iterations, 1, cfg.max_iterations);
    run_cfg.max_tokens = limit(req.limits.max_tokens, MIN_TOKENS, cfg.max_tokens);
    run_cfg.max_run_seconds = limit_seconds(req.limits.max_run_seconds, cfg.max_run_seconds);
    let mut contexts: Vec<(String, String)> = Vec::new();
    let ghost want = safe_contexts(req@.contexts);
    for i in 0..req.contexts.len()
        invariant
            want == safe_contexts(req@.contexts),
            contexts@.len() == i,
            forall|j: int|
                0 <= j < i ==> ((#[trigger] contexts@[j]).0@, contexts@[j].1@) == want[j],
    {
        contexts.push(
            (sanitize_name(req.contexts[i].name.as_str()), req.contexts[i].text.clone()),
        );
    }
    assert(contexts_view(contexts@) =~= want);
    let allow_memory = req.capabilities.memory && cfg.daemon_allow_memory;
    PendingRun { prompt: req.prompt, contexts, run_cfg, allow_memory }
}

// --------------------------------------------------------------------- laws

/// The seconds that a cap allows; none allows any number.
pub open spec fn within_cap(cap: u64, seconds: nat) -> bool {
    cap == 0 || seconds < cap
}

/// Limits only ratchet down: whatever a client asks for, no limit of its run is above the
/// configured one, and all else is as configured.
pub proof fn limits_only_ratchet_down(cfg: ConfigView, limits: Limits)
    ensures
        run_config(cfg, limits).max_iterations <= cfg.max_iterations,
        run_config(cfg, limits).max_tokens <= cfg.max_tokens,
        forall|seconds: nat| #[trigger]
            within_cap(run_config(cfg, limits).max_run_seconds, seconds) ==> within_cap(
                cfg.max_run_seconds,
                seconds,
            ),
        run_config(cfg, limits) == (ConfigView {
            max_iterations: run_config(cfg, limits).max_iterations,
            max_tokens: run_config(cfg, limits).max_tokens,
            max_run_seconds: run_config(cfg, limits).max_run_seconds,
            ..cfg
        }),
{
}

/// Capabilities are denied by default: a run may use the memory only if its client asks for it
/// and the configuration allows it too.
pub proof fn memory_needs_both_sides(req: RequestView, cfg: ConfigView)
    ensures
        granted(req, cfg).allow_memory <==> req.memory && cfg.daemon_allow_memory,
{
}

proof fn kept_chars(s: Seq<char>)
    ensures
        forall|i: int| 0 <= i < kept(s).len() ==> name_char(#[trigger] kept(s)[i]),
        kept(s).len() <= s.len(),
    decreases s.len(),
{
    if s.len() > 0 {
        kept_chars(s.drop_last());
    }
}

proof fn kept_keeps_names(s: Seq<char>)
    requires
        forall|i: int| 0 <= i < s.len() ==> name_char(#[trigger] s[i]),
    ensures
        kept(s) == s,
    decreases s.len(),
{
    if s.len() > 0 {
        kept_keeps_names(s.drop_last());
        assert(s =~= s.drop_last().push(s.last()));
    } else {
        assert(kept(s) =~= s);
    }
}

/// A safe name is never empty, never longer than names may be, and made of plain characters
/// only; making it safe again changes nothing.
pub proof fn safe_names_are_plain(name: Seq<char>)
    ensures
        1 <= safe_name(name).len() <= NAME_CAP,
        forall|i: int| 0 <= i < safe_name(name).len() ==> name_char(#[trigger] safe_name(name)[i]),
        safe_name(safe_name(name)) == safe_name(name),
{
    reveal_strlit("context");
    kept_chars(name);
    kept_keeps_names(safe_name(name));
}

/// A request is refused if and only if its prompt is empty but for white space, it brings too many
/// contexts, or they are too long together; and for the first of these that holds.
pub proof fn requests_are_refused_for_cause(req: RunRequest, cfg: RlmConfig, r: Option<Refusal>)
    requires
        call_ensures(check_request, (&req, &cfg), r),
    ensures
        ({
            let blank = forall|i: int| 0 <= i < req.prompt@.len() ==> is_space(#[trigger] req.prompt@[i]);
            let many = req.contexts@.len() > 16;
            let long = total_chars(req@.contexts) > cfg.daemon_max_context_chars;
            &&& r is None <==> !blank && !many && !long
            &&& r is Some && r->0 is PromptRequired <==> blank
            &&& r is Some && r->0 is TooManyContexts <==> !blank && many
            &&& r is Some && r->0 is ContextsTooLarge <==> !blank && !many && long
        }),
{
    trimming_takes_the_ends_only(req.prompt@);
    assert(req@.contexts.len() == req.contexts@.len());
    if r is Some {
        assert(opt_refusal(r) == Some(r->0@));
    }
}

/// The length of contexts together is the sum of their lengths.
pub proof fn lengths_add_up(a: Seq<(Seq<char>, Seq<char>)>, b: Seq<(Seq<char>, Seq<char>)>, c: (Seq<char>, Seq<char>))
    ensures
        total_chars(Seq::empty()) == 0,
        total_chars(seq![c]) == c.1.len(),
        total_chars(a + b) == total_chars(a) + total_chars(b),
    decreases b.len(),
{
    assert(seq![c].drop_last() =~= Seq::<(Seq<char>, Seq<char>)>::empty());
    reveal_with_fuel(total_chars, 2);
    if b.len() == 0 {
        assert(a + b =~= a);
    } else {
        assert((a + b).drop_last() =~= a + b.drop_last());
        lengths_add_up(a, b.drop_last(), c);
    }
}

/// Bodies are taken up to their limit, by what is announced and by what was read.
pub proof fn bodies_are_bounded(length: u64, announced: Option<Refusal>, read: Option<Refusal>)
    requires
        call_ensures(check_announced, (Some(length),), announced),
        call_ensures(check_body, (Some(length),), read),
    ensures
        announced is Some <==> length > 33_554_432,
        announced is Some ==> announced->0 is BodyTooLarge,
        read is Some <==> length > 33_554_432,
        read is Some ==> read->0 is BodyUnreadable,
{
    assert(opt_refusal(announced) == announced_refusal(Some(length)));
    assert(opt_refusal(read) == body_refusal(Some(length)));
}

proof fn kept_adds_up(a: Seq<char>, b: Seq<char>)
    ensures
        kept(a + b) == kept(a) + kept(b),
    decreases b.len(),
{
    if b.len() == 0 {
        assert(a + b =~= a);
        assert(kept(a) + kept(b) =~= kept(a));
    } else {
        assert((a + b).drop_last() =~= a + b.drop_last());
        kept_adds_up(a, b.drop_last());
        assert(kept(a + b) =~= kept(a) + kept(b));
    }
}

/// Plain characters of a name are kept in their order and others are left out: a plain name that is
/// not too long stays as it is, and a character that is not plain makes no difference wherever it
/// stands. Of a longer name the first 64 characters are kept.
pub proof fn plain_names_stay(name: Seq<char>, front: Seq<char>, odd: char, back: Seq<char>)
    ensures
        name.len() > 0 && (forall|i: int| 0 <= i < name.len() ==> name_char(#[trigger] name[i])) ==> safe_name(name)
            == (if name.len() <= 64 {
            name
        } else {
            name.take(64)
        }),
        !name_char(odd) ==> safe_name(front + seq![odd] + back) == safe_name(front + back),
        (forall|i: int| 0 <= i < name.len() ==> !name_char(#[trigger] name[i])) ==> safe_name(name)
            == "context"@,
{
    if forall|i: int| 0 <= i < name.len() ==> name_char(#[trigger] name[i]) {
        kept_keeps_names(name);
    }
    if !name_char(odd) {
        assert(seq![odd].drop_last() =~= Seq::<char>::empty());
        assert(kept(seq![odd]) =~= Seq::<char>::empty()) by {
            reveal_with_fuel(kept, 2);
        }
        kept_adds_up(front, seq![odd]);
        kept_adds_up(front + seq![odd], back);
        kept_adds_up(front, back);
        assert(kept(front) + Seq::<char>::empty() =~= kept(front));
    }
    if forall|i: int| 0 <= i < name.len() ==> !name_char(#[trigger] name[i]) {
        nothing_is_kept(name);
    }
}

proof fn nothing_is_kept(s: Seq<char>)
    requires
        forall|i: int| 0 <= i < s.len() ==> !name_char(#[trigger] s[i]),
    ensures
        kept(s).len() == 0,
    decreases s.len(),
{
    if s.len() > 0 {
        assert(!name_char(s[s.len() - 1]));
        assert forall|i: int| 0 <= i < s.drop_last().len() implies !name_char(#[trigger] s.drop_last()[i]) by {
            assert(!name_char(s[i]));
        }
        nothing_is_kept(s.drop_last());
    }
}

/// A limit within its bounds is granted as it was asked for, and where none was asked for the
/// configured one holds.
pub proof fn limits_within_bounds_are_granted(cfg: ConfigView, limits: Limits)
    ensures
        limits.max_iterations is None ==> run_config(cfg, limits).max_iterations == cfg.max_iterations,
        limits.max_iterations matches Some(n) ==> 1 <= n <= cfg.max_iterations ==> run_config(
            cfg,
            limits,
        ).max_iterations == n,
        limits.max_iterations matches Some(n) ==> n > cfg.max_iterations ==> run_config(cfg, limits).max_iterations
            == cfg.max_iterations,
        limits.max_iterations matches Some(n) ==> n == 0 && cfg.max_iterations >= 1 ==> run_config(
            cfg,
            limits,
        ).max_iterations == 1,
        limits.max_tokens is None ==> run_config(cfg, limits).max_tokens == cfg.max_tokens,
        limits.max_tokens matches Some(n) ==> 64 <= n <= cfg.max_tokens ==> run_config(cfg, limits).max_tokens == n,
        limits.max_tokens matches Some(n) ==> n > cfg.max_tokens ==> run_config(cfg, limits).max_tokens
            == cfg.max_tokens,
        limits.max_tokens matches Some(n) ==> n < 64 && cfg.max_tokens >= 64 ==> run_config(cfg, limits).max_tokens
            == 64,
        limits.max_run_seconds is None ==> run_config(cfg, limits).max_run_seconds == cfg.max_run_seconds,
        limits.max_run_seconds matches Some(n) ==> n > 0 && (cfg.max_run_seconds == 0 || n
            <= cfg.max_run_seconds) ==> run_config(cfg, limits).max_run_seconds == n,
        limits.max_run_seconds matches Some(n) ==> cfg.max_run_seconds > 0 && (n == 0 || n > cfg.max_run_seconds)
            ==> run_config(cfg, limits).max_run_seconds == cfg.max_run_seconds,
{
}

/// A request is granted its own prompt and its own texts: each context keeps its place and its text
/// in full, under a safe name.
pub proof fn a_grant_keeps_what_was_brought(req: RunRequest, cfg: RlmConfig, r: PendingRun)
    requires
        call_ensures(grant, (req, &cfg), r),
    ensures
        r.prompt@ == req.prompt@,
        r.contexts@.len() == req.contexts@.len(),
        forall|i: int|
            0 <= i < req.contexts@.len() ==> (#[trigger] r.contexts@[i]).1@ == req.contexts@[i].text@
                && r.contexts@[i].0@ == safe_name(req.contexts@[i].name@),
        r.allow_memory == (req.capabilities.memory && cfg.daemon_allow_memory),
        r.run_cfg@.max_iterations <= cfg.max_iterations,
        r.run_cfg@.host == cfg.host@ && r.run_cfg@.port == cfg.port && r.run_cfg@.memory_path == cfg.memory_path@,
{
    let got = contexts_view(r.contexts@);
    assert(got == r@.contexts);
    assert(got == safe_contexts(req@.contexts));
    assert(got.len() == r.contexts@.len());
    assert(req@.contexts.len() == req.contexts@.len());
    assert forall|i: int| 0 <= i < req.contexts@.len() implies (#[trigger] r.contexts@[i]).1@
        == req.contexts@[i].text@ && r.contexts@[i].0@ == safe_name(req.contexts@[i].name@) by {
        assert(got[i] == (r.contexts@[i].0@, r.contexts@[i].1@));
        assert(req@.contexts[i] == (req.contexts@[i].name@, req.contexts@[i].text@));
    }
    assert(r@.run_cfg == r.run_cfg@);
}

/// What is wrong with a request's text is told in full.
pub proof fn bad_requests_are_told(e: String, r: String, code: u16)
    requires
        call_ensures(Refusal::message, (&Refusal::BadRequest(e),), r),
        call_ensures(Refusal::code, (&Refusal::BadRequest(e),), code),
    ensures
        r@ == "bad request: "@ + e@,
        code == 400,
{
}

/// Names are kept to letters, digits, underscores, dashes and dots of plain ASCII: each of these
/// stays, and no other character does.
pub proof fn names_are_plain(name: Seq<char>, c: char, i: int)
    requires
        0 <= i < safe_name(name).len(),
    ensures
        ({
            let kept_char = safe_name(name)[i];
            ||| 'a' <= kept_char <= 'z'
            ||| 'A' <= kept_char <= 'Z'
            ||| '0' <= kept_char <= '9'
            ||| kept_char == '_' || kept_char == '-' || kept_char == '.'
        }),
        'a' <= c <= 'z' || 'A' <= c <= 'Z' || '0' <= c <= '9' || c == '_' || c == '-' || c == '.' ==> safe_name(
            seq![c],
        ) == seq![c],
{
    reveal_strlit("context");
    kept_is_plain(name);
    plain_names_stay(seq![c], Seq::empty(), c, Seq::empty());
}

proof fn kept_is_plain(s: Seq<char>)
    ensures
        forall|i: int| 0 <= i < kept(s).len() ==> name_char(#[trigger] kept(s)[i]),
    decreases s.len(),
{
    if s.len() > 0 {
        kept_is_plain(s.drop_last());
        let fore = kept(s.drop_last());
        assert forall|i: int| 0 <= i < kept(s).len() implies name_char(#[trigger] kept(s)[i]) by {
            if i < fore.len() {
                assert(kept(s)[i] == fore[i]);
            }
        }
    }
}

/// A refusal is answered by its cause: what is too large, what cannot be read, what there is no room
/// for, who may not ask and what is not there.
pub proof fn refusals_are_answered_by_cause(refusal: Refusal, r: u16)
    requires
        call_ensures(Refusal::code, (&refusal,), r),
    ensures
        r == 413 <==> refusal is BodyTooLarge || refusal is TooManyContexts || refusal is ContextsTooLarge,
        r == 400 <==> refusal is BodyUnreadable || refusal is BadRequest || refusal is PromptRequired,
        r == 429 <==> refusal is QueueFull,
        r == 401 <==> refusal is Unauthorized,
        r == 404 <==> refusal is NotFound || refusal is UnknownRun,
{
}

} // verus!
