//! The environment that scripts run in: named contexts, printed output, sub-calls, memory and the
//! final answer.
use vstd::prelude::*;

use crate::client::{
    chat_of, message, two_messages, ChatMessage, ChatRequest, ChatView, ClientView, LlmClient, MessageView,
};
use crate::config::{ConfigView, RlmConfig};
use crate::grep::{grep_answer, grep_content};
use crate::memory::{Memory, MemoryView};
use crate::text::{
    char_slice, decimal, decimal_of, join, joined, min, opt_view, slice_of, truncate, truncated, views,
};

verus! {

/// Most characters that one `peek` reads.
pub const PEEK_CAP: i64 = 16_000;

/// Most characters of an excerpt that a single sub-call is given.
pub const SINGLE_SHOT_SLICE_CAP: usize = 80_000;

/// Most operations of one script.
pub const MAX_OPERATIONS: u64 = 2_000_000;

/// Deepest nesting of expressions in a script.
pub const MAX_EXPR_DEPTH: usize = 64;

/// What scripts see and change.
pub struct EvalState {
    /// The contexts, by name.
    pub contexts: Vec<(String, String)>,
    /// What was printed.
    pub output: String,
    /// What was handed to `finish`.
    pub final_answer: Option<String>,
    /// Whether scripts may use the persistent memory.
    pub allow_memory: bool,
}

/// What an environment holds.
pub struct EnvView {
    pub contexts: Seq<(Seq<char>, Seq<char>)>,
    pub output: Seq<char>,
    pub final_answer: Option<Seq<char>>,
    pub allow_memory: bool,
}

/// What a list of contexts holds.
pub open spec fn contexts_view(list: Seq<(String, String)>) -> Seq<(Seq<char>, Seq<char>)> {
    list.map_values(|c: (String, String)| (c.0@, c.1@))
}

impl View for EvalState {
    type V = EnvView;

    open spec fn view(&self) -> EnvView {
        EnvView {
            contexts: contexts_view(self.contexts@),
            output: self.output@,
            final_answer: opt_view(self.final_answer),
            allow_memory: self.allow_memory,
        }
    }
}

/// The content of the first context with a name.
pub open spec fn context_named(
    contexts: Seq<(Seq<char>, Seq<char>)>,
    name: Seq<char>,
) -> Option<Seq<char>>
    decreases contexts.len(),
{
    if contexts.len() == 0 {
        None
    } else if contexts[0].0 == name {
        Some(contexts[0].1)
    } else {
        context_named(contexts.skip(1), name)
    }
}

/// The names of the contexts.
pub open spec fn names_of(contexts: Seq<(Seq<char>, Seq<char>)>) -> Seq<Seq<char>> {
    contexts.map_values(|c: (Seq<char>, Seq<char>)| c.0)
}

fn find_context<'a>(contexts: &'a Vec<(String, String)>, name: &str) -> (r: Option<&'a String>)
    ensures
        match r {
            Some(c) => context_named(contexts_view(contexts@), name@) == Some(c@),
            None => context_named(contexts_view(contexts@), name@) is None,
        },
{
    let ghost all = contexts_view(contexts@);
    assert(all.skip(0) =~= all);
    for i in 0..contexts.len()
        invariant
            all == contexts_view(contexts@),
            context_named(all, name@) == context_named(all.skip(i as int), name@),
    {
        assert(all.skip(i as int)[0] == all[i as int]);
        assert(all.skip(i as int).skip(1) =~= all.skip(i + 1));
        if contexts[i].0.as_str().eq(name) {
            return Some(&contexts[i].1);
        }
    }
    None
}

// -------------------------------------------------------------- slices

/// A text in quotes, as the standard `Debug` format of strings writes it.
pub uninterp spec fn debug_text(s: Seq<char>) -> Seq<char>;

/// `str` in the standard `Debug` format: the text in quotes, with escapes.
#[verifier::external_body]
fn debug_of(s: &str) -> (r: String)
    ensures
        r@ == debug_text(s@),
{
    format!("{s:?}")
}

/// What is said where no context has a name, given the quoted names of those that there are.
pub open spec fn no_context(name: Seq<char>, quoted: Seq<Seq<char>>) -> Seq<char> {
    "[error] no context named '"@ + name + "'. Available: ["@ + joined(quoted, ", "@) + "]"@
}

/// Says that no context has a name.
pub fn no_context_message(name: &str, quoted: &Vec<String>) -> (r: String)
    ensures
        r@ == no_context(name@, views(quoted@)),
{
    let mut r = "[error] no context named '".to_owned();
    r.append(name);
    r.append("'. Available: [");
    r.append(join(quoted, ", ").as_str());
    r.append("]");
    r
}

/// A slice of a context, or what is said where there is no such context.
pub open spec fn slice_result(
    contexts: Seq<(Seq<char>, Seq<char>)>,
    name: Seq<char>,
    start: int,
    len: int,
) -> Result<Seq<char>, Seq<char>> {
    match context_named(contexts, name) {
        Some(content) => Ok(slice_of(content, start, len)),
        None => Err(
            no_context(name, names_of(contexts).map_values(|n: Seq<char>| debug_text(n))),
        ),
    }
}

/// Reads `len` characters of a context, behind its first `start`.
pub fn context_slice(
    contexts: &Vec<(String, String)>,
    name: &str,
    start: i64,
    len: i64,
) -> (r: Result<String, String>)
    ensures
        crate::client::result_view(r) == slice_result(
            contexts_view(contexts@),
            name@,
            start as int,
            len as int,
        ),
{
    match find_context(contexts, name) {
        Some(content) => Ok(char_slice(content.as_str(), start, len)),
        None => {
            let mut quoted: Vec<String> = Vec::new();
            let ghost want = names_of(contexts_view(contexts@)).map_values(
                |n: Seq<char>| debug_text(n),
            );
            for i in 0..contexts.len()
                invariant
                    want == names_of(contexts_view(contexts@)).map_values(
                        |n: Seq<char>| debug_text(n),
                    ),
                    quoted@.len() == i,
                    forall|j: int| 0 <= j < i ==> (#[trigger] quoted@[j])@ == want[j],
            {
                quoted.push(debug_of(contexts[i].0.as_str()));
            }
            assert(views(quoted@) =~= want);
            Err(no_context_message(name, &quoted))
        },
    }
}

// ----------------------------------------------------------- sub-calls

/// What a sub-call over a slice of a context comes to.
pub enum SubCall {
    /// The answer is known without any model.
    Answer(String),
    /// A nested loop over contexts of its own, one level deeper.
    Nested { contexts: Vec<(String, String)>, depth: u32 },
    /// One chat with the model for sub-calls.
    Single(ChatRequest),
}

/// What a sub-call holds.
pub enum SubCallView {
    Answer(Seq<char>),
    Nested { contexts: Seq<(Seq<char>, Seq<char>)>, depth: u32 },
    Single(ChatView),
}

impl View for SubCall {
    type V = SubCallView;

    open spec fn view(&self) -> SubCallView {
        match self {
            SubCall::Answer(s) => SubCallView::Answer(s@),
            SubCall::Nested { contexts, depth } => SubCallView::Nested {
                contexts: contexts_view(contexts@),
                depth: *depth,
            },
            SubCall::Single(request) => SubCallView::Single(request@),
        }
    }
}

/// The messages of a sub-call without a context.
pub open spec fn plain_chat(prompt: Seq<char>) -> Seq<MessageView> {
    seq![
        message("system"@, "You are a capable assistant. Answer concisely and directly."@),
        message("user"@, prompt),
    ]
}

/// The messages of a sub-call over an excerpt.
pub open spec fn excerpt_chat(
    prompt: Seq<char>,
    name: Seq<char>,
    excerpt: Seq<char>,
) -> Seq<MessageView> {
    seq![
        message(
            "system"@,
            "Answer the user's question using ONLY the following excerpt from '"@ + name
                + "'. If the answer is not in the excerpt, say so.\n--- EXCERPT ---\n"@ + truncated(
                excerpt,
                SINGLE_SHOT_SLICE_CAP as nat,
            ) + "\n--- END EXCERPT ---"@,
        ),
        message("user"@, prompt),
    ]
}

/// Whether a slice gets a loop of its own: it is long enough, and the loop would be within the
/// depth that is allowed.
pub open spec fn recurses(cfg: ConfigView, depth: nat, slice: Seq<char>) -> bool {
    depth + 1 < cfg.max_depth && slice.len() > cfg.recurse_threshold
}

/// What a sub-call over a slice of a context comes to. A nested loop has the slice as its one
/// context; a single chat goes to the server for sub-calls.
pub open spec fn sub_call(
    contexts: Seq<(Seq<char>, Seq<char>)>,
    cfg: ConfigView,
    sub: ClientView,
    depth: u32,
    prompt: Seq<char>,
    name: Seq<char>,
    start: int,
    len: int,
) -> SubCallView {
    match slice_result(contexts, name, start, len) {
        Err(e) => SubCallView::Answer(e),
        Ok(slice) => if slice.len() == 0 {
            SubCallView::Answer("[error] empty slice"@)
        } else if recurses(cfg, depth as nat, slice) {
            SubCallView::Nested { contexts: seq![("excerpt"@, slice)], depth: (depth + 1) as u32 }
        } else {
            SubCallView::Single(chat_of(sub, excerpt_chat(prompt, name, slice), cfg.sub_max_tokens))
        },
    }
}

/// The request of a sub-call without a context, to the server for sub-calls.
pub fn llm(cfg: &RlmConfig, sub: &LlmClient, prompt: &str) -> (r: ChatRequest)
    ensures
        r@ == chat_of(sub@, plain_chat(prompt@), cfg.sub_max_tokens),
{
    let messages = two_messages(
        ChatMessage::new(
            "system",
            "You are a capable assistant. Answer concisely and directly.",
        ),
        ChatMessage::new("user", prompt),
    );
    sub.chat(messages, cfg.sub_max_tokens)
}

/// What a script is given back from a sub-call that one chat answered.
pub open spec fn sub_answer(r: Result<Seq<char>, Seq<char>>) -> Seq<char> {
    match r {
        Ok(s) => s,
        Err(e) => "[error] sub-call failed: "@ + e,
    }
}

/// What a script is given back from a nested loop.
pub open spec fn nested_answer(r: Result<Seq<char>, Seq<char>>) -> Seq<char> {
    match r {
        Ok(s) => s,
        Err(e) => "[error] recursive call failed: "@ + e,
    }
}

/// Hands the answer of a sub-call back to the script.
pub fn sub_reply(reply: Result<String, String>) -> (r: String)
    ensures
        r@ == sub_answer(crate::client::result_view(reply)),
{
    match reply {
        Ok(s) => s,
        Err(e) => {
            let mut r = "[error] sub-call failed: ".to_owned();
            r.append(e.as_str());
            r
        },
    }
}

/// Hands the answer of a nested loop back to the script.
pub fn nested_reply(reply: Result<String, String>) -> (r: String)
    ensures
        r@ == nested_answer(crate::client::result_view(reply)),
{
    match reply {
        Ok(s) => s,
        Err(e) => {
            let mut r = "[error] recursive call failed: ".to_owned();
            r.append(e.as_str());
            r
        },
    }
}

// -------------------------------------------------------------- listings

/// How a listing shows a context.
pub open spec fn context_entry(c: (Seq<char>, Seq<char>)) -> Seq<char> {
    c.0 + " ("@ + decimal(c.1.len()) + " chars)"@
}

/// The listing of the contexts.
pub open spec fn context_listing(contexts: Seq<(Seq<char>, Seq<char>)>) -> Seq<char> {
    joined(contexts.map_values(|c: (Seq<char>, Seq<char>)| context_entry(c)), "\n"@)
}

/// What is said where scripts may not use the memory.
pub open spec fn memory_denied() -> Seq<char> {
    "[error] memory is not enabled for this run"@
}

/// What a script reads under a key.
pub open spec fn recalled(env: EnvView, memory: MemoryView, key: Seq<char>) -> Seq<char> {
    if !env.allow_memory {
        memory_denied()
    } else if memory.facts.contains_key(key) {
        memory.facts[key]
    } else {
        "[error] no memory for key '"@ + key + "'"@
    }
}

/// What a script reads of the keys that there are.
pub open spec fn key_listing(env: EnvView, keys: Seq<Seq<char>>) -> Seq<char> {
    if !env.allow_memory {
        memory_denied()
    } else if keys.len() == 0 {
        "(memory is empty)"@
    } else {
        joined(keys, "\n"@)
    }
}

impl EvalState {
    /// An environment with contexts, before any script has run.
    pub fn new(contexts: Vec<(String, String)>, allow_memory: bool) -> (r: EvalState)
        ensures
            r@ == (EnvView {
                contexts: contexts_view(contexts@),
                output: seq![],
                final_answer: None,
                allow_memory,
            }),
    {
        EvalState { contexts, output: String::new(), final_answer: None, allow_memory }
    }

    /// Prints a line.
    pub fn print(&mut self, line: &str)
        ensures
            final(self)@ == (EnvView { output: old(self)@.output + line@ + "\n"@, ..old(self)@ }),
    {
        self.output.append(line);
        self.output.append("\n");
    }

    /// Names the contexts and their sizes.
    pub fn ctx_list(&self) -> (r: String)
        ensures
            r@ == context_listing(self@.contexts),
    {
        let mut entries: Vec<String> = Vec::new();
        let ghost want = self@.contexts.map_values(|c: (Seq<char>, Seq<char>)| context_entry(c));
        for i in 0..self.contexts.len()
            invariant
                want == self@.contexts.map_values(|c: (Seq<char>, Seq<char>)| context_entry(c)),
                entries@.len() == i,
                forall|j: int| 0 <= j < i ==> (#[trigger] entries@[j])@ == want[j],
        {
            let mut e = self.contexts[i].0.clone();
            e.append(" (");
            e.append(decimal_of(self.contexts[i].1.as_str().unicode_len() as u64).as_str());
            e.append(" chars)");
            entries.push(e);
        }
        assert(views(entries@) =~= want);
        join(&entries, "\n")
    }

    /// The size of a context in characters, or -1 where there is none of that name.
    pub fn ctx_len(&self, name: &str) -> (r: i64)
        ensures
            match context_named(self@.contexts, name@) {
                Some(content) => r == min(content.len() as int, i64::MAX as int),
                None => r == -1,
            },
    {
        match find_context(&self.contexts, name) {
            Some(content) => {
                let n = content.as_str().unicode_len() as u64;
                if n > i64::MAX as u64 {
                    i64::MAX
                } else {
                    n as i64
                }
            },
            None => -1,
        }
    }

    /// Reads a slice of a context, no longer than one reading may be.
    pub fn peek(&self, name: &str, start: i64, len: i64) -> (r: String)
        ensures
            r@ == (match slice_result(
                self@.contexts,
                name@,
                start as int,
                min(len as int, PEEK_CAP as int),
            ) {
                Ok(s) => s,
                Err(e) => e,
            }),
    {
        let len = if len <= PEEK_CAP {
            len
        } else {
            PEEK_CAP
        };
        match context_slice(&self.contexts, name, start, len) {
            Ok(s) => s,
            Err(e) => e,
        }
    }

    /// Searches the lines of a context.
    pub fn grep(&self, name: &str, pattern: &str) -> (r: String)
        ensures
            r@ == grep_answer(name@, context_named(self@.contexts, name@), pattern@),
    {
        match find_context(&self.contexts, name) {
            Some(content) => grep_content(name, Some(content.as_str()), pattern),
            None => grep_content(name, None, pattern),
        }
    }

    /// Settles how a question over a slice of a context is answered.
    pub fn llm_on(
        &self,
        cfg: &RlmConfig,
        sub: &LlmClient,
        depth: u32,
        prompt: &str,
        name: &str,
        start: i64,
        len: i64,
    ) -> (r: SubCall)
        ensures
            r@ == sub_call(
                self@.contexts,
                cfg@,
                sub@,
                depth,
                prompt@,
                name@,
                start as int,
                len as int,
            ),
    {
        let slice = match context_slice(&self.contexts, name, start, len) {
            Ok(s) => s,
            Err(e) => {
                return SubCall::Answer(e);
            },
        };
        if slice.as_str().is_empty() {
            return SubCall::Answer("[error] empty slice".to_owned());
        }
        if (depth as u64) + 1 < cfg.max_depth as u64 && slice.as_str().unicode_len()
            > cfg.recurse_threshold {
            let ghost excerpt = slice@;
            let mut contexts: Vec<(String, String)> = Vec::new();
            contexts.push(("excerpt".to_owned(), slice));
            assert(contexts_view(contexts@) =~= seq![("excerpt"@, excerpt)]);
            return SubCall::Nested { contexts, depth: depth + 1 };
        }
        let mut system = "Answer the user's question using ONLY the following excerpt from '".to_owned();
        system.append(name);
        system.append("'. If the answer is not in the excerpt, say so.\n--- EXCERPT ---\n");
        system.append(truncate(slice.as_str(), SINGLE_SHOT_SLICE_CAP).as_str());
        system.append("\n--- END EXCERPT ---");
        let messages = two_messages(
            ChatMessage::new("system", system.as_str()),
            ChatMessage::new("user", prompt),
        );
        SubCall::Single(sub.chat(messages, cfg.sub_max_tokens))
    }

    /// Keeps a fact, where scripts may use the memory, and prints that they may not where they may
    /// not; the result is whether it was kept.
    pub fn remember(&mut self, memory: &mut Memory, key: &str, value: &str) -> (kept: bool)
        requires
            old(memory).wf(),
        ensures
            final(memory).wf(),
            kept == old(self)@.allow_memory,
            old(self)@.allow_memory ==> final(self)@ == old(self)@ && final(memory)@ == (MemoryView {
                facts: old(memory)@.facts.insert(key@, value@),
                ..old(memory)@
            }),
            !old(self)@.allow_memory ==> *final(memory) == *old(memory) && final(self)@ == (EnvView {
                output: old(self)@.output + memory_denied() + "\n"@,
                ..old(self)@
            }),
    {
        if self.allow_memory {
            memory.remember(key, value);
            true
        } else {
            self.print("[error] memory is not enabled for this run");
            false
        }
    }

    /// Reads a fact.
    pub fn recall(&self, memory: &Memory, key: &str) -> (r: String)
        requires
            memory.wf(),
        ensures
            r@ == recalled(self@, memory@, key@),
    {
        if !self.allow_memory {
            return "[error] memory is not enabled for this run".to_owned();
        }
        match memory.recall(key) {
            Some(v) => v.clone(),
            None => {
                let mut r = "[error] no memory for key '".to_owned();
                r.append(key);
                r.append("'");
                r
            },
        }
    }

    /// Names the facts.
    pub fn memory_keys(&self, memory: &Memory) -> (r: String)
        requires
            memory.wf(),
        ensures
            r@ == key_listing(self@, memory.facts.keys()),
    {
        if !self.allow_memory {
            return "[error] memory is not enabled for this run".to_owned();
        }
        if memory.facts.is_empty() {
            return "(memory is empty)".to_owned();
        }
        let mut keys: Vec<String> = Vec::new();
        let count = memory.facts.len();
        for i in 0..count
            invariant
                count == memory.facts.keys().len(),
                keys@.len() == i,
                forall|j: int| 0 <= j < i ==> (#[trigger] keys@[j])@ == memory.facts.keys()[j],
        {
            keys.push(memory.facts.key_at(i).clone());
        }
        assert(views(keys@) =~= memory.facts.keys());
        join(&keys, "\n")
    }

    /// Submits the final answer.
    pub fn finish(&mut self, answer: &str)
        ensures
            final(self)@ == (EnvView { final_answer: Some(answer@), ..old(self)@ }),
    {
        self.final_answer = Some(answer.to_owned());
    }
}

// ------------------------------------------------------------------- laws

/// No reading is longer than one reading may be, where the context exists.
pub proof fn peek_is_bounded(content: Seq<char>, start: int, len: int)
    ensures
        slice_of(content, start, min(len, PEEK_CAP as int)).len() <= PEEK_CAP,
{
}

/// Readings that follow one another make up the whole: reading on where the last reading ended
/// leaves nothing out and reads nothing twice.
pub proof fn readings_join(content: Seq<char>, start: int, first: int, second: int)
    requires
        0 <= start,
        0 <= first,
        0 <= second,
    ensures
        slice_of(content, start, first) + slice_of(content, start + first, second) == slice_of(
            content,
            start,
            first + second,
        ),
        slice_of(content, 0, content.len() as int) == content,
{
    assert(slice_of(content, start, first) + slice_of(content, start + first, second) =~= slice_of(
        content,
        start,
        first + second,
    ));
    assert(slice_of(content, 0, content.len() as int) =~= content);
}

/// A nested loop is one level deeper and starts only within the depth that is allowed, over a
/// slice that is longer than the threshold, and over nothing but a slice of the named context.
pub proof fn nesting_is_bounded(
    contexts: Seq<(Seq<char>, Seq<char>)>,
    cfg: ConfigView,
    sub: ClientView,
    depth: u32,
    prompt: Seq<char>,
    name: Seq<char>,
    start: int,
    len: int,
)
    ensures
        sub_call(contexts, cfg, sub, depth, prompt, name, start, len) matches SubCallView::Nested {
            contexts: inner,
            depth: deeper,
        } ==> {
            &&& deeper == depth + 1
            &&& deeper < cfg.max_depth
            &&& inner.len() == 1
            &&& inner[0].1.len() > cfg.recurse_threshold
            &&& context_named(contexts, name) is Some
            &&& inner[0].1 == slice_of(context_named(contexts, name)->0, start, len)
        },
{
}

/// Without the memory capability a script learns nothing of the memory: what it reads is the same
/// whatever the memory holds.
pub proof fn denied_memory_tells_nothing(
    env: EnvView,
    one: MemoryView,
    other: MemoryView,
    keys: Seq<Seq<char>>,
    other_keys: Seq<Seq<char>>,
    key: Seq<char>,
)
    requires
        !env.allow_memory,
    ensures
        recalled(env, one, key) == recalled(env, other, key),
        key_listing(env, keys) == key_listing(env, other_keys),
{
}

} // verus!
