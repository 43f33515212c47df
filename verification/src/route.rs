//! Which request asks for what, and who may ask.
use vstd::prelude::*;

use crate::text::{
    begins, behind, chars_of, decimal_is_digits, opt_view, pairs_view, parse_i64, signed_decimal, signed_of_text,
    split_at_char, split_char, starts_with, strip_prefix, views,
};
use crate::text_laws::{
    joining_undoes_splitting, joins_join, parts_are_found, written_signed_numbers_read_back,
};

verus! {

/// What a request asks for.
pub enum Route {
    /// Whether the control plane is up.
    Health,
    /// Whether the model server is up.
    Ready,
    /// The bearer token is missing or wrong.
    Unauthorized,
    /// There is nothing here.
    NotFound,
    /// A new run.
    CreateRun,
    /// How a run stands.
    GetRun(String),
    /// The end of a run.
    CancelRun(String),
    /// The events of a run behind a sequence number.
    Events(String, i64),
}

pub enum RouteView {
    Health,
    Ready,
    Unauthorized,
    NotFound,
    CreateRun,
    GetRun(Seq<char>),
    CancelRun(Seq<char>),
    Events(Seq<char>, i64),
}

impl View for Route {
    type V = RouteView;

    open spec fn view(&self) -> RouteView {
        match self {
            Route::Health => RouteView::Health,
            Route::Ready => RouteView::Ready,
            Route::Unauthorized => RouteView::Unauthorized,
            Route::NotFound => RouteView::NotFound,
            Route::CreateRun => RouteView::CreateRun,
            Route::GetRun(id) => RouteView::GetRun(id@),
            Route::CancelRun(id) => RouteView::CancelRun(id@),
            Route::Events(id, after) => RouteView::Events(id@, *after),
        }
    }
}

/// The path of an address: what stands in front of the first question mark.
pub open spec fn path_of(url: Seq<char>) -> Seq<char> {
    split_at_char(url, '?')[0]
}

/// The value of the first parameter `after` that writes a number.
pub open spec fn first_after(params: Seq<Seq<char>>) -> Option<i64>
    decreases params.len(),
{
    if params.len() == 0 {
        None
    } else {
        match behind(params[0], "after="@) {
            Some(text) if signed_of_text(text) is Some => signed_of_text(text),
            _ => first_after(params.skip(1)),
        }
    }
}

/// The sequence number behind which an address asks for events; -1 asks for all.
pub open spec fn after_of(url: Seq<char>) -> i64 {
    let pieces = split_at_char(url, '?');
    if pieces.len() < 2 {
        -1i64
    } else {
        match first_after(split_at_char(pieces[1], '&')) {
            Some(n) => n,
            None => -1i64,
        }
    }
}

/// A path without the slashes at its front.
pub open spec fn without_slashes(path: Seq<char>) -> Seq<char>
    decreases path.len(),
{
    if path.len() > 0 && path[0] == '/' {
        without_slashes(path.skip(1))
    } else {
        path
    }
}

/// What a request for runs asks for.
pub open spec fn run_route(method: Seq<char>, url: Seq<char>) -> RouteView {
    let path = path_of(url);
    let parts = split_at_char(without_slashes(path), '/');
    if method == "POST"@ && path == "/v1/runs"@ {
        RouteView::CreateRun
    } else if parts.len() < 3 || parts[0] != "v1"@ || parts[1] != "runs"@ {
        RouteView::NotFound
    } else if parts.len() == 3 && method == "GET"@ {
        RouteView::GetRun(parts[2])
    } else if parts.len() == 4 && method == "POST"@ && parts[3] == "cancel"@ {
        RouteView::CancelRun(parts[2])
    } else if parts.len() == 4 && method == "GET"@ && parts[3] == "events"@ {
        RouteView::Events(parts[2], after_of(url))
    } else {
        RouteView::NotFound
    }
}

/// Whether a request may ask for runs: there is no token, or the request brings it.
pub open spec fn authorized(token: Option<Seq<char>>, authorization: Option<Seq<char>>) -> bool {
    match token {
        None => true,
        Some(t) => authorization == Some("Bearer "@ + t),
    }
}

/// What a request asks for.
pub open spec fn route_of(
    method: Seq<char>,
    url: Seq<char>,
    authorization: Option<Seq<char>>,
    token: Option<Seq<char>>,
) -> RouteView {
    let path = path_of(url);
    if method == "GET"@ && path == "/health"@ {
        RouteView::Health
    } else if begins(path, "/v1/"@) {
        if authorized(token, authorization) {
            run_route(method, url)
        } else {
            RouteView::Unauthorized
        }
    } else if method == "GET"@ && path == "/ready"@ {
        RouteView::Ready
    } else {
        RouteView::NotFound
    }
}

fn find_after(params: &Vec<String>) -> (r: Option<i64>)
    ensures
        r == first_after(views(params@)),
{
    let ghost all = views(params@);
    assert(all.skip(0) =~= all);
    for i in 0..params.len()
        invariant
            all == views(params@),
            first_after(all) == first_after(all.skip(i as int)),
    {
        assert(all.skip(i as int)[0] == params@[i as int]@);
        assert(all.skip(i as int).skip(1) =~= all.skip(i + 1));
        if let Some(text) = strip_prefix(params[i].as_str(), "after=") {
            if let Some(n) = parse_i64(text.as_str()) {
                return Some(n);
            }
        }
    }
    None
}

fn strip_slashes(path: &str) -> (r: String)
    ensures
        r@ == without_slashes(path@),
{
    let cs = chars_of(path);
    let mut i: usize = 0;
    assert(path@.skip(0) =~= path@);
    while i < cs.len() && cs[i] == '/'
        invariant
            cs@ == path@,
            i <= cs@.len(),
            without_slashes(path@) == without_slashes(path@.skip(i as int)),
        decreases cs@.len() - i,
    {
        assert(path@.skip(i as int).skip(1) =~= path@.skip(i + 1));
        i = i + 1;
    }
    assert(path@.subrange(i as int, cs@.len() as int) =~= path@.skip(i as int));
    path.substring_char(i, cs.len()).to_owned()
}

fn run_request(method: &str, url: &str) -> (r: Route)
    ensures
        r@ == run_route(method@, url@),
{
    let pieces = split_char(url, '?');
    assert(views(pieces@)[0] == pieces@[0]@);
    let path = pieces[0].as_str();
    if method.eq("POST") && path.eq("/v1/runs") {
        return Route::CreateRun;
    }
    let parts = split_char(strip_slashes(path).as_str(), '/');
    let ghost pv = views(parts@);
    assert(pv.len() == parts@.len());
    assert(forall|i: int| 0 <= i < parts@.len() ==> pv[i] == #[trigger] parts@[i]@);
    if parts.len() < 3 || !parts[0].as_str().eq("v1") || !parts[1].as_str().eq("runs") {
        return Route::NotFound;
    }
    let id = parts[2].clone();
    if parts.len() == 3 && method.eq("GET") {
        Route::GetRun(id)
    } else if parts.len() == 4 && method.eq("POST") && parts[3].as_str().eq("cancel") {
        Route::CancelRun(id)
    } else if parts.len() == 4 && method.eq("GET") && parts[3].as_str().eq("events") {
        let mut after: i64 = -1;
        assert(views(pieces@).len() == pieces@.len());
        if pieces.len() >= 2 {
            assert(views(pieces@)[1] == pieces@[1]@);
            if let Some(n) = find_after(&split_char(pieces[1].as_str(), '&')) {
                after = n;
            }
        }
        Route::Events(id, after)
    } else {
        Route::NotFound
    }
}

/// Whether the credentials of a request are those that are asked for.
pub fn is_authorized(token: &Option<String>, authorization: &Option<String>) -> (r: bool)
    ensures
        r == authorized(opt_view(*token), opt_view(*authorization)),
{
    match token {
        None => true,
        Some(t) => {
            let mut expected = "Bearer ".to_owned();
            expected.append(t.as_str());
            match authorization {
                Some(a) => a.as_str().eq(expected.as_str()),
                None => false,
            }
        },
    }
}

/// Settles what a request asks for.
pub fn route(
    method: &str,
    url: &str,
    authorization: &Option<String>,
    token: &Option<String>,
) -> (r: Route)
    ensures
        r@ == route_of(method@, url@, opt_view(*authorization), opt_view(*token)),
{
    let pieces = split_char(url, '?');
    assert(views(pieces@)[0] == pieces@[0]@);
    let path = pieces[0].as_str();
    if method.eq("GET") && path.eq("/health") {
        Route::Health
    } else if starts_with(path, "/v1/") {
        if is_authorized(token, authorization) {
            run_request(method, url)
        } else {
            Route::Unauthorized
        }
    } else if method.eq("GET") && path.eq("/ready") {
        Route::Ready
    } else {
        Route::NotFound
    }
}

/// A character with ASCII capitals made small.
pub open spec fn small(c: char) -> char {
    if 'A' <= c <= 'Z' {
        ((c as u32) + 32) as char
    } else {
        c
    }
}

/// Whether two texts are the same but for the case of ASCII letters.
pub open spec fn same_but_case(a: Seq<char>, b: Seq<char>) -> bool {
    a.map_values(|c: char| small(c)) == b.map_values(|c: char| small(c))
}

/// The value of the first header with a name, in letters of either case.
pub open spec fn header_value(headers: Seq<(Seq<char>, Seq<char>)>, name: Seq<char>) -> Option<Seq<char>>
    decreases headers.len(),
{
    if headers.len() == 0 {
        None
    } else if same_but_case(headers[0].0, name) {
        Some(headers[0].1)
    } else {
        header_value(headers.skip(1), name)
    }
}

fn small_of(c: char) -> (r: char)
    ensures
        r == small(c),
{
    if 'A' <= c && c <= 'Z' {
        ((c as u8) + 32) as char
    } else {
        c
    }
}

fn is_same_but_case(a: &str, b: &str) -> (r: bool)
    ensures
        r == same_but_case(a@, b@),
{
    let x = chars_of(a);
    let y = chars_of(b);
    let ghost sx = a@.map_values(|c: char| small(c));
    let ghost sy = b@.map_values(|c: char| small(c));
    if x.len() != y.len() {
        assert(sx.len() != sy.len());
        return false;
    }
    for i in 0..x.len()
        invariant
            x@ == a@,
            y@ == b@,
            x@.len() == y@.len(),
            sx == a@.map_values(|c: char| small(c)),
            sy == b@.map_values(|c: char| small(c)),
            forall|j: int| 0 <= j < i ==> sx[j] == sy[j],
    {
        assert(sx[i as int] == small(x@[i as int]) && sy[i as int] == small(y@[i as int]));
        if small_of(x[i]) != small_of(y[i]) {
            return false;
        }
    }
    assert(sx =~= sy);
    true
}

/// The credentials among the headers of a request: the first that are there.
pub fn find_authorization(headers: &Vec<(String, String)>) -> (r: Option<String>)
    ensures
        opt_view(r) == header_value(pairs_view(headers@), "Authorization"@),
{
    let ghost all = pairs_view(headers@);
    assert(all.skip(0) =~= all);
    for i in 0..headers.len()
        invariant
            all == pairs_view(headers@),
            header_value(all, "Authorization"@) == header_value(all.skip(i as int), "Authorization"@),
    {
        assert(all.skip(i as int)[0] == all[i as int]);
        assert(all.skip(i as int).skip(1) =~= all.skip(i + 1));
        if is_same_but_case(headers[i].0.as_str(), "Authorization") {
            return Some(headers[i].1.clone());
        }
    }
    None
}

/// The token that is asked for: one that is set and not empty.
pub fn configured_token(set: Option<String>) -> (r: Option<String>)
    ensures
        opt_view(r) == (match opt_view(set) {
            Some(t) if t.len() > 0 => Some(t),
            _ => None,
        }),
{
    match set {
        Some(t) => if t.as_str().is_empty() {
            None
        } else {
            Some(t)
        },
        None => None,
    }
}

/// With a token set, a request that does not bring it reaches no run, by any method and any
/// address.
pub proof fn runs_need_the_token(
    method: Seq<char>,
    url: Seq<char>,
    authorization: Option<Seq<char>>,
    token: Seq<char>,
)
    requires
        authorization != Some("Bearer "@ + token),
    ensures
        begins(path_of(url), "/v1/"@) && !(method == "GET"@ && path_of(url) == "/health"@) ==> route_of(
            method,
            url,
            authorization,
            Some(token),
        ) is Unauthorized,
        match route_of(method, url, authorization, Some(token)) {
            RouteView::CreateRun | RouteView::GetRun(_) | RouteView::CancelRun(_)
            | RouteView::Events(_, _) => false,
            _ => true,
        },
{
}

/// Health and readiness are open to all, and whoever asks is told the same.
pub proof fn health_is_open(
    url: Seq<char>,
    authorization: Option<Seq<char>>,
    token: Option<Seq<char>>,
)
    ensures
        path_of(url) == "/health"@ ==> route_of("GET"@, url, authorization, token) is Health,
        path_of(url) == "/ready"@ ==> route_of("GET"@, url, authorization, token) is Ready,
{
    reveal_strlit("/health");
    reveal_strlit("/ready");
    reveal_strlit("/v1/");
    if path_of(url) == "/ready"@ {
        assert("/ready"@[1] != "/v1/"@[1]);
        if begins(path_of(url), "/v1/"@) {
            assert(path_of(url).take(4)[1] == "/v1/"@[1]);
        }
        assert("/ready"@.len() != "/health"@.len());
    }
}

// --------------------------------------------------------- addresses of runs

/// Whether a text can stand as one part of an address.
pub open spec fn plain_part(s: Seq<char>) -> bool {
    !s.contains('/') && !s.contains('?')
}

/// The address of a run, and of what is asked of it.
pub open spec fn run_address(id: Seq<char>, tail: Seq<char>) -> Seq<char> {
    "/v1/runs/"@ + id + tail
}

proof fn addresses_begin_so()
    ensures
        "/v1/runs/"@.len() == 9,
        "/v1/"@.len() == 4,
        forall|k: int| 0 <= k < 4 ==> "/v1/runs/"@[k] == "/v1/"@[k],
        "/v1/runs/"@[0] == '/',
        "/v1/runs/"@.skip(1) == "v1"@ + seq!['/'] + "runs"@ + seq!['/'],
        "v1"@.len() == 2 && "v1"@[0] == 'v',
        !"v1"@.contains('/') && !"runs"@.contains('/'),
        !"/v1/runs/"@.contains('?'),
        "/v1/runs"@.len() == 8,
        "/health"@.len() == 7,
{
    reveal_strlit("/v1/runs/");
    reveal_strlit("/v1/");
    reveal_strlit("/v1/runs");
    reveal_strlit("/health");
    reveal_strlit("v1");
    reveal_strlit("runs");
    assert("/v1/runs/"@.skip(1) =~= "v1"@ + seq!['/'] + "runs"@ + seq!['/']);
}

proof fn the_path_is_in_front(path: Seq<char>, query: Seq<char>)
    requires
        !path.contains('?'),
        !query.contains('?'),
    ensures
        split_at_char(path, '?') == seq![path],
        path_of(path) == path,
        split_at_char(path + "?"@ + query, '?') == seq![path, query],
        path_of(path + "?"@ + query) == path,
{
    reveal_strlit("?");
    assert("?"@ =~= seq!['?']);
    joins_join(Seq::empty(), Seq::empty(), path, seq!['?']);
    joining_undoes_splitting(seq![path], '?');
    joins_join(seq![path], seq![query], path, seq!['?']);
    joins_join(Seq::empty(), Seq::empty(), query, seq!['?']);
    assert(seq![path] + seq![query] =~= seq![path, query]);
    joining_undoes_splitting(seq![path, query], '?');
}

proof fn parts_of_an_address(id: Seq<char>)
    requires
        plain_part(id),
    ensures
        split_at_char(without_slashes(run_address(id, Seq::empty())), '/') == seq!["v1"@, "runs"@, id],
{
    addresses_begin_so();
    let path = run_address(id, Seq::empty());
    let pieces = seq!["v1"@, "runs"@, id];
    let inner = path.skip(1);
    assert(inner =~= "v1"@ + seq!['/'] + "runs"@ + seq!['/'] + id) by {
        assert(path =~= "/v1/runs/"@ + id);
        assert((("/v1/runs/"@) + id).skip(1) =~= "/v1/runs/"@.skip(1) + id);
    }
    assert(path[0] == '/');
    assert(inner[0] == "v1"@[0]);
    assert(without_slashes(inner) == inner);
    assert(without_slashes(path) == inner);
    joins_join(seq!["v1"@], seq!["runs"@], "v1"@, seq!['/']);
    joins_join(Seq::empty(), Seq::empty(), "runs"@, seq!['/']);
    joins_join(seq!["v1"@] + seq!["runs"@], seq![id], id, seq!['/']);
    assert(seq!["v1"@] + seq!["runs"@] + seq![id] =~= pieces);
    joining_undoes_splitting(pieces, '/');
}

proof fn parts_of_a_longer_address(id: Seq<char>, what: Seq<char>)
    requires
        plain_part(id),
        plain_part(what),
    ensures
        split_at_char(without_slashes(run_address(id, "/"@ + what)), '/') == seq!["v1"@, "runs"@, id, what],
{
    reveal_strlit("/");
    assert("/"@ =~= seq!['/']);
    addresses_begin_so();
    let path = run_address(id, "/"@ + what);
    let pieces = seq!["v1"@, "runs"@, id, what];
    let inner = path.skip(1);
    assert(inner =~= "v1"@ + seq!['/'] + "runs"@ + seq!['/'] + id + seq!['/'] + what) by {
        assert(path =~= "/v1/runs/"@ + (id + seq!['/'] + what));
        assert((("/v1/runs/"@) + (id + seq!['/'] + what)).skip(1) =~= "/v1/runs/"@.skip(1) + (id + seq!['/']
            + what));
    }
    assert(path[0] == '/');
    assert(inner[0] == "v1"@[0]);
    assert(without_slashes(inner) == inner);
    assert(without_slashes(path) == inner);
    joins_join(seq!["v1"@], seq!["runs"@], "v1"@, seq!['/']);
    joins_join(Seq::empty(), Seq::empty(), "runs"@, seq!['/']);
    joins_join(seq!["v1"@] + seq!["runs"@], seq![id], id, seq!['/']);
    joins_join(seq!["v1"@] + seq!["runs"@] + seq![id], seq![what], what, seq!['/']);
    assert(seq!["v1"@] + seq!["runs"@] + seq![id] + seq![what] =~= pieces);
    joining_undoes_splitting(pieces, '/');
}

/// A run is reached by its name: whoever may ask reaches, under the address of a name, that run and
/// no other, and what is asked of it.
pub proof fn runs_are_reached_by_name(
    id: Seq<char>,
    authorization: Option<Seq<char>>,
    token: Option<Seq<char>>,
)
    requires
        plain_part(id),
        token is Some ==> authorization == Some("Bearer "@ + token->0),
    ensures
        route_of("GET"@, "/v1/runs/"@ + id, authorization, token) == RouteView::GetRun(id),
{
    addresses_begin_so();
    let path = "/v1/runs/"@ + id;
    assert(path =~= run_address(id, Seq::empty()));
    assert(!path.contains('?'));
    the_path_is_in_front(path, Seq::empty());
    parts_of_an_address(id);
    assert(path.take(4) =~= "/v1/"@);
    methods_differ();
}

proof fn methods_differ()
    ensures
        "GET"@ != "POST"@,
        "cancel"@ != "events"@,
        plain_part("cancel"@),
        plain_part("events"@),
{
    reveal_strlit("GET");
    reveal_strlit("POST");
    reveal_strlit("cancel");
    reveal_strlit("events");
    assert("GET"@.len() == 3 && "POST"@.len() == 4);
    assert("cancel"@[0] == 'c' && "events"@[0] == 'e');
}

/// The end of a run is asked for under its name.
pub proof fn ends_are_asked_for_by_name(
    id: Seq<char>,
    authorization: Option<Seq<char>>,
    token: Option<Seq<char>>,
)
    requires
        plain_part(id),
        token is Some ==> authorization == Some("Bearer "@ + token->0),
    ensures
        route_of("POST"@, run_address(id, "/"@ + "cancel"@), authorization, token) == RouteView::CancelRun(id),
{
    reveal_strlit("/");
    addresses_begin_so();
    methods_differ();
    let path = run_address(id, "/"@ + "cancel"@);
    assert(!path.contains('?'));
    the_path_is_in_front(path, Seq::empty());
    parts_of_a_longer_address(id, "cancel"@);
    assert(path.take(4) =~= "/v1/"@);
    assert(path.len() > 8);
}

/// The events of a run are asked for under its name: all of them, or those behind a number.
pub proof fn events_are_asked_for_by_name(
    id: Seq<char>,
    after: i64,
    authorization: Option<Seq<char>>,
    token: Option<Seq<char>>,
)
    requires
        plain_part(id),
        token is Some ==> authorization == Some("Bearer "@ + token->0),
    ensures
        route_of("GET"@, run_address(id, "/"@ + "events"@), authorization, token) == RouteView::Events(id, -1i64),
        route_of(
            "GET"@,
            run_address(id, "/"@ + "events"@) + "?"@ + ("after="@ + signed_decimal(after as int)),
            authorization,
            token,
        ) == RouteView::Events(id, after),
{
    reveal_strlit("/");
    addresses_begin_so();
    methods_differ();
    let path = run_address(id, "/"@ + "events"@);
    assert(!path.contains('?'));
    parts_of_a_longer_address(id, "events"@);
    assert(path.take(4) =~= "/v1/"@);
    assert(path.len() > 8);
    the_path_is_in_front(path, Seq::empty());
    let query = "after="@ + signed_decimal(after as int);
    after_is_plain(after);
    the_path_is_in_front(path, query);
    after_is_read(path, after);
}

proof fn after_is_plain(after: i64)
    ensures
        !("after="@ + signed_decimal(after as int)).contains('?'),
        !("after="@ + signed_decimal(after as int)).contains('&'),
{
    reveal_strlit("after=");
    let magnitude = if after < 0 {
        (-(after as int)) as nat
    } else {
        after as nat
    };
    decimal_is_digits(magnitude);
}

proof fn after_is_read(path: Seq<char>, after: i64)
    requires
        !path.contains('?'),
    ensures
        after_of(path + "?"@ + ("after="@ + signed_decimal(after as int))) == after,
{
    let query = "after="@ + signed_decimal(after as int);
    after_is_plain(after);
    the_path_is_in_front(path, query);
    joins_join(Seq::empty(), Seq::empty(), query, seq!['&']);
    joining_undoes_splitting(seq![query], '&');
    parts_are_found(Seq::empty(), "after="@, signed_decimal(after as int));
    written_signed_numbers_read_back(after as int);
    assert(seq![query][0] == query);
}

/// A new run is asked for by posting to the runs.
pub proof fn runs_are_created_by_posting(authorization: Option<Seq<char>>, token: Option<Seq<char>>)
    requires
        token is Some ==> authorization == Some("Bearer "@ + token->0),
    ensures
        route_of("POST"@, "/v1/runs"@, authorization, token) is CreateRun,
{
    reveal_strlit("/v1/runs");
    reveal_strlit("/v1/");
    methods_differ();
    let path = "/v1/runs"@;
    assert(!path.contains('?'));
    the_path_is_in_front(path, Seq::empty());
    assert(path.take(4) =~= "/v1/"@);
}

/// Credentials are the right ones if and only if no token is set, or they are the token behind the
/// word for bearers.
pub proof fn the_token_is_the_credentials(token: Option<String>, authorization: Option<String>, r: bool)
    requires
        call_ensures(is_authorized, (&token, &authorization), r),
    ensures
        token is None ==> r,
        token matches Some(t) ==> (r <==> authorization is Some && authorization->0@ == "Bearer "@ + t@),
{
}

/// The credentials of a request are the value of its first header of that name, in letters of
/// either case.
pub proof fn the_first_credentials_count(headers: Vec<(String, String)>, r: Option<String>, i: int)
    requires
        call_ensures(find_authorization, (&headers,), r),
        0 <= i < headers@.len(),
        same_but_case(headers@[i].0@, "Authorization"@),
        forall|j: int| 0 <= j < i ==> !same_but_case((#[trigger] headers@[j]).0@, "Authorization"@),
    ensures
        r is Some,
        r->0@ == headers@[i].1@,
{
    let all = pairs_view(headers@);
    assert forall|j: int| 0 <= j < i implies !same_but_case((#[trigger] all[j]).0, "Authorization"@) by {
        assert(!same_but_case(headers@[j].0@, "Authorization"@));
    }
    first_of_a_name(all, "Authorization"@, i);
}

proof fn first_of_a_name(headers: Seq<(Seq<char>, Seq<char>)>, name: Seq<char>, i: int)
    requires
        0 <= i < headers.len(),
        same_but_case(headers[i].0, name),
        forall|j: int| 0 <= j < i ==> !same_but_case((#[trigger] headers[j]).0, name),
    ensures
        header_value(headers, name) == Some(headers[i].1),
    decreases headers.len(),
{
    if i > 0 {
        assert(!same_but_case(headers[0].0, name));
        assert forall|j: int| 0 <= j < i - 1 implies !same_but_case((#[trigger] headers.skip(1)[j]).0, name) by {
            assert(headers.skip(1)[j] == headers[j + 1]);
        }
        assert(headers.skip(1)[i - 1] == headers[i]);
        first_of_a_name(headers.skip(1), name, i - 1);
    }
}

proof fn first_number_counts(params: Seq<Seq<char>>, k: int, n: i64)
    requires
        0 <= k <= params.len(),
        forall|j: int|
            0 <= j < k ==> (behind(#[trigger] params[j], "after="@) matches Some(text) ==> signed_of_text(
                text,
            ) is None),
        k < params.len() ==> params[k] == "after="@ + signed_decimal(n as int),
    ensures
        first_after(params) == (if k < params.len() {
            Some(n)
        } else {
            None
        }),
    decreases params.len(),
{
    if params.len() > 0 {
        if k == 0 {
            parts_are_found(Seq::empty(), "after="@, signed_decimal(n as int));
            written_signed_numbers_read_back(n as int);
        } else {
            let rest = params.skip(1);
            assert forall|j: int| 0 <= j < k - 1 implies (behind(#[trigger] rest[j], "after="@) matches Some(
                text,
            ) ==> signed_of_text(text) is None) by {
                assert(rest[j] == params[j + 1]);
            }
            assert(behind(params[0], "after="@) matches Some(text) ==> signed_of_text(text) is None);
            first_number_counts(rest, k - 1, n);
        }
    }
}

/// Events are asked for behind the number of the first parameter `after` that writes one, whatever
/// stands in front of it or behind; without such a parameter all are asked for.
pub proof fn the_first_number_is_asked_for(path: Seq<char>, query: Seq<char>, k: int, n: i64)
    requires
        !path.contains('?'),
        !query.contains('?'),
        0 <= k <= split_at_char(query, '&').len(),
        forall|j: int|
            0 <= j < k ==> (behind(#[trigger] split_at_char(query, '&')[j], "after="@) matches Some(text)
                ==> signed_of_text(text) is None),
        k < split_at_char(query, '&').len() ==> split_at_char(query, '&')[k] == "after="@ + signed_decimal(n as int),
    ensures
        k < split_at_char(query, '&').len() ==> after_of(path + "?"@ + query) == n,
        k == split_at_char(query, '&').len() ==> after_of(path + "?"@ + query) == -1,
        after_of(path) == -1,
{
    the_path_is_in_front(path, query);
    first_number_counts(split_at_char(query, '&'), k, n);
}

/// A request without the right credentials reaches nothing under the runs, whatever it asks for.
pub proof fn strangers_reach_nothing(
    method: Seq<char>,
    rest: Seq<char>,
    authorization: Option<Seq<char>>,
    token: Seq<char>,
)
    requires
        !rest.contains('?'),
        authorization != Some("Bearer "@ + token),
    ensures
        route_of(method, "/v1/"@ + rest, authorization, Some(token)) is Unauthorized,
{
    reveal_strlit("/v1/");
    reveal_strlit("/health");
    let path = "/v1/"@ + rest;
    assert(path[1] == 'v');
    assert(!path.contains('?'));
    the_path_is_in_front(path, Seq::empty());
    assert(path.take(4) =~= "/v1/"@);
}

/// Whether two characters are the same but for the case of an ASCII letter.
pub open spec fn same_letter(x: char, y: char) -> bool {
    ||| x == y
    ||| 'A' <= x <= 'Z' && y as u32 == x as u32 + 32
    ||| 'A' <= y <= 'Z' && x as u32 == y as u32 + 32
}

proof fn small_letters_agree(x: char, y: char)
    ensures
        small(x) == small(y) <==> same_letter(x, y),
{
    if 'A' <= x <= 'Z' {
        assert(small(x) as u32 == x as u32 + 32);
    }
    if 'A' <= y <= 'Z' {
        assert(small(y) as u32 == y as u32 + 32);
    }
}

/// Names of headers are compared letter by letter, and the case of ASCII letters makes no
/// difference; that of others does.
pub proof fn case_makes_no_difference(a: Seq<char>, b: Seq<char>)
    ensures
        same_but_case(a, b) <==> a.len() == b.len() && forall|i: int|
            0 <= i < a.len() ==> same_letter(#[trigger] a[i], b[i]),
{
    let x = a.map_values(|c: char| small(c));
    let y = b.map_values(|c: char| small(c));
    assert(x.len() == a.len() && y.len() == b.len());
    assert forall|i: int| 0 <= i < a.len() && a.len() == b.len() implies (#[trigger] x[i] == y[i] <==> same_letter(
        a[i],
        b[i],
    )) by {
        small_letters_agree(a[i], b[i]);
    }
    if a.len() == b.len() && forall|i: int| 0 <= i < a.len() ==> same_letter(#[trigger] a[i], b[i]) {
        assert forall|i: int| 0 <= i < x.len() implies x[i] == y[i] by {
            assert(same_letter(a[i], b[i]));
        }
        assert(x =~= y);
    }
    if same_but_case(a, b) {
        assert forall|i: int| 0 <= i < a.len() implies same_letter(#[trigger] a[i], b[i]) by {
            assert(x[i] == y[i]);
        }
    }
}

} // verus!
