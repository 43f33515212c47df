use rlm::route::{configured_token, find_authorization, is_authorized, route, Route};

fn open(method: &str, url: &str) -> Route {
    route(method, url, &None, &None)
}

fn some(s: &str) -> Option<String> {
    Some(s.to_string())
}

#[test]
fn requests_are_told_apart() {
    assert!(matches!(open("GET", "/health"), Route::Health));
    assert!(matches!(open("GET", "/health?x=1"), Route::Health));
    assert!(matches!(open("GET", "/ready"), Route::Ready));
    assert!(matches!(open("POST", "/v1/runs"), Route::CreateRun));
    assert!(matches!(open("GET", "/v1/runs/abc"), Route::GetRun(id) if id == "abc"));
    assert!(matches!(open("POST", "/v1/runs/abc/cancel"), Route::CancelRun(id) if id == "abc"));
    assert!(matches!(open("GET", "/v1/runs/abc/events"), Route::Events(id, -1) if id == "abc"));
}

#[test]
fn anything_else_is_not_found() {
    for (m, u) in [
        ("POST", "/health"),
        ("POST", "/ready"),
        ("GET", "/"),
        ("GET", ""),
        ("GET", "/v1"),
        ("GET", "/v1/runs"),
        ("DELETE", "/v1/runs/abc"),
        ("POST", "/v1/runs/abc"),
        ("GET", "/v1/runs/abc/cancel"),
        ("POST", "/v1/runs/abc/events"),
        ("GET", "/v1/runs/abc/events/x"),
        ("GET", "/v1/other/abc"),
        ("GET", "//v1/runs/abc"),
    ] {
        assert!(matches!(open(m, u), Route::NotFound), "{m} {u}");
    }
    assert!(matches!(open("GET", "/v1/runs/"), Route::GetRun(id) if id.is_empty()));
}

#[test]
fn replay_begins_behind_a_number() {
    for (url, after) in [
        ("/v1/runs/a/events?after=5", 5),
        ("/v1/runs/a/events?x=1&after=7&after=9", 7),
        ("/v1/runs/a/events?after=x&after=9", 9),
        ("/v1/runs/a/events?after=-3", -3),
        ("/v1/runs/a/events?after=", -1),
        ("/v1/runs/a/events?before=5", -1),
        ("/v1/runs/a/events?a?after=5", -1),
        ("/v1/runs/a/events", -1),
    ] {
        assert!(matches!(open("GET", url), Route::Events(_, n) if n == after), "{url}");
    }
}

#[test]
fn with_a_token_runs_need_it() {
    let token = some("secret");
    for authorization in [None, some("Bearer wrong"), some("secret"), some("bearer secret"), some("Bearer secret ")] {
        for (m, u) in [("POST", "/v1/runs"), ("GET", "/v1/runs/a"), ("POST", "/v1/runs/a/cancel"), ("GET", "/v1/x")] {
            assert!(matches!(route(m, u, &authorization, &token), Route::Unauthorized));
        }
        assert!(!is_authorized(&token, &authorization));
    }
    assert!(matches!(route("POST", "/v1/runs", &some("Bearer secret"), &token), Route::CreateRun));
    assert!(is_authorized(&None, &None));
}

#[test]
fn health_needs_no_token() {
    assert!(matches!(route("GET", "/health", &None, &some("secret")), Route::Health));
    assert!(matches!(route("GET", "/ready", &None, &some("secret")), Route::Ready));
}

#[test]
fn an_empty_token_is_none() {
    assert_eq!(configured_token(None), None);
    assert_eq!(configured_token(some("")), None);
    assert_eq!(configured_token(some("t")), some("t"));
}

#[test]
fn credentials_are_the_first_of_their_name() {
    let header = |name: &str, value: &str| (name.to_string(), value.to_string());
    assert_eq!(find_authorization(&vec![]), None);
    assert_eq!(find_authorization(&vec![header("Authorizatio", "x"), header("Host", "y")]), None);
    let headers = vec![header("Host", "h"), header("aUTHORIZATION", "Bearer 1"), header("Authorization", "Bearer 2")];
    assert_eq!(find_authorization(&headers), some("Bearer 1"));
    for name in ["Authorization", "authorization", "AUTHORIZATION", "Authorization ", "Author@zation", "\u{c1}uthorization"] {
        let found = find_authorization(&vec![header(name, "v")]).is_some();
        assert_eq!(found, "Authorization".eq_ignore_ascii_case(name), "{name}");
    }
}
