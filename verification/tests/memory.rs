use rlm::memory::Memory;

#[test]
fn what_is_remembered_is_recalled() {
    let mut m = Memory::new();
    assert_eq!(m.recall("k"), None);
    m.remember("k", "v");
    m.remember("a", "1");
    assert_eq!(m.recall("k").map(String::as_str), Some("v"));
    m.remember("k", "w");
    assert_eq!(m.recall("k").map(String::as_str), Some("w"));
    assert_eq!(m.recall("a").map(String::as_str), Some("1"));
}

#[test]
fn the_log_keeps_the_latest_sessions() {
    let mut m = Memory::new();
    for i in 0..53 {
        m.record_session(&format!("q{i}"), &format!("a{i}"));
    }
    assert_eq!(m.sessions.len(), 50);
    assert_eq!(m.sessions[0].query, "q3");
    assert_eq!(m.sessions[49].answer, "a52");
}

#[test]
fn sessions_are_cut() {
    let mut m = Memory::new();
    m.record_session(&"q".repeat(501), &"a".repeat(1001));
    assert_eq!(m.sessions[0].query, format!("{}\n...[truncated 500 of 501 chars]", "q".repeat(500)));
    assert_eq!(m.sessions[0].answer, format!("{}\n...[truncated 1000 of 1001 chars]", "a".repeat(1000)));
}

#[test]
fn an_empty_memory_has_an_empty_digest() {
    assert_eq!(Memory::new().digest(2000), "");
}

#[test]
fn the_digest_names_facts_and_recent_sessions() {
    let mut m = Memory::new();
    m.remember("zeta", "1");
    m.remember("alpha", "2");
    for i in 0..7 {
        m.record_session(&format!("q{i}"), &format!("a{i}"));
    }
    assert_eq!(
        m.digest(2000),
        "Persistent memory facts (use recall(key) for values):\n  - alpha\n  - zeta\nRecent sessions:\n  - Q: q6 | A: a6\n  - Q: q5 | A: a5\n  - Q: q4 | A: a4\n  - Q: q3 | A: a3\n  - Q: q2 | A: a2\n"
    );
    assert_eq!(m.digest(10), "Persistent\n...[truncated 10 of 180 chars]");
}

#[test]
fn every_fact_stands_in_the_digest() {
    let mut m = Memory::new();
    for k in ["one", "two words", "drei"] {
        m.remember(k, "x");
    }
    let d = m.digest(2000);
    for k in ["one", "two words", "drei"] {
        assert!(d.contains(k));
    }
}

#[test]
fn long_sessions_are_cut_in_the_digest() {
    let mut m = Memory::new();
    m.record_session(&"q".repeat(130), &"a".repeat(210));
    assert_eq!(
        m.digest(2000),
        format!(
            "Recent sessions:\n  - Q: {}\n...[truncated 120 of 130 chars] | A: {}\n...[truncated 200 of 210 chars]\n",
            "q".repeat(120),
            "a".repeat(200)
        )
    );
}
