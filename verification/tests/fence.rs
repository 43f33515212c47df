use rlm::fence::extract_code;

fn fences() -> regex::Regex {
    regex::Regex::new(r"(?s)```(?:rhai|rust|js|javascript)?[ \t]*\r?\n(.*?)```").unwrap()
}

fn by_regex(re: &regex::Regex, s: &str) -> Option<String> {
    re.captures(s).map(|c| c[1].to_string())
}

#[test]
fn the_first_block_is_taken() {
    assert_eq!(extract_code("text\n```rhai\nprint(1);\n```\nmore\n```\nx\n```"), Some("print(1);\n".to_string()));
    assert_eq!(extract_code("no block"), None);
    assert_eq!(extract_code("```python\nprint(1)\n```"), None);
    assert_eq!(extract_code("```rhai\nunclosed"), None);
    assert_eq!(extract_code("```\n```"), Some("".to_string()));
}

#[test]
fn blocks_are_those_of_the_regular_expression() {
    let pieces = ["```", "`", "rhai", "rust", "js", "javascript", "java", " ", "\t", "\r", "\n", "x", "\r\n", "é"];
    let re = fences();
    let mut state: u64 = 12345;
    for _ in 0..20_000 {
        let mut s = String::new();
        let n = {
            state = state.wrapping_mul(6364136223846793005).wrapping_add(1442695040888963407);
            (state >> 33) % 12
        };
        for _ in 0..n {
            state = state.wrapping_mul(6364136223846793005).wrapping_add(1442695040888963407);
            s.push_str(pieces[((state >> 33) % pieces.len() as u64) as usize]);
        }
        assert_eq!(extract_code(&s), by_regex(&re, &s), "{s:?}");
    }
}

#[test]
fn a_script_holds_no_fence() {
    let re = fences();
    for s in ["````\na```b```", "```js\na`b``c```", "```x\n```\ny\n```"] {
        if let Some(code) = extract_code(s) {
            assert!(!code.contains("```"));
        }
        assert_eq!(extract_code(s), by_regex(&re, s));
    }
}
