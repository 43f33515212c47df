use rlm::config::{is_bare_command, smallest_gguf, url, ModelFile, PathFact, RlmConfig};

fn file(name: &str, size: Option<u64>) -> ModelFile {
    ModelFile { name: name.to_string(), unicode: true, path: format!("/models/{name}"), size }
}

#[test]
fn defaults_are_the_documented_ones() {
    let c = RlmConfig::default();
    assert_eq!(c.model_path, "");
    assert_eq!(c.server_bin, r"runtime\llama.cpp\llama-server.exe");
    assert_eq!((c.host.as_str(), c.port), ("127.0.0.1", 8090));
    assert_eq!((c.ctx_size, c.worker_ctx), (32768, 8192));
    assert_eq!((c.n_gpu_layers, c.worker_n_gpu_layers), (Some(38), Some(99)));
    assert_eq!(c.kv_cache_type, "q8_0");
    assert!(c.flash_attn);
    assert!(c.extra_server_args.is_empty());
    assert_eq!(c.worker_port, Some(8092));
    assert!(!c.root_thinking && !c.worker_thinking);
    assert_eq!((c.max_tokens, c.sub_max_tokens), (4096, 2048));
    assert_eq!((c.max_iterations, c.max_depth, c.recurse_threshold), (12, 2, 30_000));
    assert_eq!(c.max_run_seconds, 900);
    assert_eq!(c.memory_path, r"rlm-rs\rlm_memory.json");
    assert_eq!(c.startup_timeout_secs, 1800);
    assert_eq!((c.daemon_port, c.daemon_allow_memory, c.daemon_max_context_chars), (8093, false, 5_000_000));
}

#[test]
fn the_smallest_model_is_picked() {
    let files = vec![
        file("big.gguf", Some(30)),
        file("mmproj-small.gguf", Some(1)),
        file("small.GGUF", Some(10)),
        file("same.gguf", Some(10)),
        file("notes.txt", Some(2)),
        file(".gguf", Some(3)),
        file("gguf", Some(3)),
    ];
    assert_eq!(smallest_gguf(&files).as_deref(), Some("/models/small.GGUF"));
    assert_eq!(smallest_gguf(&vec![file("notes.txt", Some(2))]), None);
    assert_eq!(smallest_gguf(&vec![]), None);
}

#[test]
fn an_unreadable_size_counts_as_the_largest() {
    let files = vec![file("odd.gguf", None), file("big.gguf", Some(u64::MAX - 1))];
    assert_eq!(smallest_gguf(&files).as_deref(), Some("/models/big.gguf"));
    assert_eq!(smallest_gguf(&vec![file("odd.gguf", None)]).as_deref(), Some("/models/odd.gguf"));
}

#[test]
fn a_projector_is_known_by_a_name_that_can_be_read() {
    let mut f = file("mmproj.gguf", Some(5));
    f.unicode = false;
    assert_eq!(smallest_gguf(&vec![f]).as_deref(), Some("/models/mmproj.gguf"));
}

#[test]
fn models_are_discovered_where_none_is_named() {
    let mut c = RlmConfig::default();
    c.discover(&vec![file("main.gguf", Some(9))], &vec![file("worker.gguf", Some(1))]);
    assert_eq!(c.model_path, "/models/main.gguf");
    assert_eq!(c.worker_model_path, "/models/worker.gguf");
    assert_eq!(c.worker_port, Some(8092));
}

#[test]
fn without_a_worker_model_there_is_one_model() {
    let mut c = RlmConfig::default();
    c.discover(&vec![file("main.gguf", Some(9))], &vec![]);
    assert_eq!(c.worker_port, None);
    assert_eq!(c.worker_model_path, "");
}

#[test]
fn named_models_are_kept() {
    let mut c = RlmConfig::default();
    c.model_path = "mine.gguf".to_string();
    c.worker_model_path = "small.gguf".to_string();
    c.discover(&vec![file("main.gguf", Some(9))], &vec![]);
    assert_eq!(c.model_path, "mine.gguf");
    assert_eq!(c.worker_model_path, "small.gguf");
    assert_eq!(c.worker_port, Some(8092));
}

#[test]
fn paths_are_settled_by_what_the_platform_says() {
    let fact = |relative: bool, joined: &str| PathFact { relative, joined: joined.to_string() };
    let mut c = RlmConfig::default();
    c.memory_path = "/abs/memory.json".to_string();
    c.settle_paths(
        fact(true, "/repo/"),
        fact(true, "/repo/server"),
        fact(false, "/repo//abs/memory.json"),
        fact(true, "/repo/"),
        fact(true, "/repo/runs.jsonl"),
    );
    assert_eq!(c.model_path, "");
    assert_eq!(c.server_bin, "/repo/server");
    assert_eq!(c.memory_path, "/abs/memory.json");
    assert_eq!(c.worker_model_path, "");
    assert_eq!(c.daemon_runs_path, "/repo/runs.jsonl");
}

#[test]
fn loading_resolves_relative_paths() {
    let mut stored = RlmConfig::default();
    stored.model_path = "models/m.gguf".to_string();
    stored.memory_path = "/abs/memory.json".to_string();
    stored.server_bin = "bin/llama-server".to_string();
    let c = RlmConfig::load(Some(stored), "/repo", &vec![], &vec![file("w.gguf", Some(1))]);
    let joined = |p: &str| std::path::Path::new("/repo").join(p).to_string_lossy().into_owned();
    assert_eq!(c.model_path, joined("models/m.gguf"));
    assert_eq!(c.server_bin, joined("bin/llama-server"));
    if std::path::Path::new("/abs").is_absolute() {
        assert_eq!(c.memory_path, "/abs/memory.json");
    }
    assert_eq!(c.worker_model_path, "/models/w.gguf");
}

#[test]
fn relative_paths_are_joined_and_others_kept() {
    for base in ["", "/repo", "/repo/", "repo", "repo\\", ".", "/", "C:", "C:/repo", "//host/share", r"\\host\share\repo"] {
        for path in [
            "m.gguf", "a/b.gguf", r"a\b.gguf", "./x", "../x", ".", "a b/é.gguf", "/abs/m.gguf", r"\abs\m.gguf", "c:/m.gguf",
            "c:m.gguf", "ab:c", "//x/y",
        ] {
            let mut c = RlmConfig::default();
            c.memory_path = path.to_string();
            c.resolve_paths(base);
            let expected = if std::path::Path::new(path).is_relative() {
                std::path::Path::new(base).join(path).to_string_lossy().into_owned()
            } else {
                path.to_string()
            };
            assert_eq!(c.memory_path, expected, "{base} {path}");
            assert_eq!(c.worker_model_path, "");
        }
    }
}

#[test]
fn a_separator_stands_between_base_and_path() {
    let separator = std::path::MAIN_SEPARATOR;
    for (base, expected) in [
        ("", "m.gguf".to_string()),
        ("repo", format!("repo{separator}m.gguf")),
        ("repo/", "repo/m.gguf".to_string()),
        ("//host/share", format!("//host/share{separator}m.gguf")),
    ] {
        let mut c = RlmConfig::default();
        c.model_path = "m.gguf".to_string();
        c.resolve_paths(base);
        assert_eq!(c.model_path, expected);
    }
}

#[test]
fn settling_again_changes_nothing() {
    let fact = |relative: bool| PathFact { relative, joined: "/elsewhere".to_string() };
    let mut c = RlmConfig::default();
    c.settle_paths(fact(true), fact(true), fact(true), fact(true), fact(true));
    let once = c.clone();
    c.settle_paths(fact(true), fact(false), fact(false), fact(true), fact(false));
    assert_eq!((&c.model_path, &c.server_bin, &c.memory_path), (&once.model_path, &once.server_bin, &once.memory_path));
    assert_eq!((&c.worker_model_path, &c.daemon_runs_path), (&once.worker_model_path, &once.daemon_runs_path));
    assert_eq!((c.model_path.as_str(), c.memory_path.as_str()), ("", "/elsewhere"));
}

#[test]
fn without_a_stored_configuration_the_default_is_loaded() {
    let c = RlmConfig::load(None, "/repo", &vec![file("m.gguf", Some(4))], &vec![]);
    assert_eq!(c.model_path, "/models/m.gguf");
    assert_eq!(c.worker_port, None);
    assert_eq!(c.max_iterations, 12);
}

#[test]
fn a_bare_command_has_no_path_in_it() {
    assert!(is_bare_command("llama-server"));
    assert!(is_bare_command("llama-server.exe"));
    assert!(!is_bare_command("./llama-server"));
    assert!(!is_bare_command(r"runtime\llama-server.exe"));
}

#[test]
fn addresses_and_tiers() {
    let mut c = RlmConfig::default();
    assert_eq!(c.base_url(), "http://127.0.0.1:8090");
    assert_eq!(url("localhost", 1), "http://localhost:1");
    assert!(c.server_enabled("main") && c.server_enabled("worker"));
    c.enabled_servers = vec!["worker".to_string()];
    assert!(!c.server_enabled("main") && c.server_enabled("worker"));
    let copy = c.clone();
    assert_eq!(copy.enabled_servers, c.enabled_servers);
    assert_eq!(copy.daemon_runs_path, c.daemon_runs_path);
}
