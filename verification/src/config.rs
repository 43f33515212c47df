//! The configuration of the harness, and what a stored configuration becomes when it is loaded.
use vstd::prelude::*;

use crate::text::{
    begins, copy_strings, decimal, decimal_is_digits, decimal_of, starts_with, unsigned_of_text, views, NumberError,
};
use crate::text_laws::written_numbers_read_back;

verus! {

/// What the harness runs with. The sampling temperature is the HTTP side's own and stands there.
pub struct RlmConfig {
    /// Path to the GGUF model file that the model server loads; empty means the smallest one found.
    pub model_path: String,
    /// The model server's program: a path, or a bare command name.
    pub server_bin: String,
    /// The host that the model servers listen on.
    pub host: String,
    /// The port of the main model server.
    pub port: u16,
    /// The context window that the main model server is asked for.
    pub ctx_size: u32,
    /// GPU layers of the main model; without a number the server fits them itself.
    pub n_gpu_layers: Option<i32>,
    /// Quantization of the key-value cache; empty leaves the server's own default.
    pub kv_cache_type: String,
    /// Flash attention.
    pub flash_attn: bool,
    /// Further arguments for the main model server, handed over verbatim.
    pub extra_server_args: Vec<String>,
    /// The server tiers that may be started.
    pub enabled_servers: Vec<String>,
    /// The port of the worker model for leaf sub-calls; none routes them to the main model.
    pub worker_port: Option<u16>,
    /// Path to the worker's GGUF file; empty means the smallest one found.
    pub worker_model_path: String,
    /// The context window that the worker is asked for.
    pub worker_ctx: u32,
    /// GPU layers of the worker model.
    pub worker_n_gpu_layers: Option<i32>,
    /// Chain of thought on the main model.
    pub root_thinking: bool,
    /// Chain of thought on the worker model.
    pub worker_thinking: bool,
    /// Most tokens of one root-loop response.
    pub max_tokens: u32,
    /// Most tokens of one sub-call response.
    pub sub_max_tokens: u32,
    /// Most script turns before a final answer is asked for.
    pub max_iterations: u32,
    /// Bound on the depth of nested loops.
    pub max_depth: u32,
    /// Context slices longer than this, in characters, get a nested loop.
    pub recurse_threshold: usize,
    /// Wall-clock cap of one run in seconds; zero means none.
    pub max_run_seconds: u64,
    /// The file of the persistent memory.
    pub memory_path: String,
    /// Seconds to wait for a model server to load its model.
    pub startup_timeout_secs: u64,
    /// The port of the control plane.
    pub daemon_port: u16,
    /// Whether the control plane may grant the memory capability.
    pub daemon_allow_memory: bool,
    /// Most characters of context that one request may bring.
    pub daemon_max_context_chars: usize,
    /// The file that finished runs are appended to; empty keeps no such file.
    pub daemon_runs_path: String,
}

/// What a configuration holds.
pub struct ConfigView {
    pub model_path: Seq<char>,
    pub server_bin: Seq<char>,
    pub host: Seq<char>,
    pub port: u16,
    pub ctx_size: u32,
    pub n_gpu_layers: Option<i32>,
    pub kv_cache_type: Seq<char>,
    pub flash_attn: bool,
    pub extra_server_args: Seq<Seq<char>>,
    pub enabled_servers: Seq<Seq<char>>,
    pub worker_port: Option<u16>,
    pub worker_model_path: Seq<char>,
    pub worker_ctx: u32,
    pub worker_n_gpu_layers: Option<i32>,
    pub root_thinking: bool,
    pub worker_thinking: bool,
    pub max_tokens: u32,
    pub sub_max_tokens: u32,
    pub max_iterations: u32,
    pub max_depth: u32,
    pub recurse_threshold: usize,
    pub max_run_seconds: u64,
    pub memory_path: Seq<char>,
    pub startup_timeout_secs: u64,
    pub daemon_port: u16,
    pub daemon_allow_memory: bool,
    pub daemon_max_context_chars: usize,
    pub daemon_runs_path: Seq<char>,
}

impl View for RlmConfig {
    type V = ConfigView;

    open spec fn view(&self) -> ConfigView {
        ConfigView {
            model_path: self.model_path@,
            server_bin: self.server_bin@,
            host: self.host@,
            port: self.port,
            ctx_size: self.ctx_size,
            n_gpu_layers: self.n_gpu_layers,
            kv_cache_type: self.kv_cache_type@,
            flash_attn: self.flash_attn,
            extra_server_args: views(self.extra_server_args@),
            enabled_servers: views(self.enabled_servers@),
            worker_port: self.worker_port,
            worker_model_path: self.worker_model_path@,
            worker_ctx: self.worker_ctx,
            worker_n_gpu_layers: self.worker_n_gpu_layers,
            root_thinking: self.root_thinking,
            worker_thinking: self.worker_thinking,
            max_tokens: self.max_tokens,
            sub_max_tokens: self.sub_max_tokens,
            max_iterations: self.max_iterations,
            max_depth: self.max_depth,
            recurse_threshold: self.recurse_threshold,
            max_run_seconds: self.max_run_seconds,
            memory_path: self.memory_path@,
            startup_timeout_secs: self.startup_timeout_secs,
            daemon_port: self.daemon_port,
            daemon_allow_memory: self.daemon_allow_memory,
            daemon_max_context_chars: self.daemon_max_context_chars,
            daemon_runs_path: self.daemon_runs_path@,
        }
    }
}

/// The configuration that holds where nothing else was said.
pub open spec fn default_config() -> ConfigView {
    ConfigView {
        model_path: Seq::<char>::empty(),
        server_bin: r"runtime\llama.cpp\llama-server.exe"@,
        host: "127.0.0.1"@,
        port: 8090,
        ctx_size: 32768,
        n_gpu_layers: Some(38i32),
        kv_cache_type: "q8_0"@,
        flash_attn: true,
        extra_server_args: Seq::<Seq<char>>::empty(),
        enabled_servers: seq!["main"@, "worker"@],
        worker_port: Some(8092u16),
        worker_model_path: Seq::<char>::empty(),
        worker_ctx: 8192,
        worker_n_gpu_layers: Some(99i32),
        root_thinking: false,
        worker_thinking: false,
        max_tokens: 4096,
        sub_max_tokens: 2048,
        max_iterations: 12,
        max_depth: 2,
        recurse_threshold: 30_000,
        max_run_seconds: 900,
        memory_path: r"rlm-rs\rlm_memory.json"@,
        startup_timeout_secs: 1800,
        daemon_port: 8093,
        daemon_allow_memory: false,
        daemon_max_context_chars: 5_000_000,
        daemon_runs_path: r"rlm-rs\runs.jsonl"@,
    }
}

fn default_servers() -> (r: Vec<String>)
    ensures
        views(r@) == seq!["main"@, "worker"@],
{
    let mut r: Vec<String> = Vec::new();
    r.push("main".to_owned());
    r.push("worker".to_owned());
    assert(views(r@) =~= seq!["main"@, "worker"@]);
    r
}

impl Default for RlmConfig {
    fn default() -> (r: Self)
        ensures
            r@ == default_config(),
    {
        let r = RlmConfig {
            model_path: String::new(),
            server_bin: r"runtime\llama.cpp\llama-server.exe".to_owned(),
            host: "127.0.0.1".to_owned(),
            port: 8090,
            ctx_size: 32768,
            n_gpu_layers: Some(38),
            kv_cache_type: "q8_0".to_owned(),
            flash_attn: true,
            extra_server_args: Vec::new(),
            enabled_servers: default_servers(),
            worker_port: Some(8092),
            worker_model_path: String::new(),
            worker_ctx: 8192,
            worker_n_gpu_layers: Some(99),
            root_thinking: false,
            worker_thinking: false,
            max_tokens: 4096,
            sub_max_tokens: 2048,
            max_iterations: 12,
            max_depth: 2,
            recurse_threshold: 30_000,
            max_run_seconds: 900,
            memory_path: r"rlm-rs\rlm_memory.json".to_owned(),
            startup_timeout_secs: 1800,
            daemon_port: 8093,
            daemon_allow_memory: false,
            daemon_max_context_chars: 5_000_000,
            daemon_runs_path: r"rlm-rs\runs.jsonl".to_owned(),
        };
        assert(views(r.extra_server_args@) =~= Seq::<Seq<char>>::empty());
        r
    }
}

impl Clone for RlmConfig {
    fn clone(&self) -> (r: Self)
        ensures
            r@ == self@,
    {
        RlmConfig {
            model_path: self.model_path.clone(),
            server_bin: self.server_bin.clone(),
            host: self.host.clone(),
            port: self.port,
            ctx_size: self.ctx_size,
            n_gpu_layers: self.n_gpu_layers,
            kv_cache_type: self.kv_cache_type.clone(),
            flash_attn: self.flash_attn,
            extra_server_args: copy_strings(&self.extra_server_args),
            enabled_servers: copy_strings(&self.enabled_servers),
            worker_port: self.worker_port,
            worker_model_path: self.worker_model_path.clone(),
            worker_ctx: self.worker_ctx,
            worker_n_gpu_layers: self.worker_n_gpu_layers,
            root_thinking: self.root_thinking,
            worker_thinking: self.worker_thinking,
            max_tokens: self.max_tokens,
            sub_max_tokens: self.sub_max_tokens,
            max_iterations: self.max_iterations,
            max_depth: self.max_depth,
            recurse_threshold: self.recurse_threshold,
            max_run_seconds: self.max_run_seconds,
            memory_path: self.memory_path.clone(),
            startup_timeout_secs: self.startup_timeout_secs,
            daemon_port: self.daemon_port,
            daemon_allow_memory: self.daemon_allow_memory,
            daemon_max_context_chars: self.daemon_max_context_chars,
            daemon_runs_path: self.daemon_runs_path.clone(),
        }
    }
}
// --------------------------------------------------------------------- paths

/// A path that no platform takes for absolute: it begins with no separator, and names no drive.
pub open spec fn plainly_relative(path: Seq<char>) -> bool {
    path.len() > 0 && !is_separator(path[0]) && !path.contains(':')
}

/// A character that separates the parts of paths on some platform.
pub open spec fn is_separator(c: char) -> bool {
    c == '/' || c == '\\'
}

/// Whether a path begins with two separators, as one on a network share does.
pub open spec fn is_share(base: Seq<char>) -> bool {
    base.len() >= 2 && is_separator(base[0]) && is_separator(base[1])
}

/// A path to which others are adjoined as they are written: one without a verbatim prefix, behind
/// which paths get normalized.
pub open spec fn plain_base(base: Seq<char>) -> bool {
    !(is_share(base) && base.len() >= 4 && base[2] == '?' && is_separator(base[3]))
}

/// Whether a path is `path` behind the whole of `base`: with one separator between them where the
/// base needs one, and with none where it is empty or ends in one. Whether a base that ends in a
/// backslash or in the name of a drive needs one differs between platforms.
pub open spec fn adjoined(base: Seq<char>, path: Seq<char>, whole: Seq<char>) -> bool {
    let glued = whole == base + path;
    let apart = whole == base + seq!['/'] + path || whole == base + seq!['\\'] + path;
    if base.len() == 0 || base.last() == '/' {
        glued
    } else if base.last() == '\\' || base.last() == ':' {
        glued || apart
    } else {
        apart
    }
}

/// Whether a path is `path` without the parts of `base`: at most the drive of the base, or the
/// share it is on, stands in front.
pub open spec fn rooted(base: Seq<char>, path: Seq<char>, whole: Seq<char>) -> bool {
    ||| whole == path
    ||| base.len() >= 2 && base[1] == ':' && whole == base.take(2) + path
    ||| is_share(base) && exists|n: int|
        0 <= n <= base.len() && whole == #[trigger] base.take(n) + path
}

/// What `path` joined to `base` can be. One that begins with a slash keeps its root everywhere. One
/// that begins with a backslash has a root on some platforms, and one with a colon can name a
/// drive there; on others they are relative as any other path is.
pub open spec fn joined_to(base: Seq<char>, path: Seq<char>, whole: Seq<char>) -> bool {
    if path.len() > 0 && path[0] == '/' {
        rooted(base, path, whole)
    } else if path.len() > 0 && path[0] == '\\' {
        rooted(base, path, whole) || adjoined(base, path, whole)
    } else if path.contains(':') {
        whole == path || adjoined(base, path, whole)
    } else {
        adjoined(base, path, whole)
    }
}

/// `Path::is_relative`: it is so of a path that begins with no root and has no prefix on any
/// platform. What else counts as relative is the platform's own matter, and is left unsaid.
#[verifier::external_body]
fn path_is_relative(path: &str) -> (r: bool)
    ensures
        plainly_relative(path@) ==> r,
{
    std::path::Path::new(path).is_relative()
}

/// `Path::join`: behind a base without a verbatim prefix, a path that is absolute replaces the
/// base, one with a root of its own keeps at most the base's prefix, one with a prefix but no root
/// replaces the base, and any other is adjoined to it. The contract says what these rules, as
/// documented for Unix and for Windows, have in common. Which of the two is at hand, and so which
/// separator is put, is the platform's own matter, and is left unsaid.
#[verifier::external_body]
fn path_join(base: &str, path: &str) -> (r: String)
    ensures
        plain_base(base@) ==> joined_to(base@, path@, r@),
{
    std::path::Path::new(base).join(path).to_string_lossy().into_owned()
}

/// What a path of the configuration becomes: an empty one stays empty, and a relative one is
/// taken from the repository's root.
pub open spec fn resolved(field: Seq<char>, relative: bool, joined: Seq<char>) -> Seq<char> {
    if field.len() == 0 || !relative {
        field
    } else {
        joined
    }
}

/// What the platform says of a path: whether it is relative, and what it is behind the
/// repository's root.
pub struct PathFact {
    pub relative: bool,
    pub joined: String,
}

fn resolve_path(field: &String, fact: PathFact) -> (r: String)
    ensures
        r@ == resolved(field@, fact.relative, fact.joined@),
{
    if field.as_str().is_empty() || !fact.relative {
        field.clone()
    } else {
        fact.joined
    }
}

fn path_fact(base: &str, path: &String) -> (r: PathFact)
    ensures
        plainly_relative(path@) ==> r.relative,
        plain_base(base@) ==> joined_to(base@, path@, r.joined@),
{
    PathFact {
        relative: path_is_relative(path.as_str()),
        joined: path_join(base, path.as_str()),
    }
}

/// A command name without any path in it, which is looked up by whoever starts it.
pub open spec fn bare_command(bin: Seq<char>) -> bool {
    forall|i: int| 0 <= i < bin.len() ==> bin[i] != '/' && bin[i] != '\\'
}

/// Whether a program is given by a bare command name.
pub fn is_bare_command(bin: &str) -> (r: bool)
    ensures
        r == bare_command(bin@),
{
    let cs = crate::text::chars_of(bin);
    for i in 0..cs.len()
        invariant
            cs@ == bin@,
            forall|k: int| 0 <= k < i ==> bin@[k] != '/' && bin@[k] != '\\',
    {
        if cs[i] == '/' || cs[i] == '\\' {
            return false;
        }
    }
    true
}

// ----------------------------------------------------------------- discovery

/// A file of a model directory.
pub struct ModelFile {
    /// The file's name.
    pub name: String,
    /// Whether the name is valid Unicode.
    pub unicode: bool,
    /// The path under which the file is opened.
    pub path: String,
    /// The file's size in bytes, where it could be read.
    pub size: Option<u64>,
}

/// A name that ends in `.gguf`, in letters of either case, with something in front of it.
pub open spec fn gguf_name(name: Seq<char>) -> bool {
    let n = name.len() as int;
    &&& n > 5
    &&& name[n - 5] == '.'
    &&& name[n - 4] == 'g' || name[n - 4] == 'G'
    &&& name[n - 3] == 'g' || name[n - 3] == 'G'
    &&& name[n - 2] == 'u' || name[n - 2] == 'U'
    &&& name[n - 1] == 'f' || name[n - 1] == 'F'
}

/// A model file, and no projector.
pub open spec fn eligible(file: ModelFile) -> bool {
    gguf_name(file.name@) && !(file.unicode && begins(file.name@, "mmproj"@))
}

/// The size by which files are compared; one that could not be read counts as the largest.
pub open spec fn rank(file: ModelFile) -> u64 {
    match file.size {
        Some(n) => n,
        None => u64::MAX,
    }
}

/// The place of the smallest eligible file, the first of them where several are as small.
pub open spec fn smallest_place(files: Seq<ModelFile>) -> Option<int>
    decreases files.len(),
{
    if files.len() == 0 {
        None
    } else {
        let best = smallest_place(files.drop_last());
        if eligible(files.last()) && (best is None || rank(files.last()) < rank(files[best->0])) {
            Some(files.len() - 1)
        } else {
            best
        }
    }
}

/// The path of the smallest eligible file.
pub open spec fn smallest_path(files: Seq<ModelFile>) -> Option<Seq<char>> {
    match smallest_place(files) {
        Some(i) => Some(files[i].path@),
        None => None,
    }
}

/// The file that is picked is eligible, none that is eligible is smaller, and the earlier ones
/// are larger; none is picked only where none is eligible.
pub proof fn smallest_is_least(files: Seq<ModelFile>)
    ensures
        smallest_place(files) matches Some(i) ==> {
            &&& 0 <= i < files.len()
            &&& eligible(files[i])
            &&& forall|j: int|
                0 <= j < files.len() && eligible(#[trigger] files[j]) ==> rank(files[i]) <= rank(files[j])
            &&& forall|j: int|
                0 <= j < i && eligible(#[trigger] files[j]) ==> rank(files[i]) < rank(files[j])
        },
        smallest_place(files) is None ==> forall|j: int|
            0 <= j < files.len() ==> !eligible(#[trigger] files[j]),
    decreases files.len(),
{
    if files.len() > 0 {
        let front = files.drop_last();
        smallest_is_least(front);
        assert(forall|j: int| 0 <= j < front.len() ==> front[j] == files[j]);
    }
}

fn gguf(name: &str) -> (r: bool)
    ensures
        r == gguf_name(name@),
{
    let cs = crate::text::chars_of(name);
    let n = cs.len();
    n > 5 && cs[n - 5] == '.' && (cs[n - 4] == 'g' || cs[n - 4] == 'G') && (cs[n - 3] == 'g'
        || cs[n - 3] == 'G') && (cs[n - 2] == 'u' || cs[n - 2] == 'U') && (cs[n - 1] == 'f'
        || cs[n - 1] == 'F')
}

/// Picks the smallest model file of a directory that is no projector.
pub fn smallest_gguf(files: &Vec<ModelFile>) -> (r: Option<String>)
    ensures
        crate::text::opt_view(r) == smallest_path(files@),
{
    let mut best: Option<usize> = None;
    assert(files@.take(0) =~= Seq::<ModelFile>::empty());
    for i in 0..files.len()
        invariant
            match best {
                Some(b) => b < i && smallest_place(files@.take(i as int)) == Some(b as int),
                None => smallest_place(files@.take(i as int)) is None,
            },
    {
        assert(files@.take(i + 1).drop_last() =~= files@.take(i as int));
        let file = &files[i];
        let size = match file.size {
            Some(n) => n,
            None => u64::MAX,
        };
        if gguf(file.name.as_str()) && !(file.unicode && starts_with(file.name.as_str(), "mmproj")) {
            match best {
                None => {
                    best = Some(i);
                },
                Some(b) => {
                    let least = match files[b].size {
                        Some(n) => n,
                        None => u64::MAX,
                    };
                    if size < least {
                        best = Some(i);
                    }
                },
            }
        }
    }
    assert(files@.take(files@.len() as int) =~= files@);
    match best {
        Some(b) => Some(files[b].path.clone()),
        None => None,
    }
}

/// What a configuration becomes with the model files that were found. A main model that is not
/// named is the smallest one of `models`. A worker that is not named is the smallest one of
/// `workers`; where there is none, there is no worker.
pub open spec fn discovered(
    cfg: ConfigView,
    models: Option<Seq<char>>,
    workers: Option<Seq<char>>,
) -> ConfigView {
    let with_main = if cfg.model_path.len() == 0 && models is Some {
        ConfigView { model_path: models->0, ..cfg }
    } else {
        cfg
    };
    if cfg.worker_port is Some && cfg.worker_model_path.len() == 0 {
        match workers {
            Some(path) => ConfigView { worker_model_path: path, ..with_main },
            None => ConfigView { worker_port: None, ..with_main },
        }
    } else {
        with_main
    }
}

/// What a configuration becomes by what the platform says of each of its paths.
pub open spec fn settled_by(
    cfg: ConfigView,
    model: PathFact,
    server: PathFact,
    memory: PathFact,
    worker: PathFact,
    runs: PathFact,
) -> ConfigView {
    ConfigView {
        model_path: resolved(cfg.model_path, model.relative, model.joined@),
        server_bin: resolved(cfg.server_bin, server.relative, server.joined@),
        memory_path: resolved(cfg.memory_path, memory.relative, memory.joined@),
        worker_model_path: resolved(cfg.worker_model_path, worker.relative, worker.joined@),
        daemon_runs_path: resolved(cfg.daemon_runs_path, runs.relative, runs.joined@),
        ..cfg
    }
}

/// Whether the platform calls each path of a configuration not relative, but for empty ones.
pub open spec fn none_relative(
    cfg: ConfigView,
    model: PathFact,
    server: PathFact,
    memory: PathFact,
    worker: PathFact,
    runs: PathFact,
) -> bool {
    &&& cfg.model_path.len() > 0 ==> !model.relative
    &&& cfg.server_bin.len() > 0 ==> !server.relative
    &&& cfg.memory_path.len() > 0 ==> !memory.relative
    &&& cfg.worker_model_path.len() > 0 ==> !worker.relative
    &&& cfg.daemon_runs_path.len() > 0 ==> !runs.relative
}

/// Paths that are empty or not relative are kept. So settling paths twice changes nothing more,
/// whatever the base of the second time, where the first has left no path that is relative.
pub proof fn settling_again_changes_nothing(
    cfg: ConfigView,
    model: PathFact,
    server: PathFact,
    memory: PathFact,
    worker: PathFact,
    runs: PathFact,
    model_again: PathFact,
    server_again: PathFact,
    memory_again: PathFact,
    worker_again: PathFact,
    runs_again: PathFact,
)
    requires
        none_relative(
            settled_by(cfg, model, server, memory, worker, runs),
            model_again,
            server_again,
            memory_again,
            worker_again,
            runs_again,
        ),
    ensures
        settled_by(
            settled_by(cfg, model, server, memory, worker, runs),
            model_again,
            server_again,
            memory_again,
            worker_again,
            runs_again,
        ) == settled_by(cfg, model, server, memory, worker, runs),
        none_relative(cfg, model, server, memory, worker, runs) ==> settled_by(
            cfg,
            model,
            server,
            memory,
            worker,
            runs,
        ) == cfg,
{
}

/// A worker has a model: behind discovery there is a worker only if its model is named, and there
/// is none where no model was named or found for it. A main model that was not named is the
/// smallest one found.
pub proof fn a_worker_has_a_model(cfg: ConfigView, models: Seq<ModelFile>, workers: Seq<ModelFile>)
    requires
        forall|i: int| 0 <= i < workers.len() ==> (#[trigger] workers[i]).path@.len() > 0,
    ensures
        ({
            let found = discovered(cfg, smallest_path(models), smallest_path(workers));
            &&& found.worker_port is Some ==> found.worker_model_path.len() > 0
            &&& cfg.worker_model_path.len() == 0 && (forall|i: int|
                0 <= i < workers.len() ==> !eligible(#[trigger] workers[i])) ==> found.worker_port is None
            &&& cfg.model_path.len() == 0 && smallest_place(models) is Some ==> found.model_path
                == models[smallest_place(models)->0].path@
        }),
{
    smallest_is_least(workers);
}

/// What holds of a settled path on every platform: an empty one stays empty, and any other is kept
/// or joined to the base. One that is relative on all platforms is joined, and one that begins with
/// a slash is never put behind the parts of the base.
pub open spec fn settled_path(base: Seq<char>, from: Seq<char>, to: Seq<char>) -> bool {
    &&& from.len() == 0 ==> to == from
    &&& plain_base(base) ==> to == from || joined_to(base, from, to)
    &&& plain_base(base) && plainly_relative(from) ==> adjoined(base, from, to)
    &&& plain_base(base) && from.len() > 0 && from[0] == '/' ==> rooted(base, from, to)
}

/// Whether `to` is `from` with each of its paths settled behind `base` and all else unchanged.
pub open spec fn paths_settled(base: Seq<char>, from: ConfigView, to: ConfigView) -> bool {
    &&& settled_path(base, from.model_path, to.model_path)
    &&& settled_path(base, from.server_bin, to.server_bin)
    &&& settled_path(base, from.memory_path, to.memory_path)
    &&& settled_path(base, from.worker_model_path, to.worker_model_path)
    &&& settled_path(base, from.daemon_runs_path, to.daemon_runs_path)
    &&& to == ConfigView {
        model_path: to.model_path,
        server_bin: to.server_bin,
        memory_path: to.memory_path,
        worker_model_path: to.worker_model_path,
        daemon_runs_path: to.daemon_runs_path,
        ..from
    }
}

impl RlmConfig {
    /// Settles the configuration that was stored, or the default one where none was: relative
    /// paths are taken from `repo_root`, and models that are not named are picked from the files
    /// of the two model directories.
    pub fn load(
        stored: Option<RlmConfig>,
        repo_root: &str,
        models: &Vec<ModelFile>,
        workers: &Vec<ModelFile>,
    ) -> (r: RlmConfig)
        ensures
            exists|settled: ConfigView|
                #![trigger discovered(settled, smallest_path(models@), smallest_path(workers@))]
                paths_settled(
                    repo_root@,
                    match stored {
                        Some(c) => c@,
                        None => default_config(),
                    },
                    settled,
                ) && r@ == discovered(settled, smallest_path(models@), smallest_path(workers@)),
    {
        let mut cfg = match stored {
            Some(c) => c,
            None => RlmConfig::default(),
        };
        cfg.resolve_paths(repo_root);
        let ghost settled = cfg@;
        cfg.discover(models, workers);
        assert(cfg@ == discovered(settled, smallest_path(models@), smallest_path(workers@)));
        cfg
    }

    /// Takes the relative paths from the repository's root. A path that is relative on every
    /// platform ends up behind the root, and one that begins with a slash never does. Of others
    /// the platform decides whether they are relative and how they are joined, and
    /// [`RlmConfig::settle_paths`] says what becomes of each answer.
    pub fn resolve_paths(&mut self, base: &str)
        ensures
            paths_settled(base@, old(self)@, final(self)@),
    {
        let model = path_fact(base, &self.model_path);
        let server = path_fact(base, &self.server_bin);
        let memory = path_fact(base, &self.memory_path);
        let worker = path_fact(base, &self.worker_model_path);
        let runs = path_fact(base, &self.daemon_runs_path);
        self.settle_paths(model, server, memory, worker, runs);
    }

    /// Settles the paths by what the platform says of each of them.
    pub fn settle_paths(
        &mut self,
        model: PathFact,
        server: PathFact,
        memory: PathFact,
        worker: PathFact,
        runs: PathFact,
    )
        ensures
            final(self)@ == settled_by(old(self)@, model, server, memory, worker, runs),
    {
        self.model_path = resolve_path(&self.model_path, model);
        self.server_bin = resolve_path(&self.server_bin, server);
        self.memory_path = resolve_path(&self.memory_path, memory);
        self.worker_model_path = resolve_path(&self.worker_model_path, worker);
        self.daemon_runs_path = resolve_path(&self.daemon_runs_path, runs);
    }

    /// Names the models that the configuration leaves open.
    pub fn discover(&mut self, models: &Vec<ModelFile>, workers: &Vec<ModelFile>)
        ensures
            final(self)@ == discovered(old(self)@, smallest_path(models@), smallest_path(workers@)),
    {
        if self.model_path.as_str().is_empty() {
            if let Some(path) = smallest_gguf(models) {
                self.model_path = path;
            }
        }
        if self.worker_port.is_some() && self.worker_model_path.as_str().is_empty() {
            match smallest_gguf(workers) {
                Some(path) => {
                    self.worker_model_path = path;
                },
                None => {
                    self.worker_port = None;
                },
            }
        }
    }

    /// The address of the main model server.
    pub fn base_url(&self) -> (r: String)
        ensures
            r@ == url_of(self.host@, self.port),
    {
        url(self.host.as_str(), self.port)
    }

    /// Whether a server tier may be started.
    pub fn server_enabled(&self, tier: &str) -> (r: bool)
        ensures
            r == self@.enabled_servers.contains(tier@),
    {
        for i in 0..self.enabled_servers.len()
            invariant
                forall|k: int| 0 <= k < i ==> self@.enabled_servers[k] != tier@,
        {
            assert(self@.enabled_servers[i as int] == self.enabled_servers@[i as int]@);
            if self.enabled_servers[i].as_str().eq(tier) {
                return true;
            }
        }
        false
    }
}

/// The address of a server on a port of a host.
pub open spec fn url_of(host: Seq<char>, port: u16) -> Seq<char> {
    "http://"@ + host + ":"@ + decimal(port as nat)
}

/// Writes the address of a server on a port of a host.
pub fn url(host: &str, port: u16) -> (r: String)
    ensures
        r@ == url_of(host@, port),
{
    let mut r = "http://".to_owned();
    r.append(host);
    r.append(":");
    r.append(decimal_of(port as u64).as_str());
    r
}


// ----------------------------------------------------------- further laws

/// A path that is empty or not relative is kept, and any other becomes what it is behind the
/// repository's root; each path goes by what the platform says of it alone, and nothing else of the
/// configuration changes.
pub proof fn relative_paths_are_joined(
    cfg: ConfigView,
    model: PathFact,
    server: PathFact,
    memory: PathFact,
    worker: PathFact,
    runs: PathFact,
)
    ensures
        ({
            let to = settled_by(cfg, model, server, memory, worker, runs);
            &&& to.model_path == cfg.model_path || cfg.model_path.len() > 0
            &&& cfg.model_path.len() > 0 && model.relative ==> to.model_path == model.joined@
            &&& !model.relative ==> to.model_path == cfg.model_path
            &&& to.server_bin == cfg.server_bin || cfg.server_bin.len() > 0
            &&& cfg.server_bin.len() > 0 && server.relative ==> to.server_bin == server.joined@
            &&& !server.relative ==> to.server_bin == cfg.server_bin
            &&& to.memory_path == cfg.memory_path || cfg.memory_path.len() > 0
            &&& cfg.memory_path.len() > 0 && memory.relative ==> to.memory_path == memory.joined@
            &&& !memory.relative ==> to.memory_path == cfg.memory_path
            &&& to.worker_model_path == cfg.worker_model_path || cfg.worker_model_path.len() > 0
            &&& cfg.worker_model_path.len() > 0 && worker.relative ==> to.worker_model_path == worker.joined@
            &&& !worker.relative ==> to.worker_model_path == cfg.worker_model_path
            &&& to.daemon_runs_path == cfg.daemon_runs_path || cfg.daemon_runs_path.len() > 0
            &&& cfg.daemon_runs_path.len() > 0 && runs.relative ==> to.daemon_runs_path == runs.joined@
            &&& !runs.relative ==> to.daemon_runs_path == cfg.daemon_runs_path
            &&& to == ConfigView {
                model_path: to.model_path,
                server_bin: to.server_bin,
                memory_path: to.memory_path,
                worker_model_path: to.worker_model_path,
                daemon_runs_path: to.daemon_runs_path,
                ..cfg
            }
        }),
{
}

/// A model that is named stays, and so does a worker whose model is named; nothing but the two
/// models and the worker's port is ever changed, and the port only by leaving the worker out.
pub proof fn named_models_stay(cfg: ConfigView, models: Option<Seq<char>>, workers: Option<Seq<char>>)
    ensures
        ({
            let found = discovered(cfg, models, workers);
            &&& cfg.model_path.len() > 0 ==> found.model_path == cfg.model_path
            &&& cfg.model_path.len() == 0 ==> found.model_path == (match models {
                Some(path) => path,
                None => cfg.model_path,
            })
            &&& cfg.worker_model_path.len() > 0 || cfg.worker_port is None ==> found.worker_model_path
                == cfg.worker_model_path && found.worker_port == cfg.worker_port
            &&& cfg.worker_model_path.len() == 0 && cfg.worker_port is Some && workers is Some
                ==> found.worker_model_path == workers->0 && found.worker_port == cfg.worker_port
            &&& cfg.worker_model_path.len() == 0 && cfg.worker_port is Some && workers is None
                ==> found.worker_port is None && found.worker_model_path == cfg.worker_model_path
            &&& found == ConfigView {
                model_path: found.model_path,
                worker_model_path: found.worker_model_path,
                worker_port: found.worker_port,
                ..cfg
            }
        }),
{
}

/// The smallest model file is used: a file whose name has the ending of model files behind a stem,
/// which is no projector, is picked where every other file of that ending is larger.
pub proof fn the_smallest_model_is_picked(files: Vec<ModelFile>, r: Option<String>, i: int, stem: Seq<char>)
    requires
        call_ensures(smallest_gguf, (&files,), r),
        0 <= i < files@.len(),
        stem.len() > 0,
        files@[i].name@ == stem + ".gguf"@ || files@[i].name@ == stem + ".GGUF"@,
        files@[i].name@.take(6) != "mmproj"@,
        files@[i].size is Some,
        forall|j: int|
            0 <= j < files@.len() && j != i ==> (#[trigger] files@[j]).size is Some && files@[i].size->0
                < files@[j].size->0,
    ensures
        r is Some,
        r->0@ == files@[i].path@,
{
    reveal_strlit(".gguf");
    reveal_strlit(".GGUF");
    reveal_strlit("mmproj");
    let all = files@;
    smallest_is_least(all);
    assert(eligible(all[i]));
    let at = smallest_place(all)->0;
    assert(rank(all[at]) <= rank(all[i]));
    if at != i {
        assert(all[at].size is Some);
    }
}

/// Only model files are picked: what is picked is the path of a file with a name of that ending
/// that is no projector.
pub proof fn only_model_files_are_picked(files: Vec<ModelFile>, r: Option<String>)
    requires
        call_ensures(smallest_gguf, (&files,), r),
    ensures
        r matches Some(path) ==> exists|i: int|
            {
                let name = (#[trigger] files@[i]).name@;
                &&& 0 <= i < files@.len()
                &&& path@ == files@[i].path@
                &&& name.len() > 5
                &&& name[name.len() - 5] == '.'
                &&& files@[i].unicode ==> name.take(6) != "mmproj"@
            },
        files@.len() == 0 ==> r is None,
{
    reveal_strlit("mmproj");
    smallest_is_least(files@);
    if r is Some {
        let i = smallest_place(files@)->0;
        assert(eligible(files@[i]));
        let name = files@[i].name@;
        if files@[i].unicode && name.take(6) == "mmproj"@ {
            assert(begins(name, "mmproj"@));
        }
    }
}

/// A program is a bare command name if and only if neither separator stands in it.
pub proof fn bare_commands_have_no_separator(bin: &str, r: bool)
    requires
        call_ensures(is_bare_command, (bin,), r),
    ensures
        r <==> !bin@.contains('/') && !bin@.contains('\\'),
{
    if r {
        assert forall|i: int| 0 <= i < bin@.len() implies bin@[i] != '/' && bin@[i] != '\\' by {}
    } else {
        let i = choose|i: int| 0 <= i < bin@.len() && (bin@[i] == '/' || bin@[i] == '\\');
        assert(bin@.contains(bin@[i]));
    }
}

/// A tier may be started if and only if it is named among those that are enabled.
pub proof fn enabled_tiers_are_named(cfg: RlmConfig, tier: &str, r: bool)
    requires
        call_ensures(RlmConfig::server_enabled, (&cfg, tier), r),
    ensures
        r <==> exists|i: int| 0 <= i < cfg.enabled_servers@.len() && (#[trigger] cfg.enabled_servers@[i])@ == tier@,
{
    let names = cfg@.enabled_servers;
    assert(forall|i: int| 0 <= i < names.len() ==> names[i] == #[trigger] cfg.enabled_servers@[i]@);
    if r {
        let i = choose|i: int| 0 <= i < names.len() && names[i] == tier@;
        assert(cfg.enabled_servers@[i]@ == tier@);
    }
}

/// An address names its host and its port: the host stands behind the scheme, and what stands
/// behind the host and a colon reads back as the port.
pub proof fn addresses_name_their_port(host: &str, port: u16, r: String)
    requires
        call_ensures(url, (host, port), r),
    ensures
        r@.take(7) == "http://"@,
        r@.len() > 8 + host@.len(),
        r@.subrange(7, (7 + host@.len()) as int) == host@,
        r@[(7 + host@.len()) as int] == ':',
        unsigned_of_text(r@.skip((8 + host@.len()) as int), u16::MAX as nat) == Ok::<nat, NumberError>(port as nat),
{
    reveal_strlit("http://");
    reveal_strlit(":");
    written_numbers_read_back(port as nat, u16::MAX as nat);
    decimal_is_digits(port as nat);
    assert(r@.take(7) =~= "http://"@);
    assert(r@.subrange(7, (7 + host@.len()) as int) =~= host@);
    assert(r@.skip((8 + host@.len()) as int) =~= decimal(port as nat));
}

/// A file whose size could not be read is picked only where every model file is as large as can be:
/// one of a known size goes first.
pub proof fn known_sizes_go_first(files: Vec<ModelFile>, r: Option<String>, i: int, stem: Seq<char>)
    requires
        call_ensures(smallest_gguf, (&files,), r),
        0 <= i < files@.len(),
        stem.len() > 0,
        files@[i].name@ == stem + ".gguf"@,
        files@[i].name@.take(6) != "mmproj"@,
        files@[i].size is Some,
        files@[i].size->0 < u64::MAX,
        forall|j: int| 0 <= j < files@.len() && j != i ==> (#[trigger] files@[j]).size is None,
    ensures
        r is Some,
        r->0@ == files@[i].path@,
{
    reveal_strlit(".gguf");
    reveal_strlit("mmproj");
    let all = files@;
    smallest_is_least(all);
    assert(eligible(all[i]));
    let at = smallest_place(all)->0;
    assert(rank(all[at]) <= rank(all[i]));
    if at != i {
        assert(all[at].size is None);
    }
}

} // verus!
