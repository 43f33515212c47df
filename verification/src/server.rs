//! Bringing up a model server: when one is started, with which arguments, and what is waited for.
use vstd::prelude::*;

use crate::config::{bare_command, is_bare_command, url, url_of, ConfigView, RlmConfig};
use crate::text::{
    begins, copy_strings, decimal, decimal_of, holds, signed_decimal, signed_decimal_of, signed_of_text,
    unsigned_of_text, views, NumberError,
};
use crate::text_laws::{parts_are_found, written_numbers_read_back, written_signed_numbers_read_back};

verus! {

// ---------------------------------------------------------------- arguments

/// A model server that can be started.
pub struct ServerSpec {
    pub label: String,
    pub model: String,
    pub port: u16,
    pub ctx: u32,
    pub n_gpu_layers: Option<i32>,
    pub extra_args: Vec<String>,
}

/// What a server's description holds.
pub struct SpecView {
    pub label: Seq<char>,
    pub model: Seq<char>,
    pub port: u16,
    pub ctx: u32,
    pub n_gpu_layers: Option<i32>,
    pub extra_args: Seq<Seq<char>>,
}

impl View for ServerSpec {
    type V = SpecView;

    open spec fn view(&self) -> SpecView {
        SpecView {
            label: self.label@,
            model: self.model@,
            port: self.port,
            ctx: self.ctx,
            n_gpu_layers: self.n_gpu_layers,
            extra_args: views(self.extra_args@),
        }
    }
}

/// The arguments that a server is started with.
pub open spec fn args_of(cfg: ConfigView, spec: SpecView) -> Seq<Seq<char>> {
    seq![
        "-m"@,
        spec.model,
        "--host"@,
        cfg.host,
        "--port"@,
        decimal(spec.port as nat),
        "-c"@,
        decimal(spec.ctx as nat),
        "--jinja"@,
    ] + (if cfg.flash_attn {
        seq!["-fa"@, "on"@]
    } else {
        seq![]
    }) + (if cfg.kv_cache_type.len() > 0 {
        seq!["--cache-type-k"@, cfg.kv_cache_type, "--cache-type-v"@, cfg.kv_cache_type]
    } else {
        seq![]
    }) + (match spec.n_gpu_layers {
        Some(n) => seq!["-ngl"@, signed_decimal(n as int)],
        None => seq![],
    }) + spec.extra_args
}

fn push_text(list: &mut Vec<String>, s: &str)
    ensures
        views(final(list)@) == views(old(list)@).push(s@),
{
    let ghost was = list@;
    list.push(s.to_owned());
    assert(views(list@) =~= views(was).push(s@));
}

/// The arguments that a server is started with.
pub fn server_args(cfg: &RlmConfig, spec: &ServerSpec) -> (r: Vec<String>)
    ensures
        views(r@) == args_of(cfg@, spec@),
{
    let mut r: Vec<String> = Vec::new();
    assert(views(r@) =~= seq![]);
    push_text(&mut r, "-m");
    push_text(&mut r, spec.model.as_str());
    push_text(&mut r, "--host");
    push_text(&mut r, cfg.host.as_str());
    push_text(&mut r, "--port");
    push_text(&mut r, decimal_of(spec.port as u64).as_str());
    push_text(&mut r, "-c");
    push_text(&mut r, decimal_of(spec.ctx as u64).as_str());
    push_text(&mut r, "--jinja");
    if cfg.flash_attn {
        push_text(&mut r, "-fa");
        push_text(&mut r, "on");
    }
    if !cfg.kv_cache_type.as_str().is_empty() {
        push_text(&mut r, "--cache-type-k");
        push_text(&mut r, cfg.kv_cache_type.as_str());
        push_text(&mut r, "--cache-type-v");
        push_text(&mut r, cfg.kv_cache_type.as_str());
    }
    if let Some(n) = spec.n_gpu_layers {
        push_text(&mut r, "-ngl");
        push_text(&mut r, signed_decimal_of(n).as_str());
    }
    let ghost front = views(r@);
    for i in 0..spec.extra_args.len()
        invariant
            views(r@) == front + views(spec.extra_args@).take(i as int),
    {
        push_text(&mut r, spec.extra_args[i].as_str());
        assert(views(r@) =~= front + views(spec.extra_args@).take(i + 1));
    }
    assert(views(spec.extra_args@).take(spec.extra_args@.len() as int) =~= views(spec.extra_args@));
    assert(views(r@) =~= args_of(cfg@, spec@));
    r
}

/// The main model server.
pub open spec fn main_spec_of(cfg: ConfigView) -> SpecView {
    SpecView {
        label: "main"@,
        model: cfg.model_path,
        port: cfg.port,
        ctx: cfg.ctx_size,
        n_gpu_layers: cfg.n_gpu_layers,
        extra_args: cfg.extra_server_args,
    }
}

/// The worker: with an alias of its own, and without the chain of thought unless a request asks
/// for it.
pub open spec fn worker_spec_of(cfg: ConfigView, port: u16) -> SpecView {
    SpecView {
        label: "worker"@,
        model: cfg.worker_model_path,
        port,
        ctx: cfg.worker_ctx,
        n_gpu_layers: cfg.worker_n_gpu_layers,
        extra_args: seq![
            "--alias"@,
            "local-worker"@,
            "--chat-template-kwargs"@,
            "{\"enable_thinking\":false}"@,
        ],
    }
}

/// The main model server.
pub fn main_spec(cfg: &RlmConfig) -> (r: ServerSpec)
    ensures
        r@ == main_spec_of(cfg@),
{
    ServerSpec {
        label: "main".to_owned(),
        model: cfg.model_path.clone(),
        port: cfg.port,
        ctx: cfg.ctx_size,
        n_gpu_layers: cfg.n_gpu_layers,
        extra_args: copy_strings(&cfg.extra_server_args),
    }
}

/// The worker on a port.
pub fn worker_spec(cfg: &RlmConfig, port: u16) -> (r: ServerSpec)
    ensures
        r@ == worker_spec_of(cfg@, port),
{
    let mut extra: Vec<String> = Vec::new();
    assert(views(extra@) =~= seq![]);
    push_text(&mut extra, "--alias");
    push_text(&mut extra, "local-worker");
    push_text(&mut extra, "--chat-template-kwargs");
    push_text(&mut extra, "{\"enable_thinking\":false}");
    assert(views(extra@) =~= worker_spec_of(cfg@, port).extra_args);
    ServerSpec {
        label: "worker".to_owned(),
        model: cfg.worker_model_path.clone(),
        port,
        ctx: cfg.worker_ctx,
        n_gpu_layers: cfg.worker_n_gpu_layers,
        extra_args: extra,
    }
}

// ------------------------------------------------------------------- errors

/// Why there is no server.
pub enum EnsureError {
    /// The tier is switched off, and nothing listens on its port.
    Disabled { port: u16 },
    /// Nothing listens at the address, and nothing may be started.
    Unreachable { url: String },
    /// There is no server program.
    NoProgram { path: String },
    /// There is no model file.
    NoModel { label: String, path: String },
    /// The server could not be started.
    Start(String),
    /// The server did not come up in time.
    TooSlow { label: String, seconds: u64 },
}

pub enum EnsureErrorView {
    Disabled { port: u16 },
    Unreachable { url: Seq<char> },
    NoProgram { path: Seq<char> },
    NoModel { label: Seq<char>, path: Seq<char> },
    Start(Seq<char>),
    TooSlow { label: Seq<char>, seconds: u64 },
}

impl View for EnsureError {
    type V = EnsureErrorView;

    open spec fn view(&self) -> EnsureErrorView {
        match self {
            EnsureError::Disabled { port } => EnsureErrorView::Disabled { port: *port },
            EnsureError::Unreachable { url } => EnsureErrorView::Unreachable { url: url@ },
            EnsureError::NoProgram { path } => EnsureErrorView::NoProgram { path: path@ },
            EnsureError::NoModel { label, path } => EnsureErrorView::NoModel { label: label@, path: path@ },
            EnsureError::Start(e) => EnsureErrorView::Start(e@),
            EnsureError::TooSlow { label, seconds } => EnsureErrorView::TooSlow {
                label: label@,
                seconds: *seconds,
            },
        }
    }
}

/// An error in words.
pub open spec fn ensure_error_text(e: EnsureErrorView) -> Seq<char> {
    match e {
        EnsureErrorView::Disabled { port } =>
            "the 'main' server tier is disabled in enabled_servers and nothing is listening on port "@
                + decimal(port as nat),
        EnsureErrorView::Unreachable { url } => "no llama-server reachable at "@ + url
            + " and --no-server was given"@,
        EnsureErrorView::NoProgram { path } => "llama-server not found at "@ + path,
        EnsureErrorView::NoModel { label, path } => label + " model file not found at "@ + path,
        EnsureErrorView::Start(e) => e,
        EnsureErrorView::TooSlow { label, seconds } => label
            + " llama-server did not become healthy within "@ + decimal(seconds as nat)
            + "s (large models can take a while; raise startup_timeout_secs in the config if needed)"@,
    }
}

impl EnsureError {
    /// The error in words.
    pub fn message(&self) -> (r: String)
        ensures
            r@ == ensure_error_text(self@),
    {
        match self {
            EnsureError::Disabled { port } => {
                let mut r =
                    "the 'main' server tier is disabled in enabled_servers and nothing is listening on port ".to_owned();
                r.append(decimal_of(*port as u64).as_str());
                r
            },
            EnsureError::Unreachable { url } => {
                let mut r = "no llama-server reachable at ".to_owned();
                r.append(url.as_str());
                r.append(" and --no-server was given");
                r
            },
            EnsureError::NoProgram { path } => {
                let mut r = "llama-server not found at ".to_owned();
                r.append(path.as_str());
                r
            },
            EnsureError::NoModel { label, path } => {
                let mut r = label.clone();
                r.append(" model file not found at ");
                r.append(path.as_str());
                r
            },
            EnsureError::Start(e) => e.clone(),
            EnsureError::TooSlow { label, seconds } => {
                let mut r = label.clone();
                r.append(" llama-server did not become healthy within ");
                r.append(decimal_of(*seconds).as_str());
                r.append(
                    "s (large models can take a while; raise startup_timeout_secs in the config if needed)",
                );
                r
            },
        }
    }
}

// ------------------------------------------------------------ state machine

/// Where the bringing up of a server stands.
#[derive(Clone, Copy, PartialEq, Eq, Structural, Debug)]
pub enum EnsurePhase {
    /// Nothing is to be done.
    Skip,
    /// A server may be used, not started.
    Attach,
    /// A server may be used, or started.
    Fresh,
    /// It is asked whether the server is up, which may not be started.
    Attaching,
    /// It is asked whether the server is up.
    Probing,
    /// The program is looked for.
    Program,
    /// The model file is looked for.
    Model,
    /// The server is started.
    Starting,
    /// The time since the start is asked for.
    Waiting,
    /// It is asked whether the started server is up.
    Polling,
    /// It is settled.
    Over,
}

/// The bringing up of a server.
pub struct Ensure {
    label: String,
    bin: String,
    model: String,
    args: Vec<String>,
    timeout: u64,
    port: u16,
    url: String,
    declared_off: bool,
    phase: EnsurePhase,
}

/// What the bringing up of a server holds.
pub struct EnsureView {
    pub label: Seq<char>,
    pub bin: Seq<char>,
    pub model: Seq<char>,
    pub args: Seq<Seq<char>>,
    pub timeout: u64,
    pub port: u16,
    pub url: Seq<char>,
    /// The tier is switched off by the configuration.
    pub declared_off: bool,
    pub phase: EnsurePhase,
}

impl View for Ensure {
    type V = EnsureView;

    closed spec fn view(&self) -> EnsureView {
        EnsureView {
            label: self.label@,
            bin: self.bin@,
            model: self.model@,
            args: views(self.args@),
            timeout: self.timeout,
            port: self.port,
            url: self.url@,
            declared_off: self.declared_off,
            phase: self.phase,
        }
    }
}

/// What came of an action.
pub enum EnsureInput {
    /// The beginning.
    Begin,
    /// Whether the server is up.
    Health(bool),
    /// Whether the file is there.
    Exists(bool),
    /// The server was started, or could not be.
    Started(Result<(), String>),
    /// The whole seconds since the server was started.
    Elapsed(u64),
}

pub enum EnsureInputView {
    Begin,
    Health(bool),
    Exists(bool),
    Started(Option<Seq<char>>),
    Elapsed(u64),
}

impl View for EnsureInput {
    type V = EnsureInputView;

    open spec fn view(&self) -> EnsureInputView {
        match self {
            EnsureInput::Begin => EnsureInputView::Begin,
            EnsureInput::Health(up) => EnsureInputView::Health(*up),
            EnsureInput::Exists(there) => EnsureInputView::Exists(*there),
            EnsureInput::Started(Ok(_)) => EnsureInputView::Started(None),
            EnsureInput::Started(Err(e)) => EnsureInputView::Started(Some(e@)),
            EnsureInput::Elapsed(n) => EnsureInputView::Elapsed(*n),
        }
    }
}

/// What is to be done next.
pub enum EnsureAction {
    /// Ask whether the server is up.
    Probe,
    /// Look for a file.
    CheckFile(String),
    /// Start the server.
    Start { bin: String, args: Vec<String> },
    /// Say how long ago the server was started.
    Clock,
    /// Wait a little, and say how long ago the server was started.
    Pause,
    /// There is a server, and it was started here or was there before.
    Done { started: bool },
    /// There is no server.
    Fail(EnsureError),
    /// The input was not waited for.
    Ignored,
}

pub enum EnsureActionView {
    Probe,
    CheckFile(Seq<char>),
    Start { bin: Seq<char>, args: Seq<Seq<char>> },
    Clock,
    Pause,
    Done { started: bool },
    Fail(EnsureErrorView),
    Ignored,
}

impl View for EnsureAction {
    type V = EnsureActionView;

    open spec fn view(&self) -> EnsureActionView {
        match self {
            EnsureAction::Probe => EnsureActionView::Probe,
            EnsureAction::CheckFile(p) => EnsureActionView::CheckFile(p@),
            EnsureAction::Start { bin, args } => EnsureActionView::Start { bin: bin@, args: views(args@) },
            EnsureAction::Clock => EnsureActionView::Clock,
            EnsureAction::Pause => EnsureActionView::Pause,
            EnsureAction::Done { started } => EnsureActionView::Done { started: *started },
            EnsureAction::Fail(e) => EnsureActionView::Fail(e@),
            EnsureAction::Ignored => EnsureActionView::Ignored,
        }
    }
}

pub open spec fn now_at(v: EnsureView, phase: EnsurePhase) -> EnsureView {
    EnsureView { phase, ..v }
}

pub open spec fn failed(v: EnsureView, e: EnsureErrorView) -> (EnsureView, EnsureActionView) {
    (now_at(v, EnsurePhase::Over), EnsureActionView::Fail(e))
}

/// Why a server that may not be started is missed.
pub open spec fn missing(v: EnsureView) -> EnsureErrorView {
    if v.declared_off {
        EnsureErrorView::Disabled { port: v.port }
    } else {
        EnsureErrorView::Unreachable { url: v.url }
    }
}

/// One step of the bringing up of a server: a server that is up is used. Otherwise, unless it may
/// not be started, its program is looked for, where it is given by a path, then its model; it is
/// started, and asked again and again whether it is up, until the time is over.
pub open spec fn ensure_step(v: EnsureView, input: EnsureInputView) -> (EnsureView, EnsureActionView) {
    match (v.phase, input) {
        (EnsurePhase::Skip, EnsureInputView::Begin) => (
            now_at(v, EnsurePhase::Over),
            EnsureActionView::Done { started: false },
        ),
        (EnsurePhase::Attach, EnsureInputView::Begin) => (
            now_at(v, EnsurePhase::Attaching),
            EnsureActionView::Probe,
        ),
        (EnsurePhase::Fresh, EnsureInputView::Begin) => (
            now_at(v, EnsurePhase::Probing),
            EnsureActionView::Probe,
        ),
        (EnsurePhase::Attaching, EnsureInputView::Health(up)) => if up {
            (now_at(v, EnsurePhase::Over), EnsureActionView::Done { started: false })
        } else {
            failed(v, missing(v))
        },
        (EnsurePhase::Probing, EnsureInputView::Health(up)) => if up {
            (now_at(v, EnsurePhase::Over), EnsureActionView::Done { started: false })
        } else if bare_command(v.bin) {
            (now_at(v, EnsurePhase::Model), EnsureActionView::CheckFile(v.model))
        } else {
            (now_at(v, EnsurePhase::Program), EnsureActionView::CheckFile(v.bin))
        },
        (EnsurePhase::Program, EnsureInputView::Exists(there)) => if there {
            (now_at(v, EnsurePhase::Model), EnsureActionView::CheckFile(v.model))
        } else {
            failed(v, EnsureErrorView::NoProgram { path: v.bin })
        },
        (EnsurePhase::Model, EnsureInputView::Exists(there)) => if there {
            (now_at(v, EnsurePhase::Starting), EnsureActionView::Start { bin: v.bin, args: v.args })
        } else {
            failed(v, EnsureErrorView::NoModel { label: v.label, path: v.model })
        },
        (EnsurePhase::Starting, EnsureInputView::Started(error)) => match error {
            None => (now_at(v, EnsurePhase::Waiting), EnsureActionView::Clock),
            Some(e) => failed(v, EnsureErrorView::Start(e)),
        },
        (EnsurePhase::Waiting, EnsureInputView::Elapsed(seconds)) => if seconds < v.timeout {
            (now_at(v, EnsurePhase::Polling), EnsureActionView::Probe)
        } else {
            failed(v, EnsureErrorView::TooSlow { label: v.label, seconds: v.timeout })
        },
        (EnsurePhase::Polling, EnsureInputView::Health(up)) => if up {
            (now_at(v, EnsurePhase::Over), EnsureActionView::Done { started: true })
        } else {
            (now_at(v, EnsurePhase::Waiting), EnsureActionView::Pause)
        },
        _ => (v, EnsureActionView::Ignored),
    }
}

/// Takes a step in bringing up a server.
pub fn ensure(run: &mut Ensure, input: EnsureInput) -> (r: EnsureAction)
    ensures
        (final(run)@, r@) == ensure_step(old(run)@, input@),
{
    match (run.phase, input) {
        (EnsurePhase::Skip, EnsureInput::Begin) => {
            run.phase = EnsurePhase::Over;
            EnsureAction::Done { started: false }
        },
        (EnsurePhase::Attach, EnsureInput::Begin) => {
            run.phase = EnsurePhase::Attaching;
            EnsureAction::Probe
        },
        (EnsurePhase::Fresh, EnsureInput::Begin) => {
            run.phase = EnsurePhase::Probing;
            EnsureAction::Probe
        },
        (EnsurePhase::Attaching, EnsureInput::Health(up)) => {
            run.phase = EnsurePhase::Over;
            if up {
                EnsureAction::Done { started: false }
            } else if run.declared_off {
                EnsureAction::Fail(EnsureError::Disabled { port: run.port })
            } else {
                EnsureAction::Fail(EnsureError::Unreachable { url: run.url.clone() })
            }
        },
        (EnsurePhase::Probing, EnsureInput::Health(up)) => {
            if up {
                run.phase = EnsurePhase::Over;
                EnsureAction::Done { started: false }
            } else if is_bare_command(run.bin.as_str()) {
                run.phase = EnsurePhase::Model;
                EnsureAction::CheckFile(run.model.clone())
            } else {
                run.phase = EnsurePhase::Program;
                EnsureAction::CheckFile(run.bin.clone())
            }
        },
        (EnsurePhase::Program, EnsureInput::Exists(there)) => {
            if there {
                run.phase = EnsurePhase::Model;
                EnsureAction::CheckFile(run.model.clone())
            } else {
                run.phase = EnsurePhase::Over;
                EnsureAction::Fail(EnsureError::NoProgram { path: run.bin.clone() })
            }
        },
        (EnsurePhase::Model, EnsureInput::Exists(there)) => {
            if there {
                run.phase = EnsurePhase::Starting;
                EnsureAction::Start { bin: run.bin.clone(), args: copy_strings(&run.args) }
            } else {
                run.phase = EnsurePhase::Over;
                EnsureAction::Fail(
                    EnsureError::NoModel { label: run.label.clone(), path: run.model.clone() },
                )
            }
        },
        (EnsurePhase::Starting, EnsureInput::Started(result)) => match result {
            Ok(_) => {
                run.phase = EnsurePhase::Waiting;
                EnsureAction::Clock
            },
            Err(e) => {
                run.phase = EnsurePhase::Over;
                EnsureAction::Fail(EnsureError::Start(e))
            },
        },
        (EnsurePhase::Waiting, EnsureInput::Elapsed(seconds)) => {
            if seconds < run.timeout {
                run.phase = EnsurePhase::Polling;
                EnsureAction::Probe
            } else {
                run.phase = EnsurePhase::Over;
                EnsureAction::Fail(
                    EnsureError::TooSlow { label: run.label.clone(), seconds: run.timeout },
                )
            }
        },
        (EnsurePhase::Polling, EnsureInput::Health(up)) => {
            if up {
                run.phase = EnsurePhase::Over;
                EnsureAction::Done { started: true }
            } else {
                run.phase = EnsurePhase::Waiting;
                EnsureAction::Pause
            }
        },
        _ => EnsureAction::Ignored,
    }
}

/// The bringing up of a server, before its beginning.
pub open spec fn ensure_from(
    cfg: ConfigView,
    spec: SpecView,
    declared_off: bool,
    phase: EnsurePhase,
) -> EnsureView {
    EnsureView {
        label: spec.label,
        bin: cfg.server_bin,
        model: spec.model,
        args: args_of(cfg, spec),
        timeout: cfg.startup_timeout_secs,
        port: spec.port,
        url: url_of(cfg.host, spec.port),
        declared_off,
        phase,
    }
}

fn ensure_of(cfg: &RlmConfig, spec: &ServerSpec, declared_off: bool, phase: EnsurePhase) -> (r: Ensure)
    ensures
        r@ == ensure_from(cfg@, spec@, declared_off, phase),
{
    Ensure {
        label: spec.label.clone(),
        bin: cfg.server_bin.clone(),
        model: spec.model.clone(),
        args: server_args(cfg, spec),
        timeout: cfg.startup_timeout_secs,
        port: spec.port,
        url: url(cfg.host.as_str(), spec.port),
        declared_off,
        phase,
    }
}

/// Whether a tier is among those that may be started.
pub open spec fn tier_enabled(cfg: ConfigView, tier: Seq<char>) -> bool {
    cfg.enabled_servers.contains(tier)
}

/// The bringing up of the main model server: one whose tier is switched off is used where it is
/// up, and never started.
pub open spec fn main_ensure(cfg: ConfigView) -> EnsureView {
    if tier_enabled(cfg, "main"@) {
        ensure_from(cfg, main_spec_of(cfg), false, EnsurePhase::Fresh)
    } else {
        ensure_from(cfg, main_spec_of(cfg), true, EnsurePhase::Attach)
    }
}

/// The port that stands for a worker; without a worker there is none, and that of the main
/// server stands in.
pub open spec fn worker_port_of(cfg: ConfigView) -> u16 {
    match cfg.worker_port {
        Some(port) => port,
        None => cfg.port,
    }
}

/// The bringing up of the worker: nothing is to be done where its tier is switched off or no
/// worker is configured.
pub open spec fn worker_ensure(cfg: ConfigView) -> EnsureView {
    let spec = worker_spec_of(cfg, worker_port_of(cfg));
    if tier_enabled(cfg, "worker"@) && cfg.worker_port is Some {
        ensure_from(cfg, spec, false, EnsurePhase::Fresh)
    } else {
        ensure_from(cfg, spec, false, EnsurePhase::Skip)
    }
}

/// Begins to bring up the main model server.
pub fn ensure_server(cfg: &RlmConfig) -> (r: Ensure)
    ensures
        r@ == main_ensure(cfg@),
{
    let spec = main_spec(cfg);
    if cfg.server_enabled("main") {
        ensure_of(cfg, &spec, false, EnsurePhase::Fresh)
    } else {
        ensure_of(cfg, &spec, true, EnsurePhase::Attach)
    }
}

/// Begins to bring up the worker, where one is configured.
pub fn ensure_worker(cfg: &RlmConfig) -> (r: Ensure)
    ensures
        r@ == worker_ensure(cfg@),
{
    let port = match cfg.worker_port {
        Some(port) => port,
        None => cfg.port,
    };
    let spec = worker_spec(cfg, port);
    if cfg.server_enabled("worker") && cfg.worker_port.is_some() {
        ensure_of(cfg, &spec, false, EnsurePhase::Fresh)
    } else {
        ensure_of(cfg, &spec, false, EnsurePhase::Skip)
    }
}

/// Begins to use the main model server, which is not started.
pub fn attach_server(cfg: &RlmConfig) -> (r: Ensure)
    ensures
        r@ == ensure_from(cfg@, main_spec_of(cfg@), false, EnsurePhase::Attach),
{
    ensure_of(cfg, &main_spec(cfg), false, EnsurePhase::Attach)
}

/// Takes the main model server for granted.
pub fn skip_server(cfg: &RlmConfig) -> (r: Ensure)
    ensures
        r@ == ensure_from(cfg@, main_spec_of(cfg@), false, EnsurePhase::Skip),
{
    ensure_of(cfg, &main_spec(cfg), false, EnsurePhase::Skip)
}

/// Begins to use the worker on a port, which is not started.
pub fn attach_worker(cfg: &RlmConfig, port: u16) -> (r: Ensure)
    ensures
        r@ == ensure_from(cfg@, worker_spec_of(cfg@, port), false, EnsurePhase::Attach),
{
    ensure_of(cfg, &worker_spec(cfg, port), false, EnsurePhase::Attach)
}

// --------------------------------------------------------------------- laws

/// Where the bringing up of a server stands behind its inputs.
pub open spec fn ensured(v: EnsureView, inputs: Seq<EnsureInputView>) -> EnsureView
    decreases inputs.len(),
{
    if inputs.len() == 0 {
        v
    } else {
        ensure_step(ensured(v, inputs.drop_last()), inputs.last()).0
    }
}

/// How often a server was started over the inputs.
pub open spec fn starts(v: EnsureView, inputs: Seq<EnsureInputView>) -> nat
    decreases inputs.len(),
{
    if inputs.len() == 0 {
        0
    } else {
        starts(v, inputs.drop_last()) + (if ensure_step(
            ensured(v, inputs.drop_last()),
            inputs.last(),
        ).1 is Start {
            1nat
        } else {
            0
        })
    }
}

/// Whether a server has been asked to start where the bringing up of it stands.
pub open spec fn behind_the_start(phase: EnsurePhase) -> bool {
    phase == EnsurePhase::Starting || phase == EnsurePhase::Waiting || phase == EnsurePhase::Polling
}

/// A server is started at most once, and if it is said to have been started, it was.
pub proof fn a_server_is_started_at_most_once(v: EnsureView, inputs: Seq<EnsureInputView>, input: EnsureInputView)
    requires
        v.phase == EnsurePhase::Skip || v.phase == EnsurePhase::Attach || v.phase == EnsurePhase::Fresh,
    ensures
        starts(v, inputs) <= 1,
        behind_the_start(ensured(v, inputs).phase) ==> starts(v, inputs) == 1,
        ensured(v, inputs).phase != EnsurePhase::Over && !behind_the_start(ensured(v, inputs).phase)
            ==> starts(v, inputs) == 0,
        ensure_step(ensured(v, inputs), input).1 matches EnsureActionView::Done { started } ==> starts(v, inputs)
            == (if started {
            1nat
        } else {
            0
        }),
    decreases inputs.len(),
{
    if inputs.len() > 0 {
        a_server_is_started_at_most_once(v, inputs.drop_last(), inputs.last());
    }
}

/// A server that may not be started never is, whatever comes in.
pub proof fn a_server_that_may_not_start_never_does(v: EnsureView, inputs: Seq<EnsureInputView>)
    requires
        v.phase == EnsurePhase::Skip || v.phase == EnsurePhase::Attach,
    ensures
        starts(v, inputs) == 0,
        ({
            let phase = ensured(v, inputs).phase;
            phase == EnsurePhase::Skip || phase == EnsurePhase::Attach || phase == EnsurePhase::Attaching || phase
                == EnsurePhase::Over
        }),
    decreases inputs.len(),
{
    if inputs.len() > 0 {
        a_server_that_may_not_start_never_does(v, inputs.drop_last());
    }
}

/// A tier that is switched off is never started; the main one is used where it is up.
pub proof fn a_disabled_tier_is_never_started(cfg: ConfigView, inputs: Seq<EnsureInputView>)
    ensures
        !tier_enabled(cfg, "main"@) ==> starts(main_ensure(cfg), inputs) == 0,
        !tier_enabled(cfg, "worker"@) || cfg.worker_port is None ==> starts(worker_ensure(cfg), inputs) == 0,
{
    if !tier_enabled(cfg, "main"@) {
        a_server_that_may_not_start_never_does(main_ensure(cfg), inputs);
    }
    if !tier_enabled(cfg, "worker"@) || cfg.worker_port is None {
        a_server_that_may_not_start_never_does(worker_ensure(cfg), inputs);
    }
}

/// A server is started only if it was not up, its program is there or a bare command name, and
/// its model is there; and it is started with the configured program and arguments.
pub proof fn a_server_starts_only_with_its_model(v: EnsureView, input: EnsureInputView)
    requires
        ensure_step(v, input).1 is Start,
    ensures
        v.phase == EnsurePhase::Model,
        input == EnsureInputView::Exists(true),
        ensure_step(v, input).1 == (EnsureActionView::Start { bin: v.bin, args: v.args }),
{
}

/// A server that is up is used at once: nothing is looked for and nothing is started.
pub proof fn a_server_that_is_up_is_used(cfg: ConfigView)
    ensures
        ({
            let asked = ensure_step(main_ensure(cfg), EnsureInputView::Begin);
            &&& asked.1 is Probe
            &&& ensure_step(asked.0, EnsureInputView::Health(true)).1 == EnsureActionView::Done {
                started: false,
            }
        }),
{
}

/// What is settled stays settled.
pub proof fn a_settled_server_stays_settled(v: EnsureView, inputs: Seq<EnsureInputView>, input: EnsureInputView)
    requires
        v.phase == EnsurePhase::Over,
    ensures
        ensured(v, inputs) == v,
        ensure_step(v, input).1 is Ignored,
    decreases inputs.len(),
{
    if inputs.len() > 0 {
        a_settled_server_stays_settled(v, inputs.drop_last(), input);
    }
}

/// No server is waited for longer than configured: once the time is over, the next look at the
/// clock settles it.
pub proof fn waiting_is_bounded(v: EnsureView, seconds: u64)
    requires
        v.phase == EnsurePhase::Waiting,
        seconds >= v.timeout,
    ensures
        ensure_step(v, EnsureInputView::Elapsed(seconds)).1 is Fail,
        ensure_step(v, EnsureInputView::Elapsed(seconds)).0.phase == EnsurePhase::Over,
{
}

/// A server is told its model, host, port and context size, each behind its flag; the optional
/// flags stand there if and only if they are configured; and the further arguments come last, as
/// they are.
pub proof fn servers_are_told_their_settings(cfg: RlmConfig, spec: ServerSpec, r: Vec<String>)
    requires
        call_ensures(server_args, (&cfg, &spec), r),
    ensures
        ({
            let flash = if cfg.flash_attn {
                2int
            } else {
                0
            };
            let cache = if cfg.kv_cache_type@.len() > 0 {
                4int
            } else {
                0
            };
            let layers = if spec.n_gpu_layers is Some {
                2int
            } else {
                0
            };
            let args = r@;
            let further = 9 + flash + cache + layers;
            &&& args.len() == further + spec.extra_args@.len()
            &&& args[0]@ == "-m"@ && args[1]@ == spec.model@
            &&& args[2]@ == "--host"@ && args[3]@ == cfg.host@
            &&& args[4]@ == "--port"@ && unsigned_of_text(args[5]@, u16::MAX as nat) == Ok::<nat, NumberError>(
                spec.port as nat,
            )
            &&& args[6]@ == "-c"@ && unsigned_of_text(args[7]@, u32::MAX as nat) == Ok::<nat, NumberError>(
                spec.ctx as nat,
            )
            &&& args[8]@ == "--jinja"@
            &&& cfg.flash_attn ==> args[9]@ == "-fa"@ && args[10]@ == "on"@
            &&& cfg.kv_cache_type@.len() > 0 ==> {
                &&& args[9 + flash]@ == "--cache-type-k"@ && args[10 + flash]@ == cfg.kv_cache_type@
                &&& args[11 + flash]@ == "--cache-type-v"@ && args[12 + flash]@ == cfg.kv_cache_type@
            }
            &&& spec.n_gpu_layers matches Some(n) ==> args[9 + flash + cache]@ == "-ngl"@ && signed_of_text(
                args[10 + flash + cache]@,
            ) == Some(n as i64)
            &&& forall|k: int|
                0 <= k < spec.extra_args@.len() ==> args[further + k]@ == (#[trigger] spec.extra_args@[k])@
        }),
{
    let texts = views(r@);
    let want = args_of(cfg@, spec@);
    assert(texts == want);
    assert(texts.len() == r@.len());
    assert(forall|k: int| 0 <= k < r@.len() ==> texts[k] == #[trigger] r@[k]@);
    written_numbers_read_back(spec.port as nat, u16::MAX as nat);
    written_numbers_read_back(spec.ctx as nat, u32::MAX as nat);
    if spec.n_gpu_layers is Some {
        written_signed_numbers_read_back(spec.n_gpu_layers->0 as int);
    }
    let tail = spec@.extra_args;
    let further = want.len() - tail.len();
    assert forall|k: int| 0 <= k < spec.extra_args@.len() implies r@[further + k]@ == (
    #[trigger] spec.extra_args@[k])@ by {
        assert(texts[further + k] == tail[k]);
    }
}

/// Each tier is described by its own settings: the main server by those of the main model, and the
/// worker by those of the worker, on the port that was asked for.
pub proof fn tiers_have_their_own_settings(cfg: RlmConfig, port: u16, main: ServerSpec, worker: ServerSpec)
    requires
        call_ensures(main_spec, (&cfg,), main),
        call_ensures(worker_spec, (&cfg, port), worker),
    ensures
        main.label@ == "main"@,
        main.model@ == cfg.model_path@,
        main.port == cfg.port,
        main.ctx == cfg.ctx_size,
        main.n_gpu_layers == cfg.n_gpu_layers,
        main.extra_args@.len() == cfg.extra_server_args@.len(),
        forall|k: int|
            0 <= k < main.extra_args@.len() ==> (#[trigger] main.extra_args@[k])@ == cfg.extra_server_args@[k]@,
        worker.label@ == "worker"@,
        worker.model@ == cfg.worker_model_path@,
        worker.port == port,
        worker.ctx == cfg.worker_ctx,
        worker.n_gpu_layers == cfg.worker_n_gpu_layers,
        worker.extra_args@.len() == 4,
        worker.extra_args@[1]@ == "local-worker"@,
{
    assert(main@ == main_spec_of(cfg@));
    assert(worker@ == worker_spec_of(cfg@, port));
    let given = main@.extra_args;
    assert(given == views(cfg.extra_server_args@));
    assert(given.len() == main.extra_args@.len());
    assert forall|k: int| 0 <= k < main.extra_args@.len() implies (#[trigger] main.extra_args@[k])@
        == cfg.extra_server_args@[k]@ by {
        assert(given[k] == main.extra_args@[k]@);
        assert(views(cfg.extra_server_args@)[k] == cfg.extra_server_args@[k]@);
    }
    let own = worker@.extra_args;
    assert(own.len() == worker.extra_args@.len());
    assert(own[1] == worker.extra_args@[1]@);
}

/// What a server that is brought up comes to for the configuration, whatever it is: its program,
/// its model, its arguments and the time it is given are the configured ones.
pub open spec fn is_for(v: EnsureView, cfg: RlmConfig, spec: ServerSpec) -> bool {
    &&& v.label == spec.label@
    &&& v.bin == cfg.server_bin@
    &&& v.model == spec.model@
    &&& v.timeout == cfg.startup_timeout_secs
    &&& v.port == spec.port
    &&& v.url == "http://"@ + cfg.host@ + ":"@ + decimal(spec.port as nat)
}

/// Each way to a server is for the tier that it names, and with the arguments of that tier.
pub proof fn servers_are_brought_up_as_configured(
    cfg: RlmConfig,
    port: u16,
    main: ServerSpec,
    worker: ServerSpec,
    main_args: Vec<String>,
    worker_args: Vec<String>,
    own: Ensure,
    attached: Ensure,
    skipped: Ensure,
    by_port: Ensure,
    helper: Ensure,
)
    requires
        call_ensures(main_spec, (&cfg,), main),
        call_ensures(worker_spec, (&cfg, port), worker),
        call_ensures(server_args, (&cfg, &main), main_args),
        call_ensures(server_args, (&cfg, &worker), worker_args),
        call_ensures(ensure_server, (&cfg,), own),
        call_ensures(attach_server, (&cfg,), attached),
        call_ensures(skip_server, (&cfg,), skipped),
        call_ensures(attach_worker, (&cfg, port), by_port),
        call_ensures(ensure_worker, (&cfg,), helper),
    ensures
        is_for(own@, cfg, main) && own@.args == views(main_args@),
        is_for(attached@, cfg, main) && attached@.args == views(main_args@),
        is_for(skipped@, cfg, main) && skipped@.args == views(main_args@),
        is_for(by_port@, cfg, worker) && by_port@.args == views(worker_args@),
        cfg.worker_port == Some(port) ==> is_for(helper@, cfg, worker) && helper@.args == views(worker_args@),
{
    assert(main@ == main_spec_of(cfg@));
    assert(worker@ == worker_spec_of(cfg@, port));
}

/// A server that is down, may be started and has its files is started, with its own program and
/// arguments, and is there as soon as it says that it is up; until then it is asked again and again.
pub proof fn a_server_that_is_down_is_started(v: EnsureView, seconds: u64)
    requires
        v.phase == EnsurePhase::Fresh,
        seconds < v.timeout,
    ensures
        ({
            let (asked, a) = ensure_step(v, EnsureInputView::Begin);
            let (down, b) = ensure_step(asked, EnsureInputView::Health(false));
            let bare = !v.bin.contains('/') && !v.bin.contains('\\');
            let (programmed, c) = if bare {
                (down, b)
            } else {
                ensure_step(down, EnsureInputView::Exists(true))
            };
            let (ready, d) = ensure_step(programmed, EnsureInputView::Exists(true));
            let (started, e) = ensure_step(ready, EnsureInputView::Started(None));
            let (waited, f) = ensure_step(started, EnsureInputView::Elapsed(seconds));
            let (_up, g) = ensure_step(waited, EnsureInputView::Health(true));
            let (again, h) = ensure_step(waited, EnsureInputView::Health(false));
            &&& a is Probe
            &&& !bare ==> b == EnsureActionView::CheckFile(v.bin)
            &&& c == EnsureActionView::CheckFile(v.model)
            &&& d == (EnsureActionView::Start { bin: v.bin, args: v.args })
            &&& e is Clock
            &&& f is Probe
            &&& g == (EnsureActionView::Done { started: true })
            &&& h is Pause
            &&& again == started
        }),
{
    let bare = !v.bin.contains('/') && !v.bin.contains('\\');
    if bare {
        assert forall|i: int| 0 <= i < v.bin.len() implies v.bin[i] != '/' && v.bin[i] != '\\' by {
            assert(v.bin.contains(v.bin[i]));
        }
    } else if v.bin.contains('/') {
        let i = choose|i: int| 0 <= i < v.bin.len() && v.bin[i] == '/';
        assert(!bare_command(v.bin));
    } else {
        let i = choose|i: int| 0 <= i < v.bin.len() && v.bin[i] == '\\';
        assert(!bare_command(v.bin));
    }
}

/// What is missed is told: a program or a model that is not there, a start that went wrong and a
/// server that is too slow each end the bringing up with an error that names them.
pub proof fn what_is_missed_is_told(v: EnsureView, error: Seq<char>, seconds: u64)
    ensures
        v.phase == EnsurePhase::Program ==> ensure_step(v, EnsureInputView::Exists(false)).1
            == EnsureActionView::Fail(EnsureErrorView::NoProgram { path: v.bin }),
        v.phase == EnsurePhase::Model ==> ensure_step(v, EnsureInputView::Exists(false)).1 == EnsureActionView::Fail(
            EnsureErrorView::NoModel { label: v.label, path: v.model },
        ),
        v.phase == EnsurePhase::Starting ==> ensure_step(v, EnsureInputView::Started(Some(error))).1
            == EnsureActionView::Fail(EnsureErrorView::Start(error)),
        v.phase == EnsurePhase::Waiting && seconds >= v.timeout ==> ensure_step(
            v,
            EnsureInputView::Elapsed(seconds),
        ).1 == EnsureActionView::Fail(EnsureErrorView::TooSlow { label: v.label, seconds: v.timeout }),
        v.phase == EnsurePhase::Attaching && v.declared_off ==> ensure_step(v, EnsureInputView::Health(false)).1
            == EnsureActionView::Fail(EnsureErrorView::Disabled { port: v.port }),
        v.phase == EnsurePhase::Attaching && !v.declared_off ==> ensure_step(v, EnsureInputView::Health(false)).1
            == EnsureActionView::Fail(EnsureErrorView::Unreachable { url: v.url }),
        v.phase == EnsurePhase::Attaching ==> ensure_step(v, EnsureInputView::Health(true)).1 == (
        EnsureActionView::Done { started: false }),
        v.phase == EnsurePhase::Attach ==> ensure_step(v, EnsureInputView::Begin).1 is Probe,
        v.phase == EnsurePhase::Skip ==> ensure_step(v, EnsureInputView::Begin).1 == (EnsureActionView::Done {
            started: false,
        }),
{
}

/// An error is told with what it is about: the port, the address, the path, the tier, the time or
/// the error of the start.
pub proof fn errors_name_what_they_are_about(e: EnsureError, r: String)
    requires
        call_ensures(EnsureError::message, (&e,), r),
    ensures
        match e {
            EnsureError::Disabled { port } => holds(r@, decimal(port as nat)),
            EnsureError::Unreachable { url } => holds(r@, url@),
            EnsureError::NoProgram { path } => holds(r@, path@),
            EnsureError::NoModel { label, path } => holds(r@, path@) && begins(r@, label@),
            EnsureError::Start(error) => r@ == error@,
            EnsureError::TooSlow { label, seconds } => holds(r@, decimal(seconds as nat)) && begins(r@, label@),
        },
{
    match e {
        EnsureError::Disabled { port } => {
            let front =
                "the 'main' server tier is disabled in enabled_servers and nothing is listening on port "@;
            parts_are_found(front, decimal(port as nat), Seq::empty());
            assert(front + decimal(port as nat) + Seq::empty() =~= r@);
        },
        EnsureError::Unreachable { url } => {
            parts_are_found("no llama-server reachable at "@, url@, " and --no-server was given"@);
        },
        EnsureError::NoProgram { path } => {
            let front = "llama-server not found at "@;
            parts_are_found(front, path@, Seq::empty());
            assert(front + path@ + Seq::empty() =~= r@);
        },
        EnsureError::NoModel { label, path } => {
            let middle = " model file not found at "@;
            parts_are_found(label@ + middle, path@, Seq::empty());
            assert(label@ + middle + path@ + Seq::empty() =~= r@);
            parts_are_found(Seq::empty(), label@, middle + path@);
            assert(label@ + (middle + path@) =~= r@);
        },
        EnsureError::Start(_) => {},
        EnsureError::TooSlow { label, seconds } => {
            let middle = " llama-server did not become healthy within "@;
            let number = decimal(seconds as nat);
            let end =
                "s (large models can take a while; raise startup_timeout_secs in the config if needed)"@;
            parts_are_found(label@ + middle, number, end);
            parts_are_found(Seq::empty(), label@, middle + number + end);
            assert(label@ + (middle + number + end) =~= r@);
        },
    }
}

} // verus!
