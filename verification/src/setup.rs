//! What comes before a run: the main model server, then the worker, then the clients that the run
//! talks to.
use vstd::prelude::*;

use crate::client::{root_client, root_client_of, sub_client, sub_client_of, ClientView, LlmClient};
use crate::config::{ConfigView, RlmConfig};
use crate::server::{
    attach_server, attach_worker, ensure, skip_server, ensure_error_text, ensure_from, ensure_server, ensure_step,
    ensure_worker, main_ensure, main_spec_of, tier_enabled, worker_ensure, worker_spec_of, Ensure, EnsureAction,
    EnsureActionView, EnsureError, EnsureErrorView, EnsureInput, EnsureInputView, EnsurePhase, EnsureView,
};
use crate::text::{decimal, holds, opt_view};
use crate::text_laws::parts_are_found;

verus! {

/// What may be done about servers that are not up.
#[derive(Clone, Copy, PartialEq, Eq, Structural, Debug)]
pub enum StartPolicy {
    /// They are started.
    Start,
    /// They are not started, and the main one must be up.
    Attach,
    /// They are not started, and the main one is not asked for.
    Unchecked,
}

/// Where the setup stands.
#[derive(Clone, Copy, PartialEq, Eq, Structural, Debug)]
pub enum SetupStage {
    Main,
    Worker,
    Over,
}

/// The setup of a run.
pub struct Setup {
    cfg: RlmConfig,
    policy: StartPolicy,
    main: Ensure,
    worker: Option<Ensure>,
    stage: SetupStage,
}

/// What the setup of a run holds.
pub struct SetupView {
    pub cfg: ConfigView,
    pub policy: StartPolicy,
    pub main: EnsureView,
    pub worker: Option<EnsureView>,
    pub stage: SetupStage,
}

impl View for Setup {
    type V = SetupView;

    closed spec fn view(&self) -> SetupView {
        SetupView {
            cfg: self.cfg@,
            policy: self.policy,
            main: self.main@,
            worker: match self.worker {
                Some(w) => Some(w@),
                None => None,
            },
            stage: self.stage,
        }
    }
}

/// What is to be done next.
pub enum SetupAction {
    /// Something about the main model server.
    Main(EnsureAction),
    /// Something about the worker.
    Worker(EnsureAction),
    /// The run can begin: its clients, and why the worker is not among them.
    Ready { root: LlmClient, sub: LlmClient, note: Option<String> },
    /// There is no main model server.
    Fail(EnsureError),
}

pub enum SetupActionView {
    Main(EnsureActionView),
    Worker(EnsureActionView),
    Ready { root: ClientView, sub: ClientView, note: Option<Seq<char>> },
    Fail(EnsureErrorView),
}

impl View for SetupAction {
    type V = SetupActionView;

    open spec fn view(&self) -> SetupActionView {
        match self {
            SetupAction::Main(a) => SetupActionView::Main(a@),
            SetupAction::Worker(a) => SetupActionView::Worker(a@),
            SetupAction::Ready { root, sub, note } => SetupActionView::Ready {
                root: root@,
                sub: sub@,
                note: opt_view(*note),
            },
            SetupAction::Fail(e) => SetupActionView::Fail(e@),
        }
    }
}

/// What is told of a worker that is missed.
pub open spec fn worker_note(e: EnsureErrorView) -> Seq<char> {
    "worker unavailable ("@ + ensure_error_text(e) + "); sub-calls use the main model"@
}

/// Whether the worker is started where it is not up.
pub open spec fn starts_worker(v: SetupView) -> bool {
    v.policy == StartPolicy::Start && tier_enabled(v.cfg, "worker"@)
}

/// The run can begin, with or without the worker.
pub open spec fn ready(v: SetupView, worker_up: bool, note: Option<Seq<char>>) -> (SetupView, SetupActionView) {
    (
        SetupView { stage: SetupStage::Over, ..v },
        SetupActionView::Ready { root: root_client_of(v.cfg), sub: sub_client_of(v.cfg, worker_up), note },
    )
}

/// What a step about the worker comes to: without the worker the run begins all the same.
pub open spec fn worker_settled(v: SetupView, step: (EnsureView, EnsureActionView)) -> (SetupView, SetupActionView) {
    let w = SetupView { worker: Some(step.0), ..v };
    match step.1 {
        EnsureActionView::Done { started } => ready(w, true, None),
        EnsureActionView::Fail(e) => ready(
            w,
            false,
            if starts_worker(v) {
                Some(worker_note(e))
            } else {
                None
            },
        ),
        a => (SetupView { stage: SetupStage::Worker, ..w }, SetupActionView::Worker(a)),
    }
}

/// What a step about the main server comes to.
pub open spec fn main_settled(v: SetupView, step: (EnsureView, EnsureActionView)) -> (SetupView, SetupActionView) {
    let m = SetupView { main: step.0, ..v };
    match step.1 {
        EnsureActionView::Done { started } => match v.worker {
            Some(worker) => worker_settled(m, ensure_step(worker, EnsureInputView::Begin)),
            None => ready(m, false, None),
        },
        EnsureActionView::Fail(e) => (SetupView { stage: SetupStage::Over, ..m }, SetupActionView::Fail(e)),
        a => (m, SetupActionView::Main(a)),
    }
}

/// One step of the setup: first the main server, then the worker where one is configured.
pub open spec fn setup_step(v: SetupView, input: EnsureInputView) -> (SetupView, SetupActionView) {
    match (v.stage, v.worker) {
        (SetupStage::Main, _) => main_settled(v, ensure_step(v.main, input)),
        (SetupStage::Worker, Some(worker)) => worker_settled(v, ensure_step(worker, input)),
        _ => (v, SetupActionView::Main(EnsureActionView::Ignored)),
    }
}

/// The setup before its beginning.
pub open spec fn setup_from(cfg: ConfigView, policy: StartPolicy) -> SetupView {
    SetupView {
        cfg,
        policy,
        main: match policy {
            StartPolicy::Start => main_ensure(cfg),
            StartPolicy::Attach => ensure_from(cfg, main_spec_of(cfg), false, EnsurePhase::Attach),
            StartPolicy::Unchecked => ensure_from(cfg, main_spec_of(cfg), false, EnsurePhase::Skip),
        },
        worker: match cfg.worker_port {
            None => None,
            Some(port) => if policy == StartPolicy::Start && tier_enabled(cfg, "worker"@) {
                Some(worker_ensure(cfg))
            } else {
                Some(ensure_from(cfg, worker_spec_of(cfg, port), false, EnsurePhase::Attach))
            },
        },
        stage: SetupStage::Main,
    }
}

impl Setup {
    /// The setup of a run, before its beginning.
    pub fn new(cfg: &RlmConfig, policy: StartPolicy) -> (r: Setup)
        ensures
            r@ == setup_from(cfg@, policy),
    {
        let main = match policy {
            StartPolicy::Start => ensure_server(cfg),
            StartPolicy::Attach => attach_server(cfg),
            StartPolicy::Unchecked => skip_server(cfg),
        };
        let worker = match cfg.worker_port {
            None => None,
            Some(port) => if policy == StartPolicy::Start && cfg.server_enabled("worker") {
                Some(ensure_worker(cfg))
            } else {
                Some(attach_worker(cfg, port))
            },
        };
        Setup { cfg: cfg.clone(), policy, main, worker, stage: SetupStage::Main }
    }

    fn ready(&mut self, worker_up: bool, note: Option<String>) -> (r: SetupAction)
        ensures
            (final(self)@, r@) == ready(old(self)@, worker_up, opt_view(note)),
    {
        self.stage = SetupStage::Over;
        SetupAction::Ready { root: root_client(&self.cfg), sub: sub_client(&self.cfg, worker_up), note }
    }

    fn step_worker(&mut self, mut worker: Ensure, input: EnsureInput) -> (r: SetupAction)
        ensures
            (final(self)@, r@) == worker_settled(old(self)@, ensure_step(worker@, input@)),
    {
        let action = ensure(&mut worker, input);
        self.worker = Some(worker);
        match action {
            EnsureAction::Done { started } => self.ready(true, None),
            EnsureAction::Fail(e) => {
                let note = if self.policy == StartPolicy::Start && self.cfg.server_enabled("worker") {
                    let mut text = "worker unavailable (".to_owned();
                    text.append(e.message().as_str());
                    text.append("); sub-calls use the main model");
                    Some(text)
                } else {
                    None
                };
                self.ready(false, note)
            },
            a => {
                self.stage = SetupStage::Worker;
                SetupAction::Worker(a)
            },
        }
    }

    /// Takes a step of the setup.
    pub fn step(&mut self, input: EnsureInput) -> (r: SetupAction)
        ensures
            (final(self)@, r@) == setup_step(old(self)@, input@),
    {
        match self.stage {
            SetupStage::Main => {
                let action = ensure(&mut self.main, input);
                match action {
                    EnsureAction::Done { started } => match self.worker.take() {
                        Some(worker) => self.step_worker(worker, EnsureInput::Begin),
                        None => self.ready(false, None),
                    },
                    EnsureAction::Fail(e) => {
                        self.stage = SetupStage::Over;
                        SetupAction::Fail(e)
                    },
                    a => SetupAction::Main(a),
                }
            },
            SetupStage::Worker => match self.worker.take() {
                Some(worker) => self.step_worker(worker, input),
                None => SetupAction::Main(EnsureAction::Ignored),
            },
            SetupStage::Over => SetupAction::Main(EnsureAction::Ignored),
        }
    }
}

// --------------------------------------------------------------------- laws

/// Where the setup stands behind its inputs.
pub open spec fn set_up(v: SetupView, inputs: Seq<EnsureInputView>) -> SetupView
    decreases inputs.len(),
{
    if inputs.len() == 0 {
        v
    } else {
        setup_step(set_up(v, inputs.drop_last()), inputs.last()).0
    }
}

/// Root reasoning stays on the main model. Sub-calls go to the worker only if it was just said to
/// be up; otherwise they go to the main model too.
pub proof fn sub_calls_need_a_worker_that_is_up(
    cfg: ConfigView,
    policy: StartPolicy,
    inputs: Seq<EnsureInputView>,
    input: EnsureInputView,
)
    ensures
        setup_step(set_up(setup_from(cfg, policy), inputs), input).1 matches SetupActionView::Ready {
            root,
            sub,
            note,
        } ==> {
            &&& root == root_client_of(cfg)
            &&& sub == root_client_of(cfg) || cfg.worker_port is Some && input == EnsureInputView::Health(true)
                && sub == sub_client_of(cfg, true)
        },
{
    the_worker_is_never_skipped(cfg, policy, inputs);
}

proof fn the_worker_is_never_skipped(cfg: ConfigView, policy: StartPolicy, inputs: Seq<EnsureInputView>)
    ensures
        set_up(setup_from(cfg, policy), inputs).cfg == cfg,
        set_up(setup_from(cfg, policy), inputs).worker is Some <==> cfg.worker_port is Some,
        set_up(setup_from(cfg, policy), inputs).worker matches Some(w) ==> w.phase != EnsurePhase::Skip,
        set_up(setup_from(cfg, policy), inputs).stage == SetupStage::Main ==> set_up(
            setup_from(cfg, policy),
            inputs,
        ).worker == setup_from(cfg, policy).worker,
    decreases inputs.len(),
{
    if inputs.len() > 0 {
        the_worker_is_never_skipped(cfg, policy, inputs.drop_last());
    }
}

/// Whether a server may still be started where the bringing up of it stands.
pub open spec fn may_start(phase: EnsurePhase) -> bool {
    phase != EnsurePhase::Skip && phase != EnsurePhase::Attach && phase != EnsurePhase::Attaching && phase
        != EnsurePhase::Over
}

proof fn nothing_may_start(cfg: ConfigView, policy: StartPolicy, inputs: Seq<EnsureInputView>)
    requires
        policy != StartPolicy::Start,
    ensures
        !may_start(set_up(setup_from(cfg, policy), inputs).main.phase),
        set_up(setup_from(cfg, policy), inputs).worker matches Some(w) ==> !may_start(w.phase),
    decreases inputs.len(),
{
    if inputs.len() > 0 {
        nothing_may_start(cfg, policy, inputs.drop_last());
    }
}

/// A setup that may not start servers starts none, whatever comes in.
pub proof fn no_server_is_started_unasked(
    cfg: ConfigView,
    policy: StartPolicy,
    inputs: Seq<EnsureInputView>,
    input: EnsureInputView,
)
    requires
        policy != StartPolicy::Start,
    ensures
        match setup_step(set_up(setup_from(cfg, policy), inputs), input).1 {
            SetupActionView::Main(a) => !(a is Start),
            SetupActionView::Worker(a) => !(a is Start),
            _ => true,
        },
{
    nothing_may_start(cfg, policy, inputs);
}

/// A worker that is missed stops no run: only the main server can.
pub proof fn a_missed_worker_stops_no_run(v: SetupView, input: EnsureInputView)
    requires
        v.stage == SetupStage::Worker,
    ensures
        !(setup_step(v, input).1 is Fail),
{
}

/// A run begins by what became of the worker. One that is up answers the sub-calls, on its own port.
/// Without it they go where the root loop goes, and it is told why where the worker was to be started.
pub proof fn a_run_begins_with_or_without_the_worker(v: SetupView, input: EnsureInputView)
    requires
        v.stage == SetupStage::Worker,
        v.worker is Some,
        v.cfg.worker_port is Some,
    ensures
        ({
            let told = ensure_step(v.worker->0, input).1;
            let (after, action) = setup_step(v, input);
            &&& told is Done ==> action is Ready && action->root.base_url == "http://"@ + v.cfg.host + ":"@
                + decimal(v.cfg.port as nat) && action->sub.base_url == "http://"@ + v.cfg.host + ":"@ + decimal(
                v.cfg.worker_port->0 as nat,
            ) && action->note is None
            &&& told matches EnsureActionView::Fail(e) ==> {
                &&& action is Ready
                &&& action->root.base_url == "http://"@ + v.cfg.host + ":"@ + decimal(v.cfg.port as nat)
                &&& action->sub == action->root
                &&& action->note is Some <==> v.policy == StartPolicy::Start && v.cfg.enabled_servers.contains(
                    "worker"@,
                )
                &&& action->note is Some ==> holds(action->note->0, ensure_error_text(e))
            }
            &&& !(told is Done) && !(told is Fail) ==> action == SetupActionView::Worker(told) && after.stage
                == SetupStage::Worker
            &&& told is Done || told is Fail ==> after.stage == SetupStage::Over
        }),
{
    if let EnsureActionView::Fail(e) = ensure_step(v.worker->0, input).1 {
        parts_are_found("worker unavailable ("@, ensure_error_text(e), "); sub-calls use the main model"@);
    }
}

/// The main server comes first: what it asks for is done, without it there is no run, and with it
/// the worker is turned to, where one is configured, and the run begins where none is.
pub proof fn the_main_server_comes_first(v: SetupView, input: EnsureInputView)
    requires
        v.stage == SetupStage::Main,
    ensures
        ({
            let told = ensure_step(v.main, input).1;
            let (after, action) = setup_step(v, input);
            &&& told matches EnsureActionView::Fail(e) ==> action == SetupActionView::Fail(e) && after.stage
                == SetupStage::Over
            &&& told is Done && v.worker is None ==> action is Ready && after.stage == SetupStage::Over
                && action->root.base_url == "http://"@ + v.cfg.host + ":"@ + decimal(v.cfg.port as nat)
                && action->sub == action->root && action->note is None
            &&& told is Done && v.worker is Some && (v.worker->0.phase == EnsurePhase::Fresh
                || v.worker->0.phase == EnsurePhase::Attach) ==> action == SetupActionView::Worker(
                EnsureActionView::Probe,
            ) && after.stage == SetupStage::Worker
            &&& !(told is Done) && !(told is Fail) ==> action == SetupActionView::Main(told) && after.stage
                == SetupStage::Main
        }),
{
}

/// A setup is made as it was asked for: servers are started only where they may be and their tier
/// is enabled; where they may not be started they are used if they are up; and a main server that is
/// not asked for is taken for granted.
pub proof fn setups_follow_their_policy(cfg: RlmConfig, policy: StartPolicy, r: Setup)
    requires
        call_ensures(Setup::new, (&cfg, policy), r),
    ensures
        r@.cfg == cfg@,
        r@.policy == policy,
        r@.stage == SetupStage::Main,
        r@.main.model == cfg.model_path@,
        r@.main.phase == (match policy {
            StartPolicy::Start => if cfg@.enabled_servers.contains("main"@) {
                EnsurePhase::Fresh
            } else {
                EnsurePhase::Attach
            },
            StartPolicy::Attach => EnsurePhase::Attach,
            StartPolicy::Unchecked => EnsurePhase::Skip,
        }),
        r@.worker is Some <==> cfg.worker_port is Some,
        r@.worker matches Some(w) ==> w.model == cfg.worker_model_path@ && w.port == cfg.worker_port->0
            && w.phase == (if policy == StartPolicy::Start && cfg@.enabled_servers.contains("worker"@) {
            EnsurePhase::Fresh
        } else {
            EnsurePhase::Attach
        }),
{
}

} // verus!
