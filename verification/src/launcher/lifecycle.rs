//! The lifecycle of the engine process: which model is wanted, which process is
//! owned, and who waits for what. Every event changes the state and tells what is
//! to be done next.

use std::collections::HashSet;

use vstd::prelude::*;

use super::error::{AppError, ErrorSource};
use super::lifecycle_model::{
    after, after_acquire, after_backoff, after_delivery, after_exit, after_launch_timeout, after_load, after_readiness,
    after_release, after_spawn, after_stop, after_stop_attempt, after_stop_failure, after_stopped,
    after_validation, all_granted, backoff_seconds, begun, cancelled_answers, cleared, end_actions, error_view,
    grant_answer, granted, initial, is_target, launch_cancelled, law_states_stay_sound,
    load_failed, load_failure_behind, nth_error, sound, start_answers, stop_answers, stop_failure,
    stop_unconfirmed, timeout_failure, timeout_text, ActionView, ErrorView, EventView, FailureView,
    FollowUp, LeaseTicket, LifecycleView, Phase, ProcessContext, StopDirective, StopRequest,
    HEALTHY_SECONDS, MAX_START_WAITERS,
};
use super::model::{ModelId, ModelRecord};
use crate::text::{decimal, push_decimal, texts};

verus! {

/// How long each step of a launch may take, in seconds.
pub const READY_TIMEOUT_SECONDS: u64 = 30;

/// How long each attempt to stop a process may take, in seconds.
pub const STOP_TIMEOUT_SECONDS: u64 = 5;

/// The state that is shown to others.
#[derive(Clone, Copy, Debug, PartialEq, Eq, Structural)]
pub enum LifecycleState {
    Stopped,
    Starting,
    Running,
    Stopping,
    Backoff,
    FailedValidation,
}

/// What others see of a lifecycle.
#[derive(Debug, PartialEq, Eq)]
pub struct LifecycleSnapshot {
    pub state: LifecycleState,
    pub desired_model: Option<ModelId>,
    pub generation: u64,
    pub in_flight: usize,
    pub process: Option<ProcessContext>,
    pub endpoint: Option<String>,
    pub diagnostic: Option<String>,
}

impl Default for LifecycleSnapshot {
    fn default() -> (result: Self)
        ensures
            result == (LifecycleSnapshot {
                state: LifecycleState::Stopped,
                desired_model: None,
                generation: 0,
                in_flight: 0,
                process: None,
                endpoint: None,
                diagnostic: None,
            }),
    {
        LifecycleSnapshot {
            state: LifecycleState::Stopped,
            desired_model: None,
            generation: 0,
            in_flight: 0,
            process: None,
            endpoint: None,
            diagnostic: None,
        }
    }
}

/// How an attempt to stop a process came out.
#[derive(Debug)]
pub enum StopResult {
    Stopped,
    Failed(String),
    TimedOut,
}

impl StopResult {
    pub open spec fn failure(self) -> Option<Option<Seq<char>>> {
        match self {
            StopResult::Stopped => None,
            StopResult::Failed(reason) => Some(Some(reason@)),
            StopResult::TimedOut => Some(None),
        }
    }
}

/// How a process ended.
#[derive(Debug)]
pub enum ExitReport {
    Code(i32),
    Error(String),
}

/// The decimal form of a number with its sign.
pub open spec fn signed_decimal(value: int) -> Seq<char> {
    if value < 0 {
        seq!['-'] + decimal((-value) as nat)
    } else {
        decimal(value as nat)
    }
}

impl ExitReport {
    pub open spec fn text(self) -> Seq<char> {
        match self {
            ExitReport::Code(code) => "engine exited with code "@ + signed_decimal(code as int),
            ExitReport::Error(error) => error@,
        }
    }

    /// What is told of the end.
    pub fn diagnostic(self) -> (result: String)
        ensures
            result@ == self.text(),
    {
        match self {
            ExitReport::Code(code) => {
                let mut text = "engine exited with code ".to_owned();
                let value: i64 = code as i64;
                if value < 0 {
                    text.push('-');
                    push_decimal(&mut text, (-value) as u64);
                    assert(text@ =~= "engine exited with code "@ + signed_decimal(code as int));
                } else {
                    push_decimal(&mut text, value as u64);
                }
                text
            },
            ExitReport::Error(error) => error,
        }
    }
}

/// Something that happened.
#[derive(Debug)]
pub enum LifecycleEvent {
    Load { model: ModelRecord, reply: u64 },
    Acquire { model: ModelRecord, reply: u64 },
    /// The answer with this lease was taken by the request that waited for it.
    Delivered(LeaseTicket),
    Release(LeaseTicket),
    Stop(StopRequest),
    Validated(Option<AppError>),
    Spawned(Result<Option<String>, AppError>),
    Ready(Option<AppError>),
    LaunchTimedOut,
    StopAttempted(StopResult),
    Exited { report: ExitReport, ran_seconds: u64 },
    BackoffOver { generation: u64 },
}

impl View for LifecycleEvent {
    type V = EventView;

    open spec fn view(&self) -> EventView {
        match *self {
            LifecycleEvent::Load { model, reply } => EventView::Load(model, reply),
            LifecycleEvent::Acquire { model, reply } => EventView::Acquire(model, reply),
            LifecycleEvent::Delivered(ticket) => EventView::Delivery(ticket),
            LifecycleEvent::Release(ticket) => EventView::Release(ticket),
            LifecycleEvent::Stop(request) => EventView::Stop(request),
            LifecycleEvent::Validated(refusal) => EventView::Validation(refusal),
            LifecycleEvent::Spawned(result) => EventView::Spawn(spawn_view(result)),
            LifecycleEvent::Ready(failure) => EventView::Readiness(failure),
            LifecycleEvent::LaunchTimedOut => EventView::LaunchTimeout,
            LifecycleEvent::StopAttempted(result) => EventView::StopAttempt(result.failure()),
            LifecycleEvent::Exited { report, ran_seconds } => EventView::Exit(report.text(), ran_seconds),
            LifecycleEvent::BackoffOver { generation } => EventView::BackoffOver(generation),
        }
    }
}

pub open spec fn optional_view(text: Option<String>) -> Option<Seq<char>> {
    match text {
        Some(text) => Some(text@),
        None => None,
    }
}

pub open spec fn spawn_view(result: Result<Option<String>, AppError>) -> Result<Option<Seq<char>>, AppError> {
    match result {
        Ok(endpoint) => Ok(optional_view(endpoint)),
        Err(error) => Err(error),
    }
}

/// Something that is to be done.
#[derive(Debug)]
pub enum LifecycleAction {
    Validate,
    Spawn,
    AwaitReady,
    StopGracefully,
    StopForcefully,
    DropPending,
    WaitBackoff { seconds: u64 },
    CancelLeases,
    PublishFailedValidation,
    AnswerLoad { reply: u64, result: Result<(), AppError> },
    AnswerAcquire { reply: u64, result: Result<LeaseTicket, AppError> },
    AnswerStop { reply: u64, result: Result<(), AppError> },
    End,
}

pub open spec fn done_view(result: Result<(), AppError>) -> Result<(), ErrorView> {
    match result {
        Ok(_) => Ok(()),
        Err(error) => Err(error_view(error)),
    }
}

pub open spec fn lease_view(result: Result<LeaseTicket, AppError>) -> Result<LeaseTicket, ErrorView> {
    match result {
        Ok(ticket) => Ok(ticket),
        Err(error) => Err(error_view(error)),
    }
}

impl View for LifecycleAction {
    type V = ActionView;

    open spec fn view(&self) -> ActionView {
        match *self {
            LifecycleAction::Validate => ActionView::Validate,
            LifecycleAction::Spawn => ActionView::Spawn,
            LifecycleAction::AwaitReady => ActionView::AwaitReady,
            LifecycleAction::StopGracefully => ActionView::StopGracefully,
            LifecycleAction::StopForcefully => ActionView::StopForcefully,
            LifecycleAction::DropPending => ActionView::DropPending,
            LifecycleAction::WaitBackoff { seconds } => ActionView::WaitBackoff(seconds),
            LifecycleAction::CancelLeases => ActionView::CancelLeases,
            LifecycleAction::PublishFailedValidation => ActionView::PublishFailedValidation,
            LifecycleAction::AnswerLoad { reply, result } => ActionView::AnswerLoad(reply, done_view(result)),
            LifecycleAction::AnswerAcquire { reply, result } => ActionView::AnswerAcquire(
                reply,
                lease_view(result),
            ),
            LifecycleAction::AnswerStop { reply, result } => ActionView::AnswerStop(reply, done_view(result)),
            LifecycleAction::End => ActionView::End,
        }
    }
}

pub open spec fn action_list(actions: Seq<LifecycleAction>) -> Seq<ActionView> {
    actions.map_values(|action: LifecycleAction| action@)
}

fn add_action(actions: &mut Vec<LifecycleAction>, action: LifecycleAction)
    ensures
        action_list(final(actions)@) == action_list(old(actions)@).push(action@),
{
    let ghost before = action_list(actions@);
    let ghost view = action@;
    actions.push(action);
    assert(action_list(actions@) =~= before.push(view));
}

fn add_start_answers(
    actions: &mut Vec<LifecycleAction>,
    loads: &Vec<u64>,
    acquires: &Vec<u64>,
    first: AppError,
    others: &ErrorSource,
)
    ensures
        action_list(final(actions)@) == action_list(old(actions)@) + start_answers(
            loads@,
            acquires@,
            error_view(first),
            load_failure_behind(others.chain()),
        ),
{
    let ghost before = action_list(actions@);
    let ghost leading = error_view(first);
    let ghost following = load_failure_behind(others.chain());
    let ghost all = start_answers(loads@, acquires@, leading, following);
    let mut first = Some(first);
    for index in 0..loads.len()
        invariant
            following == load_failure_behind(others.chain()),
            all == start_answers(loads@, acquires@, leading, following),
            action_list(actions@) == before + all.take(index as int),
            first is Some <==> index == 0,
            first is Some ==> error_view(first->0) == leading,
    {
        let error = match first.take() {
            Some(error) => error,
            None => AppError::ModelLoadFailed(others.copy()),
        };
        assert(error_view(error) == nth_error(index as int, leading, following));
        add_action(actions, LifecycleAction::AnswerLoad { reply: loads[index], result: Err(error) });
        assert(all.take(index + 1) =~= all.take(index as int).push(all[index as int]));
        assert(action_list(actions@) =~= before + all.take(index + 1));
    }
    for index in 0..acquires.len()
        invariant
            following == load_failure_behind(others.chain()),
            all == start_answers(loads@, acquires@, leading, following),
            action_list(actions@) == before + all.take(loads@.len() + index),
            first is Some <==> index == 0 && loads@.len() == 0,
            first is Some ==> error_view(first->0) == leading,
    {
        let error = match first.take() {
            Some(error) => error,
            None => AppError::ModelLoadFailed(others.copy()),
        };
        assert(error_view(error) == nth_error(loads@.len() + index, leading, following));
        add_action(actions, LifecycleAction::AnswerAcquire { reply: acquires[index], result: Err(error) });
        assert(all.take(loads@.len() + index + 1) =~= all.take(loads@.len() + index).push(
            all[loads@.len() + index],
        ));
        assert(action_list(actions@) =~= before + all.take(loads@.len() + index + 1));
    }
    assert(all.take(all.len() as int) =~= all);
}

fn add_cancelled_answers(actions: &mut Vec<LifecycleAction>, loads: &Vec<u64>, acquires: &Vec<u64>)
    ensures
        action_list(final(actions)@) == action_list(old(actions)@) + cancelled_answers(loads@, acquires@),
{
    add_start_answers(
        actions,
        loads,
        acquires,
        AppError::ModelLoadFailed(ErrorSource::root("load cancelled".to_owned())),
        &ErrorSource::root("model failed to load".to_owned()),
    );
}

/// Answers requests for a stop: with success, or with the reason of the failure.
fn add_stop_answers(actions: &mut Vec<LifecycleAction>, stops: &Vec<u64>, failure: Option<&str>)
    ensures
        action_list(final(actions)@) == action_list(old(actions)@) + stop_answers(
            stops@,
            match failure {
                Some(reason) => Err(stop_failure(reason@)),
                None => Ok(()),
            },
        ),
{
    let ghost before = action_list(actions@);
    let ghost result = match failure {
        Some(reason) => Err(stop_failure(reason@)),
        None => Ok(()),
    };
    let ghost all = stop_answers(stops@, result);
    for index in 0..stops.len()
        invariant
            all == stop_answers(stops@, result),
            result == (match failure {
                Some(reason) => Err(stop_failure(reason@)),
                None => Ok(()),
            }),
            action_list(actions@) == before + all.take(index as int),
    {
        let answer = match failure {
            Some(reason) => Err(AppError::EngineProcess(reason.to_owned())),
            None => Ok(()),
        };
        add_action(actions, LifecycleAction::AnswerStop { reply: stops[index], result: answer });
        assert(all.take(index + 1) =~= all.take(index as int).push(all[index as int]));
        assert(action_list(actions@) =~= before + all.take(index + 1));
    }
    assert(all.take(all.len() as int) =~= all);
}

fn add_end(actions: &mut Vec<LifecycleAction>, ending: bool)
    ensures
        action_list(final(actions)@) == action_list(old(actions)@) + end_actions(ending),
{
    let ghost before = action_list(actions@);
    if ending {
        add_action(actions, LifecycleAction::End);
    }
    assert(action_list(actions@) =~= before + end_actions(ending));
}

fn only(action: LifecycleAction) -> (result: Vec<LifecycleAction>)
    ensures
        action_list(result@) == seq![action@],
{
    let mut actions: Vec<LifecycleAction> = Vec::new();
    assert(action_list(actions@) =~= Seq::empty());
    add_action(&mut actions, action);
    assert(action_list(actions@) =~= seq![action@]);
    actions
}

fn nothing() -> (result: Vec<LifecycleAction>)
    ensures
        action_list(result@) == Seq::<ActionView>::empty(),
{
    let actions: Vec<LifecycleAction> = Vec::new();
    assert(action_list(actions@) =~= Seq::empty());
    actions
}

fn one_reply(reply: u64) -> (result: Vec<u64>)
    ensures
        result@ == seq![reply],
{
    let mut replies: Vec<u64> = Vec::new();
    replies.push(reply);
    assert(replies@ =~= seq![reply]);
    replies
}

spec fn failure_facts(failure: ErrorSource) -> FailureView {
    FailureView { message: failure.message@, causes: texts(failure.causes@) }
}

fn timed_out(phase: Phase) -> (result: ErrorSource)
    ensures
        failure_facts(result) == timeout_failure(phase),
{
    let reason = match phase {
        Phase::Validating => "engine validation timed out",
        Phase::Spawning => "engine spawn timed out",
        _ => "engine readiness timed out",
    };
    let causes: Vec<String> = vec![reason.to_owned()];
    assert(texts(causes@) =~= seq![timeout_text(phase)]);
    ErrorSource { message: "model failed to load".to_owned(), causes }
}

/// The lifecycle of the engine process.
#[derive(Debug)]
pub struct Lifecycle {
    phase: Phase,
    generation: u64,
    target: Option<ModelRecord>,
    desired: Option<ModelId>,
    process: Option<ProcessContext>,
    endpoint: Option<String>,
    diagnostic: Option<String>,
    failures: u32,
    leases: HashSet<u64>,
    next_lease: u64,
    loads: Vec<u64>,
    acquires: Vec<u64>,
    stops: Vec<u64>,
    failure: Option<ErrorSource>,
    pending_endpoint: Option<String>,
    forcing: bool,
    directive: StopDirective,
    follow_up: FollowUp,
    orphaned: bool,
}

impl View for Lifecycle {
    type V = LifecycleView;

    closed spec fn view(&self) -> LifecycleView {
        LifecycleView {
            phase: self.phase,
            generation: self.generation,
            target: self.target,
            desired: self.desired,
            process: self.process,
            endpoint: optional_view(self.endpoint),
            diagnostic: optional_view(self.diagnostic),
            failures: self.failures,
            leases: self.leases@,
            next_lease: self.next_lease,
            loads: self.loads@,
            acquires: self.acquires@,
            stops: self.stops@,
            failure: match self.failure {
                Some(failure) => Some(failure_facts(failure)),
                None => None,
            },
            pending_endpoint: optional_view(self.pending_endpoint),
            forcing: self.forcing,
            directive: self.directive,
            follow_up: self.follow_up,
            orphaned: self.orphaned,
        }
    }
}

/// The state that is shown for a step.
pub open spec fn shown_state(state: LifecycleView) -> LifecycleState {
    match state.phase {
        Phase::Stopped => LifecycleState::Stopped,
        Phase::Ended => if state.process is Some || state.diagnostic is Some {
            LifecycleState::Stopping
        } else {
            LifecycleState::Stopped
        },
        Phase::Running => LifecycleState::Running,
        Phase::Stopping => LifecycleState::Stopping,
        Phase::FailedStop => LifecycleState::Stopping,
        Phase::Backoff => LifecycleState::Backoff,
        _ => if state.directive == StopDirective::Continue {
            LifecycleState::Starting
        } else {
            LifecycleState::Stopping
        },
    }
}

impl Lifecycle {
    /// Nothing runs and nothing is wanted.
    pub fn new() -> (result: Self)
        ensures
            result@ == initial(),
            sound(result@),
    {
        broadcast use vstd::std_specs::hash::group_hash_axioms;

        let lifecycle = Lifecycle {
            phase: Phase::Stopped,
            generation: 0,
            target: None,
            desired: None,
            process: None,
            endpoint: None,
            diagnostic: None,
            failures: 0,
            leases: HashSet::new(),
            next_lease: 1,
            loads: Vec::new(),
            acquires: Vec::new(),
            stops: Vec::new(),
            failure: None,
            pending_endpoint: None,
            forcing: false,
            directive: StopDirective::Continue,
            follow_up: FollowUp::Stop,
            orphaned: false,
        };
        assert(lifecycle@ =~= initial());
        lifecycle
    }

    /// What others see.
    pub fn snapshot(&self) -> (result: LifecycleSnapshot)
        requires
            sound(self@),
        ensures
            result.state == shown_state(self@),
            result.desired_model == self@.desired,
            result.generation == self@.generation,
            result.in_flight == self@.leases.len(),
            result.process == self@.process,
            optional_view(result.endpoint) == self@.endpoint,
            optional_view(result.diagnostic) == self@.diagnostic,
    {
        broadcast use vstd::std_specs::hash::group_hash_axioms;

        let state = match self.phase {
            Phase::Stopped => LifecycleState::Stopped,
            Phase::Ended => if self.process.is_some() || self.diagnostic.is_some() {
                LifecycleState::Stopping
            } else {
                LifecycleState::Stopped
            },
            Phase::Running => LifecycleState::Running,
            Phase::Stopping => LifecycleState::Stopping,
            Phase::FailedStop => LifecycleState::Stopping,
            Phase::Backoff => LifecycleState::Backoff,
            _ => if self.directive == StopDirective::Continue {
                LifecycleState::Starting
            } else {
                LifecycleState::Stopping
            },
        };
        LifecycleSnapshot {
            state,
            desired_model: self.desired,
            generation: self.generation,
            in_flight: self.leases.len(),
            process: self.process,
            endpoint: match &self.endpoint {
                Some(text) => Some(text.clone()),
                None => None,
            },
            diagnostic: match &self.diagnostic {
                Some(text) => Some(text.clone()),
                None => None,
            },
        }
    }

    /// The model that is started or runs.
    pub fn target(&self) -> (result: Option<&ModelRecord>)
        ensures
            match result {
                Some(model) => self@.target == Some(*model),
                None => self@.target is None,
            },
    {
        self.target.as_ref()
    }

    pub fn phase(&self) -> (result: Phase)
        ensures
            result == self@.phase,
    {
        self.phase
    }

    fn is_target(&self, model: &ModelRecord) -> (result: bool)
        ensures
            result == is_target(self@, *model),
    {
        match &self.target {
            Some(target) => target.id == model.id,
            None => false,
        }
    }

    fn begin(&mut self, model: ModelRecord, loads: Vec<u64>, acquires: Vec<u64>)
        requires
            old(self)@.generation < u64::MAX,
        ensures
            final(self)@ == begun(old(self)@, model, loads@, acquires@),
    {
        self.phase = Phase::Validating;
        self.generation = self.generation + 1;
        self.desired = Some(model.id);
        self.target = Some(model);
        self.diagnostic = None;
        self.loads = loads;
        self.acquires = acquires;
        self.stops = Vec::new();
        self.failure = None;
        self.pending_endpoint = None;
        self.forcing = false;
        self.directive = StopDirective::Continue;
        self.follow_up = FollowUp::Stop;
    }

    fn clear(&mut self, ending: bool)
        requires
            old(self)@.generation < u64::MAX,
        ensures
            final(self)@ == cleared(old(self)@, ending),
    {
        self.phase = if ending {
            Phase::Ended
        } else {
            Phase::Stopped
        };
        self.generation = self.generation + 1;
        self.target = None;
        self.desired = None;
        self.process = None;
        self.endpoint = None;
        self.diagnostic = None;
        self.loads = Vec::new();
        self.acquires = Vec::new();
        self.stops = Vec::new();
        self.failure = None;
        self.pending_endpoint = None;
        self.forcing = false;
        self.directive = StopDirective::Continue;
        self.follow_up = FollowUp::Stop;
    }

    fn fail_load(&mut self, failure: ErrorSource) -> (result: Vec<LifecycleAction>)
        ensures
            final(self)@ == load_failed(old(self)@, failure_facts(failure)).state,
            action_list(result@) == load_failed(old(self)@, failure_facts(failure)).actions,
    {
        let mut actions = nothing();
        add_start_answers(
            &mut actions,
            &self.loads,
            &self.acquires,
            AppError::ModelLoadFailed(failure.copy()),
            &failure,
        );
        assert(action_list(actions@) =~= load_failed(old(self)@, failure_facts(failure)).actions);
        self.settle_failed(failure.message);
        actions
    }

    /// The state after a failed launch; the answers are given by the caller.
    fn settle_failed(&mut self, message: String)
        ensures
            forall|causes: Seq<Seq<char>>|
                final(self)@ == #[trigger] load_failed(
                    old(self)@,
                    (FailureView { message: message@, causes }),
                ).state,
    {
        self.phase = Phase::Stopped;
        self.target = None;
        self.desired = None;
        self.process = None;
        self.diagnostic = Some(message);
        self.loads = Vec::new();
        self.acquires = Vec::new();
        self.stops = Vec::new();
        self.failure = None;
        self.pending_endpoint = None;
        self.forcing = false;
        self.directive = StopDirective::Continue;
    }

    fn cancel_launch(&mut self, actions: &mut Vec<LifecycleAction>)
        requires
            old(self)@.generation < u64::MAX,
        ensures
            final(self)@ == launch_cancelled(old(self)@).state,
            action_list(final(actions)@) == action_list(old(actions)@) + launch_cancelled(old(self)@).actions,
    {
        let ghost before = action_list(actions@);
        let ending = self.directive == StopDirective::Shutdown;
        add_cancelled_answers(actions, &self.loads, &self.acquires);
        add_stop_answers(actions, &self.stops, None);
        add_end(actions, ending);
        assert(action_list(actions@) =~= before + launch_cancelled(old(self)@).actions);
        self.clear(ending);
    }

    fn leave_unconfirmed(&mut self, diagnostic: String)
        ensures
            final(self)@ == stop_unconfirmed(old(self)@, diagnostic@),
    {
        self.phase = if self.orphaned {
            Phase::Ended
        } else {
            Phase::FailedStop
        };
        self.target = None;
        self.endpoint = None;
        self.diagnostic = Some(diagnostic);
        self.loads = Vec::new();
        self.acquires = Vec::new();
        self.stops = Vec::new();
        self.failure = None;
        self.pending_endpoint = None;
        self.forcing = false;
        self.directive = StopDirective::Continue;
        self.follow_up = FollowUp::Stop;
    }

    fn grant(&mut self, reply: u64) -> (result: LifecycleAction)
        ensures
            final(self)@ == granted(old(self)@),
            result@ == grant_answer(old(self)@, reply),
    {
        let id = self.next_lease;
        self.next_lease = if id < u64::MAX {
            id + 1
        } else {
            0
        };
        LifecycleAction::AnswerAcquire { reply, result: Ok(LeaseTicket { generation: self.generation, id }) }
    }

    fn on_load(&mut self, model: ModelRecord, reply: u64) -> (result: Vec<LifecycleAction>)
        requires
            sound(old(self)@),
            old(self)@.generation < u64::MAX,
        ensures
            final(self)@ == after_load(old(self)@, model, reply).state,
            action_list(result@) == after_load(old(self)@, model, reply).actions,
    {
        broadcast use vstd::std_specs::hash::group_hash_axioms;

        let same = self.is_target(&model);
        let error = match self.phase {
            Phase::Stopped => {
                self.begin(model, one_reply(reply), Vec::new());
                return only(LifecycleAction::Validate);
            },
            Phase::Running => if same {
                return only(LifecycleAction::AnswerLoad { reply, result: Ok(()) });
            } else if self.leases.len() > 0 {
                AppError::ModelBusy
            } else {
                self.phase = Phase::Stopping;
                self.endpoint = None;
                self.forcing = false;
                self.follow_up = FollowUp::Replace(model, reply);
                return only(LifecycleAction::StopGracefully);
            },
            Phase::Backoff => if same {
                AppError::ModelStarting
            } else {
                self.failures = 0;
                self.begin(model, one_reply(reply), Vec::new());
                return only(LifecycleAction::Validate);
            },
            Phase::Stopping => AppError::ModelStarting,
            Phase::FailedStop => AppError::ModelStarting,
            Phase::Ended => AppError::EngineUnavailable,
            _ => if !same || self.directive != StopDirective::Continue {
                AppError::ModelStarting
            } else if self.loads.len() + self.acquires.len() >= MAX_START_WAITERS {
                AppError::ModelBusy
            } else {
                self.loads.push(reply);
                return nothing();
            },
        };
        only(LifecycleAction::AnswerLoad { reply, result: Err(error) })
    }

    fn on_acquire(&mut self, model: ModelRecord, reply: u64) -> (result: Vec<LifecycleAction>)
        requires
            sound(old(self)@),
            old(self)@.generation < u64::MAX,
        ensures
            final(self)@ == after_acquire(old(self)@, model, reply).state,
            action_list(result@) == after_acquire(old(self)@, model, reply).actions,
    {
        let same = self.is_target(&model);
        let error = match self.phase {
            Phase::Stopped => {
                self.begin(model, Vec::new(), one_reply(reply));
                return only(LifecycleAction::Validate);
            },
            Phase::Running => if same {
                let action = self.grant(reply);
                return only(action);
            } else {
                AppError::ModelBusy
            },
            Phase::Backoff => if same {
                AppError::ModelStarting
            } else {
                self.failures = 0;
                self.begin(model, Vec::new(), one_reply(reply));
                return only(LifecycleAction::Validate);
            },
            Phase::Stopping => AppError::ModelStarting,
            Phase::FailedStop => AppError::ModelStarting,
            Phase::Ended => AppError::EngineUnavailable,
            _ => if !same || self.directive != StopDirective::Continue {
                AppError::ModelStarting
            } else if self.loads.len() + self.acquires.len() >= MAX_START_WAITERS {
                AppError::ModelBusy
            } else {
                self.acquires.push(reply);
                return nothing();
            },
        };
        only(LifecycleAction::AnswerAcquire { reply, result: Err(error) })
    }

    fn on_delivered(&mut self, ticket: LeaseTicket) -> (result: Vec<LifecycleAction>)
        ensures
            final(self)@ == after_delivery(old(self)@, ticket).state,
            action_list(result@) == after_delivery(old(self)@, ticket).actions,
    {
        broadcast use vstd::std_specs::hash::group_hash_axioms;

        if self.phase == Phase::Running && ticket.generation == self.generation {
            self.leases.insert(ticket.id);
        }
        nothing()
    }

    fn on_release(&mut self, ticket: LeaseTicket) -> (result: Vec<LifecycleAction>)
        ensures
            final(self)@ == after_release(old(self)@, ticket).state,
            action_list(result@) == after_release(old(self)@, ticket).actions,
    {
        broadcast use vstd::std_specs::hash::group_hash_axioms;

        if self.phase == Phase::Running && ticket.generation == self.generation {
            self.leases.remove(&ticket.id);
        }
        nothing()
    }

    fn on_stop(&mut self, request: StopRequest) -> (result: Vec<LifecycleAction>)
        requires
            sound(old(self)@),
            old(self)@.generation < u64::MAX,
        ensures
            final(self)@ == after_stop(old(self)@, request).state,
            action_list(result@) == after_stop(old(self)@, request).actions,
    {
        broadcast use vstd::std_specs::hash::group_hash_axioms;

        let mut replies: Vec<u64> = Vec::new();
        let mut directive = StopDirective::Shutdown;
        let mut orphan = false;
        match request {
            StopRequest::Eject(reply) => {
                replies.push(reply);
                if self.directive != StopDirective::Shutdown {
                    directive = StopDirective::Cancel;
                }
            },
            StopRequest::Shutdown(reply) => {
                replies.push(reply);
            },
            StopRequest::Orphaned => {
                orphan = true;
            },
        }
        assert(replies@ =~= request.replies());
        assert(directive == request.merged(self.directive));
        let ghost expected = after_stop(self@, request);
        let mut actions = nothing();
        if self.phase == Phase::FailedStop {
            if orphan {
                self.phase = Phase::Ended;
                self.orphaned = true;
                add_end(&mut actions, true);
            } else {
                let diagnostic = match &self.diagnostic {
                    Some(text) => text.clone(),
                    None => String::new(),
                };
                add_stop_answers(&mut actions, &replies, Some(diagnostic.as_str()));
            }
            assert(action_list(actions@) =~= expected.actions);
            return actions;
        }
        if self.phase == Phase::Ended {
            if replies.len() > 0 {
                add_action(
                    &mut actions,
                    LifecycleAction::AnswerStop { reply: replies[0], result: Err(AppError::EngineUnavailable) },
                );
            }
            assert(action_list(actions@) =~= expected.actions);
            return actions;
        }
        let ending = directive == StopDirective::Shutdown;
        self.directive = directive;
        self.orphaned = self.orphaned || orphan;
        self.stops.append(&mut replies);
        match self.phase {
            Phase::Stopped | Phase::Backoff => {
                add_stop_answers(&mut actions, &self.stops, None);
                add_end(&mut actions, ending);
                assert(action_list(actions@) =~= expected.actions);
                self.clear(ending);
            },
            Phase::Validating | Phase::Spawning => {
                add_action(&mut actions, LifecycleAction::DropPending);
                self.cancel_launch(&mut actions);
                assert(action_list(actions@) =~= expected.actions);
            },
            Phase::Readying => {
                self.phase = Phase::Cleaning;
                self.failure = None;
                self.forcing = false;
                add_action(&mut actions, LifecycleAction::DropPending);
                add_action(&mut actions, LifecycleAction::StopGracefully);
                assert(action_list(actions@) =~= expected.actions);
            },
            Phase::Running => {
                self.leases = HashSet::new();
                self.phase = Phase::Stopping;
                self.endpoint = None;
                self.forcing = false;
                self.follow_up = FollowUp::Stop;
                add_action(&mut actions, LifecycleAction::CancelLeases);
                add_action(&mut actions, LifecycleAction::DropPending);
                add_action(&mut actions, LifecycleAction::StopGracefully);
                assert(action_list(actions@) =~= expected.actions);
            },
            Phase::Stopping => {
                self.desired = None;
            },
            _ => {},
        }
        actions
    }

    fn on_validated(&mut self, refusal: Option<AppError>) -> (result: Vec<LifecycleAction>)
        ensures
            final(self)@ == after_validation(old(self)@, refusal).state,
            action_list(result@) == after_validation(old(self)@, refusal).actions,
    {
        if self.phase != Phase::Validating {
            return nothing();
        }
        match refusal {
            None => {
                self.phase = Phase::Spawning;
                only(LifecycleAction::Spawn)
            },
            Some(error) => {
                let ghost expected = after_validation(self@, refusal);
                let message = error.to_string();
                let others = ErrorSource::root(error.to_string());
                let mut actions = only(LifecycleAction::PublishFailedValidation);
                add_start_answers(&mut actions, &self.loads, &self.acquires, error, &others);
                assert(action_list(actions@) =~= expected.actions);
                self.settle_failed(message);
                actions
            },
        }
    }

    fn on_spawned(&mut self, result: Result<Option<String>, AppError>) -> (actions: Vec<LifecycleAction>)
        ensures
            final(self)@ == after_spawn(old(self)@, spawn_view(result)).state,
            action_list(actions@) == after_spawn(old(self)@, spawn_view(result)).actions,
    {
        if self.phase != Phase::Spawning {
            return nothing();
        }
        match result {
            Ok(endpoint) => {
                self.phase = Phase::Readying;
                self.pending_endpoint = endpoint;
                only(LifecycleAction::AwaitReady)
            },
            Err(error) => self.fail_load(ErrorSource::of(&error)),
        }
    }

    fn on_ready(&mut self, failure: Option<AppError>) -> (result: Vec<LifecycleAction>)
        requires
            sound(old(self)@),
        ensures
            final(self)@ == after_readiness(old(self)@, failure).state,
            action_list(result@) == after_readiness(old(self)@, failure).actions,
    {
        if self.phase != Phase::Readying {
            return nothing();
        }
        if let Some(error) = failure {
            self.failure = Some(ErrorSource::of(&error));
            self.phase = Phase::Cleaning;
            self.forcing = false;
            return only(LifecycleAction::StopGracefully);
        }
        let ghost loaded = self@.loads.map_values(|reply: u64| ActionView::AnswerLoad(reply, Ok(())));
        let mut loads: Vec<u64> = Vec::new();
        core::mem::swap(&mut loads, &mut self.loads);
        let mut acquires: Vec<u64> = Vec::new();
        core::mem::swap(&mut acquires, &mut self.acquires);
        let model_id = match &self.target {
            Some(target) => target.id,
            None => {
                return nothing();
            },
        };
        self.phase = Phase::Running;
        self.process = Some(ProcessContext { model_id, generation: self.generation });
        let mut endpoint: Option<String> = None;
        core::mem::swap(&mut endpoint, &mut self.pending_endpoint);
        self.endpoint = endpoint;
        let ghost running = self@;
        let mut actions = nothing();
        for index in 0..loads.len()
            invariant
                loaded == loads@.map_values(|reply: u64| ActionView::AnswerLoad(reply, Ok(()))),
                action_list(actions@) == loaded.take(index as int),
        {
            add_action(&mut actions, LifecycleAction::AnswerLoad { reply: loads[index], result: Ok(()) });
            assert(loaded.take(index + 1) =~= loaded.take(index as int).push(loaded[index as int]));
        }
        assert(loaded.take(loaded.len() as int) =~= loaded);
        assert(acquires@.take(0) =~= Seq::empty());
        assert(loaded + Seq::<ActionView>::empty() =~= loaded);
        for index in 0..acquires.len()
            invariant
                self@ == all_granted(running, acquires@.take(index as int)).state,
                action_list(actions@) == loaded + all_granted(running, acquires@.take(index as int)).actions,
        {
            proof {
                let taken = acquires@.take(index + 1);
                assert(taken.drop_last() =~= acquires@.take(index as int));
                assert(taken.last() == acquires@[index as int]);
            }
            let ghost before = all_granted(running, acquires@.take(index as int)).actions;
            let action = self.grant(acquires[index]);
            let ghost view = action@;
            add_action(&mut actions, action);
            assert((loaded + before).push(view) =~= loaded + before.push(view));
        }
        assert(acquires@.take(acquires@.len() as int) =~= acquires@);
        actions
    }

    fn on_launch_timeout(&mut self) -> (result: Vec<LifecycleAction>)
        ensures
            final(self)@ == after_launch_timeout(old(self)@).state,
            action_list(result@) == after_launch_timeout(old(self)@).actions,
    {
        let ghost expected = after_launch_timeout(self@);
        match self.phase {
            Phase::Validating | Phase::Spawning => {
                let failure = timed_out(self.phase);
                let mut actions = only(LifecycleAction::DropPending);
                let mut answers = self.fail_load(failure);
                let ghost dropped = action_list(actions@);
                let ghost answered = action_list(answers@);
                actions.append(&mut answers);
                assert(action_list(actions@) =~= dropped + answered);
                actions
            },
            Phase::Readying => {
                self.failure = Some(timed_out(self.phase));
                self.phase = Phase::Cleaning;
                self.forcing = false;
                let mut actions = only(LifecycleAction::DropPending);
                add_action(&mut actions, LifecycleAction::StopGracefully);
                assert(action_list(actions@) =~= expected.actions);
                actions
            },
            _ => nothing(),
        }
    }

    fn on_stopped(&mut self) -> (result: Vec<LifecycleAction>)
        requires
            old(self)@.generation < u64::MAX,
            old(self)@.phase == Phase::Cleaning || old(self)@.phase == Phase::Stopping,
        ensures
            final(self)@ == after_stopped(old(self)@).state,
            action_list(result@) == after_stopped(old(self)@).actions,
    {
        let ghost start = self@;
        let ghost expected = after_stopped(start);
        if self.phase == Phase::Cleaning {
            if self.directive == StopDirective::Continue {
                let mut failure: Option<ErrorSource> = None;
                core::mem::swap(&mut failure, &mut self.failure);
                if let Some(failure) = failure {
                    let ghost emptied = self@;
                    let actions = self.fail_load(failure);
                    assert(load_failed(emptied, failure_facts(failure)).state =~= load_failed(start, failure_facts(failure)).state);
                    return actions;
                }
                assert(self@ =~= start);
            }
            let mut actions = nothing();
            self.cancel_launch(&mut actions);
            assert(action_list(actions@) =~= expected.actions);
            return actions;
        }
        let ending = self.directive == StopDirective::Shutdown;
        let mut actions = nothing();
        add_stop_answers(&mut actions, &self.stops, None);
        let mut follow_up = FollowUp::Stop;
        core::mem::swap(&mut follow_up, &mut self.follow_up);
        match follow_up {
            FollowUp::Replace(next, reply) => {
                self.process = None;
                self.failures = 0;
                if self.directive == StopDirective::Continue {
                    self.begin(next, one_reply(reply), Vec::new());
                    add_action(&mut actions, LifecycleAction::Validate);
                    assert(action_list(actions@) =~= expected.actions);
                } else {
                    add_action(
                        &mut actions,
                        LifecycleAction::AnswerLoad {
                            reply,
                            result: Err(AppError::ModelLoadFailed(
                                ErrorSource::root("replacement cancelled".to_owned()),
                            )),
                        },
                    );
                    add_end(&mut actions, ending);
                    assert(action_list(actions@) =~= expected.actions);
                    self.clear(ending);
                }
            },
            FollowUp::Stop => {
                add_end(&mut actions, ending);
                assert(action_list(actions@) =~= expected.actions);
                self.clear(ending);
            },
        }
        actions
    }

    fn on_stop_failure(&mut self, diagnostic: String, actions: &mut Vec<LifecycleAction>)
        requires
            old(self)@.phase == Phase::Cleaning || old(self)@.phase == Phase::Stopping,
        ensures
            final(self)@ == after_stop_failure(old(self)@, diagnostic@).state,
            action_list(final(actions)@) == action_list(old(actions)@) + after_stop_failure(
                old(self)@,
                diagnostic@,
            ).actions,
    {
        let ghost before = action_list(actions@);
        let ghost expected = after_stop_failure(self@, diagnostic@);
        let orphaned = self.orphaned;
        if self.phase == Phase::Cleaning {
            add_cancelled_answers(actions, &self.loads, &self.acquires);
            add_stop_answers(actions, &self.stops, Some(diagnostic.as_str()));
            add_end(actions, orphaned);
        } else {
            add_stop_answers(actions, &self.stops, Some(diagnostic.as_str()));
            let mut replaced: Option<u64> = None;
            if let FollowUp::Replace(_, reply) = &self.follow_up {
                replaced = Some(*reply);
            }
            if let Some(reply) = replaced {
                self.failures = 0;
                add_action(
                    actions,
                    LifecycleAction::AnswerLoad {
                        reply,
                        result: Err(AppError::EngineProcess(diagnostic.clone())),
                    },
                );
            }
            add_end(actions, orphaned);
        }
        assert(action_list(actions@) =~= before + expected.actions);
        self.leave_unconfirmed(diagnostic);
    }

    fn on_stop_attempt(&mut self, result: StopResult) -> (actions: Vec<LifecycleAction>)
        requires
            old(self)@.generation < u64::MAX,
        ensures
            final(self)@ == after_stop_attempt(old(self)@, result.failure()).state,
            action_list(actions@) == after_stop_attempt(old(self)@, result.failure()).actions,
    {
        if self.phase != Phase::Cleaning && self.phase != Phase::Stopping {
            return nothing();
        }
        let ghost expected = after_stop_attempt(self@, result.failure());
        let diagnostic = match result {
            StopResult::Stopped => {
                return self.on_stopped();
            },
            StopResult::Failed(reason) => reason,
            StopResult::TimedOut => if self.phase == Phase::Cleaning {
                "engine process failed".to_owned()
            } else {
                "force shutdown timed out".to_owned()
            },
        };
        let mut actions = only(LifecycleAction::DropPending);
        if !self.forcing {
            self.forcing = true;
            add_action(&mut actions, LifecycleAction::StopForcefully);
        } else {
            self.on_stop_failure(diagnostic, &mut actions);
        }
        assert(action_list(actions@) =~= expected.actions);
        actions
    }

    fn on_exit(&mut self, report: ExitReport, ran_seconds: u64) -> (result: Vec<LifecycleAction>)
        ensures
            final(self)@ == after_exit(old(self)@, report.text(), ran_seconds).state,
            action_list(result@) == after_exit(old(self)@, report.text(), ran_seconds).actions,
    {
        broadcast use vstd::std_specs::hash::group_hash_axioms;

        if self.phase != Phase::Running {
            return nothing();
        }
        let ghost expected = after_exit(self@, report.text(), ran_seconds);
        self.process = None;
        self.endpoint = None;
        self.diagnostic = Some(report.diagnostic());
        self.leases = HashSet::new();
        if ran_seconds >= HEALTHY_SECONDS {
            self.failures = 0;
        }
        self.failures = self.failures.saturating_add(1);
        self.phase = Phase::Backoff;
        let mut actions = only(LifecycleAction::CancelLeases);
        add_action(&mut actions, LifecycleAction::WaitBackoff { seconds: backoff_delay(self.failures) });
        assert(action_list(actions@) =~= expected.actions);
        actions
    }

    fn on_backoff_over(&mut self, generation: u64) -> (result: Vec<LifecycleAction>)
        requires
            sound(old(self)@),
            old(self)@.generation < u64::MAX,
        ensures
            final(self)@ == after_backoff(old(self)@, generation).state,
            action_list(result@) == after_backoff(old(self)@, generation).actions,
    {
        if self.phase == Phase::Backoff && self.generation == generation {
            let mut target: Option<ModelRecord> = None;
            core::mem::swap(&mut target, &mut self.target);
            if let Some(model) = target {
                self.begin(model, Vec::new(), Vec::new());
                return only(LifecycleAction::Validate);
            }
        }
        nothing()
    }

    /// Takes note of an event and tells what is to be done, in this order.
    pub fn handle(&mut self, event: LifecycleEvent) -> (actions: Vec<LifecycleAction>)
        requires
            sound(old(self)@),
            old(self)@.generation < u64::MAX,
        ensures
            sound(final(self)@),
            final(self)@ == after(old(self)@, event@).state,
            action_list(actions@) == after(old(self)@, event@).actions,
    {
        proof {
            law_states_stay_sound(self@, event@);
        }
        match event {
            LifecycleEvent::Load { model, reply } => self.on_load(model, reply),
            LifecycleEvent::Acquire { model, reply } => self.on_acquire(model, reply),
            LifecycleEvent::Delivered(ticket) => self.on_delivered(ticket),
            LifecycleEvent::Release(ticket) => self.on_release(ticket),
            LifecycleEvent::Stop(request) => self.on_stop(request),
            LifecycleEvent::Validated(refusal) => self.on_validated(refusal),
            LifecycleEvent::Spawned(result) => self.on_spawned(result),
            LifecycleEvent::Ready(failure) => self.on_ready(failure),
            LifecycleEvent::LaunchTimedOut => self.on_launch_timeout(),
            LifecycleEvent::StopAttempted(result) => self.on_stop_attempt(result),
            LifecycleEvent::Exited { report, ran_seconds } => self.on_exit(report, ran_seconds),
            LifecycleEvent::BackoffOver { generation } => self.on_backoff_over(generation),
        }
    }
}

/// How long to wait before a model is started again, in seconds: doubled with
/// every failure in a row, up to a limit.
pub fn backoff_delay(failures: u32) -> (result: u64)
    ensures
        result == backoff_seconds(failures),
{
    let exponent: u32 = failures.saturating_sub(1);
    if exponent >= 5 {
        return 30;
    }
    let mut delay: u64 = 1;
    let mut doubled: u32 = 0;
    while doubled < exponent
        invariant
            doubled <= exponent < 5,
            delay == backoff_seconds((doubled + 1) as u32),
        decreases exponent - doubled,
    {
        delay = delay * 2;
        doubled = doubled + 1;
    }
    delay
}

} // verus!
