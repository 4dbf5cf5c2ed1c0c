//! The state machines of instances and of operations, as explicit tables.
//!
//! ```text
//! unloaded -> queued -> loading -> ready -> draining -> unloading -> unloaded
//! ```
//!
//! A load that never becomes ready fails; a running process that exits crashes; a
//! drain may fall back to ready. A failed or crashed instance is queued again by
//! an explicit load, so no instance is ever stuck.

use vstd::prelude::*;

use super::error::{DomainError, ErrorCode};
use super::model::{InstanceState, OperationState};
use crate::text::push_text;

verus! {

impl InstanceState {
    /// The states that one step reaches.
    pub open spec fn targets(self) -> Seq<InstanceState> {
        match self {
            InstanceState::Queued => seq![InstanceState::Loading, InstanceState::Unloaded, InstanceState::Failed],
            InstanceState::Loading => seq![InstanceState::Ready, InstanceState::Failed, InstanceState::Unloading, InstanceState::Crashed],
            InstanceState::Ready => seq![InstanceState::Draining, InstanceState::Crashed],
            InstanceState::Draining => seq![InstanceState::Unloading, InstanceState::Ready, InstanceState::Crashed],
            InstanceState::Unloading => seq![InstanceState::Unloaded],
            InstanceState::Unloaded => seq![InstanceState::Queued],
            InstanceState::Failed => seq![InstanceState::Queued],
            InstanceState::Crashed => seq![InstanceState::Queued],
        }
    }

    /// `target` is one legal step away.
    pub open spec fn allows(self, target: InstanceState) -> bool {
        self.targets().contains(target)
    }

    /// The name of the state in messages.
    pub open spec fn name_text(self) -> Seq<char> {
        match self {
            InstanceState::Queued => "Queued"@,
            InstanceState::Loading => "Loading"@,
            InstanceState::Ready => "Ready"@,
            InstanceState::Draining => "Draining"@,
            InstanceState::Unloading => "Unloading"@,
            InstanceState::Unloaded => "Unloaded"@,
            InstanceState::Failed => "Failed"@,
            InstanceState::Crashed => "Crashed"@,
        }
    }

    fn name(self) -> (result: &'static str)
        ensures
            result@ == self.name_text(),
    {
        match self {
            InstanceState::Queued => "Queued",
            InstanceState::Loading => "Loading",
            InstanceState::Ready => "Ready",
            InstanceState::Draining => "Draining",
            InstanceState::Unloading => "Unloading",
            InstanceState::Unloaded => "Unloaded",
            InstanceState::Failed => "Failed",
            InstanceState::Crashed => "Crashed",
        }
    }

    /// The states that one step reaches.
    pub fn transitions(self) -> (result: Vec<InstanceState>)
        ensures
            result@ == self.targets(),
    {
        let reached: Vec<InstanceState> = match self {
            InstanceState::Queued => vec![InstanceState::Loading, InstanceState::Unloaded, InstanceState::Failed],
            InstanceState::Loading => vec![InstanceState::Ready, InstanceState::Failed, InstanceState::Unloading, InstanceState::Crashed],
            InstanceState::Ready => vec![InstanceState::Draining, InstanceState::Crashed],
            InstanceState::Draining => vec![InstanceState::Unloading, InstanceState::Ready, InstanceState::Crashed],
            InstanceState::Unloading => vec![InstanceState::Unloaded],
            InstanceState::Unloaded => vec![InstanceState::Queued],
            InstanceState::Failed => vec![InstanceState::Queued],
            InstanceState::Crashed => vec![InstanceState::Queued],
        };
        assert(reached@ =~= self.targets());
        reached
    }

    /// Whether `target` is one legal step away.
    pub fn can_transition_to(self, target: InstanceState) -> (result: bool)
        ensures
            result == self.allows(target),
    {
        let reached = self.transitions();
        for index in 0..reached.len()
            invariant
                reached@ == self.targets(),
                forall|earlier: int| 0 <= earlier < index ==> reached@[earlier] != target,
        {
            if reached[index] == target {
                assert(self.targets()[index as int] == target);
                return true;
            }
        }
        false
    }

    /// Whether no step leads away from the state.
    pub fn is_terminal(self) -> (result: bool)
        ensures
            result == (self.targets().len() == 0),
    {
        self.transitions().len() == 0
    }
}

/// The message about an illegal move.
pub open spec fn instance_move_text(from: InstanceState, to: InstanceState) -> Seq<char> {
    "instance cannot move from "@ + from.name_text() + " to "@ + to.name_text()
}

/// `error` reports the illegal move from `from` to `to`.
pub open spec fn invalid_instance_move(error: DomainError, from: InstanceState, to: InstanceState) -> bool {
    &&& error.code == ErrorCode::InvalidStateTransition
    &&& error.message@ == instance_move_text(from, to)
}

/// The state `to`, where it is one legal step away from `from`.
pub fn transition_instance(from: InstanceState, to: InstanceState) -> (result: Result<InstanceState, DomainError>)
    ensures
        match result {
            Ok(reached) => from.allows(to) && reached == to,
            Err(error) => !from.allows(to) && invalid_instance_move(error, from, to),
        },
{
    if from.can_transition_to(to) {
        Ok(to)
    } else {
        let mut message = "instance cannot move from ".to_owned();
        push_text(&mut message, from.name());
        push_text(&mut message, " to ");
        push_text(&mut message, to.name());
        Err(DomainError::with_message(ErrorCode::InvalidStateTransition, message))
    }
}

impl OperationState {
    /// The states that one step reaches.
    pub open spec fn targets(self) -> Seq<OperationState> {
        match self {
            OperationState::Queued => seq![OperationState::Running, OperationState::Cancelled],
            OperationState::Running => seq![OperationState::Succeeded, OperationState::Failed, OperationState::Cancelled],
            OperationState::Succeeded => seq![],
            OperationState::Failed => seq![],
            OperationState::Cancelled => seq![],
        }
    }

    /// `target` is one legal step away.
    pub open spec fn allows(self, target: OperationState) -> bool {
        self.targets().contains(target)
    }

    /// The name of the state in messages.
    pub open spec fn name_text(self) -> Seq<char> {
        match self {
            OperationState::Queued => "Queued"@,
            OperationState::Running => "Running"@,
            OperationState::Succeeded => "Succeeded"@,
            OperationState::Failed => "Failed"@,
            OperationState::Cancelled => "Cancelled"@,
        }
    }

    fn name(self) -> (result: &'static str)
        ensures
            result@ == self.name_text(),
    {
        match self {
            OperationState::Queued => "Queued",
            OperationState::Running => "Running",
            OperationState::Succeeded => "Succeeded",
            OperationState::Failed => "Failed",
            OperationState::Cancelled => "Cancelled",
        }
    }

    /// The states that one step reaches.
    pub fn transitions(self) -> (result: Vec<OperationState>)
        ensures
            result@ == self.targets(),
    {
        let reached: Vec<OperationState> = match self {
            OperationState::Queued => vec![OperationState::Running, OperationState::Cancelled],
            OperationState::Running => vec![OperationState::Succeeded, OperationState::Failed, OperationState::Cancelled],
            OperationState::Succeeded => Vec::new(),
            OperationState::Failed => Vec::new(),
            OperationState::Cancelled => Vec::new(),
        };
        assert(reached@ =~= self.targets());
        reached
    }

    /// Whether `target` is one legal step away.
    pub fn can_transition_to(self, target: OperationState) -> (result: bool)
        ensures
            result == self.allows(target),
    {
        let reached = self.transitions();
        for index in 0..reached.len()
            invariant
                reached@ == self.targets(),
                forall|earlier: int| 0 <= earlier < index ==> reached@[earlier] != target,
        {
            if reached[index] == target {
                assert(self.targets()[index as int] == target);
                return true;
            }
        }
        false
    }

    /// Whether no step leads away from the state.
    pub fn is_terminal(self) -> (result: bool)
        ensures
            result == (self.targets().len() == 0),
    {
        self.transitions().len() == 0
    }
}

/// The message about an illegal move.
pub open spec fn operation_move_text(from: OperationState, to: OperationState) -> Seq<char> {
    "operation cannot move from "@ + from.name_text() + " to "@ + to.name_text()
}

/// `error` reports the illegal move from `from` to `to`.
pub open spec fn invalid_operation_move(error: DomainError, from: OperationState, to: OperationState) -> bool {
    &&& error.code == ErrorCode::InvalidStateTransition
    &&& error.message@ == operation_move_text(from, to)
}

/// The state `to`, where it is one legal step away from `from`.
pub fn transition_operation(from: OperationState, to: OperationState) -> (result: Result<OperationState, DomainError>)
    ensures
        match result {
            Ok(reached) => from.allows(to) && reached == to,
            Err(error) => !from.allows(to) && invalid_operation_move(error, from, to),
        },
{
    if from.can_transition_to(to) {
        Ok(to)
    } else {
        let mut message = "operation cannot move from ".to_owned();
        push_text(&mut message, from.name());
        push_text(&mut message, " to ");
        push_text(&mut message, to.name());
        Err(DomainError::with_message(ErrorCode::InvalidStateTransition, message))
    }
}

impl InstanceState {
    /// The states that may follow a ready instance: drain or crash.
    pub fn ready_followers() -> (result: Vec<InstanceState>)
        ensures
            result@ == InstanceState::Ready.targets(),
    {
        InstanceState::Ready.transitions()
    }
}

/// No state of an instance is final.
pub proof fn law_no_instance_state_is_terminal(state: InstanceState)
    ensures
        state.targets().len() != 0,
{
}

/// Staying in a state is no step, for instances and for operations.
pub proof fn law_no_state_follows_itself(instance: InstanceState, operation: OperationState)
    ensures
        !instance.allows(instance),
        !operation.allows(operation),
{
}

/// Every running state may crash: a process may exit at any time.
pub proof fn law_running_states_may_crash(state: InstanceState)
    ensures
        state.allows(InstanceState::Crashed) <==> (state == InstanceState::Loading || state
            == InstanceState::Ready || state == InstanceState::Draining),
{
    let targets = state.targets();
    if state == InstanceState::Loading {
        assert(targets[3] == InstanceState::Crashed);
    }
    if state == InstanceState::Ready {
        assert(targets[1] == InstanceState::Crashed);
    }
    if state == InstanceState::Draining {
        assert(targets[2] == InstanceState::Crashed);
    }
}

/// An explicit load starts from every state without a process, and only from
/// those.
pub proof fn law_loads_start_where_no_process_runs(state: InstanceState)
    ensures
        state.allows(InstanceState::Queued) <==> (state == InstanceState::Unloaded || state
            == InstanceState::Failed || state == InstanceState::Crashed),
{
    if state == InstanceState::Unloaded || state == InstanceState::Failed || state == InstanceState::Crashed {
        assert(state.targets()[0] == InstanceState::Queued);
    }
}

/// An instance becomes ready only out of a load or of a drain that fell back.
pub proof fn law_ready_follows_loading_or_draining(state: InstanceState)
    ensures
        state.allows(InstanceState::Ready) <==> (state == InstanceState::Loading || state
            == InstanceState::Draining),
{
    if state == InstanceState::Loading {
        assert(state.targets()[0] == InstanceState::Ready);
    }
    if state == InstanceState::Draining {
        assert(state.targets()[1] == InstanceState::Ready);
    }
}

/// An operation has ended exactly when it succeeded, failed or was cancelled, and
/// an operation that has ended never moves again.
pub proof fn law_ended_operations_stay_ended(state: OperationState, to: OperationState)
    ensures
        state.targets().len() == 0 <==> (state == OperationState::Succeeded || state
            == OperationState::Failed || state == OperationState::Cancelled),
        state.targets().len() == 0 ==> !state.allows(to),
{
}

} // verus!
