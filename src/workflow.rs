use vstd::prelude::*;
use crate::execution::{final_status, reports, execution_result_text, ProcessOutcome};
use crate::registry::{
    evolves, index_of, lemma_same_ids, status_of, transition_spec, with_status, ApprovalStatus,
    CommandBlock, CommandExecutor, RegistryError,
};
use crate::text::same_text;

verus! {

/// A human decision, or the synthetic one given when a decision took too long; each
/// carries the id of the proposal it is about.
#[derive(Debug, Clone)]
pub enum CommandApprovalEvent {
    Approve(String),
    Reject(String),
    Timeout(String),
}

/// The id of the proposal an event is about.
pub open spec fn event_id(e: CommandApprovalEvent) -> Seq<char> {
    match e {
        CommandApprovalEvent::Approve(id) => id@,
        CommandApprovalEvent::Reject(id) => id@,
        CommandApprovalEvent::Timeout(id) => id@,
    }
}

/// The status a decision moves a proposal to: a timeout counts as a rejection.
pub open spec fn decided_status(e: CommandApprovalEvent) -> ApprovalStatus {
    match e {
        CommandApprovalEvent::Approve(_) => ApprovalStatus::Approved,
        _ => ApprovalStatus::Rejected,
    }
}

/// Index of the first event about `id`, from `i` on.
pub open spec fn first_for_from(q: Seq<CommandApprovalEvent>, id: Seq<char>, i: int) -> Option<
    int,
>
    decreases q.len() - i,
{
    if i < 0 || i >= q.len() {
        None
    } else if event_id(q[i]) == id {
        Some(i)
    } else {
        first_for_from(q, id, i + 1)
    }
}

impl CommandApprovalEvent {
    /// The id of the proposal this event is about.
    pub fn proposal_id(&self) -> (r: &str)
        ensures
            r@ == event_id(*self),
    {
        match self {
            CommandApprovalEvent::Approve(id) => id.as_str(),
            CommandApprovalEvent::Reject(id) => id.as_str(),
            CommandApprovalEvent::Timeout(id) => id.as_str(),
        }
    }
}

/// Decisions that arrived and were not yet taken by the waiter of their proposal. A
/// decision about another proposal is never dropped: it stays, in arrival order, until
/// its own waiter takes it.
pub struct DecisionQueue {
    events: Vec<CommandApprovalEvent>,
}

impl View for DecisionQueue {
    type V = Seq<CommandApprovalEvent>;

    closed spec fn view(&self) -> Seq<CommandApprovalEvent> {
        self.events@
    }
}

impl DecisionQueue {
    /// An empty queue.
    pub fn new() -> (r: DecisionQueue)
        ensures
            r@ == Seq::<CommandApprovalEvent>::empty(),
    {
        DecisionQueue { events: Vec::new() }
    }

    /// How many decisions wait.
    pub fn len(&self) -> (r: usize)
        ensures
            r == self@.len(),
    {
        self.events.len()
    }

    /// Records a decision that arrived.
    pub fn push(&mut self, event: CommandApprovalEvent)
        ensures
            final(self)@ == old(self)@.push(event),
    {
        self.events.push(event);
    }

    /// Takes the earliest decision about `id`, leaving all others in order.
    pub fn take_for(&mut self, id: &str) -> (r: Option<CommandApprovalEvent>)
        ensures
            match first_for_from(old(self)@, id@, 0) {
                Some(i) => r == Some(old(self)@[i]) && final(self)@ == old(self)@.remove(i),
                None => r is None && final(self)@ == old(self)@,
            },
    {
        let mut i: usize = 0;
        while i < self.events.len()
            invariant
                self@ == old(self)@,
                i <= self@.len(),
                first_for_from(self@, id@, 0) == first_for_from(self@, id@, i as int),
            decreases self@.len() - i,
        {
            if same_text(self.events[i].proposal_id(), id) {
                let e = self.events.remove(i);
                return Some(e);
            }
            i += 1;
        }
        None
    }
}

/// Applies a decision to the registry: an approval approves the proposal, a rejection or
/// a timeout rejects it; either only from Pending. Returns the proposal's new status.
pub fn apply_decision(registry: &mut CommandExecutor, event: &CommandApprovalEvent) -> (r: Result<
    ApprovalStatus,
    RegistryError,
>)
    requires
        old(registry).wf(),
    ensures
        final(registry).wf(),
        final(registry).timeout() == old(registry).timeout(),
        final(registry).default_dir() == old(registry).default_dir(),
        evolves(old(registry)@, final(registry)@),
        transition_spec(
            old(registry)@,
            final(registry)@,
            event_id(*event),
            decided_status(*event),
            match r {
                Ok(_) => Ok(()),
                Err(e) => Err(e),
            },
        ),
        r matches Ok(s) ==> s == decided_status(*event) && status_of(final(registry)@, event_id(*event))
            == Some(s),
{
    let res = match event {
        CommandApprovalEvent::Approve(id) => registry.approve_command(id.as_str()),
        CommandApprovalEvent::Reject(id) => registry.reject_command(id.as_str()),
        CommandApprovalEvent::Timeout(id) => registry.reject_command(id.as_str()),
    };
    match res {
        Ok(()) => {
            proof {
                crate::registry::lemma_same_ids(old(registry)@, registry@);
            }
            match event {
                CommandApprovalEvent::Approve(_) => Ok(ApprovalStatus::Approved),
                _ => Ok(ApprovalStatus::Rejected),
            }
        },
        Err(e) => Err(e),
    }
}

/// What the runner does after a decision.
#[derive(Debug, Clone)]
pub enum NextStep {
    /// The proposal is Approved: start it with `begin_execution`, then run its command.
    Run(CommandBlock),
    /// Nothing to run: the proposal was rejected.
    Done,
}

/// Takes a decision: an approval approves the proposal and hands it back to be run; a
/// rejection or a timeout rejects it. Either only from Pending; otherwise nothing
/// changes and the error says why.
pub fn on_decision(registry: &mut CommandExecutor, event: &CommandApprovalEvent) -> (r: Result<
    NextStep,
    RegistryError,
>)
    requires
        old(registry).wf(),
    ensures
        final(registry).wf(),
        final(registry).timeout() == old(registry).timeout(),
        final(registry).default_dir() == old(registry).default_dir(),
        evolves(old(registry)@, final(registry)@),
        match index_of(old(registry)@, event_id(*event)) {
            None => r == Err::<NextStep, RegistryError>(RegistryError::NotFound) && final(registry)@
                == old(registry)@,
            Some(i) => if old(registry)@[i].approval_status is Pending {
                let b = with_status(old(registry)@[i], decided_status(*event));
                &&& final(registry)@ == old(registry)@.update(i, b)
                &&& match *event {
                    CommandApprovalEvent::Approve(_) => r matches Ok(NextStep::Run(run)) && run == b,
                    _ => r matches Ok(NextStep::Done),
                }
            } else {
                r == Err::<NextStep, RegistryError>(RegistryError::InvalidTransition) && final(registry)@ == old(registry)@
            },
        },
{
    let applied = apply_decision(registry, event);
    match applied {
        Err(e) => Err(e),
        Ok(ApprovalStatus::Approved) => {
            proof {
                lemma_same_ids(old(registry)@, registry@);
            }
            match registry.get_command_block(event.proposal_id()) {
                Ok(b) => Ok(NextStep::Run(b)),
                Err(e) => Err(e),
            }
        },
        Ok(_) => Ok(NextStep::Done),
    }
}

/// The block settled the way `outcome` says: Executed with what the run reports when the
/// process exited, Failed with the explanation otherwise.
pub open spec fn settled(b: CommandBlock, outcome: ProcessOutcome, timeout_secs: u64) -> bool {
    match b.approval_status {
        ApprovalStatus::Executed { output } => outcome is Finished && reports(
            outcome,
            timeout_secs,
            output,
        ),
        ApprovalStatus::Failed { reason } => !(outcome is Finished) && reason@
            == execution_result_text(outcome, timeout_secs),
        _ => false,
    }
}

/// What recording a run's outcome does: an Executing proposal settles as the outcome
/// says and no other entry changes; otherwise nothing changes and the error says why.
pub open spec fn outcome_spec(
    old: Seq<CommandBlock>,
    new: Seq<CommandBlock>,
    id: Seq<char>,
    outcome: ProcessOutcome,
    timeout_secs: u64,
    r: Result<(), RegistryError>,
) -> bool {
    match index_of(old, id) {
        None => r == Err::<(), RegistryError>(RegistryError::NotFound) && new == old,
        Some(i) => if old[i].approval_status is Executing {
            &&& r is Ok
            &&& new.len() == old.len()
            &&& forall|k: int| 0 <= k < old.len() && k != i ==> #[trigger] new[k] == old[k]
            &&& with_status(new[i], ApprovalStatus::Executing) == old[i]
            &&& settled(new[i], outcome, timeout_secs)
        } else {
            r == Err::<(), RegistryError>(RegistryError::InvalidTransition) && new == old
        },
    }
}

/// Records how a run ended: Executed with its output when the process exited, Failed
/// with the explanation otherwise. Only an Executing proposal takes it.
pub fn on_outcome(registry: &mut CommandExecutor, id: &str, outcome: &ProcessOutcome) -> (r: Result<
    (),
    RegistryError,
>)
    requires
        old(registry).wf(),
    ensures
        final(registry).wf(),
        final(registry).timeout() == old(registry).timeout(),
        final(registry).default_dir() == old(registry).default_dir(),
        evolves(old(registry)@, final(registry)@),
        outcome_spec(old(registry)@, final(registry)@, id@, *outcome, old(registry).timeout(), r),
{
    let timeout = registry.get_timeout();
    let status = final_status(outcome, timeout);
    registry.finalize(id, status)
}

/// Counts that describe how busy the approval workflow is.
#[derive(Debug, Clone, Copy, PartialEq, Eq, Structural)]
pub struct WorkflowStatistics {
    pub pending_approvals: usize,
    pub pending_commands: usize,
    pub active_operations: usize,
    pub active_command_blocks: usize,
    pub interface_open: bool,
}

impl WorkflowStatistics {
    /// Nothing waits and nothing runs.
    pub fn is_idle(&self) -> (r: bool)
        ensures
            r == (self.pending_approvals == 0 && self.pending_commands == 0
                && self.active_operations == 0 && self.active_command_blocks == 0),
    {
        self.pending_approvals == 0 && self.pending_commands == 0 && self.active_operations == 0
            && self.active_command_blocks == 0
    }

    /// The sum of the four counts.
    pub fn total_active(&self) -> (r: usize)
        requires
            self.pending_approvals + self.pending_commands + self.active_operations
                + self.active_command_blocks <= usize::MAX,
        ensures
            r == self.pending_approvals + self.pending_commands + self.active_operations
                + self.active_command_blocks,
    {
        self.pending_approvals + self.pending_commands + self.active_operations
            + self.active_command_blocks
    }
}

} // verus!
