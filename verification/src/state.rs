//! Session-level signal state (pause / security / workflow), shared through
//! an explicitly passed handle instead of a global.
//!
//! The one process-wide instance lives behind a [`SharedSignals`] handle
//! that the application creates once and hands to each subsystem; tests and
//! command-line tools may create handles of their own. One lock guards all
//! fields; taking it is left to the application, for a lock that the calling
//! thread already holds may make std panic or deadlock, and no contract here
//! can tell which thread holds it.
//!
//! The pause decisions, pending approvals and pending inputs are the
//! subsystems' own types; the state is generic over them.

use std::collections::HashMap;
use std::collections::HashSet;
use std::sync::Arc;
use std::sync::RwLock;
use std::time::Instant;
use vstd::prelude::*;

verus! {

// ===== Outside types =====

#[verifier::external_type_specification]
#[verifier::external_body]
pub struct ExInstant(Instant);

#[verifier::external_type_specification]
#[verifier::external_body]
#[verifier::reject_recursive_types(T)]
pub struct ExRwLock<T: ?Sized>(RwLock<T>);

// ===== The state =====

/// The shared handle on the signal state: one lock over all fields.
pub type SharedSignals<Decision, Approval, Input> = Arc<
    RwLock<SignalState<Decision, Approval, Input>>,
>;

/// Session-level signal state.
#[derive(Debug)]
pub struct SignalState<Decision, Approval, Input> {
    /// Pause decisions, by action id.
    pub pause_decisions: HashMap<String, Decision>,
    /// The action id currently paused.
    pub pause_action_id: Option<String>,
    /// Messages appended while the agent runs, consumed by the current agent.
    pub append_queue: Vec<String>,
    /// Notices of state changes (such as a switch of project directory),
    /// drained once at the next turn boundary and injected with the next
    /// user message; written while the agent runs too, they are neither lost
    /// nor injected twice.
    pub pending_notices: Vec<String>,
    /// The security subsystem's state.
    pub security: SecurityState<Approval, Input>,
    /// The id of the active workflow.
    pub active_workflow_id: Option<String>,
}

/// State of the security subsystem.
#[derive(Debug)]
pub struct SecurityState<Approval, Input> {
    /// Security confirmation results, by action id: approved, and when.
    pub security_results: HashMap<String, (bool, Instant)>,
    /// Tools approved for the whole session.
    pub session_approved_tools: HashSet<String>,
    /// Operations waiting for approval, by action id, with when they came.
    pub pending_approvals: HashMap<String, (Approval, Instant)>,
    /// Requests waiting for user input, by action id.
    pub pending_inputs: HashMap<String, StoredInput<Input>>,
}

/// A request for user input, with the answer once given.
#[derive(Debug)]
pub struct StoredInput<Input> {
    pub input: Input,
    pub response: Option<String>,
    pub timestamp: Instant,
}

impl<Approval, Input> SecurityState<Approval, Input> {
    /// Nothing recorded, nothing approved, nothing pending.
    pub open spec fn is_empty(&self) -> bool {
        &&& self.security_results@ == Map::<String, (bool, Instant)>::empty()
        &&& self.session_approved_tools@ == Set::<String>::empty()
        &&& self.pending_approvals@ == Map::<String, (Approval, Instant)>::empty()
        &&& self.pending_inputs@ == Map::<String, StoredInput<Input>>::empty()
    }
}

impl<Decision, Approval, Input> SignalState<Decision, Approval, Input> {
    /// No decision, nothing paused, no queued message or notice, empty
    /// security state, no active workflow.
    pub open spec fn is_empty(&self) -> bool {
        &&& self.pause_decisions@ == Map::<String, Decision>::empty()
        &&& self.pause_action_id is None
        &&& self.append_queue@.len() == 0
        &&& self.pending_notices@.len() == 0
        &&& self.security.is_empty()
        &&& self.active_workflow_id is None
    }
}

impl<Approval, Input> Default for SecurityState<Approval, Input> {
    fn default() -> (r: Self)
        ensures
            r.is_empty(),
    {
        SecurityState {
            security_results: HashMap::new(),
            session_approved_tools: HashSet::new(),
            pending_approvals: HashMap::new(),
            pending_inputs: HashMap::new(),
        }
    }
}

impl<Decision, Approval, Input> Default for SignalState<Decision, Approval, Input> {
    fn default() -> (r: Self)
        ensures
            r.is_empty(),
    {
        SignalState {
            pause_decisions: HashMap::new(),
            pause_action_id: None,
            append_queue: Vec::new(),
            pending_notices: Vec::new(),
            security: SecurityState::default(),
            active_workflow_id: None,
        }
    }
}

// ===== The shared handle =====

/// `RwLock::new` (std): a new lock holding `value`. What a lock holds can
/// change through any handle on it, so no clause speaks of its contents.
#[verifier::external_body]
fn new_lock<T>(value: T) -> RwLock<T> {
    RwLock::new(value)
}

/// A new shared handle on an empty signal state.
pub fn new_shared_signals<Decision, Approval, Input>() -> (r: SharedSignals<
    Decision,
    Approval,
    Input,
>) {
    Arc::new(new_lock(SignalState::default()))
}

impl<Decision, Approval, Input> SignalState<Decision, Approval, Input> {
    /// Queues a notice for the next turn boundary: it goes last among the
    /// pending notices, and nothing else changes.
    pub fn add_notice(&mut self, text: String)
        ensures
            final(self).pending_notices@ == old(self).pending_notices@.push(text),
            final(self).pause_decisions == old(self).pause_decisions,
            final(self).pause_action_id == old(self).pause_action_id,
            final(self).append_queue == old(self).append_queue,
            final(self).security == old(self).security,
            final(self).active_workflow_id == old(self).active_workflow_id,
    {
        self.pending_notices.push(text);
    }
}

} // verus!
