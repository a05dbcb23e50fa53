//! The reconnect-and-retry policy around one command, and the laws
//! that bound it: at most one reconnect-and-retry per command run, and
//! at most one feature negotiation per controller life.

use vstd::prelude::*;

verus! {

/// Whether the attempt about to run is the first one, or already the
/// retry after a reconnect.
#[derive(Debug, Clone, Copy, PartialEq, Eq, Structural)]
pub enum AttemptPhase {
    FirstAttempt,
    AfterReconnect,
}

/// Where one command run stands.
#[derive(Debug, Clone, Copy, PartialEq, Eq, Structural)]
pub enum CmdState {
    /// A (re)connect must happen before the next attempt.
    Connecting,
    /// The command itself must be attempted.
    Executing(AttemptPhase),
    /// The command went through; return its result.
    Succeeded,
    /// The (re)connect failed; return that connection error.
    ConnectFailed,
    /// The last attempt failed for good; return that failure verbatim.
    CommandFailed,
}

/// What the driver reports back after performing an action.
#[derive(Debug, Clone, Copy, PartialEq, Eq, Structural)]
pub enum CmdEvent {
    ReconnectOk,
    ReconnectFailed,
    ExecOk,
    /// The attempt failed; `recoverable` is the collaborator's own
    /// classification of the failure.
    ExecFailed { recoverable: bool },
}

/// What the driver must do next.
#[derive(Debug, Clone, Copy, PartialEq, Eq, Structural)]
pub enum CmdAction {
    Reconnect,
    Execute,
    ReturnSuccess,
    ReturnConnectError,
    ReturnCommandError,
}

/// Where a run starts: with a live connection the first attempt runs
/// at once; without one, the needed connect already counts as the one
/// reconnect, so the attempt after it is the last.
pub open spec fn spec_cmd_start(connected: bool) -> CmdState {
    if connected {
        CmdState::Executing(AttemptPhase::FirstAttempt)
    } else {
        CmdState::Connecting
    }
}

/// One step of the run: a failed first attempt with a recoverable
/// failure leads to exactly one reconnect and retry; any other failure,
/// and any failure of the retry, ends the run with that failure. A
/// finished run ignores further events, as does an event that does not
/// belong to the pending action.
pub open spec fn spec_cmd_step(s: CmdState, e: CmdEvent) -> CmdState {
    match (s, e) {
        (CmdState::Connecting, CmdEvent::ReconnectOk) => CmdState::Executing(
            AttemptPhase::AfterReconnect,
        ),
        (CmdState::Connecting, CmdEvent::ReconnectFailed) => CmdState::ConnectFailed,
        (CmdState::Executing(_), CmdEvent::ExecOk) => CmdState::Succeeded,
        (CmdState::Executing(p), CmdEvent::ExecFailed { recoverable }) => if recoverable && p
            == AttemptPhase::FirstAttempt {
            CmdState::Connecting
        } else {
            CmdState::CommandFailed
        },
        (_, _) => s,
    }
}

/// The action each state asks of the driver.
pub open spec fn spec_cmd_action(s: CmdState) -> CmdAction {
    match s {
        CmdState::Connecting => CmdAction::Reconnect,
        CmdState::Executing(_) => CmdAction::Execute,
        CmdState::Succeeded => CmdAction::ReturnSuccess,
        CmdState::ConnectFailed => CmdAction::ReturnConnectError,
        CmdState::CommandFailed => CmdAction::ReturnCommandError,
    }
}

/// The retry machine for one command run. The driver asks
/// [`CmdMachine::next_action`], performs it, and reports the outcome
/// through [`CmdMachine::step`] until a `Return` action comes out.
#[derive(Debug, Clone, Copy, PartialEq, Eq, Structural)]
pub struct CmdMachine {
    state: CmdState,
}

impl CmdMachine {
    /// The machine's position in the run.
    pub closed spec fn spec_state(&self) -> CmdState {
        self.state
    }

    /// Begins a run, given whether a connection is currently held.
    pub fn start(connected: bool) -> (r: CmdMachine)
        ensures
            r.spec_state() == spec_cmd_start(connected),
    {
        CmdMachine {
            state: if connected {
                CmdState::Executing(AttemptPhase::FirstAttempt)
            } else {
                CmdState::Connecting
            },
        }
    }

    /// What the driver must do next.
    pub fn next_action(&self) -> (a: CmdAction)
        ensures
            a == spec_cmd_action(self.spec_state()),
    {
        match self.state {
            CmdState::Connecting => CmdAction::Reconnect,
            CmdState::Executing(_) => CmdAction::Execute,
            CmdState::Succeeded => CmdAction::ReturnSuccess,
            CmdState::ConnectFailed => CmdAction::ReturnConnectError,
            CmdState::CommandFailed => CmdAction::ReturnCommandError,
        }
    }

    /// The driver reports what its last action came to.
    pub fn step(&mut self, e: CmdEvent)
        ensures
            final(self).spec_state() == spec_cmd_step(old(self).spec_state(), e),
    {
        let next = match (self.state, e) {
            (CmdState::Connecting, CmdEvent::ReconnectOk) => CmdState::Executing(
                AttemptPhase::AfterReconnect,
            ),
            (CmdState::Connecting, CmdEvent::ReconnectFailed) => CmdState::ConnectFailed,
            (CmdState::Executing(_), CmdEvent::ExecOk) => CmdState::Succeeded,
            (CmdState::Executing(p), CmdEvent::ExecFailed { recoverable }) => {
                if recoverable && matches!(p, AttemptPhase::FirstAttempt) {
                    CmdState::Connecting
                } else {
                    CmdState::CommandFailed
                }
            },
            (s, _) => s,
        };
        self.state = next;
    }
}

/// A step that spends the one allowed retry: a first attempt failing
/// with a recoverable failure.
pub open spec fn spec_is_retry_step(s: CmdState, e: CmdEvent) -> bool {
    s == CmdState::Executing(AttemptPhase::FirstAttempt) && (e matches CmdEvent::ExecFailed {
        recoverable,
    } && recoverable)
}

/// How many steps of a run spend a retry.
pub open spec fn spec_retry_count(s: CmdState, evs: Seq<CmdEvent>) -> nat
    decreases evs.len(),
{
    if evs.len() == 0 {
        0
    } else {
        (if spec_is_retry_step(s, evs[0]) {
            1nat
        } else {
            0nat
        }) + spec_retry_count(spec_cmd_step(s, evs[0]), evs.drop_first())
    }
}

proof fn lemma_no_retry_after_first(s: CmdState, evs: Seq<CmdEvent>)
    requires
        s != CmdState::Executing(AttemptPhase::FirstAttempt),
    ensures
        spec_retry_count(s, evs) == 0,
    decreases evs.len(),
{
    if evs.len() > 0 {
        lemma_no_retry_after_first(spec_cmd_step(s, evs[0]), evs.drop_first());
    }
}

/// The single-retry bound: however a command run unfolds — whatever
/// the attempts return and however often the driver keeps stepping —
/// at most one step of the run reconnects because of a failed attempt.
/// A permanently broken server can therefore cost one reconnect per
/// command, never a loop of them.
pub proof fn lemma_at_most_one_retry(connected: bool, evs: Seq<CmdEvent>)
    ensures
        spec_retry_count(spec_cmd_start(connected), evs) <= 1,
{
    lemma_retry_count_bound(spec_cmd_start(connected), evs);
}

proof fn lemma_retry_count_bound(s: CmdState, evs: Seq<CmdEvent>)
    ensures
        spec_retry_count(s, evs) <= 1,
    decreases evs.len(),
{
    if evs.len() > 0 {
        if spec_is_retry_step(s, evs[0]) {
            lemma_no_retry_after_first(spec_cmd_step(s, evs[0]), evs.drop_first());
        } else {
            lemma_retry_count_bound(spec_cmd_step(s, evs[0]), evs.drop_first());
        }
    }
}

/// The retry scenario, step by step: a first attempt that fails with a
/// recoverable failure leads to a reconnect; when the reconnect and the
/// retried command succeed, the run ends in success — after exactly
/// that one reconnect.
pub proof fn lemma_retry_once_then_success()
    ensures
        spec_cmd_step(
            spec_cmd_start(true),
            CmdEvent::ExecFailed { recoverable: true },
        ) == CmdState::Connecting,
        spec_cmd_action(CmdState::Connecting) == CmdAction::Reconnect,
        spec_cmd_step(CmdState::Connecting, CmdEvent::ReconnectOk) == CmdState::Executing(
            AttemptPhase::AfterReconnect,
        ),
        spec_cmd_step(
            CmdState::Executing(AttemptPhase::AfterReconnect),
            CmdEvent::ExecOk,
        ) == CmdState::Succeeded,
        spec_cmd_action(CmdState::Succeeded) == CmdAction::ReturnSuccess,
{
}

/// After the one retry, any failure is final: the run ends with that
/// failure returned verbatim, and no further reconnect is asked for.
pub proof fn lemma_second_failure_is_final(recoverable: bool)
    ensures
        spec_cmd_step(
            CmdState::Executing(AttemptPhase::AfterReconnect),
            CmdEvent::ExecFailed { recoverable },
        ) == CmdState::CommandFailed,
        spec_cmd_action(CmdState::CommandFailed) == CmdAction::ReturnCommandError,
        spec_cmd_step(CmdState::CommandFailed, CmdEvent::ExecFailed { recoverable })
            == CmdState::CommandFailed,
{
}

/// What happens to the controller's feature cache during reconnects.
#[derive(Debug, Clone, Copy, PartialEq, Eq, Structural)]
pub enum FeatEvent {
    /// A reconnect began, succeeded or failed: the cache survives.
    ConnectionChanged,
    /// A FEAT response was parsed and cached.
    FeatApplied,
}

/// The feature-cache flag after one event: only applying a FEAT
/// response changes it, and only to "negotiated". This is what the
/// controller's transitions promise of `spec_has_feat`.
pub open spec fn spec_feat_flag_step(has_feat: bool, e: FeatEvent) -> bool {
    match e {
        FeatEvent::ConnectionChanged => has_feat,
        FeatEvent::FeatApplied => true,
    }
}

/// A driver that issues FEAT only when the controller asks for it:
/// every `FeatApplied` happens while the feature set is not yet cached
/// and the configuration requests negotiation — exactly the controller's
/// `spec_needs_feat`.
pub open spec fn spec_feat_compliant(has_feat: bool, use_feat: bool, evs: Seq<FeatEvent>) -> bool
    decreases evs.len(),
{
    evs.len() == 0 || ({
        &&& (evs[0] == FeatEvent::FeatApplied ==> !has_feat && use_feat)
        &&& spec_feat_compliant(spec_feat_flag_step(has_feat, evs[0]), use_feat, evs.drop_first())
    })
}

/// How many events of a run negotiate features.
pub open spec fn spec_feat_count(evs: Seq<FeatEvent>) -> nat
    decreases evs.len(),
{
    if evs.len() == 0 {
        0
    } else {
        (if evs[0] == FeatEvent::FeatApplied {
            1nat
        } else {
            0nat
        }) + spec_feat_count(evs.drop_first())
    }
}

/// Feature negotiation runs at most once per controller life: across
/// arbitrarily many reconnects, a driver that issues FEAT only when
/// the controller's `needs_feat` says so negotiates at most once — and
/// never, once the cache is filled or when negotiation is not
/// configured.
pub proof fn lemma_feat_negotiated_at_most_once(
    has_feat: bool,
    use_feat: bool,
    evs: Seq<FeatEvent>,
)
    requires
        spec_feat_compliant(has_feat, use_feat, evs),
    ensures
        spec_feat_count(evs) <= (if has_feat || !use_feat {
            0nat
        } else {
            1nat
        }),
    decreases evs.len(),
{
    if evs.len() > 0 {
        lemma_feat_negotiated_at_most_once(
            spec_feat_flag_step(has_feat, evs[0]),
            use_feat,
            evs.drop_first(),
        );
    }
}

} // verus!
