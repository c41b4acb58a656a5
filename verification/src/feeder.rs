//! The automatic feeder: when a feed is due it commits an intent, asks the
//! trusted gateway to feed, and settles the attempt by the gateway's
//! answer. The worker performs each action and hands back what it found.
use vstd::prelude::*;

use crate::config::RuntimeMode;
use crate::gateway::{status_check, FeedOutcome, FeedRequestStatus, FeederSafety, GatewayError};
use crate::ledger::feed::StoredFeedAttemptStatus;

verus! {

/// What one step of the feed worker did.
#[derive(Debug, Clone, Copy, PartialEq, Eq, Structural)]
pub enum FeedWorkerStep {
    Idle,
    NotDispatched { attempt_id: u128 },
    ShadowBlocked { feeds_due: u64 },
    OverrideBlocked { feeds_due: u64 },
    RemoteDisabled { feeds_due: u64 },
    SafetyUnavailable { feeds_due: u64 },
    UnknownFeedBlocked { attempt_id: u128 },
    Fed { attempt_id: u128, remaining_sats: u64 },
}

/// The next thing the worker does when no attempt is unresolved.
#[derive(Debug, Clone, Copy, PartialEq, Eq, Structural)]
pub enum FeedPlan {
    /// The step ends here.
    Done(FeedWorkerStep),
    /// Ask the gateway whether the feeder is safe to actuate.
    CheckSafety { feeds_due: u64 },
    /// Commit a feed intent and request the feed.
    Begin,
}

/// Why the feeder could not act.
#[derive(Debug, Clone, Copy, PartialEq, Eq, Structural)]
pub enum FeederError {
    ZeroThreshold,
    Gateway(GatewayError),
}

/// Plan from the feed credit: nothing is due below one threshold; shadow
/// mode only reports what is due; otherwise the feeder's safety decides.
pub open spec fn credit_plan(threshold_sats: u64, credit_sats: u64, mode: RuntimeMode) -> Result<FeedPlan, FeederError> {
    if threshold_sats == 0 {
        Err(FeederError::ZeroThreshold)
    } else if credit_sats / threshold_sats == 0 {
        Ok(FeedPlan::Done(FeedWorkerStep::Idle))
    } else if mode == RuntimeMode::Shadow {
        Ok(FeedPlan::Done(FeedWorkerStep::ShadowBlocked { feeds_due: (credit_sats / threshold_sats) as u64 }))
    } else {
        Ok(FeedPlan::CheckSafety { feeds_due: (credit_sats / threshold_sats) as u64 })
    }
}

/// Plan from the feed credit (see `credit_plan`).
pub fn plan_after_credit(threshold_sats: u64, credit_sats: u64, mode: RuntimeMode) -> (res: Result<FeedPlan, FeederError>)
    ensures
        res == credit_plan(threshold_sats, credit_sats, mode),
        threshold_sats == 0 ==> res == Err::<FeedPlan, FeederError>(FeederError::ZeroThreshold),
        0 < threshold_sats && credit_sats < threshold_sats ==> res == Ok::<FeedPlan, FeederError>(
            FeedPlan::Done(FeedWorkerStep::Idle),
        ),
        0 < threshold_sats <= credit_sats && (mode == RuntimeMode::Canary || mode == RuntimeMode::Active)
            ==> res == Ok::<FeedPlan, FeederError>(
            FeedPlan::CheckSafety { feeds_due: credit_sats / threshold_sats },
        ),
        0 < threshold_sats <= credit_sats && mode == RuntimeMode::Shadow ==> res == Ok::<
            FeedPlan,
            FeederError,
        >(FeedPlan::Done(FeedWorkerStep::ShadowBlocked { feeds_due: credit_sats / threshold_sats })),
{
    proof {
        law_feeding_plan_follows_mode(threshold_sats, credit_sats, mode);
    }
    if threshold_sats == 0 {
        return Err(FeederError::ZeroThreshold);
    }
    let feeds_due = credit_sats / threshold_sats;
    if feeds_due == 0 {
        return Ok(FeedPlan::Done(FeedWorkerStep::Idle));
    }
    if !mode.feeder_enabled() {
        return Ok(FeedPlan::Done(FeedWorkerStep::ShadowBlocked { feeds_due }));
    }
    Ok(FeedPlan::CheckSafety { feeds_due })
}

/// What the credit plan is, for every threshold, credit and mode: a zero
/// threshold is refused; below one threshold nothing is due; from one
/// threshold on, the feeds due are `credit / threshold` (at least one), and
/// canary and active mode go on to the feeder's safety while shadow mode
/// only reports them.
pub proof fn law_feeding_plan_follows_mode(threshold_sats: u64, credit_sats: u64, mode: RuntimeMode)
    ensures
        threshold_sats == 0 ==> credit_plan(threshold_sats, credit_sats, mode) == Err::<
            FeedPlan,
            FeederError,
        >(FeederError::ZeroThreshold),
        0 < threshold_sats && credit_sats < threshold_sats ==> credit_plan(
            threshold_sats,
            credit_sats,
            mode,
        ) == Ok::<FeedPlan, FeederError>(FeedPlan::Done(FeedWorkerStep::Idle)),
        0 < threshold_sats <= credit_sats && (mode == RuntimeMode::Canary || mode == RuntimeMode::Active)
            ==> credit_sats / threshold_sats >= 1 && credit_plan(threshold_sats, credit_sats, mode)
            == Ok::<FeedPlan, FeederError>(
            FeedPlan::CheckSafety { feeds_due: credit_sats / threshold_sats },
        ),
        0 < threshold_sats <= credit_sats && mode == RuntimeMode::Shadow ==> credit_sats
            / threshold_sats >= 1 && credit_plan(threshold_sats, credit_sats, mode) == Ok::<
            FeedPlan,
            FeederError,
        >(FeedPlan::Done(FeedWorkerStep::ShadowBlocked { feeds_due: credit_sats / threshold_sats })),
        credit_plan(threshold_sats, credit_sats, mode) matches Ok(
            FeedPlan::Done(FeedWorkerStep::ShadowBlocked { .. }),
        ) ==> mode == RuntimeMode::Shadow,
{
    if threshold_sats > 0 {
        let c = credit_sats as int;
        let t = threshold_sats as int;
        assert(c / t == 0 <==> c < t) by (nonlinear_arith)
            requires
                t > 0,
                c >= 0,
        ;
        assert(c / t <= c) by (nonlinear_arith)
            requires
                t > 0,
                c >= 0,
        ;
    }
}

/// Plan from the feeder's safety, `None` where the gateway could not say:
/// automatic feeding stays blocked unless the override is off and remote
/// feeding is on.
pub open spec fn safety_plan(feeds_due: u64, safety: Option<FeederSafety>) -> FeedPlan {
    match safety {
        None => FeedPlan::Done(FeedWorkerStep::SafetyUnavailable { feeds_due }),
        Some(s) => if s.override_enabled {
            FeedPlan::Done(FeedWorkerStep::OverrideBlocked { feeds_due })
        } else if !s.remote_enabled {
            FeedPlan::Done(FeedWorkerStep::RemoteDisabled { feeds_due })
        } else {
            FeedPlan::Begin
        },
    }
}

/// Plan from the feeder's safety (see `safety_plan`).
pub fn plan_after_safety(feeds_due: u64, safety: Option<FeederSafety>) -> (plan: FeedPlan)
    ensures
        plan == safety_plan(feeds_due, safety),
{
    match safety {
        None => FeedPlan::Done(FeedWorkerStep::SafetyUnavailable { feeds_due }),
        Some(s) => if s.override_enabled {
            FeedPlan::Done(FeedWorkerStep::OverrideBlocked { feeds_due })
        } else if !s.remote_enabled {
            FeedPlan::Done(FeedWorkerStep::RemoteDisabled { feeds_due })
        } else {
            FeedPlan::Begin
        },
    }
}

/// The feeder is never actuated in shadow mode, nor unless the gateway
/// reports the override off and remote feeding on.
pub proof fn law_feeding_needs_mode_and_safety(
    threshold_sats: u64,
    credit_sats: u64,
    feeds_due: u64,
    safety: Option<FeederSafety>,
)
    ensures
        credit_plan(threshold_sats, credit_sats, RuntimeMode::Shadow) matches Ok(p) ==> (p is Done),
        safety_plan(feeds_due, safety) == FeedPlan::Begin ==> (safety matches Some(s) && !s.override_enabled
            && s.remote_enabled),
{
}

/// What the ledger does with an attempt after the gateway answered.
#[derive(Debug, Clone, Copy, PartialEq, Eq, Structural)]
pub enum OutcomeAction {
    /// Confirm the committed intent: debit it.
    ConfirmIntent,
    /// Reconcile the unknown attempt as fed: debit it.
    ReconcileFed,
    /// Resolve the attempt as never dispatched, without a debit.
    ResolveNotDispatched { retry_after_seconds: u64 },
    /// Mark the committed intent unknown; poll its status only.
    MarkUnknown,
    /// Leave the unknown attempt as it is; poll its status only.
    KeepUnknown,
}

/// Settle an attempt in state `stored` by the gateway's answer about it:
/// the answer must be consistent and about this attempt; a confirmation
/// debits the attempt, a refusal resolves it without a debit, and a
/// pending or ambiguous answer leaves it unknown.
pub open spec fn settle(attempt_id: u128, stored: StoredFeedAttemptStatus, status: FeedRequestStatus) -> Result<
    OutcomeAction,
    FeederError,
> {
    match status_check(status, attempt_id) {
        Err(e) => Err(FeederError::Gateway(e)),
        Ok(()) => Ok(
            match status.status {
                FeedOutcome::Confirmed => if stored == StoredFeedAttemptStatus::IntentCommitted {
                    OutcomeAction::ConfirmIntent
                } else {
                    OutcomeAction::ReconcileFed
                },
                FeedOutcome::NotDispatched => OutcomeAction::ResolveNotDispatched {
                    retry_after_seconds: status.refusal->0.retry_after_seconds,
                },
                _ => if stored == StoredFeedAttemptStatus::IntentCommitted {
                    OutcomeAction::MarkUnknown
                } else {
                    OutcomeAction::KeepUnknown
                },
            },
        ),
    }
}

/// Settle an attempt (see `settle`).
pub fn apply_outcome(attempt_id: u128, stored: StoredFeedAttemptStatus, status: &FeedRequestStatus) -> (res: Result<
    OutcomeAction,
    FeederError,
>)
    ensures
        res == settle(attempt_id, stored, *status),
{
    if let Err(e) = status.validate(attempt_id) {
        return Err(FeederError::Gateway(e));
    }
    match status.status {
        FeedOutcome::Confirmed => Ok(
            match stored {
                StoredFeedAttemptStatus::IntentCommitted => OutcomeAction::ConfirmIntent,
                StoredFeedAttemptStatus::Unknown => OutcomeAction::ReconcileFed,
            },
        ),
        FeedOutcome::NotDispatched => match status.refusal {
            Some(r) => Ok(OutcomeAction::ResolveNotDispatched { retry_after_seconds: r.retry_after_seconds }),
            None => Err(FeederError::Gateway(GatewayError::ContradictoryOutcome)),
        },
        _ => Ok(
            match stored {
                StoredFeedAttemptStatus::IntentCommitted => OutcomeAction::MarkUnknown,
                StoredFeedAttemptStatus::Unknown => OutcomeAction::KeepUnknown,
            },
        ),
    }
}

/// Only a confirmation of this very attempt debits it: a pending,
/// ambiguous or refused answer never does, nor an answer about another
/// request.
pub proof fn law_only_confirmation_debits(attempt_id: u128, stored: StoredFeedAttemptStatus, status: FeedRequestStatus)
    ensures
        settle(attempt_id, stored, status) matches Ok(a) && (a == OutcomeAction::ConfirmIntent || a
            == OutcomeAction::ReconcileFed) ==> status.status == FeedOutcome::Confirmed && status.request_id
            == attempt_id,
{
}

/// The step an action reports once the ledger has carried it out;
/// `remaining_sats` is the credit left after a debit.
pub fn outcome_step(attempt_id: u128, action: OutcomeAction, remaining_sats: u64) -> (step: FeedWorkerStep)
    ensures
        step == match action {
            OutcomeAction::ConfirmIntent => FeedWorkerStep::Fed { attempt_id, remaining_sats },
            OutcomeAction::ReconcileFed => FeedWorkerStep::Fed { attempt_id, remaining_sats },
            OutcomeAction::ResolveNotDispatched { .. } => FeedWorkerStep::NotDispatched { attempt_id },
            _ => FeedWorkerStep::UnknownFeedBlocked { attempt_id },
        },
{
    match action {
        OutcomeAction::ConfirmIntent => FeedWorkerStep::Fed { attempt_id, remaining_sats },
        OutcomeAction::ReconcileFed => FeedWorkerStep::Fed { attempt_id, remaining_sats },
        OutcomeAction::ResolveNotDispatched { .. } => FeedWorkerStep::NotDispatched { attempt_id },
        _ => FeedWorkerStep::UnknownFeedBlocked { attempt_id },
    }
}

/// How long the worker waits after a step, in seconds: the configured
/// inter-feed delay after a feed, five seconds while blocked on something
/// unresolved or after a failure, two seconds otherwise.
pub fn worker_delay(step: Option<FeedWorkerStep>, inter_feed_delay_seconds: u64) -> (seconds: u64)
    ensures
        seconds == match step {
            Some(FeedWorkerStep::Fed { .. }) => inter_feed_delay_seconds,
            Some(FeedWorkerStep::UnknownFeedBlocked { .. }) => 5,
            Some(FeedWorkerStep::SafetyUnavailable { .. }) => 5,
            None => 5,
            _ => 2,
        },
{
    match step {
        Some(FeedWorkerStep::Fed { .. }) => inter_feed_delay_seconds,
        Some(FeedWorkerStep::UnknownFeedBlocked { .. }) => 5,
        Some(FeedWorkerStep::SafetyUnavailable { .. }) => 5,
        None => 5,
        _ => 2,
    }
}

} // verus!
