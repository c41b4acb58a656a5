//! Feed credit accounting and the single-attempt feed state machine.
use vstd::prelude::*;

verus! {

/// Abstract value of a [`FeedLedger`].
pub struct FeedLedgerModel {
    pub threshold_sats: nat,
    pub credit_sats: nat,
}

/// Credit toward feeds; one feed costs `threshold_sats`.
#[derive(Debug, PartialEq, Eq)]
pub struct FeedLedger {
    threshold_sats: u64,
    credit_sats: u64,
}

#[derive(Debug, Clone, Copy, PartialEq, Eq, Structural)]
pub enum FeedError {
    ZeroThreshold,
    CreditOverflow,
    NoFeedDue,
    OverrideEnabled,
    AttemptAlreadyActive,
    NoActiveAttempt,
    AttemptIdMismatch,
    InvalidAttemptState,
}

impl FeedError {
    /// Operator-facing description of the refusal.
    pub fn description(self) -> (text: &'static str)
        ensures
            self == FeedError::ZeroThreshold ==> text@ == "feeder threshold must be greater than zero"@,
            self == FeedError::CreditOverflow ==> text@ == "feed credit overflow"@,
            self == FeedError::NoFeedDue ==> text@ == "no feed is due"@,
            self == FeedError::OverrideEnabled ==> text@
                == "automatic feeding is blocked by FeederOverride"@,
            self == FeedError::AttemptAlreadyActive ==> text@ == "a feed attempt is already active"@,
            self == FeedError::NoActiveAttempt ==> text@ == "no feed attempt is active"@,
            self == FeedError::AttemptIdMismatch ==> text@
                == "feed attempt id does not match the active attempt"@,
            self == FeedError::InvalidAttemptState ==> text@
                == "feed attempt is in an invalid state for this transition"@,
    {
        match self {
            FeedError::ZeroThreshold => "feeder threshold must be greater than zero",
            FeedError::CreditOverflow => "feed credit overflow",
            FeedError::NoFeedDue => "no feed is due",
            FeedError::OverrideEnabled => "automatic feeding is blocked by FeederOverride",
            FeedError::AttemptAlreadyActive => "a feed attempt is already active",
            FeedError::NoActiveAttempt => "no feed attempt is active",
            FeedError::AttemptIdMismatch => "feed attempt id does not match the active attempt",
            FeedError::InvalidAttemptState => "feed attempt is in an invalid state for this transition",
        }
    }
}

impl Clone for FeedLedger {
    fn clone(&self) -> (r: Self)
        ensures
            r@ == self@,
    {
        proof {
            use_type_invariant(self);
        }
        FeedLedger { threshold_sats: self.threshold_sats, credit_sats: self.credit_sats }
    }
}

impl Clone for FeedRuntime {
    fn clone(&self) -> (r: Self)
        ensures
            r@ == self@,
    {
        FeedRuntime { ledger: self.ledger.clone(), active_attempt: self.active_attempt }
    }
}

impl View for FeedLedger {
    type V = FeedLedgerModel;

    closed spec fn view(&self) -> FeedLedgerModel {
        FeedLedgerModel {
            threshold_sats: self.threshold_sats as nat,
            credit_sats: self.credit_sats as nat,
        }
    }
}

impl FeedLedger {
    #[verifier::type_invariant]
    closed spec fn positive_threshold(self) -> bool {
        self.threshold_sats > 0
    }

    pub fn new(threshold_sats: u64) -> (res: Result<Self, FeedError>)
        ensures
            res is Ok <==> threshold_sats > 0,
            res matches Ok(l) ==> l@.threshold_sats == threshold_sats && l@.credit_sats == 0,
            res matches Err(e) ==> e == FeedError::ZeroThreshold,
    {
        if threshold_sats == 0 {
            return Err(FeedError::ZeroThreshold);
        }
        Ok(FeedLedger { threshold_sats, credit_sats: 0 })
    }

    pub fn with_credit(threshold_sats: u64, credit_sats: u64) -> (res: Result<Self, FeedError>)
        ensures
            res is Ok <==> threshold_sats > 0,
            res matches Ok(l) ==> l@.threshold_sats == threshold_sats && l@.credit_sats
                == credit_sats,
            res matches Err(e) ==> e == FeedError::ZeroThreshold,
    {
        if threshold_sats == 0 {
            return Err(FeedError::ZeroThreshold);
        }
        Ok(FeedLedger { threshold_sats, credit_sats })
    }

    /// Add settled credit; an overflow leaves the ledger unchanged.
    pub fn credit(&mut self, amount_sats: u64) -> (res: Result<(), FeedError>)
        ensures
            final(self)@.threshold_sats == old(self)@.threshold_sats,
            res is Ok <==> old(self)@.credit_sats + amount_sats <= u64::MAX,
            res is Ok ==> final(self)@.credit_sats == old(self)@.credit_sats + amount_sats,
            res is Err ==> final(self)@ == old(self)@ && res == Err::<(), FeedError>(
                FeedError::CreditOverflow,
            ),
    {
        proof {
            use_type_invariant(&*self);
        }
        match self.credit_sats.checked_add(amount_sats) {
            Some(total) => {
                self.credit_sats = total;
                Ok(())
            },
            None => Err(FeedError::CreditOverflow),
        }
    }

    /// Debit exactly one threshold for a confirmed feed.
    fn debit_confirmed_feed(&mut self) -> (res: Result<(), FeedError>)
        ensures
            final(self)@.threshold_sats == old(self)@.threshold_sats,
            res is Ok <==> old(self)@.credit_sats >= old(self)@.threshold_sats,
            res is Ok ==> final(self)@.credit_sats == old(self)@.credit_sats - old(
                self,
            )@.threshold_sats,
            res is Err ==> final(self)@ == old(self)@ && res == Err::<(), FeedError>(
                FeedError::NoFeedDue,
            ),
    {
        proof {
            use_type_invariant(&*self);
        }
        if self.credit_sats < self.threshold_sats {
            return Err(FeedError::NoFeedDue);
        }
        self.credit_sats = self.credit_sats - self.threshold_sats;
        Ok(())
    }

    pub fn threshold_sats(&self) -> (t: u64)
        ensures
            t == self@.threshold_sats,
            t > 0,
    {
        proof {
            use_type_invariant(self);
        }
        self.threshold_sats
    }

    pub fn credit_sats(&self) -> (c: u64)
        ensures
            c == self@.credit_sats,
    {
        self.credit_sats
    }

    /// Whole feeds the current credit pays for.
    pub fn feeds_due(&self) -> (n: u64)
        ensures
            n == self@.credit_sats / self@.threshold_sats,
    {
        proof {
            use_type_invariant(self);
        }
        self.credit_sats / self.threshold_sats
    }

    /// Credit already collected toward the next feed.
    pub fn remainder_sats(&self) -> (r: u64)
        ensures
            r == self@.credit_sats % self@.threshold_sats,
    {
        proof {
            use_type_invariant(self);
        }
        self.credit_sats % self.threshold_sats
    }
}

#[derive(Debug, Clone, Copy, PartialEq, Eq, Structural)]
pub enum FeedAttemptStatus {
    IntentCommitted,
    Unknown,
}

/// One feed attempt, identified by a random 128-bit identifier.
#[derive(Debug, Clone, Copy, PartialEq, Eq, Structural)]
pub struct FeedAttempt {
    pub id: u128,
    pub status: FeedAttemptStatus,
}

/// Abstract value of a [`FeedRuntime`].
pub struct FeedRuntimeModel {
    pub ledger: FeedLedgerModel,
    pub active_attempt: Option<FeedAttempt>,
}

/// The ledger plus at most one feed attempt in flight.
#[derive(Debug, PartialEq, Eq)]
pub struct FeedRuntime {
    ledger: FeedLedger,
    active_attempt: Option<FeedAttempt>,
}

impl View for FeedRuntime {
    type V = FeedRuntimeModel;

    closed spec fn view(&self) -> FeedRuntimeModel {
        FeedRuntimeModel { ledger: self.ledger@, active_attempt: self.active_attempt }
    }
}

/// A fresh random attempt identifier (UUID version 4). Nothing is promised of
/// its value: callers only compare it with identifiers handed back later.
#[verifier::external_body]
fn fresh_attempt_id() -> u128 {
    uuid::Uuid::new_v4().as_u128()
}

/// Which refusal a transition that expects `expected` meets in `active`.
pub open spec fn attempt_check(active: Option<FeedAttempt>, id: u128, expected: FeedAttemptStatus) -> Result<(), FeedError> {
    match active {
        Some(a) => if a.id == id && a.status == expected {
            Ok(())
        } else if a.id != id {
            Err(FeedError::AttemptIdMismatch)
        } else {
            Err(FeedError::InvalidAttemptState)
        },
        None => Err(FeedError::NoActiveAttempt),
    }
}

impl FeedRuntime {
    pub fn new(ledger: FeedLedger) -> (r: Self)
        ensures
            r@.ledger == ledger@,
            r@.active_attempt is None,
    {
        FeedRuntime { ledger, active_attempt: None }
    }

    pub fn ledger(&self) -> (l: &FeedLedger)
        ensures
            l@ == self@.ledger,
    {
        &self.ledger
    }

    pub fn active_attempt(&self) -> (a: Option<FeedAttempt>)
        ensures
            a == self@.active_attempt,
    {
        self.active_attempt
    }

    pub fn credit(&mut self, amount_sats: u64) -> (res: Result<(), FeedError>)
        ensures
            final(self)@.active_attempt == old(self)@.active_attempt,
            final(self)@.ledger.threshold_sats == old(self)@.ledger.threshold_sats,
            res is Ok <==> old(self)@.ledger.credit_sats + amount_sats <= u64::MAX,
            res is Ok ==> final(self)@.ledger.credit_sats == old(self)@.ledger.credit_sats
                + amount_sats,
            res is Err ==> final(self)@ == old(self)@ && res == Err::<(), FeedError>(
                FeedError::CreditOverflow,
            ),
    {
        self.ledger.credit(amount_sats)
    }

    /// Record the intent to feed once. The ledger is never debited here.
    pub fn begin_next_feed(&mut self, override_enabled: bool) -> (res: Result<FeedAttempt, FeedError>)
        ensures
            final(self)@.ledger == old(self)@.ledger,
            override_enabled ==> res == Err::<FeedAttempt, FeedError>(FeedError::OverrideEnabled),
            !override_enabled && old(self)@.active_attempt is Some ==> res == Err::<
                FeedAttempt,
                FeedError,
            >(FeedError::AttemptAlreadyActive),
            !override_enabled && old(self)@.active_attempt is None && old(self)@.ledger.credit_sats
                < old(self)@.ledger.threshold_sats ==> res == Err::<FeedAttempt, FeedError>(
                FeedError::NoFeedDue,
            ),
            res is Ok <==> !override_enabled && old(self)@.active_attempt is None && old(
                self,
            )@.ledger.credit_sats >= old(self)@.ledger.threshold_sats,
            res matches Ok(a) ==> a.status == FeedAttemptStatus::IntentCommitted
                && final(self)@.active_attempt == Some(a),
            res is Ok ==> begin_step(old(self)@, final(self)@),
            res is Err ==> final(self)@.active_attempt == old(self)@.active_attempt,
    {
        proof {
            use_type_invariant(&self.ledger);
            let c = self.ledger@.credit_sats;
            let t = self.ledger@.threshold_sats;
            assert(c / t == 0 <==> c < t) by (nonlinear_arith)
                requires
                    t > 0,
            ;
        }
        if override_enabled {
            return Err(FeedError::OverrideEnabled);
        }
        if self.active_attempt.is_some() {
            return Err(FeedError::AttemptAlreadyActive);
        }
        if self.ledger.feeds_due() == 0 {
            return Err(FeedError::NoFeedDue);
        }
        let attempt = FeedAttempt { id: fresh_attempt_id(), status: FeedAttemptStatus::IntentCommitted };
        self.active_attempt = Some(attempt);
        Ok(attempt)
    }

    /// A confirmed feed debits exactly one threshold and ends the attempt.
    pub fn confirm_feed(&mut self, attempt_id: u128) -> (res: Result<(), FeedError>)
        ensures
            ({
                let check = attempt_check(
                    old(self)@.active_attempt,
                    attempt_id,
                    FeedAttemptStatus::IntentCommitted,
                );
                let l = old(self)@.ledger;
                &&& check is Err ==> res == check && final(self)@ == old(self)@
                &&& check is Ok && l.credit_sats < l.threshold_sats ==> res == Err::<(), FeedError>(
                    FeedError::NoFeedDue,
                ) && final(self)@ == old(self)@
                &&& res is Ok <==> check is Ok && l.credit_sats >= l.threshold_sats
                &&& res is Ok ==> final(self)@.active_attempt is None
                    && final(self)@.ledger.threshold_sats == l.threshold_sats
                    && final(self)@.ledger.credit_sats == l.credit_sats - l.threshold_sats
                &&& res is Ok ==> confirm_step(old(self)@, final(self)@)
            }),
    {
        match self.require_attempt(attempt_id, FeedAttemptStatus::IntentCommitted) {
            Ok(()) => {},
            Err(e) => return Err(e),
        }
        match self.ledger.debit_confirmed_feed() {
            Ok(()) => {},
            Err(e) => return Err(e),
        }
        self.active_attempt = None;
        Ok(())
    }

    /// An ambiguous outcome keeps the credit and blocks further attempts.
    pub fn mark_feed_unknown(&mut self, attempt_id: u128) -> (res: Result<(), FeedError>)
        ensures
            ({
                let check = attempt_check(
                    old(self)@.active_attempt,
                    attempt_id,
                    FeedAttemptStatus::IntentCommitted,
                );
                &&& res == check
                &&& final(self)@.ledger == old(self)@.ledger
                &&& check is Err ==> final(self)@ == old(self)@
                &&& check is Ok ==> final(self)@.active_attempt == Some(
                    FeedAttempt { id: attempt_id, status: FeedAttemptStatus::Unknown },
                )
            }),
    {
        match self.require_attempt(attempt_id, FeedAttemptStatus::IntentCommitted) {
            Ok(()) => {},
            Err(e) => return Err(e),
        }
        self.active_attempt = Some(FeedAttempt { id: attempt_id, status: FeedAttemptStatus::Unknown });
        Ok(())
    }

    /// The operator confirmed an unknown attempt as fed: debit exactly once.
    pub fn reconcile_unknown_as_fed(&mut self, attempt_id: u128) -> (res: Result<(), FeedError>)
        ensures
            ({
                let check = attempt_check(
                    old(self)@.active_attempt,
                    attempt_id,
                    FeedAttemptStatus::Unknown,
                );
                let l = old(self)@.ledger;
                &&& check is Err ==> res == check && final(self)@ == old(self)@
                &&& check is Ok && l.credit_sats < l.threshold_sats ==> res == Err::<(), FeedError>(
                    FeedError::NoFeedDue,
                ) && final(self)@ == old(self)@
                &&& res is Ok <==> check is Ok && l.credit_sats >= l.threshold_sats
                &&& res is Ok ==> final(self)@.active_attempt is None
                    && final(self)@.ledger.threshold_sats == l.threshold_sats
                    && final(self)@.ledger.credit_sats == l.credit_sats - l.threshold_sats
            }),
    {
        match self.require_attempt(attempt_id, FeedAttemptStatus::Unknown) {
            Ok(()) => {},
            Err(e) => return Err(e),
        }
        match self.ledger.debit_confirmed_feed() {
            Ok(()) => {},
            Err(e) => return Err(e),
        }
        self.active_attempt = None;
        Ok(())
    }

    /// The operator established the unknown attempt did not feed: keep credit.
    pub fn reconcile_unknown_as_not_fed(&mut self, attempt_id: u128) -> (res: Result<(), FeedError>)
        ensures
            ({
                let check = attempt_check(
                    old(self)@.active_attempt,
                    attempt_id,
                    FeedAttemptStatus::Unknown,
                );
                &&& res == check
                &&& final(self)@.ledger == old(self)@.ledger
                &&& check is Err ==> final(self)@ == old(self)@
                &&& check is Ok ==> final(self)@.active_attempt is None
            }),
    {
        match self.require_attempt(attempt_id, FeedAttemptStatus::Unknown) {
            Ok(()) => {},
            Err(e) => return Err(e),
        }
        self.active_attempt = None;
        Ok(())
    }

    fn require_attempt(&self, attempt_id: u128, expected_status: FeedAttemptStatus) -> (res: Result<(), FeedError>)
        ensures
            res == attempt_check(self@.active_attempt, attempt_id, expected_status),
    {
        match self.active_attempt {
            Some(attempt) => {
                if attempt.id == attempt_id && attempt.status == expected_status {
                    Ok(())
                } else if attempt.id != attempt_id {
                    Err(FeedError::AttemptIdMismatch)
                } else {
                    Err(FeedError::InvalidAttemptState)
                }
            },
            None => Err(FeedError::NoActiveAttempt),
        }
    }
}

/// A successful `begin_next_feed`: no attempt was active and a feed was
/// due; the ledger is unchanged and a committed intent is now active.
pub open spec fn begin_step(a: FeedRuntimeModel, b: FeedRuntimeModel) -> bool {
    &&& a.active_attempt is None
    &&& a.ledger.credit_sats >= a.ledger.threshold_sats
    &&& b.ledger == a.ledger
    &&& b.active_attempt matches Some(x) && x.status == FeedAttemptStatus::IntentCommitted
}

/// A successful `confirm_feed`: a committed intent was active; exactly one
/// threshold is debited and no attempt remains.
pub open spec fn confirm_step(b: FeedRuntimeModel, c: FeedRuntimeModel) -> bool {
    &&& b.active_attempt matches Some(x) && x.status == FeedAttemptStatus::IntentCommitted
    &&& b.ledger.credit_sats >= b.ledger.threshold_sats
    &&& c.active_attempt is None
    &&& c.ledger.threshold_sats == b.ledger.threshold_sats
    &&& c.ledger.credit_sats == b.ledger.credit_sats - b.ledger.threshold_sats
}

/// A run of `n` begin-and-confirm pairs: `s[2i]` to `s[2i + 1]` begins a
/// feed and `s[2i + 1]` to `s[2i + 2]` confirms it.
pub open spec fn feed_run(s: Seq<FeedRuntimeModel>, n: nat) -> bool {
    &&& s.len() == 2 * n + 1
    &&& forall|i: int|
        0 <= i < n ==> #[trigger] begin_step(s[2 * i], s[2 * i + 1]) && confirm_step(
            s[2 * i + 1],
            s[2 * i + 2],
        )
}

proof fn lemma_feed_run_debits(s: Seq<FeedRuntimeModel>, n: nat, k: nat)
    requires
        feed_run(s, n),
        k <= n,
    ensures
        s[2 * (k as int)].ledger.threshold_sats == s[0].ledger.threshold_sats,
        s[2 * (k as int)].ledger.credit_sats == s[0].ledger.credit_sats - k
            * s[0].ledger.threshold_sats,
        k > 0 ==> s[2 * (k as int)].active_attempt is None,
    decreases k,
{
    if k > 0 {
        lemma_feed_run_debits(s, n, (k - 1) as nat);
        let i: int = k - 1;
        assert(begin_step(s[2 * i], s[2 * i + 1]) && confirm_step(s[2 * i + 1], s[2 * i + 2]));
        assert(2 * i + 2 == 2 * (k as int));
        let t = s[0].ledger.threshold_sats;
        assert(k * t == (k - 1) * t + t) by (nonlinear_arith);
    }
}

/// Draining the backlog by repeated begin-and-confirm, from a runtime with
/// credit `c` and threshold `t > 0`: every feed debits exactly one
/// threshold; while fewer than `c / t` feeds are confirmed another feed is
/// due; no run confirms more than `c / t`; and after exactly `c / t` of
/// them the credit is `c % t`, no attempt is active and no further feed is
/// due (confirmed feeds never debit more than the credit).
pub proof fn law_feed_loop_drains_to_remainder(s: Seq<FeedRuntimeModel>, n: nat)
    requires
        feed_run(s, n),
        s[0].ledger.threshold_sats > 0,
    ensures
        n <= s[0].ledger.credit_sats / s[0].ledger.threshold_sats,
        s[2 * (n as int)].ledger.threshold_sats == s[0].ledger.threshold_sats,
        s[2 * (n as int)].ledger.credit_sats == s[0].ledger.credit_sats - n
            * s[0].ledger.threshold_sats,
        n < s[0].ledger.credit_sats / s[0].ledger.threshold_sats ==> s[2 * (
        n as int)].ledger.credit_sats >= s[2 * (n as int)].ledger.threshold_sats,
        n == s[0].ledger.credit_sats / s[0].ledger.threshold_sats ==> {
            &&& s[2 * (n as int)].ledger.credit_sats == s[0].ledger.credit_sats
                % s[0].ledger.threshold_sats
            &&& s[2 * (n as int)].ledger.credit_sats < s[2 * (n as int)].ledger.threshold_sats
            &&& (n > 0 ==> s[2 * (n as int)].active_attempt is None)
        },
{
    let c = s[0].ledger.credit_sats;
    let t = s[0].ledger.threshold_sats;
    lemma_feed_run_debits(s, n, n);
    law_credit_splits_into_feeds_and_remainder(c, t);
    law_backlog_drains_to_remainder(c, t);
    if n > 0 {
        let i: int = n - 1;
        assert(begin_step(s[2 * i], s[2 * i + 1]));
        lemma_feed_run_debits(s, n, i as nat);
        assert(c - i * t >= t);
        assert(n * t <= c) by (nonlinear_arith)
            requires
                c - (n - 1) * t >= t,
                n >= 1,
        ;
        assert(n <= c / t) by (nonlinear_arith)
            requires
                n * t <= c,
                t > 0,
        ;
    }
    if n < c / t {
        assert(c - n * t >= t);
    }
}

/// Credit splits exactly into funded feeds and the remainder toward the next.
pub proof fn law_credit_splits_into_feeds_and_remainder(credit: nat, threshold: nat)
    requires
        threshold > 0,
    ensures
        (credit / threshold) * threshold + credit % threshold == credit,
        credit % threshold < threshold,
{
    vstd::arithmetic::div_mod::lemma_fundamental_div_mod(credit as int, threshold as int);
    assert((credit / threshold) * threshold == threshold * (credit / threshold)) by (nonlinear_arith);
}

/// Draining a backlog one confirmed feed at a time: before each of the
/// `credit / threshold` funded feeds at least one threshold remains, and
/// after all of them exactly the remainder is left, never less.
pub proof fn law_backlog_drains_to_remainder(credit: nat, threshold: nat)
    requires
        threshold > 0,
    ensures
        forall|k: nat|
            k < credit / threshold ==> #[trigger] (credit - k * threshold) >= threshold,
        credit - (credit / threshold) * threshold == credit % threshold,
{
    law_credit_splits_into_feeds_and_remainder(credit, threshold);
    let q = credit / threshold;
    assert forall|k: nat| k < q implies #[trigger] (credit - k * threshold) >= threshold by {
        assert((k + 1) * threshold <= q * threshold) by (nonlinear_arith)
            requires
                k + 1 <= q,
        ;
        assert((k + 1) * threshold == k * threshold + threshold) by (nonlinear_arith);
    }
}

} // verus!
