//! XMR credit intents and the decision taken for each receipt observation.
//! Receipts are valued against the immutable quote of their intent; pending
//! and late funds are kept on record but never spent.
use vstd::prelude::*;
use vstd::string::StringSliceAdditionalSpecFns;
use vstd::utf8::encode_utf8;

use crate::domain::credit::{law_valuation_is_monotone, quote_model_valid, valued_sats, Asset, TermsModel, QuoteModel, RateModel, XmrBtcRate, AssetAmount, CreditTerms, XmrQuote, MAX_ACCOUNTING_UNITS};
use crate::domain::invoice::{valid_user_bytes, validate_user};
use crate::ledger::{
    external_id_check, source_check, to_i64, to_u64, validate_external_id, validate_source,
    LedgerError,
};
use crate::text::{decimal, decimal_string, lemma_decimal_parses, parse_u64, same_text, u64_text};
use crate::ledger::same_optional_text;
use crate::url::opt_view;

verus! {

#[derive(Debug, Clone, Copy, PartialEq, Eq, Structural)]
pub enum XmrNetwork {
    Mainnet,
    Testnet,
    Stagenet,
}

impl XmrNetwork {
    pub open spec fn name(self) -> Seq<char> {
        match self {
            XmrNetwork::Mainnet => "mainnet"@,
            XmrNetwork::Testnet => "testnet"@,
            XmrNetwork::Stagenet => "stagenet"@,
        }
    }

    pub fn as_str(self) -> (name: &'static str)
        ensures
            name@ == self.name(),
    {
        match self {
            XmrNetwork::Mainnet => "mainnet",
            XmrNetwork::Testnet => "testnet",
            XmrNetwork::Stagenet => "stagenet",
        }
    }
}

/// The valuation policy of quoted XMR intents.
pub const XMR_QUOTE_POLICY: &'static str = "xmr-unlocked-quote-v1";

/// The only credit pool that intents may name.
pub const HERD_POOL: &'static str = "herd";

/// A current observation of one receipt within one receive scope; not a
/// callback and not a whole-wallet total.
#[derive(Debug, Clone)]
pub struct XmrReceiptObservation {
    pub provider: String,
    pub network: XmrNetwork,
    pub account_scope: String,
    pub receive_scope: String,
    pub receipt_key: String,
    pub amount: AssetAmount,
    pub first_seen_at: i64,
    pub unlocked: bool,
    pub double_spend_seen: bool,
}

/// Why an intent's credit is held.
#[derive(Debug, Clone, Copy, PartialEq, Eq, Structural)]
pub enum CreditHold {
    ReceiptConflict,
    FinalityRegression,
    DoubleSpend,
    AllocationMismatch,
    CreditLimit,
    ProviderInconsistency,
}

impl CreditHold {
    pub open spec fn name(self) -> Seq<char> {
        match self {
            CreditHold::ReceiptConflict => "receipt_conflict"@,
            CreditHold::FinalityRegression => "finality_regression"@,
            CreditHold::DoubleSpend => "double_spend"@,
            CreditHold::AllocationMismatch => "allocation_mismatch"@,
            CreditHold::CreditLimit => "credit_limit"@,
            CreditHold::ProviderInconsistency => "provider_inconsistency"@,
        }
    }

    pub fn as_str(self) -> (name: &'static str)
        ensures
            name@ == self.name(),
    {
        match self {
            CreditHold::ReceiptConflict => "receipt_conflict",
            CreditHold::FinalityRegression => "finality_regression",
            CreditHold::DoubleSpend => "double_spend",
            CreditHold::AllocationMismatch => "allocation_mismatch",
            CreditHold::CreditLimit => "credit_limit",
            CreditHold::ProviderInconsistency => "provider_inconsistency",
        }
    }
}

/// What recording one receipt observation did.
#[derive(Debug, Clone, Copy, PartialEq, Eq, Structural)]
pub enum CreditReceiptOutcome {
    Duplicate,
    Pending,
    Held,
    Recorded { delta_sats: u64, feed_credit_sats: u64 },
}

/// The saved allocation of an intent; the absence of a hold does not
/// attest that the provider is in sync.
#[derive(Debug, Clone, PartialEq, Eq)]
pub struct CreditAllocation {
    pub eligible_atomic: u64,
    pub credited_sats: u64,
    pub hold_reason: Option<String>,
}

/// Read an allocation row; stored counts must not be negative.
pub fn allocation_from_row(eligible_atomic: i64, credited_sats: i64, hold_reason: Option<String>) -> (res: Result<CreditAllocation, LedgerError>)
    ensures
        eligible_atomic >= 0 && credited_sats >= 0 <==> res is Ok,
        res is Err ==> res == Err::<CreditAllocation, LedgerError>(LedgerError::IntegerRange),
        res matches Ok(a) ==> a.eligible_atomic == eligible_atomic && a.credited_sats
            == credited_sats && a.hold_reason == hold_reason,
{
    let eligible_atomic = match to_u64(eligible_atomic) {
        Ok(v) => v,
        Err(e) => return Err(e),
    };
    let credited_sats = match to_u64(credited_sats) {
        Ok(v) => v,
        Err(e) => return Err(e),
    };
    Ok(CreditAllocation { eligible_atomic, credited_sats, hold_reason })
}

/// The stored valuation row of an intent: its receive binding, its terms,
/// its credit limit and the rate evidence the terms were priced from.
#[derive(Debug, Clone)]
pub struct ValuationRow {
    pub asset: String,
    pub network: String,
    pub provider: String,
    pub account_scope: String,
    pub receive_scope: String,
    pub address_user: String,
    pub credit_pool: String,
    pub expected_atomic: i64,
    pub target_sats: i64,
    pub max_credit_sats: i64,
    pub rate_numerator: Option<String>,
    pub rate_denominator: Option<String>,
    pub rate_source: Option<String>,
    pub rate_observed_at: Option<i64>,
    pub issued_at: Option<i64>,
    pub expires_at: Option<i64>,
    pub policy_version: String,
}

/// Abstract value of a [`ValuationRow`].
pub struct ValuationView {
    pub asset: Seq<char>,
    pub network: Seq<char>,
    pub provider: Seq<char>,
    pub account_scope: Seq<char>,
    pub receive_scope: Seq<char>,
    pub address_user: Seq<char>,
    pub credit_pool: Seq<char>,
    pub expected_atomic: i64,
    pub target_sats: i64,
    pub max_credit_sats: i64,
    pub rate_numerator: Option<Seq<char>>,
    pub rate_denominator: Option<Seq<char>>,
    pub rate_source: Option<Seq<char>>,
    pub rate_observed_at: Option<i64>,
    pub issued_at: Option<i64>,
    pub expires_at: Option<i64>,
    pub policy_version: Seq<char>,
}

impl View for ValuationRow {
    type V = ValuationView;

    open spec fn view(&self) -> ValuationView {
        ValuationView {
            asset: self.asset@,
            network: self.network@,
            provider: self.provider@,
            account_scope: self.account_scope@,
            receive_scope: self.receive_scope@,
            address_user: self.address_user@,
            credit_pool: self.credit_pool@,
            expected_atomic: self.expected_atomic,
            target_sats: self.target_sats,
            max_credit_sats: self.max_credit_sats,
            rate_numerator: opt_view(self.rate_numerator),
            rate_denominator: opt_view(self.rate_denominator),
            rate_source: opt_view(self.rate_source),
            rate_observed_at: self.rate_observed_at,
            issued_at: self.issued_at,
            expires_at: self.expires_at,
            policy_version: self.policy_version@,
        }
    }
}

/// The stored row of a receipt already seen under the same key.
#[derive(Debug, Clone, Copy, PartialEq, Eq, Structural)]
pub struct StoredReceipt {
    pub amount_atomic: i64,
    pub first_seen_at: Option<i64>,
    pub unlocked: bool,
    pub granted: bool,
}

/// The totals of the grants already made to an intent.
#[derive(Debug, Clone, Copy, PartialEq, Eq, Structural)]
pub struct GrantTotals {
    pub atomic: i64,
    pub sats: i64,
}

/// A new grant: the allocation's new watermarks, the credit it adds and
/// the feed credit after it.
#[derive(Debug, Clone, Copy, PartialEq, Eq, Structural)]
pub struct ReceiptGrant {
    pub cumulative_atomic: u64,
    pub cumulative_sats: u64,
    pub delta_sats: u64,
    pub feed_credit_sats: u64,
}

/// The writes that recording a receipt makes, and its answer. A new receipt
/// row is inserted with the eligibility given; a hold is recorded with its
/// reason.
#[derive(Debug, Clone, Copy, PartialEq, Eq, Structural)]
pub struct ReceiptPlan {
    pub outcome: CreditReceiptOutcome,
    pub insert_receipt: Option<bool>,
    pub mark_unlocked: bool,
    pub hold: Option<CreditHold>,
    pub grant: Option<ReceiptGrant>,
}

pub open spec fn held(insert: Option<bool>, unlocked: bool, hold: Option<CreditHold>) -> ReceiptPlan {
    ReceiptPlan { outcome: CreditReceiptOutcome::Held, insert_receipt: insert, mark_unlocked: unlocked, hold, grant: None }
}

/// Whether a receipt first seen at `t` falls in the quote's lifetime; the
/// stored times are required only as far as the comparison reads them.
pub open spec fn timeliness(v: ValuationRow, t: i64) -> Result<bool, LedgerError> {
    match v.issued_at {
        None => Err(LedgerError::MissingQuoteTime),
        Some(issued) => if t < issued {
            Ok(false)
        } else {
            match v.expires_at {
                None => Err(LedgerError::MissingQuoteTime),
                Some(expires) => Ok(t < expires),
            }
        },
    }
}

/// The decision for one receipt observation of an intent, given its stored
/// valuation, its allocation, the stored row under the same receipt key,
/// the totals of its grants and the feed credit before any new grant.
pub open spec fn receipt_decision(
    o: XmrReceiptObservation,
    v: Option<ValuationRow>,
    a: CreditAllocation,
    existing: Option<StoredReceipt>,
    totals: GrantTotals,
    feed_before: u64,
) -> Result<ReceiptPlan, LedgerError> {
    let amount = o.amount@.atomic_units;
    if external_id_check(o.receipt_key@, 256) is Err {
        Err(external_id_check(o.receipt_key@, 256)->Err_0)
    } else if o.amount@.asset != Asset::Xmr || amount == 0 || o.first_seen_at < 0 {
        Err(LedgerError::InvalidObservation)
    } else if v is None {
        Err(LedgerError::UnknownIntent)
    } else {
        let v = v->0;
        if v.policy_version@ != XMR_QUOTE_POLICY@ {
            Err(LedgerError::UnsupportedPolicy)
        } else if o.provider@ != v.provider@ || o.network.name() != v.network@ || o.account_scope@
            != v.account_scope@ || o.receive_scope@ != v.receive_scope@ {
            Err(LedgerError::BindingMismatch)
        } else if existing matches Some(r) && (r.amount_atomic != amount || r.first_seen_at
            != Some(o.first_seen_at)) {
            Ok(held(None, false, Some(CreditHold::ReceiptConflict)))
        } else if existing matches Some(r) && r.unlocked && !o.unlocked {
            Ok(held(None, false, Some(CreditHold::FinalityRegression)))
        } else if existing is Some && o.double_spend_seen {
            Ok(held(None, false, Some(CreditHold::DoubleSpend)))
        } else if timeliness(v, o.first_seen_at) is Err {
            Err(timeliness(v, o.first_seen_at)->Err_0)
        } else {
            let timely = timeliness(v, o.first_seen_at)->Ok_0;
            let insert = if existing is None {
                Some(timely && !o.double_spend_seen)
            } else {
                None
            };
            let hold = if o.double_spend_seen {
                Some(CreditHold::DoubleSpend)
            } else {
                None
            };
            if a.hold_reason is Some || o.double_spend_seen || !timely {
                Ok(held(insert, o.unlocked, hold))
            } else if !o.unlocked {
                Ok(ReceiptPlan { outcome: CreditReceiptOutcome::Pending, insert_receipt: insert, mark_unlocked: false, hold: None, grant: None })
            } else if v.expected_atomic < 0 || v.target_sats < 0 {
                Err(LedgerError::IntegerRange)
            } else if v.expected_atomic == 0 || v.target_sats == 0 {
                Err(LedgerError::InvalidTerms)
            } else {
                let e = v.expected_atomic as nat;
                let t = v.target_sats as nat;
                let prev = valued_sats(a.eligible_atomic as nat, e, t);
                if a.eligible_atomic > i64::MAX {
                    Err(LedgerError::IntegerRange)
                } else if totals.atomic != a.eligible_atomic {
                    Ok(held(insert, true, Some(CreditHold::AllocationMismatch)))
                } else if a.credited_sats > i64::MAX {
                    Err(LedgerError::IntegerRange)
                } else if totals.sats != a.credited_sats || prev > MAX_ACCOUNTING_UNITS || prev
                    != a.credited_sats {
                    Ok(held(insert, true, Some(CreditHold::AllocationMismatch)))
                } else if existing matches Some(r) && r.granted {
                    Ok(ReceiptPlan { outcome: CreditReceiptOutcome::Duplicate, insert_receipt: insert, mark_unlocked: true, hold: None, grant: None })
                } else {
                    let cur = a.eligible_atomic + amount;
                    let cur_sats = valued_sats(cur as nat, e, t);
                    if cur > MAX_ACCOUNTING_UNITS || cur_sats > MAX_ACCOUNTING_UNITS || cur_sats
                        > (v.max_credit_sats as u64) {
                        Ok(held(insert, true, Some(CreditHold::CreditLimit)))
                    } else {
                        let delta = cur_sats - prev;
                        if feed_before + delta > MAX_ACCOUNTING_UNITS {
                            Ok(held(insert, true, Some(CreditHold::CreditLimit)))
                        } else {
                            Ok(ReceiptPlan {
                                outcome: CreditReceiptOutcome::Recorded {
                                    delta_sats: delta as u64,
                                    feed_credit_sats: (feed_before + delta) as u64,
                                },
                                insert_receipt: insert,
                                mark_unlocked: true,
                                hold: None,
                                grant: Some(ReceiptGrant {
                                    cumulative_atomic: cur as u64,
                                    cumulative_sats: cur_sats as u64,
                                    delta_sats: delta as u64,
                                    feed_credit_sats: (feed_before + delta) as u64,
                                }),
                            })
                        }
                    }
                }
            }
        }
    }
}

/// What a grant is, whenever a receipt decision makes one: the receipt was
/// unlocked, timely and not double-spent, and the intent was not on hold;
/// the intent's new cumulative eligible amount is the old one plus this
/// receipt; its credit is the valuation of that cumulative amount at the
/// quote's terms and stays within the intent's credit limit; the credit
/// added is that valuation less the credit already granted; and the feed
/// credit grows by exactly the credit added.
#[verifier::rlimit(40)]
pub proof fn law_receipt_grant_values_cumulative_receipts(
    o: XmrReceiptObservation,
    v: Option<ValuationRow>,
    a: CreditAllocation,
    existing: Option<StoredReceipt>,
    totals: GrantTotals,
    feed_before: u64,
)
    ensures
        ({
            let d = receipt_decision(o, v, a, existing, totals, feed_before);
            d is Ok && d->Ok_0.grant is Some ==> {
                let p = d->Ok_0;
                let g = p.grant->0;
                let row = v->0;
                let e = row.expected_atomic as nat;
                let t = row.target_sats as nat;
                &&& o.unlocked && !o.double_spend_seen && a.hold_reason is None
                &&& timeliness(row, o.first_seen_at) == Ok::<bool, LedgerError>(true)
                &&& g.cumulative_atomic == a.eligible_atomic + o.amount@.atomic_units
                &&& g.cumulative_sats == valued_sats(g.cumulative_atomic as nat, e, t)
                &&& g.cumulative_sats <= row.max_credit_sats as u64
                &&& a.credited_sats == valued_sats(a.eligible_atomic as nat, e, t)
                &&& g.delta_sats == g.cumulative_sats - a.credited_sats
                &&& g.feed_credit_sats == feed_before + g.delta_sats
                &&& p.outcome == (CreditReceiptOutcome::Recorded {
                    delta_sats: g.delta_sats,
                    feed_credit_sats: g.feed_credit_sats,
                })
            }
        }),
{
    if v is Some {
        let row = v->0;
        if row.expected_atomic > 0 && row.target_sats >= 0 {
            let e = row.expected_atomic as int;
            let t = row.target_sats as int;
            let x = a.eligible_atomic as int;
            let y = o.amount@.atomic_units as int;
            assert(x * t <= (x + y) * t) by (nonlinear_arith)
                requires
                    y >= 0,
                    t >= 0,
            ;
            vstd::arithmetic::div_mod::lemma_div_is_ordered(x * t, (x + y) * t, e);
            assert(valued_sats((x + y) as nat, e as nat, t as nat) >= valued_sats(
                x as nat,
                e as nat,
                t as nat,
            ));
        }
    }
}

/// Decide how to record one receipt observation of an XMR intent. The
/// observation must match the intent's receive binding; a changed,
/// regressed or double-spent receipt holds the intent; funds that are late
/// or not yet unlocked are kept on record and granted nothing; a grant
/// values the new cumulative eligible amount against the quote's terms and
/// never exceeds the intent's credit limit.
#[verifier::rlimit(40)]
#[verifier::spinoff_prover]
pub fn decide_receipt(
    observation: &XmrReceiptObservation,
    valuation: Option<ValuationRow>,
    allocation: &CreditAllocation,
    existing: Option<StoredReceipt>,
    totals: GrantTotals,
    feed_before: u64,
) -> (res: Result<ReceiptPlan, LedgerError>)
    ensures
        res == receipt_decision(*observation, valuation, *allocation, existing, totals, feed_before),
{
    if let Err(e) = validate_external_id(observation.receipt_key.as_str(), 256) {
        return Err(e);
    }
    let amount = observation.amount.atomic_units();
    if observation.amount.asset() != Asset::Xmr || amount == 0 || observation.first_seen_at < 0 {
        return Err(LedgerError::InvalidObservation);
    }
    let v = match valuation {
        None => return Err(LedgerError::UnknownIntent),
        Some(v) => v,
    };
    if !same_text(v.policy_version.as_str(), XMR_QUOTE_POLICY) {
        return Err(LedgerError::UnsupportedPolicy);
    }
    if !same_text(observation.provider.as_str(), v.provider.as_str()) || !same_text(
        observation.network.as_str(),
        v.network.as_str(),
    ) || !same_text(observation.account_scope.as_str(), v.account_scope.as_str()) || !same_text(
        observation.receive_scope.as_str(),
        v.receive_scope.as_str(),
    ) {
        return Err(LedgerError::BindingMismatch);
    }
    if let Some(r) = existing {
        let changed = r.amount_atomic < 0 || r.amount_atomic as u64 != amount || r.first_seen_at
            != Some(observation.first_seen_at);
        let regressed = r.unlocked && !observation.unlocked;
        if changed || regressed || observation.double_spend_seen {
            let reason = if changed {
                CreditHold::ReceiptConflict
            } else if regressed {
                CreditHold::FinalityRegression
            } else {
                CreditHold::DoubleSpend
            };
            return Ok(
                ReceiptPlan {
                    outcome: CreditReceiptOutcome::Held,
                    insert_receipt: None,
                    mark_unlocked: false,
                    hold: Some(reason),
                    grant: None,
                },
            );
        }
    }
    let issued = match v.issued_at {
        None => return Err(LedgerError::MissingQuoteTime),
        Some(t) => t,
    };
    let timely = if observation.first_seen_at < issued {
        false
    } else {
        match v.expires_at {
            None => return Err(LedgerError::MissingQuoteTime),
            Some(expires) => observation.first_seen_at < expires,
        }
    };
    let insert = if existing.is_none() {
        Some(timely && !observation.double_spend_seen)
    } else {
        None
    };
    let hold = if observation.double_spend_seen {
        Some(CreditHold::DoubleSpend)
    } else {
        None
    };
    if allocation.hold_reason.is_some() || observation.double_spend_seen || !timely {
        return Ok(
            ReceiptPlan {
                outcome: CreditReceiptOutcome::Held,
                insert_receipt: insert,
                mark_unlocked: observation.unlocked,
                hold,
                grant: None,
            },
        );
    }
    if !observation.unlocked {
        return Ok(
            ReceiptPlan {
                outcome: CreditReceiptOutcome::Pending,
                insert_receipt: insert,
                mark_unlocked: false,
                hold: None,
                grant: None,
            },
        );
    }
    let expected = match to_u64(v.expected_atomic) {
        Ok(x) => x,
        Err(e) => return Err(e),
    };
    let target = match to_u64(v.target_sats) {
        Ok(x) => x,
        Err(e) => return Err(e),
    };
    let terms = match CreditTerms::quoted_xmr(expected, target) {
        Ok(t) => t,
        Err(_) => return Err(LedgerError::InvalidTerms),
    };
    let mismatch = ReceiptPlan {
        outcome: CreditReceiptOutcome::Held,
        insert_receipt: insert,
        mark_unlocked: true,
        hold: Some(CreditHold::AllocationMismatch),
        grant: None,
    };
    let eligible_i64 = match to_i64(allocation.eligible_atomic) {
        Ok(x) => x,
        Err(e) => return Err(e),
    };
    if totals.atomic != eligible_i64 {
        return Ok(mismatch);
    }
    let credited_i64 = match to_i64(allocation.credited_sats) {
        Ok(x) => x,
        Err(e) => return Err(e),
    };
    let previous = match AssetAmount::new(Asset::Xmr, allocation.eligible_atomic) {
        Ok(p) => p,
        Err(_) => return Err(LedgerError::IntegerRange),
    };
    let consistent = match terms.cumulative_sats(previous) {
        Ok(sats) => sats == allocation.credited_sats,
        Err(_) => false,
    };
    if totals.sats != credited_i64 || !consistent {
        return Ok(mismatch);
    }
    if let Some(r) = existing {
        if r.granted {
            return Ok(
                ReceiptPlan {
                    outcome: CreditReceiptOutcome::Duplicate,
                    insert_receipt: insert,
                    mark_unlocked: true,
                    hold: None,
                    grant: None,
                },
            );
        }
    }
    let limit_hold = ReceiptPlan {
        outcome: CreditReceiptOutcome::Held,
        insert_receipt: insert,
        mark_unlocked: true,
        hold: Some(CreditHold::CreditLimit),
        grant: None,
    };
    let current = match allocation.eligible_atomic.checked_add(amount) {
        Some(c) => c,
        None => return Ok(limit_hold),
    };
    if current > MAX_ACCOUNTING_UNITS {
        return Ok(limit_hold);
    }
    let current_amount = match AssetAmount::new(Asset::Xmr, current) {
        Ok(c) => c,
        Err(_) => return Ok(limit_hold),
    };
    let update = match terms.assess_update(previous, allocation.credited_sats, current_amount) {
        Ok(u) => u,
        Err(_) => return Ok(limit_hold),
    };
    if update.cumulative_credit_sats > v.max_credit_sats as u64 {
        return Ok(limit_hold);
    }
    let feed_credit_sats = match feed_before.checked_add(update.delta_sats) {
        Some(f) => f,
        None => return Ok(limit_hold),
    };
    if feed_credit_sats > MAX_ACCOUNTING_UNITS {
        return Ok(limit_hold);
    }
    Ok(
        ReceiptPlan {
            outcome: CreditReceiptOutcome::Recorded { delta_sats: update.delta_sats, feed_credit_sats },
            insert_receipt: insert,
            mark_unlocked: true,
            hold: None,
            grant: Some(
                ReceiptGrant {
                    cumulative_atomic: update.cumulative_eligible.atomic_units(),
                    cumulative_sats: update.cumulative_credit_sats,
                    delta_sats: update.delta_sats,
                    feed_credit_sats,
                },
            ),
        },
    )
}

/// Funds first seen outside the quote's lifetime, or not yet unlocked, are
/// never granted: the decision records them and answers held or pending.
pub proof fn law_late_or_locked_funds_are_not_spent(
    o: XmrReceiptObservation,
    v: ValuationRow,
    a: CreditAllocation,
    existing: Option<StoredReceipt>,
    totals: GrantTotals,
    feed_before: u64,
)
    requires
        receipt_decision(o, Some(v), a, existing, totals, feed_before) is Ok,
        !o.unlocked || timeliness(v, o.first_seen_at) == Ok::<bool, LedgerError>(false),
    ensures
        receipt_decision(o, Some(v), a, existing, totals, feed_before)->Ok_0.grant is None,
        receipt_decision(o, Some(v), a, existing, totals, feed_before)->Ok_0.outcome is Held
            || receipt_decision(o, Some(v), a, existing, totals, feed_before)->Ok_0.outcome is Pending,
{
}

/// A grant never takes an intent past its credit limit, adds exactly the
/// difference between the new and the saved valuation, and the feed credit
/// it reports is the credit before it plus that difference.
pub proof fn law_grant_respects_limit(
    o: XmrReceiptObservation,
    v: ValuationRow,
    a: CreditAllocation,
    existing: Option<StoredReceipt>,
    totals: GrantTotals,
    feed_before: u64,
)
    requires
        receipt_decision(o, Some(v), a, existing, totals, feed_before) is Ok,
        receipt_decision(o, Some(v), a, existing, totals, feed_before)->Ok_0.grant is Some,
    ensures
        ({
            let g = receipt_decision(o, Some(v), a, existing, totals, feed_before)->Ok_0.grant->0;
            &&& g.cumulative_sats <= (v.max_credit_sats as u64)
            &&& g.cumulative_sats == a.credited_sats + g.delta_sats
            &&& g.cumulative_atomic == a.eligible_atomic + o.amount@.atomic_units
            &&& g.feed_credit_sats == feed_before + g.delta_sats
            &&& g.cumulative_sats == valued_sats(
                g.cumulative_atomic as nat,
                v.expected_atomic as nat,
                v.target_sats as nat,
            )
        }),
{
    let terms = TermsModel { asset: Asset::Xmr, expected_atomic: v.expected_atomic as nat, target_sats: v.target_sats as nat };
    if v.expected_atomic > 0 && v.target_sats > 0 && v.expected_atomic <= MAX_ACCOUNTING_UNITS && v.target_sats <= MAX_ACCOUNTING_UNITS {
        law_valuation_is_monotone(terms, a.eligible_atomic as nat, (a.eligible_atomic + o.amount@.atomic_units) as nat);
    }
}

/// A receipt is granted at most once: observing it again after its grant
/// (same amount and first-seen time, still unlocked) is a duplicate.
pub proof fn law_granted_receipt_is_duplicate(
    o: XmrReceiptObservation,
    v: ValuationRow,
    a: CreditAllocation,
    totals: GrantTotals,
    feed_before: u64,
)
    requires
        receipt_decision(o, Some(v), a, None, totals, feed_before) is Ok,
        receipt_decision(o, Some(v), a, None, totals, feed_before)->Ok_0.grant is Some,
    ensures
        ({
            let g = receipt_decision(o, Some(v), a, None, totals, feed_before)->Ok_0.grant->0;
            let after = CreditAllocation {
                eligible_atomic: g.cumulative_atomic,
                credited_sats: g.cumulative_sats,
                hold_reason: a.hold_reason,
            };
            let row = StoredReceipt {
                amount_atomic: o.amount@.atomic_units as i64,
                first_seen_at: Some(o.first_seen_at),
                unlocked: true,
                granted: true,
            };
            let totals_after = GrantTotals {
                atomic: g.cumulative_atomic as i64,
                sats: g.cumulative_sats as i64,
            };
            receipt_decision(o, Some(v), after, Some(row), totals_after, g.feed_credit_sats)
                == Ok::<ReceiptPlan, LedgerError>(ReceiptPlan {
                    outcome: CreditReceiptOutcome::Duplicate,
                    insert_receipt: None,
                    mark_unlocked: true,
                    hold: None,
                    grant: None,
                })
        }),
{
}

/// The asset name of XMR valuations.
pub const XMR_ASSET: &'static str = "XMR";

/// A provider-bound intent to credit XMR receipts at a locked quote. It is
/// private input: none of it is published.
#[derive(Debug, Clone)]
pub struct XmrCreditIntent {
    pub id: u128,
    pub provider: String,
    pub network: XmrNetwork,
    pub account_scope: String,
    pub receive_scope: String,
    pub address_user: String,
    pub credit_pool: String,
    pub quote: XmrQuote,
    pub max_credit_sats: u64,
}

/// The checks an intent must pass before it is registered.
pub open spec fn intent_check(i: XmrCreditIntent) -> Result<(), LedgerError> {
    if i.id == 0 {
        Err(LedgerError::NilIntent)
    } else if source_check(i.provider@) is Err {
        Err(source_check(i.provider@)->Err_0)
    } else if external_id_check(i.account_scope@, 256) is Err {
        Err(external_id_check(i.account_scope@, 256)->Err_0)
    } else if external_id_check(i.receive_scope@, 256) is Err {
        Err(external_id_check(i.receive_scope@, 256)->Err_0)
    } else if !valid_user_bytes(encode_utf8(i.address_user@)) {
        Err(LedgerError::InvalidUser)
    } else if i.credit_pool@ != HERD_POOL@ {
        Err(LedgerError::UnsupportedPool)
    } else if i.max_credit_sats < i.quote@.terms.target_sats || i.max_credit_sats
        > MAX_ACCOUNTING_UNITS {
        Err(LedgerError::InvalidCreditLimit)
    } else {
        Ok(())
    }
}

/// The immutable valuation row an intent is registered as.
pub open spec fn valuation_of(i: XmrCreditIntent) -> ValuationView {
    let q = i.quote@;
    ValuationView {
        asset: XMR_ASSET@,
        network: i.network.name(),
        provider: i.provider@,
        account_scope: i.account_scope@,
        receive_scope: i.receive_scope@,
        address_user: i.address_user@,
        credit_pool: i.credit_pool@,
        expected_atomic: q.terms.expected_atomic as i64,
        target_sats: q.terms.target_sats as i64,
        max_credit_sats: i.max_credit_sats as i64,
        rate_numerator: Some(decimal(q.rate.numerator)),
        rate_denominator: Some(decimal(q.rate.denominator)),
        rate_source: Some(q.rate.source),
        rate_observed_at: Some(q.rate.observed_at as i64),
        issued_at: Some(q.issued_at as i64),
        expires_at: Some(q.expires_at as i64),
        policy_version: XMR_QUOTE_POLICY@,
    }
}

fn same_valuation(a: &ValuationRow, b: &ValuationRow) -> (r: bool)
    ensures
        r == (a@ == b@),
{
    same_text(a.asset.as_str(), b.asset.as_str()) && same_text(a.network.as_str(), b.network.as_str())
        && same_text(a.provider.as_str(), b.provider.as_str()) && same_text(
        a.account_scope.as_str(),
        b.account_scope.as_str(),
    ) && same_text(a.receive_scope.as_str(), b.receive_scope.as_str()) && same_text(
        a.address_user.as_str(),
        b.address_user.as_str(),
    ) && same_text(a.credit_pool.as_str(), b.credit_pool.as_str()) && a.expected_atomic
        == b.expected_atomic && a.target_sats == b.target_sats && a.max_credit_sats
        == b.max_credit_sats && same_optional_text(&a.rate_numerator, &b.rate_numerator)
        && same_optional_text(&a.rate_denominator, &b.rate_denominator) && same_optional_text(
        &a.rate_source,
        &b.rate_source,
    ) && a.rate_observed_at == b.rate_observed_at && a.issued_at == b.issued_at && a.expires_at
        == b.expires_at && same_text(a.policy_version.as_str(), b.policy_version.as_str())
}

/// Check an intent and build the valuation row it is registered as.
pub fn valuation_for_intent(intent: &XmrCreditIntent) -> (res: Result<ValuationRow, LedgerError>)
    ensures
        match intent_check(*intent) {
            Err(e) => res == Err::<ValuationRow, LedgerError>(e),
            Ok(()) => res matches Ok(row) && row@ == valuation_of(*intent),
        },
        quote_model_valid(intent.quote@),
{
    let terms = intent.quote.terms();
    if intent.id == 0 {
        return Err(LedgerError::NilIntent);
    }
    if let Err(e) = validate_source(intent.provider.as_str()) {
        return Err(e);
    }
    if let Err(e) = validate_external_id(intent.account_scope.as_str(), 256) {
        return Err(e);
    }
    if let Err(e) = validate_external_id(intent.receive_scope.as_str(), 256) {
        return Err(e);
    }
    if validate_user(intent.address_user.as_str()).is_err() {
        return Err(LedgerError::InvalidUser);
    }
    if !same_text(intent.credit_pool.as_str(), HERD_POOL) {
        return Err(LedgerError::UnsupportedPool);
    }
    let target = terms.target_sats();
    if intent.max_credit_sats < target || intent.max_credit_sats > MAX_ACCOUNTING_UNITS {
        return Err(LedgerError::InvalidCreditLimit);
    }
    let rate = intent.quote.rate();
    let (numerator, denominator) = rate.ratio();
    let expected = terms.expected_atomic();
    Ok(
        ValuationRow {
            asset: XMR_ASSET.to_owned(),
            network: intent.network.as_str().to_owned(),
            provider: intent.provider.clone(),
            account_scope: intent.account_scope.clone(),
            receive_scope: intent.receive_scope.clone(),
            address_user: intent.address_user.clone(),
            credit_pool: intent.credit_pool.clone(),
            expected_atomic: expected as i64,
            target_sats: target as i64,
            max_credit_sats: intent.max_credit_sats as i64,
            rate_numerator: Some(decimal_string(numerator)),
            rate_denominator: Some(decimal_string(denominator)),
            rate_source: Some(rate.source().to_owned()),
            rate_observed_at: Some(rate.observed_at()),
            issued_at: Some(intent.quote.issued_at()),
            expires_at: Some(intent.quote.expires_at()),
            policy_version: XMR_QUOTE_POLICY.to_owned(),
        },
    )
}

/// Decide the registration of an intent: a new intent is inserted with its
/// valuation row, the same intent again changes nothing, and an intent whose
/// stored terms differ is refused.
pub fn register_intent(intent: &XmrCreditIntent, existing: Option<ValuationRow>) -> (res: Result<Option<ValuationRow>, LedgerError>)
    ensures
        match intent_check(*intent) {
            Err(e) => res == Err::<Option<ValuationRow>, LedgerError>(e),
            Ok(()) => match existing {
                None => res matches Ok(Some(row)) && row@ == valuation_of(*intent),
                Some(row) => if row@ == valuation_of(*intent) {
                    res matches Ok(None)
                } else {
                    res == Err::<Option<ValuationRow>, LedgerError>(LedgerError::DifferentTerms)
                },
            },
        },
{
    let row = match valuation_for_intent(intent) {
        Ok(r) => r,
        Err(e) => return Err(e),
    };
    match existing {
        None => Ok(Some(row)),
        Some(old) => if same_valuation(&old, &row) {
            Ok(None)
        } else {
            Err(LedgerError::DifferentTerms)
        },
    }
}

/// The quote a stored row describes, with the numbers as the row's texts
/// denote them.
pub open spec fn stored_quote_model(v: ValuationView, numerator: nat, denominator: nat) -> QuoteModel {
    QuoteModel {
        terms: TermsModel {
            asset: Asset::Xmr,
            expected_atomic: v.expected_atomic as nat,
            target_sats: v.target_sats as nat,
        },
        rate: RateModel {
            numerator,
            denominator,
            source: v.rate_source->0,
            observed_at: v.rate_observed_at->0 as int,
        },
        issued_at: v.issued_at->0 as int,
        expires_at: v.expires_at->0 as int,
    }
}

pub open spec fn network_named(name: Seq<char>) -> Option<XmrNetwork> {
    if name == XmrNetwork::Mainnet.name() {
        Some(XmrNetwork::Mainnet)
    } else if name == XmrNetwork::Testnet.name() {
        Some(XmrNetwork::Testnet)
    } else if name == XmrNetwork::Stagenet.name() {
        Some(XmrNetwork::Stagenet)
    } else {
        None
    }
}

fn parse_network(name: &str) -> (n: Option<XmrNetwork>)
    ensures
        n == network_named(name@),
{
    if same_text(name, XmrNetwork::Mainnet.as_str()) {
        Some(XmrNetwork::Mainnet)
    } else if same_text(name, XmrNetwork::Testnet.as_str()) {
        Some(XmrNetwork::Testnet)
    } else if same_text(name, XmrNetwork::Stagenet.as_str()) {
        Some(XmrNetwork::Stagenet)
    } else {
        None
    }
}

/// Rebuild an intent from its stored valuation row, repricing nothing: the
/// stored rate is revalidated, the quote relocked at the stored times with
/// no age limit, and its amount must equal the stored amount.
pub fn intent_from_row(id: u128, row: &ValuationRow) -> (res: Result<XmrCreditIntent, LedgerError>)
    ensures
        row@.policy_version != XMR_QUOTE_POLICY@ ==> res == Err::<XmrCreditIntent, LedgerError>(
            LedgerError::UnsupportedPolicy,
        ),
        row@.policy_version == XMR_QUOTE_POLICY@ && (row@.rate_numerator is None
            || row@.rate_denominator is None) ==> res == Err::<XmrCreditIntent, LedgerError>(
            LedgerError::MissingRate,
        ),
        ({
            let v = row@;
            let num = u64_text(encode_utf8(v.rate_numerator->0));
            let den = u64_text(encode_utf8(v.rate_denominator->0));
            &&& res is Ok <==> {
                &&& v.policy_version == XMR_QUOTE_POLICY@
                &&& v.rate_numerator is Some && v.rate_denominator is Some
                &&& num is Some && den is Some
                &&& v.rate_source is Some && v.rate_observed_at is Some
                &&& v.issued_at is Some && v.expires_at is Some
                &&& v.expected_atomic >= 0 && v.target_sats >= 0
                &&& quote_model_valid(stored_quote_model(v, num->0, den->0))
                &&& network_named(v.network) is Some
                &&& v.max_credit_sats >= 0
            }
            &&& res matches Ok(i) ==> {
                &&& i.id == id
                &&& i.provider@ == v.provider
                &&& i.network == network_named(v.network)->0
                &&& i.account_scope@ == v.account_scope
                &&& i.receive_scope@ == v.receive_scope
                &&& i.address_user@ == v.address_user
                &&& i.credit_pool@ == v.credit_pool
                &&& i.quote@ == stored_quote_model(v, num->0, den->0)
                &&& i.max_credit_sats == v.max_credit_sats
            }
        }),
{
    if !same_text(row.policy_version.as_str(), XMR_QUOTE_POLICY) {
        return Err(LedgerError::UnsupportedPolicy);
    }
    let (num_text, den_text) = match (&row.rate_numerator, &row.rate_denominator) {
        (Some(n), Some(d)) => (n, d),
        _ => return Err(LedgerError::MissingRate),
    };
    let numerator = match parse_u64(num_text.as_str()) {
        Some(n) => n,
        None => return Err(LedgerError::RateText),
    };
    let denominator = match parse_u64(den_text.as_str()) {
        Some(d) => d,
        None => return Err(LedgerError::RateText),
    };
    let (source, observed_at) = match (&row.rate_source, row.rate_observed_at) {
        (Some(s), Some(t)) => (s, t),
        _ => return Err(LedgerError::MissingRate),
    };
    let rate = match XmrBtcRate::new(numerator, denominator, source.as_str(), observed_at) {
        Ok(r) => r,
        Err(e) => return Err(LedgerError::Credit(e)),
    };
    let target = match to_u64(row.target_sats) {
        Ok(t) => t,
        Err(e) => return Err(e),
    };
    let (issued_at, expires_at) = match (row.issued_at, row.expires_at) {
        (Some(i), Some(e)) => (i, e),
        _ => return Err(LedgerError::MissingQuoteTime),
    };
    let quote = match rate.quote(target, issued_at, expires_at, u64::MAX) {
        Ok(q) => q,
        Err(e) => return Err(LedgerError::Credit(e)),
    };
    let expected = match to_u64(row.expected_atomic) {
        Ok(x) => x,
        Err(e) => return Err(e),
    };
    if quote.terms().expected_atomic() != expected {
        return Err(LedgerError::StoredQuoteMismatch);
    }
    let network = match parse_network(row.network.as_str()) {
        Some(n) => n,
        None => return Err(LedgerError::UnsupportedNetwork),
    };
    let max_credit_sats = match to_u64(row.max_credit_sats) {
        Ok(m) => m,
        Err(e) => return Err(e),
    };
    Ok(
        XmrCreditIntent {
            id,
            provider: row.provider.clone(),
            network,
            account_scope: row.account_scope.clone(),
            receive_scope: row.receive_scope.clone(),
            address_user: row.address_user.clone(),
            credit_pool: row.credit_pool.clone(),
            quote,
            max_credit_sats,
        },
    )
}

/// What registration stores is what reading the intent back gives: the
/// rebuilt intent has the same binding, the same limit and the same quote.
pub proof fn law_registered_intent_reads_back(i: XmrCreditIntent)
    requires
        intent_check(i) is Ok,
        quote_model_valid(i.quote@),
    ensures
        ({
            let v = valuation_of(i);
            let q = stored_quote_model(v, i.quote@.rate.numerator, i.quote@.rate.denominator);
            &&& u64_text(encode_utf8(v.rate_numerator->0)) == Some(i.quote@.rate.numerator)
            &&& u64_text(encode_utf8(v.rate_denominator->0)) == Some(i.quote@.rate.denominator)
            &&& q == i.quote@
            &&& quote_model_valid(q)
            &&& network_named(v.network) == Some(i.network)
        }),
{
    lemma_decimal_parses(i.quote@.rate.numerator);
    lemma_decimal_parses(i.quote@.rate.denominator);
    reveal_strlit("mainnet");
    reveal_strlit("testnet");
    reveal_strlit("stagenet");
    assert("mainnet"@[0] != "testnet"@[0]);
    assert("mainnet"@.len() != "stagenet"@.len());
    assert("testnet"@.len() != "stagenet"@.len());
}

/// The credit a native BTC settlement grants under identity valuation:
/// its whole sats, once. Only a positive, sat-aligned amount qualifies.
pub fn native_btc_grant(amount_msat: i64) -> (res: Result<u64, LedgerError>)
    ensures
        amount_msat > 0 && amount_msat % 1000 == 0 ==> res == Ok::<u64, LedgerError>(
            (amount_msat / 1000) as u64,
        ),
        !(amount_msat > 0 && amount_msat % 1000 == 0) ==> res == Err::<u64, LedgerError>(
            LedgerError::InvalidNativeSettlement,
        ),
{
    if amount_msat <= 0 || amount_msat % 1000 != 0 {
        return Err(LedgerError::InvalidNativeSettlement);
    }
    let sats = (amount_msat / 1000) as u64;
    let zero = match AssetAmount::new(Asset::Btc, 0) {
        Ok(a) => a,
        Err(e) => return Err(LedgerError::Credit(e)),
    };
    let amount = match AssetAmount::new(Asset::Btc, sats) {
        Ok(a) => a,
        Err(e) => return Err(LedgerError::Credit(e)),
    };
    let native = match amount.native_sats() {
        Ok(n) => n,
        Err(e) => return Err(LedgerError::Credit(e)),
    };
    let current = match AssetAmount::new(Asset::Btc, native) {
        Ok(a) => a,
        Err(e) => return Err(LedgerError::Credit(e)),
    };
    let terms = CreditTerms::native_btc();
    proof {
        assert(valued_sats(0, 1, 1) == 0);
        assert(valued_sats(sats as nat, 1, 1) == sats);
    }
    match terms.assess_update(zero, 0, current) {
        Ok(update) => Ok(update.delta_sats),
        Err(e) => Err(LedgerError::Credit(e)),
    }
}

} // verus!
