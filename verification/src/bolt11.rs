//! Checks on the signed BOLT11 invoice itself, independent of the fields a
//! provider's JSON wraps around it.
use vstd::prelude::*;
use vstd::string::StringSliceAdditionalSpecFns;

use crate::ascii::eq_ignore_ascii_case;
use crate::strike::same_hex;

verus! {

/// What a decoded invoice says, as the checks read it.
pub struct Bolt11Model {
    pub signature_valid: bool,
    pub bitcoin_mainnet: bool,
    pub amount_msat: Option<u64>,
    pub payment_hash: Seq<char>,
    pub description_hash: Option<Seq<char>>,
    pub timestamp_secs: u64,
    pub expiry_secs: u64,
}

/// The facts of a decoded invoice.
#[derive(Debug, Clone)]
pub struct Bolt11Facts {
    pub signature_valid: bool,
    pub bitcoin_mainnet: bool,
    pub amount_msat: Option<u64>,
    pub payment_hash: String,
    pub description_hash: Option<String>,
    pub timestamp_secs: u64,
    pub expiry_secs: u64,
}

impl View for Bolt11Facts {
    type V = Bolt11Model;

    open spec fn view(&self) -> Bolt11Model {
        Bolt11Model {
            signature_valid: self.signature_valid,
            bitcoin_mainnet: self.bitcoin_mainnet,
            amount_msat: self.amount_msat,
            payment_hash: self.payment_hash@,
            description_hash: match self.description_hash {
                Some(h) => Some(h@),
                None => None,
            },
            timestamp_secs: self.timestamp_secs,
            expiry_secs: self.expiry_secs,
        }
    }
}

/// What `lightning_invoice` decodes a text to, `None` where it refuses it.
pub uninterp spec fn bolt11_decoded(encoded: Seq<char>) -> Option<Bolt11Model>;

/// Parses with `lightning_invoice::Bolt11Invoice::from_str` and copies out
/// `check_signature`, whether `currency` is `Bitcoin`,
/// `amount_milli_satoshis`, the payment hash and the description hash in
/// hexadecimal, `duration_since_epoch` and `expiry_time` in seconds; the
/// claim is only that the facts are a function of the text.
#[verifier::external_body]
fn decode_bolt11(encoded: &str) -> (facts: Option<Bolt11Facts>)
    ensures
        match facts {
            Some(f) => bolt11_decoded(encoded@) == Some(f@),
            None => bolt11_decoded(encoded@) is None,
        },
{
    let invoice: lightning_invoice::Bolt11Invoice = encoded.parse().ok()?;
    let description_hash = match invoice.description() {
        lightning_invoice::Bolt11InvoiceDescriptionRef::Hash(hash) => Some(hash.0.to_string()),
        lightning_invoice::Bolt11InvoiceDescriptionRef::Direct(_) => None,
    };
    Some(Bolt11Facts {
        signature_valid: invoice.check_signature().is_ok(),
        bitcoin_mainnet: invoice.currency() == lightning_invoice::Currency::Bitcoin,
        amount_msat: invoice.amount_milli_satoshis(),
        payment_hash: invoice.payment_hash().to_string(),
        description_hash,
        timestamp_secs: invoice.duration_since_epoch().as_secs(),
        expiry_secs: invoice.expiry_time().as_secs(),
    })
}

/// Why an invoice was refused.
#[derive(Debug, Clone, Copy, PartialEq, Eq, Structural)]
pub enum Bolt11Error {
    Invalid,
    Signature,
    Network,
    Amount,
    PaymentHash,
    DescriptionHash,
    Expiry,
    FromFuture,
    Expired,
}

/// The checks of a decoded invoice against what was requested.
pub open spec fn invoice_check(m: Option<Bolt11Model>, amount_msat: u64, payment_hash: Seq<char>, description_hash: Seq<char>) -> Result<(), Bolt11Error> {
    match m {
        None => Err(Bolt11Error::Invalid),
        Some(f) => if !f.signature_valid {
            Err(Bolt11Error::Signature)
        } else if !f.bitcoin_mainnet {
            Err(Bolt11Error::Network)
        } else if f.amount_msat != Some(amount_msat) || amount_msat == 0 {
            Err(Bolt11Error::Amount)
        } else if !same_hex(f.payment_hash, payment_hash) {
            Err(Bolt11Error::PaymentHash)
        } else if !(f.description_hash is Some && same_hex(f.description_hash->0, description_hash)) {
            Err(Bolt11Error::DescriptionHash)
        } else {
            Ok(())
        },
    }
}

/// Verify a signed invoice: valid signature, Bitcoin mainnet, exactly the
/// requested nonzero amount, the provider's payment hash, and a commitment
/// to the exact metadata hash.
pub fn verify(encoded: &str, amount_msat: u64, payment_hash: &str, description_hash: &str) -> (res: Result<Bolt11Facts, Bolt11Error>)
    ensures
        match invoice_check(bolt11_decoded(encoded@), amount_msat, payment_hash@, description_hash@) {
            Err(e) => res == Err::<Bolt11Facts, Bolt11Error>(e),
            Ok(()) => res matches Ok(f) && bolt11_decoded(encoded@) == Some(f@),
        },
{
    let f = match decode_bolt11(encoded) {
        None => return Err(Bolt11Error::Invalid),
        Some(f) => f,
    };
    if !f.signature_valid {
        return Err(Bolt11Error::Signature);
    }
    if !f.bitcoin_mainnet {
        return Err(Bolt11Error::Network);
    }
    if f.amount_msat != Some(amount_msat) || amount_msat == 0 {
        return Err(Bolt11Error::Amount);
    }
    if !eq_ignore_ascii_case(f.payment_hash.as_str().as_bytes(), payment_hash.as_bytes()) {
        return Err(Bolt11Error::PaymentHash);
    }
    let committed = match &f.description_hash {
        Some(h) => eq_ignore_ascii_case(h.as_str().as_bytes(), description_hash.as_bytes()),
        None => false,
    };
    if !committed {
        return Err(Bolt11Error::DescriptionHash);
    }
    Ok(f)
}

/// The issuance checks at time `now_secs` (whole seconds; the invoice's
/// times are whole seconds, so the fraction of the current second never
/// changes a comparison): the requested nonzero expiry, a timestamp at most
/// 30 seconds ahead, and an expiry still in the future.
pub open spec fn expiry_check(f: Bolt11Model, expected_seconds: u64, now_secs: u64) -> Result<(), Bolt11Error> {
    if expected_seconds == 0 || f.expiry_secs != expected_seconds {
        Err(Bolt11Error::Expiry)
    } else if f.timestamp_secs > now_secs + 30 {
        Err(Bolt11Error::FromFuture)
    } else if f.timestamp_secs + f.expiry_secs > u64::MAX || f.timestamp_secs + f.expiry_secs <= now_secs {
        Err(Bolt11Error::Expired)
    } else {
        Ok(())
    }
}

pub fn verify_expiry_at(invoice: &Bolt11Facts, expected_seconds: u64, now_secs: u64) -> (res: Result<(), Bolt11Error>)
    ensures
        res == expiry_check(invoice@, expected_seconds, now_secs),
{
    if expected_seconds == 0 || invoice.expiry_secs != expected_seconds {
        return Err(Bolt11Error::Expiry);
    }
    let horizon = now_secs.saturating_add(30);
    if invoice.timestamp_secs > horizon {
        return Err(Bolt11Error::FromFuture);
    }
    match invoice.timestamp_secs.checked_add(invoice.expiry_secs) {
        None => Err(Bolt11Error::Expired),
        Some(expires) => if expires <= now_secs {
            Err(Bolt11Error::Expired)
        } else {
            Ok(())
        },
    }
}

} // verus!
