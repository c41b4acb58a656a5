//! LNURL-pay for the configured Lightning Addresses: the address book, the
//! discovery document, the callback's amount checks and the public errors.
use vstd::prelude::*;
use vstd::string::{StrSliceExecFns, StringSliceAdditionalSpecFns};
use vstd::utf8::encode_utf8;

use crate::config::LightningAddressConfig;
use crate::crypto::{hex_encode, hex_text, sha256, sha256_digest};
use crate::domain::invoice::{valid_user_bytes, validate_user};
use crate::json::{json_string, push_json_string};
use crate::text::{append_str, same_text};
use crate::url::{join_url, joined_url, parse_url, parsed_url};

verus! {

/// The LNURL tag of a pay request.
pub const PAY_REQUEST_TAG: &'static str = "payRequest";

/// Why an LNURL request was refused.
#[derive(Debug, Clone, PartialEq, Eq)]
pub enum LnurlServiceError {
    UnknownUser,
    InvalidAmount(&'static str),
    Busy,
    Provider(String),
}

impl LnurlServiceError {
    pub fn is_unknown_user(&self) -> (r: bool)
        ensures
            r == (*self is UnknownUser),
    {
        match self {
            LnurlServiceError::UnknownUser => true,
            _ => false,
        }
    }

    /// The reason shown to the payer; provider details stay private.
    pub fn public_reason(&self) -> (reason: &'static str)
        ensures
            *self is UnknownUser ==> reason@ == "Unknown Lightning Address"@,
            *self matches LnurlServiceError::InvalidAmount(r) ==> reason@ == r@,
            *self is Provider ==> reason@ == "Unable to create Lightning invoice"@,
            *self is Busy ==> reason@ == "Invoice service is busy; retry later"@,
    {
        match self {
            LnurlServiceError::UnknownUser => "Unknown Lightning Address",
            LnurlServiceError::InvalidAmount(reason) => reason,
            LnurlServiceError::Provider(_) => "Unable to create Lightning invoice",
            LnurlServiceError::Busy => "Invoice service is busy; retry later",
        }
    }

    /// The provider failure behind the error, for the operator's log.
    pub fn internal_error(&self) -> (e: Option<&String>)
        ensures
            *self matches LnurlServiceError::Provider(m) ==> e == Some(&m),
            !(*self is Provider) ==> e is None,
    {
        match self {
            LnurlServiceError::Provider(error) => Some(error),
            _ => None,
        }
    }
}

/// The LNURL-pay discovery document.
#[derive(Debug, Clone, PartialEq, Eq)]
pub struct LnurlPayRequest {
    pub callback: String,
    pub max_sendable: u64,
    pub min_sendable: u64,
    pub metadata: String,
    pub tag: &'static str,
}

/// The callback's answer: the invoice to pay.
#[derive(Debug, Clone, PartialEq, Eq)]
pub struct LnurlPayCallbackResponse {
    pub pr: String,
    pub routes: Vec<String>,
}

/// The LNURL error document.
#[derive(Debug, Clone, PartialEq, Eq)]
pub struct LnurlErrorResponse {
    pub status: &'static str,
    pub reason: String,
}

impl LnurlErrorResponse {
    pub fn new(reason: &str) -> (r: Self)
        ensures
            r.status@ == "ERROR"@,
            r.reason@ == reason@,
    {
        LnurlErrorResponse { status: "ERROR", reason: reason.to_owned() }
    }
}

/// The LNURL metadata of an address, `[["text/plain", description],
/// ["text/identifier", identifier]]`, as compact JSON.
pub open spec fn metadata_json(description: Seq<char>, identifier: Seq<char>) -> Seq<char> {
    "[[\"text/plain\","@ + json_string(description) + "],[\"text/identifier\","@ + json_string(identifier)
        + "]]"@
}

/// Write the LNURL metadata of an address (see `metadata_json`).
fn lnurl_metadata(description: &str, identifier: &str) -> (metadata: String)
    ensures
        metadata@ == metadata_json(description@, identifier@),
{
    let mut out = "[[\"text/plain\",".to_string();
    push_json_string(&mut out, description);
    append_str(&mut out, "],[\"text/identifier\",");
    push_json_string(&mut out, identifier);
    append_str(&mut out, "]]");
    proof {
        assert(out@ =~= metadata_json(description@, identifier@));
    }
    out
}

/// A configured address, ready to serve.
#[derive(Debug, Clone)]
pub struct RegisteredAddress {
    pub user: String,
    pub display_name: String,
    pub credit_pool: String,
    pub min_sendable_msat: u64,
    pub max_sendable_msat: u64,
    pub metadata: String,
    pub description_hash: String,
}

/// Why the address book could not be built.
#[derive(Debug, Clone, Copy, PartialEq, Eq, Structural)]
pub enum AddressBookError {
    InvalidBaseUrl,
    MissingHost,
    InvalidUser,
    NotHerdPool,
    DuplicateUser,
}

/// The configured Lightning Addresses under one public base URL; no user
/// occurs twice.
#[derive(Debug)]
pub struct AddressBook {
    public_base_url: String,
    addresses: Vec<RegisteredAddress>,
}

/// The identifier of an address, `user@host`.
pub open spec fn identifier_of(user: Seq<char>, host: Seq<char>) -> Seq<char> {
    user + seq!['@'] + host
}

/// The registered form of a configured address under `host`.
pub open spec fn registered_from(c: LightningAddressConfig, host: Seq<char>, a: RegisteredAddress) -> bool {
    let metadata = metadata_json(c.description@, identifier_of(c.user@, host));
    &&& a.user@ == c.user@
    &&& a.display_name@ == c.display_name@
    &&& a.credit_pool@ == c.credit_pool@
    &&& a.min_sendable_msat == c.min_sendable_msat
    &&& a.max_sendable_msat == c.max_sendable_msat
    &&& a.metadata@ == metadata
    &&& a.description_hash@ == hex_text(sha256(encode_utf8(metadata)))
}

/// The first check a configured address fails, given those before it.
pub open spec fn address_check(cs: Seq<LightningAddressConfig>, i: int) -> Result<(), AddressBookError> {
    if !valid_user_bytes(encode_utf8(cs[i].user@)) {
        Err(AddressBookError::InvalidUser)
    } else if cs[i].credit_pool@ != "herd"@ {
        Err(AddressBookError::NotHerdPool)
    } else if exists|j: int| 0 <= j < i && #[trigger] cs[j].user@ == cs[i].user@ {
        Err(AddressBookError::DuplicateUser)
    } else {
        Ok(())
    }
}

pub open spec fn addresses_check(cs: Seq<LightningAddressConfig>, n: nat) -> Result<(), AddressBookError>
    decreases n,
{
    if n == 0 {
        Ok(())
    } else {
        match addresses_check(cs, (n - 1) as nat) {
            Err(e) => Err(e),
            Ok(()) => address_check(cs, n - 1),
        }
    }
}

proof fn lemma_addresses_error_sticks(cs: Seq<LightningAddressConfig>, k: nat, n: nat)
    requires
        k <= n,
        addresses_check(cs, k) is Err,
    ensures
        addresses_check(cs, n) == addresses_check(cs, k),
    decreases n - k,
{
    if k < n {
        lemma_addresses_error_sticks(cs, k, (n - 1) as nat);
    }
}

/// The outcome of building an address book.
pub open spec fn book_check(base: Seq<char>, cs: Seq<LightningAddressConfig>) -> Result<(), AddressBookError> {
    match parsed_url(base) {
        None => Err(AddressBookError::InvalidBaseUrl),
        Some(u) => if u.host is None {
            Err(AddressBookError::MissingHost)
        } else {
            addresses_check(cs, cs.len())
        },
    }
}

fn seen_user(cs: &Vec<LightningAddressConfig>, i: usize) -> (found: bool)
    requires
        i < cs@.len(),
    ensures
        found == exists|j: int| 0 <= j < i && #[trigger] cs@[j].user@ == cs@[i as int].user@,
{
    let mut j: usize = 0;
    while j < i
        invariant
            i < cs@.len(),
            j <= i,
            forall|k: int| 0 <= k < j ==> #[trigger] cs@[k].user@ != cs@[i as int].user@,
        decreases i - j,
    {
        if same_text(cs[j].user.as_str(), cs[i].user.as_str()) {
            return true;
        }
        j = j + 1;
    }
    false
}

/// No user name occurs twice among the entries.
pub open spec fn users_distinct(entries: Seq<RegisteredAddress>) -> bool {
    forall|i: int, j: int|
        0 <= i < j < entries.len() ==> #[trigger] entries[i].user@ != #[trigger] entries[j].user@
}

impl AddressBook {
    #[verifier::type_invariant]
    closed spec fn distinct_users(self) -> bool {
        users_distinct(self.addresses@)
    }

    pub closed spec fn base_view(&self) -> Seq<char> {
        self.public_base_url@
    }

    pub closed spec fn entries(&self) -> Seq<RegisteredAddress> {
        self.addresses@
    }

    /// Register the configured addresses under the public base URL's host:
    /// each user canonical, each in the herd pool, none twice, each with its
    /// metadata and the SHA-256 of that metadata as its description hash.
    pub fn new(public_base_url: &str, configured: &Vec<LightningAddressConfig>) -> (res: Result<Self, AddressBookError>)
        ensures
            match book_check(public_base_url@, configured@) {
                Err(e) => res == Err::<Self, AddressBookError>(e),
                Ok(()) => res matches Ok(book) && {
                    &&& book.base_view() == public_base_url@
                    &&& book.entries().len() == configured@.len()
                    &&& users_distinct(book.entries())
                    &&& forall|i: int|
                        0 <= i < configured@.len() ==> registered_from(
                            #[trigger] configured@[i],
                            parsed_url(public_base_url@)->0.host->0,
                            book.entries()[i],
                        )
                },
            },
    {
        let parts = match parse_url(public_base_url) {
            None => return Err(AddressBookError::InvalidBaseUrl),
            Some(p) => p,
        };
        let host = match &parts.host {
            None => return Err(AddressBookError::MissingHost),
            Some(h) => h,
        };
        let mut addresses: Vec<RegisteredAddress> = Vec::new();
        let n = configured.len();
        let mut i: usize = 0;
        while i < n
            invariant
                n == configured@.len(),
                i <= n,
                host@ == parsed_url(public_base_url@)->0.host->0,
                addresses_check(configured@, i as nat) == Ok::<(), AddressBookError>(()),
                book_check(public_base_url@, configured@) == addresses_check(configured@, n as nat),
                addresses@.len() == i,
                forall|k: int|
                    0 <= k < i ==> registered_from(#[trigger] configured@[k], host@, addresses@[k]),
                users_distinct(addresses@),
            decreases n - i,
        {
            let c = &configured[i];
            let check = if validate_user(c.user.as_str()).is_err() {
                Err(AddressBookError::InvalidUser)
            } else if !same_text(c.credit_pool.as_str(), "herd") {
                Err(AddressBookError::NotHerdPool)
            } else if seen_user(configured, i) {
                Err(AddressBookError::DuplicateUser)
            } else {
                Ok(())
            };
            assert(check == address_check(configured@, i as int));
            if let Err(e) = check {
                proof {
                    lemma_addresses_error_sticks(configured@, (i + 1) as nat, n as nat);
                }
                return Err(e);
            }
            proof {
                assert forall|k: int| 0 <= k < i implies #[trigger] addresses@[k].user@ != c.user@ by {
                    if addresses@[k].user@ == c.user@ {
                        assert(configured@[k].user@ == configured@[i as int].user@);
                    }
                }
            }
            let mut identifier = c.user.clone();
            append_str(&mut identifier, "@");
            append_str(&mut identifier, host.as_str());
            proof {
                reveal_strlit("@");
                assert(identifier@ =~= identifier_of(c.user@, host@));
            }
            let metadata = lnurl_metadata(c.description.as_str(), identifier.as_str());
            let digest = sha256_digest(metadata.as_str().as_bytes());
            let description_hash = hex_encode(digest.as_slice());
            addresses.push(
                RegisteredAddress {
                    user: c.user.clone(),
                    display_name: c.display_name.clone(),
                    credit_pool: c.credit_pool.clone(),
                    min_sendable_msat: c.min_sendable_msat,
                    max_sendable_msat: c.max_sendable_msat,
                    metadata,
                    description_hash,
                },
            );
            proof {
                assert forall|a: int, b: int|
                    0 <= a < b < addresses@.len() implies #[trigger] addresses@[a].user@
                    != #[trigger] addresses@[b].user@ by {
                    if b == i as int {
                        assert(addresses@[a].user@ != c.user@);
                    }
                }
            }
            i = i + 1;
        }
        Ok(AddressBook { public_base_url: public_base_url.to_owned(), addresses })
    }

    /// The registered address of a canonical user name.
    #[verifier::loop_isolation(false)]
    pub fn address(&self, user: &str) -> (res: Result<&RegisteredAddress, LnurlServiceError>)
        ensures
            !valid_user_bytes(user.spec_bytes()) ==> res == Err::<&RegisteredAddress, LnurlServiceError>(
                LnurlServiceError::UnknownUser,
            ),
            valid_user_bytes(user.spec_bytes()) ==> match res {
                Ok(a) => exists|i: int|
                    0 <= i < self.entries().len() && self.entries()[i] == *a && a.user@ == user@
                        && forall|j: int|
                        0 <= j < self.entries().len() && j != i ==> #[trigger] self.entries()[j].user@
                            != user@,
                Err(e) => e == LnurlServiceError::UnknownUser && forall|i: int|
                    0 <= i < self.entries().len() ==> #[trigger] self.entries()[i].user@ != user@,
            },
    {
        proof {
            use_type_invariant(self);
        }
        if validate_user(user).is_err() {
            return Err(LnurlServiceError::UnknownUser);
        }
        let mut i: usize = 0;
        while i < self.addresses.len()
            invariant
                i <= self.addresses@.len(),
                forall|k: int| 0 <= k < i ==> #[trigger] self.addresses@[k].user@ != user@,
            decreases self.addresses@.len() - i,
        {
            if same_text(self.addresses[i].user.as_str(), user) {
                assert(self.entries()[i as int] == self.addresses@[i as int]);
                return Ok(&self.addresses[i]);
            }
            i = i + 1;
        }
        Err(LnurlServiceError::UnknownUser)
    }

    /// The display name of a configured user; `None` for any other name.
    pub fn display_name(&self, user: &str) -> (name: Option<&str>)
        ensures
            match name {
                Some(n) => exists|i: int|
                    0 <= i < self.entries().len() && #[trigger] self.entries()[i].user@ == user@ && n@
                        == self.entries()[i].display_name@,
                None => !valid_user_bytes(user.spec_bytes()) || forall|i: int|
                    0 <= i < self.entries().len() ==> #[trigger] self.entries()[i].user@ != user@,
            },
    {
        match self.address(user) {
            Ok(a) => Some(a.display_name.as_str()),
            Err(_) => None,
        }
    }

    /// The discovery document of a user: the callback under the public
    /// base, the address's sendable range, its metadata and the pay tag.
    pub fn discovery(&self, user: &str) -> (res: Result<LnurlPayRequest, LnurlServiceError>)
        ensures
            !valid_user_bytes(user.spec_bytes()) || (forall|i: int|
                0 <= i < self.entries().len() ==> #[trigger] self.entries()[i].user@ != user@) ==> res
                == Err::<LnurlPayRequest, LnurlServiceError>(LnurlServiceError::UnknownUser),
            res matches Ok(d) ==> exists|i: int|
                0 <= i < self.entries().len() && #[trigger] self.entries()[i].user@ == user@ && {
                    let a = self.entries()[i];
                    &&& joined_url(self.base_view(), "lnurlp/"@ + user@ + "/callback"@) == Some(d.callback@)
                    &&& d.max_sendable == a.max_sendable_msat
                    &&& d.min_sendable == a.min_sendable_msat
                    &&& d.metadata@ == a.metadata@
                    &&& d.tag@ == PAY_REQUEST_TAG@
                },
            res is Err ==> res == Err::<LnurlPayRequest, LnurlServiceError>(LnurlServiceError::UnknownUser)
                || res matches Err(LnurlServiceError::Provider(_)),
            valid_user_bytes(user.spec_bytes()) && (exists|i: int|
                0 <= i < self.entries().len() && #[trigger] self.entries()[i].user@ == user@) ==> (res is Ok
                <==> joined_url(self.base_view(), "lnurlp/"@ + user@ + "/callback"@) is Some),
    {
        let address = match self.address(user) {
            Ok(a) => a,
            Err(e) => return Err(e),
        };
        let mut relative = "lnurlp/".to_owned();
        append_str(&mut relative, address.user.as_str());
        append_str(&mut relative, "/callback");
        let callback = match join_url(self.public_base_url.as_str(), relative.as_str()) {
            Some(c) => c,
            None => return Err(LnurlServiceError::Provider("callback URL could not be built".to_owned())),
        };
        Ok(
            LnurlPayRequest {
                callback,
                max_sendable: address.max_sendable_msat,
                min_sendable: address.min_sendable_msat,
                metadata: address.metadata.clone(),
                tag: PAY_REQUEST_TAG,
            },
        )
    }

    /// The users of the book, in configuration order.
    pub fn configured_users(&self) -> (users: Vec<String>)
        ensures
            users@.len() == self.entries().len(),
            forall|i: int| 0 <= i < users@.len() ==> #[trigger] users@[i]@ == self.entries()[i].user@,
    {
        let mut users: Vec<String> = Vec::new();
        let mut i: usize = 0;
        while i < self.addresses.len()
            invariant
                i <= self.addresses@.len(),
                users@.len() == i,
                forall|k: int| 0 <= k < i ==> #[trigger] users@[k]@ == self.addresses@[k].user@,
            decreases self.addresses@.len() - i,
        {
            users.push(self.addresses[i].user.clone());
            i = i + 1;
        }
        users
    }
}

/// The callback's refusal of an amount, before any provider is contacted.
pub open spec fn amount_check(a: RegisteredAddress, amount_msat: u64) -> Option<Seq<char>> {
    if amount_msat < a.min_sendable_msat {
        Some("Amount is below the minimum"@)
    } else if amount_msat > a.max_sendable_msat {
        Some("Amount exceeds the maximum"@)
    } else if amount_msat % 1000 != 0 {
        Some("Amount must be a whole number of satoshis"@)
    } else {
        None
    }
}

/// Check a callback amount: within the address's sendable range and a whole
/// number of sats.
pub fn check_callback_amount(address: &RegisteredAddress, amount_msat: u64) -> (res: Result<(), LnurlServiceError>)
    ensures
        match amount_check(*address, amount_msat) {
            None => res is Ok,
            Some(reason) => res matches Err(LnurlServiceError::InvalidAmount(r)) && r@ == reason,
        },
{
    if amount_msat < address.min_sendable_msat {
        return Err(LnurlServiceError::InvalidAmount("Amount is below the minimum"));
    }
    if amount_msat > address.max_sendable_msat {
        return Err(LnurlServiceError::InvalidAmount("Amount exceeds the maximum"));
    }
    if amount_msat % 1000 != 0 {
        return Err(LnurlServiceError::InvalidAmount("Amount must be a whole number of satoshis"));
    }
    Ok(())
}

} // verus!
