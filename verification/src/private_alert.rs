//! Durable private operational alerts: one encrypted alert per episode of
//! the balance at or above the sweep trigger, delivered at least once.
use vstd::prelude::*;
use vstd::string::StrSliceExecFns;
use vstd::utf8::encode_utf8;

use crate::ascii::{check_lower_hex_of_len, lower_hex_of_len};
use crate::config::{loopback, IpAddress};
use crate::crypto::{hex_encode, hex_text, sha256, sha256_digest};
use crate::nostr::private::{parsed_relays_ok, validate_private_relays};
use crate::json::{json_string, json_string_array};
use crate::text::{byte_len, decimal, same_text, text_len};
use crate::url::{parse_url, parsed_url, UrlModel};

verus! {

/// Alerts that may wait undelivered at once.
pub const MAX_PENDING: i64 = 128;

/// Why the alert policy, store or an operation was refused.
#[derive(Debug, Clone, Copy, PartialEq, Eq, Structural)]
pub enum AlertError {
    InvalidPolicy,
    InvalidRelays,
    PolicyChanged,
    NeedsInitialization,
    UnrelatedTables,
    UnsupportedVersion,
    StateNeedsReconciliation,
    InvalidState,
    CapacityExhausted,
    InvalidPath,
    InvalidProviderOrigin,
    InvalidSigner,
}

/// What `serde_json::to_vec` makes of the tuple
/// `(threshold_sats, recipient, relays, account_binding)`: a compact JSON
/// array of the number, the string, the array of strings and the string.
pub open spec fn policy_tuple_json(
    threshold_sats: u64,
    recipient: Seq<char>,
    relays: Seq<Seq<char>>,
    account_binding: Seq<char>,
) -> Seq<u8> {
    encode_utf8(
        seq!['['] + decimal(threshold_sats as nat) + seq![','] + json_string(recipient) + seq![',']
            + json_string_array(relays) + seq![','] + json_string(account_binding) + seq![']'],
    )
}

/// The texts of a list of strings.
pub open spec fn texts(v: Seq<String>) -> Seq<Seq<char>> {
    v.map_values(|s: String| s@)
}

/// Calls `serde_json::to_vec` on the tuple `(threshold_sats, recipient,
/// relays, account_binding)`. The contract claims the bytes are the compact
/// JSON text [`policy_tuple_json`]: a tuple and a `Vec` serialize as JSON
/// arrays, an integer in decimal, a string with `serde_json`'s escapes.
#[verifier::external_body]
fn encode_policy_tuple(threshold_sats: u64, recipient: &str, relays: &Vec<String>, account_binding: &str) -> (encoded: Vec<u8>)
    ensures
        encoded@ == policy_tuple_json(threshold_sats, recipient@, texts(relays@), account_binding@),
{
    match serde_json::to_vec(&(threshold_sats, recipient, relays, account_binding)) {
        Ok(bytes) => bytes,
        Err(_) => Vec::new(),
    }
}

/// What `serde_json::to_vec` makes of the tuple
/// `(policy_binding, strike_api_url, bunker_pubkey, bunker_relays)`: a
/// compact JSON array of three strings and an array of strings.
pub open spec fn runtime_tuple_json(
    policy_binding: Seq<char>,
    strike_api_url: Seq<char>,
    bunker_pubkey: Seq<char>,
    bunker_relays: Seq<Seq<char>>,
) -> Seq<u8> {
    encode_utf8(
        seq!['['] + json_string(policy_binding) + seq![','] + json_string(strike_api_url) + seq![',']
            + json_string(bunker_pubkey) + seq![','] + json_string_array(bunker_relays) + seq![']'],
    )
}

/// Calls `serde_json::to_vec` on the tuple `(policy_binding,
/// strike_api_url, bunker_pubkey, bunker_relays)`. The contract claims the
/// bytes are the compact JSON text [`runtime_tuple_json`].
#[verifier::external_body]
fn encode_runtime_tuple(
    policy_binding: &str,
    strike_api_url: &str,
    bunker_pubkey: &str,
    bunker_relays: &Vec<String>,
) -> (encoded: Vec<u8>)
    ensures
        encoded@ == runtime_tuple_json(policy_binding@, strike_api_url@, bunker_pubkey@, texts(bunker_relays@)),
{
    match serde_json::to_vec(&(policy_binding, strike_api_url, bunker_pubkey, bunker_relays)) {
        Ok(bytes) => bytes,
        Err(_) => Vec::new(),
    }
}

/// The texts of relays paired with their hosts' addresses.
pub open spec fn relay_texts(relays: Seq<(String, Option<IpAddress>)>) -> Seq<Seq<char>> {
    relays.map_values(|r: (String, Option<IpAddress>)| r.0@)
}

fn relay_strings(relays: &Vec<(String, Option<IpAddress>)>) -> (v: Vec<String>)
    ensures
        texts(v@) == relay_texts(relays@),
{
    let mut v: Vec<String> = Vec::new();
    let mut i: usize = 0;
    while i < relays.len()
        invariant
            i <= relays@.len(),
            v@.len() == i,
            forall|k: int| 0 <= k < i ==> (#[trigger] v@[k])@ == relays@[k].0@,
        decreases relays@.len() - i,
    {
        v.push(relays[i].0.clone());
        i = i + 1;
    }
    assert(texts(v@) =~= relay_texts(relays@));
    v
}

/// The protected alert policy: the sweep trigger, the recipient, its inbox
/// relays, and the binding that ties stored alert state to exactly this
/// policy. It is deliberately not printable.
pub struct AlertPolicy {
    threshold_sats: u64,
    recipient: String,
    relays: Vec<String>,
    binding: String,
}

impl AlertPolicy {
    pub closed spec fn threshold_view(&self) -> u64 {
        self.threshold_sats
    }

    pub closed spec fn recipient_view(&self) -> Seq<char> {
        self.recipient@
    }

    pub closed spec fn relays_view(&self) -> Seq<Seq<char>> {
        texts(self.relays@)
    }

    pub closed spec fn binding_view(&self) -> Seq<char> {
        self.binding@
    }

    /// A policy: a nonzero trigger, a lowercase hex recipient key, an
    /// account binding of 1 to 256 bytes and valid inbox relays (each with
    /// the address its host denotes, if any). Its binding is the hex
    /// SHA-256 of the JSON of the four values.
    pub fn new(
        threshold_sats: u64,
        recipient: String,
        relays: Vec<(String, Option<IpAddress>)>,
        account_binding: &str,
    ) -> (res: Result<Self, AlertError>)
        ensures
            (threshold_sats == 0 || !lower_hex_of_len(encode_utf8(recipient@), 64) || account_binding@.len()
                == 0 || byte_len(account_binding@) > 256) ==> res == Err::<Self, AlertError>(
                AlertError::InvalidPolicy,
            ),
            !(threshold_sats == 0 || !lower_hex_of_len(encode_utf8(recipient@), 64)
                || account_binding@.len() == 0 || byte_len(account_binding@) > 256) ==> if !parsed_relays_ok(relays@) {
                res == Err::<Self, AlertError>(AlertError::InvalidRelays)
            } else {
                res matches Ok(p) && p.threshold_view() == threshold_sats && p.recipient_view() == recipient@
                    && p.relays_view() == relay_texts(relays@) && p.binding_view() == hex_text(
                    sha256(
                        policy_tuple_json(
                            threshold_sats,
                            recipient@,
                            relay_texts(relays@),
                            account_binding@,
                        ),
                    ),
                )
            },
    {
        let n = text_len(account_binding);
        proof {
            vstd::utf8::encode_utf8_decode_utf8(account_binding@);
            if account_binding@.len() == 0 {
                assert(encode_utf8(account_binding@) =~= Seq::<u8>::empty());
            }
            if encode_utf8(account_binding@).len() == 0 {
                assert(vstd::utf8::decode_utf8(Seq::<u8>::empty()) =~= Seq::<char>::empty());
            }
        }
        if threshold_sats == 0 || !check_lower_hex_of_len(recipient.as_str().as_bytes(), 64) || n == 0
            || n > 256 {
            return Err(AlertError::InvalidPolicy);
        }
        if validate_private_relays(&relays).is_err() {
            return Err(AlertError::InvalidRelays);
        }
        let texts_only = relay_strings(&relays);
        let encoded = encode_policy_tuple(threshold_sats, recipient.as_str(), &texts_only, account_binding);
        let digest = sha256_digest(encoded.as_slice());
        let binding = hex_encode(digest.as_slice());
        Ok(AlertPolicy { threshold_sats, recipient, relays: texts_only, binding })
    }

    pub fn threshold_sats(&self) -> (t: u64)
        ensures
            t == self.threshold_view(),
    {
        self.threshold_sats
    }

    pub fn recipient(&self) -> (r: &str)
        ensures
            r@ == self.recipient_view(),
    {
        self.recipient.as_str()
    }

    pub fn relays(&self) -> (r: &Vec<String>)
        ensures
            texts(r@) == self.relays_view(),
    {
        &self.relays
    }

    pub fn binding(&self) -> (b: &str)
        ensures
            b@ == self.binding_view(),
    {
        self.binding.as_str()
    }

    /// Tie the policy also to the provider origin and the signer, so that
    /// reassigning either requires reconciliation: the binding becomes the
    /// hex SHA-256 of the JSON of the old binding, the origin, the signer
    /// key and its relays.
    pub fn bind_runtime(&mut self, strike_api_url: &str, bunker_pubkey: &str, bunker_relays: &Vec<String>)
        ensures
            final(self).threshold_view() == old(self).threshold_view(),
            final(self).recipient_view() == old(self).recipient_view(),
            final(self).relays_view() == old(self).relays_view(),
            final(self).binding_view() == hex_text(
                sha256(
                    runtime_tuple_json(
                        old(self).binding_view(),
                        strike_api_url@,
                        bunker_pubkey@,
                        texts(bunker_relays@),
                    ),
                ),
            ),
    {
        let encoded = encode_runtime_tuple(self.binding.as_str(), strike_api_url, bunker_pubkey, bunker_relays);
        let digest = sha256_digest(encoded.as_slice());
        self.binding = hex_encode(digest.as_slice());
    }
}

/// The only tables of an alert database.
pub open spec fn alert_tables(names: Seq<Seq<char>>) -> bool {
    names == seq!["private_alert_outbox"@, "private_alert_state"@]
}

/// Opening an alert database: an empty one is created only on explicit
/// initialization; an existing one must hold exactly the alert tables and
/// is never initialized again. `Ok(true)` means create the schema and arm
/// it for the policy.
pub fn open_decision(table_names: &Vec<String>, initialize: bool) -> (res: Result<bool, AlertError>)
    ensures
        table_names@.len() == 0 && !initialize ==> res == Err::<bool, AlertError>(AlertError::NeedsInitialization),
        table_names@.len() == 0 && initialize ==> res == Ok::<bool, AlertError>(true),
        table_names@.len() > 0 && (initialize || !alert_tables(texts(table_names@))) ==> res == Err::<
            bool,
            AlertError,
        >(AlertError::UnrelatedTables),
        table_names@.len() > 0 && !initialize && alert_tables(texts(table_names@)) ==> res == Ok::<
            bool,
            AlertError,
        >(false),
{
    if table_names.len() == 0 {
        if !initialize {
            return Err(AlertError::NeedsInitialization);
        }
        return Ok(true);
    }
    let exact = table_names.len() == 2 && same_text(table_names[0].as_str(), "private_alert_outbox")
        && same_text(table_names[1].as_str(), "private_alert_state");
    proof {
        if table_names@.len() == 2 {
            assert(texts(table_names@)[0] == table_names@[0]@);
            assert(texts(table_names@)[1] == table_names@[1]@);
        }
        if exact {
            assert(texts(table_names@) =~= seq!["private_alert_outbox"@, "private_alert_state"@]);
        }
        if alert_tables(texts(table_names@)) {
            assert(texts(table_names@).len() == 2);
        }
    }
    if initialize || !exact {
        return Err(AlertError::UnrelatedTables);
    }
    Ok(false)
}

/// The stored state must be exactly one singleton row for this policy,
/// armed or not, in schema version 1.
pub open spec fn state_ok(version: i64, rows: Seq<(i64, String, i64)>, binding: Seq<char>) -> Result<(), AlertError> {
    if version != 1 {
        Err(AlertError::UnsupportedVersion)
    } else if rows.len() != 1 || rows[0].0 != 1 || rows[0].1@ != binding || !(rows[0].2 == 0 || rows[0].2 == 1) {
        Err(AlertError::StateNeedsReconciliation)
    } else {
        Ok(())
    }
}

/// Check the stored state of an opened alert database (see `state_ok`).
pub fn check_state(version: i64, rows: &Vec<(i64, String, i64)>, binding: &str) -> (res: Result<(), AlertError>)
    ensures
        res == state_ok(version, rows@, binding@),
{
    if version != 1 {
        return Err(AlertError::UnsupportedVersion);
    }
    if rows.len() != 1 || rows[0].0 != 1 || !same_text(rows[0].1.as_str(), binding) || !(rows[0].2 == 0
        || rows[0].2 == 1) {
        return Err(AlertError::StateNeedsReconciliation);
    }
    Ok(())
}

/// Operations need the policy the store was opened with.
pub fn check_policy(store_binding: &str, policy: &AlertPolicy) -> (res: Result<(), AlertError>)
    ensures
        res is Ok <==> store_binding@ == policy.binding_view(),
        res is Err ==> res == Err::<(), AlertError>(AlertError::PolicyChanged),
{
    if same_text(store_binding, policy.binding()) {
        Ok(())
    } else {
        Err(AlertError::PolicyChanged)
    }
}

/// What one observation of the balance found.
#[derive(Debug, Clone, Copy, PartialEq, Eq, Structural)]
pub enum Observation {
    BelowThreshold,
    AlreadyAlerted,
    Queued,
}

/// What one delivery attempt did.
#[derive(Debug, Clone, Copy, PartialEq, Eq, Structural)]
pub enum Delivery {
    Empty,
    RetryPending,
    Delivered,
}

/// The outcome of observing `current` sats with the episode `armed`: below
/// the trigger re-arms; at or above it, an armed episode queues one alert
/// and disarms, a disarmed one has alerted already. With `MAX_PENDING`
/// alerts waiting, nothing more is queued. The pair is the observation and
/// whether the episode is armed afterwards.
pub open spec fn observe(armed: i64, current: u64, threshold: u64, pending: i64) -> Result<
    (Observation, bool),
    AlertError,
> {
    if !(armed == 0 || armed == 1) {
        Err(AlertError::InvalidState)
    } else if current < threshold {
        Ok((Observation::BelowThreshold, true))
    } else if armed == 0 {
        Ok((Observation::AlreadyAlerted, false))
    } else if pending >= MAX_PENDING {
        Err(AlertError::CapacityExhausted)
    } else {
        Ok((Observation::Queued, false))
    }
}

/// Decide an observation (see `observe`). `Queued` means encrypt the
/// alert, store it and disarm, all in the same transaction.
pub fn observe_decision(armed: i64, current: u64, threshold: u64, pending: i64) -> (res: Result<
    (Observation, bool),
    AlertError,
>)
    ensures
        res == observe(armed, current, threshold, pending),
{
    if !(armed == 0 || armed == 1) {
        return Err(AlertError::InvalidState);
    }
    if current < threshold {
        Ok((Observation::BelowThreshold, true))
    } else if armed == 0 {
        Ok((Observation::AlreadyAlerted, false))
    } else if pending >= MAX_PENDING {
        Err(AlertError::CapacityExhausted)
    } else {
        Ok((Observation::Queued, false))
    }
}

/// One alert per episode: once an alert is queued, no reading at or above
/// the trigger queues another; only a reading below it re-arms.
pub proof fn law_one_alert_per_episode(current: u64, later: u64, threshold: u64, pending: i64, later_pending: i64)
    requires
        observe(1, current, threshold, pending) == Ok::<(Observation, bool), AlertError>(
            (Observation::Queued, false),
        ),
        later >= threshold,
    ensures
        observe(0, later, threshold, later_pending) == Ok::<(Observation, bool), AlertError>(
            (Observation::AlreadyAlerted, false),
        ),
{
}

/// An episode is re-armed exactly by a reading below the trigger.
pub proof fn law_rearm_only_below_threshold(armed: i64, current: u64, threshold: u64, pending: i64)
    requires
        armed == 0 || armed == 1,
    ensures
        observe(armed, current, threshold, pending) matches Ok((o, now_armed)) ==> (o
            == Observation::BelowThreshold <==> current < threshold),
        current < threshold ==> observe(armed, current, threshold, pending) == Ok::<
            (Observation, bool),
            AlertError,
        >((Observation::BelowThreshold, true)),
{
}

/// What delivering the oldest stored alert did: the stored event, restored
/// from its ciphertext, must keep its identity and reach the relays; then
/// it is removed, else it stays for a retry of the same bytes.
/// `restored_id` is the restored event's ID, `None` where it could not be
/// restored; `published` whether the relays accepted it.
pub fn delivery_outcome(stored_id: &str, restored_id: Option<&str>, published: bool) -> (d: Delivery)
    ensures
        d == (if restored_id matches Some(r) && r@ == stored_id@ && published {
            Delivery::Delivered
        } else {
            Delivery::RetryPending
        }),
{
    match restored_id {
        Some(r) => if same_text(r, stored_id) && published {
            Delivery::Delivered
        } else {
            Delivery::RetryPending
        },
        None => Delivery::RetryPending,
    }
}

/// The attempts of an alert after a failed delivery: one more, at most
/// `i32::MAX`.
pub fn next_attempts(attempts: i64) -> (n: i64)
    ensures
        n == (if attempts + 1 < 2147483647 {
            attempts + 1
        } else {
            2147483647
        }),
{
    if attempts < 2147483646 {
        attempts + 1
    } else {
        2147483647
    }
}

/// The retry schedule of a periodic operation, in seconds: a success waits
/// the interval; each failure waits the current retry delay, which then
/// doubles up to the maximum.
pub struct Schedule {
    pub interval: u64,
    pub retry: u64,
    pub maximum: u64,
}

impl Schedule {
    pub fn new(interval: u64, maximum: u64) -> (s: Self)
        ensures
            s.interval == interval && s.retry == interval && s.maximum == maximum,
    {
        Schedule { interval, retry: interval, maximum }
    }

    /// Record the end of a run; the delay until the next run is returned.
    pub fn completed(&mut self, success: bool) -> (delay: u64)
        ensures
            final(self).interval == old(self).interval,
            final(self).maximum == old(self).maximum,
            success ==> delay == old(self).interval && final(self).retry == old(self).interval,
            !success ==> delay == old(self).retry && final(self).retry == (if old(self).retry * 2
                < old(self).maximum {
                old(self).retry * 2
            } else {
                old(self).maximum as int
            }),
    {
        if success {
            self.retry = self.interval;
            self.interval
        } else {
            let delay = self.retry;
            let doubled: u64 = if self.retry > u64::MAX / 2 {
                u64::MAX
            } else {
                self.retry * 2
            };
            self.retry = if doubled < self.maximum {
                doubled
            } else {
                self.maximum
            };
            delay
        }
    }
}

/// A path that is absolute and canonical: it starts at the root and no
/// component of it is `..`.
pub open spec fn canonical_absolute(path: Seq<char>) -> bool {
    &&& path.len() > 0
    &&& path[0] == '/'
    &&& !has_parent_component(path)
}

/// The `/`-separated component starting at `i` is `..`.
pub open spec fn parent_component_at(path: Seq<char>, i: int) -> bool {
    0 <= i && i + 2 <= path.len() && path[i] == '.' && path[i + 1] == '.' && (i == 0 || path[i - 1] == '/')
        && (i + 2 == path.len() || path[i + 2] == '/')
}

/// Some `/`-separated component of the path is `..`.
pub open spec fn has_parent_component(path: Seq<char>) -> bool {
    exists|i: int| parent_component_at(path, i)
}

/// Whether a path is absolute and canonical (see `canonical_absolute`).
pub fn check_canonical_path(path: &str) -> (ok: bool)
    ensures
        ok == canonical_absolute(path@),
{
    let n = path.unicode_len();
    if n == 0 || path.get_char(0) != '/' {
        return false;
    }
    let mut i: usize = 0;
    while i < n - 1
        invariant
            n == path@.len(),
            n > 0,
            i <= n - 1,
            forall|k: int| 0 <= k < i ==> !parent_component_at(path@, k),
        decreases n - i,
    {
        if path.get_char(i) == '.' && path.get_char(i + 1) == '.' && (i == 0 || path.get_char(i - 1)
            == '/') && (i + 2 == n || path.get_char(i + 2) == '/') {
            assert(parent_component_at(path@, i as int));
            return false;
        }
        i = i + 1;
    }
    proof {
        assert forall|k: int| !parent_component_at(path@, k) by {
            if 0 <= k < i {
            }
        }
    }
    true
}

/// The checks on the private alert runtime: canonical absolute database,
/// `nak` and `nak` configuration paths; a provider origin of at most 2048
/// bytes with a host, without credentials, query or fragment, that is
/// `https`, or `http` to a loopback address (`host_ip` is the address its
/// host denotes, if any); a lowercase hex signer key; valid signer relays.
pub open spec fn runtime_check(
    paths: Seq<Seq<char>>,
    strike_api_url: Seq<char>,
    host_ip: Option<IpAddress>,
    bunker_pubkey: Seq<char>,
    relays: Seq<(String, Option<IpAddress>)>,
) -> Result<(), AlertError> {
    if !(forall|i: int| 0 <= i < paths.len() ==> canonical_absolute(#[trigger] paths[i])) {
        Err(AlertError::InvalidPath)
    } else if !origin_ok(strike_api_url, parsed_url(strike_api_url), host_ip) {
        Err(AlertError::InvalidProviderOrigin)
    } else if !lower_hex_of_len(encode_utf8(bunker_pubkey), 64) {
        Err(AlertError::InvalidSigner)
    } else if !parsed_relays_ok(relays) {
        Err(AlertError::InvalidRelays)
    } else {
        Ok(())
    }
}

/// The provider origin rule of `runtime_check`.
pub open spec fn origin_ok(raw: Seq<char>, u: Option<UrlModel>, host_ip: Option<IpAddress>) -> bool {
    match u {
        None => false,
        Some(u) => {
            &&& byte_len(raw) <= 2048
            &&& u.host is Some
            &&& u.username.len() == 0
            &&& u.password is None
            &&& u.query is None
            &&& u.fragment is None
            &&& (u.scheme == "https"@ || (u.scheme == "http"@ && host_ip is Some && loopback(host_ip->0)))
        },
    }
}

/// Check the private alert runtime (see `runtime_check`).
pub fn check_runtime(
    paths: &Vec<String>,
    strike_api_url: &str,
    host_ip: Option<IpAddress>,
    bunker_pubkey: &str,
    relays: &Vec<(String, Option<IpAddress>)>,
) -> (res: Result<(), AlertError>)
    ensures
        res == runtime_check(texts(paths@), strike_api_url@, host_ip, bunker_pubkey@, relays@),
{
    let mut i: usize = 0;
    while i < paths.len()
        invariant
            i <= paths@.len(),
            forall|k: int| 0 <= k < i ==> canonical_absolute(#[trigger] texts(paths@)[k]),
        decreases paths@.len() - i,
    {
        if !check_canonical_path(paths[i].as_str()) {
            assert(!canonical_absolute(texts(paths@)[i as int]));
            return Err(AlertError::InvalidPath);
        }
        i = i + 1;
    }
    let u = match parse_url(strike_api_url) {
        None => return Err(AlertError::InvalidProviderOrigin),
        Some(u) => u,
    };
    let local = match host_ip {
        Some(ip) => ip.is_loopback(),
        None => false,
    };
    if text_len(strike_api_url) > 2048 || u.host.is_none() || u.username.unicode_len() > 0
        || u.password.is_some() || u.query.is_some() || u.fragment.is_some() || !(same_text(
        u.scheme.as_str(),
        "https",
    ) || (same_text(u.scheme.as_str(), "http") && local)) {
        return Err(AlertError::InvalidProviderOrigin);
    }
    if !check_lower_hex_of_len(bunker_pubkey.as_bytes(), 64) {
        return Err(AlertError::InvalidSigner);
    }
    if validate_private_relays(relays).is_err() {
        return Err(AlertError::InvalidRelays);
    }
    Ok(())
}

} // verus!
