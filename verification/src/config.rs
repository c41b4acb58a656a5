//! Service configuration and its fail-closed validation.
use vstd::prelude::*;
use vstd::string::StrSliceExecFns;
use vstd::utf8::encode_utf8;

use crate::ascii::{check_hex_of_len, hex_of_len};
use crate::domain::invoice::{valid_user_bytes, validate_user};
use crate::text::{blank, byte_len, has_prefix, is_blank, same_text, starts_with_bytes, text_len};
use crate::url::{parse_url, parsed_url, UrlModel, UrlParts};

verus! {

/// The six Lightning Address users that Phase 1 must register.
pub open spec fn required_user(i: int) -> Seq<char> {
    if i == 0 {
        "herd"@
    } else if i == 1 {
        "dexter"@
    } else if i == 2 {
        "rowan"@
    } else if i == 3 {
        "cosmo"@
    } else if i == 4 {
        "newton"@
    } else {
        "nova"@
    }
}

pub const REQUIRED_USER_COUNT: usize = 6;

#[derive(Debug, Clone, Copy, PartialEq, Eq, Structural)]
pub enum IpAddress {
    V4(u8, u8, u8, u8),
    V6(u16, u16, u16, u16, u16, u16, u16, u16),
}

/// A socket address to listen on.
#[derive(Debug, Clone, Copy, PartialEq, Eq, Structural)]
pub struct ListenAddress {
    pub ip: IpAddress,
    pub port: u16,
}

/// `127.0.0.0/8` for IPv4 and `::1` for IPv6, as the standard library
/// defines loopback.
pub open spec fn loopback(ip: IpAddress) -> bool {
    match ip {
        IpAddress::V4(a, _, _, _) => a == 127,
        IpAddress::V6(a, b, c, d, e, f, g, h) => a == 0 && b == 0 && c == 0 && d == 0 && e == 0
            && f == 0 && g == 0 && h == 1,
    }
}

impl IpAddress {
    pub fn is_loopback(self) -> (r: bool)
        ensures
            r == loopback(self),
    {
        match self {
            IpAddress::V4(a, _, _, _) => a == 127,
            IpAddress::V6(a, b, c, d, e, f, g, h) => a == 0 && b == 0 && c == 0 && d == 0 && e
                == 0 && f == 0 && g == 0 && h == 1,
        }
    }
}

#[derive(Debug, Clone, Copy, PartialEq, Eq, Structural)]
pub enum RuntimeMode {
    Shadow,
    Canary,
    Active,
}

impl RuntimeMode {
    pub fn as_str(self) -> (name: &'static str)
        ensures
            self == RuntimeMode::Shadow ==> name@ == "shadow"@,
            self == RuntimeMode::Canary ==> name@ == "canary"@,
            self == RuntimeMode::Active ==> name@ == "active"@,
    {
        match self {
            RuntimeMode::Shadow => "shadow",
            RuntimeMode::Canary => "canary",
            RuntimeMode::Active => "active",
        }
    }

    /// Canary and active modes may actuate the feeder.
    pub fn feeder_enabled(self) -> (enabled: bool)
        ensures
            enabled == (self == RuntimeMode::Canary || self == RuntimeMode::Active),
    {
        match self {
            RuntimeMode::Shadow => false,
            _ => true,
        }
    }

    /// Only active mode publishes to Nostr.
    pub fn nostr_enabled(self) -> (enabled: bool)
        ensures
            enabled == (self == RuntimeMode::Active),
    {
        match self {
            RuntimeMode::Active => true,
            _ => false,
        }
    }
}

#[derive(Debug, Clone)]
pub struct ServiceConfig {
    pub listen: ListenAddress,
    pub mode: RuntimeMode,
}

#[derive(Debug, Clone)]
pub struct DatabaseConfig {
    pub url: String,
}

#[derive(Debug, Clone)]
pub struct LightningConfig {
    pub clnrest_url: String,
    pub clnrest_ca_certificate: Option<String>,
    pub herd_user: String,
}

#[derive(Debug, Clone)]
pub struct StrikeConfig {
    pub api_url: String,
}

#[derive(Debug, Clone)]
pub struct LnurlConfig {
    pub public_base_url: String,
    pub invoice_expiry_seconds: u64,
}

#[derive(Debug, Clone)]
pub struct LightningAddressConfig {
    pub user: String,
    pub display_name: String,
    pub description: String,
    pub credit_pool: String,
    pub min_sendable_msat: u64,
    pub max_sendable_msat: u64,
}

#[derive(Debug, Clone)]
pub struct FeederConfig {
    pub threshold_sats: u64,
    pub inter_feed_delay_seconds: u64,
}

#[derive(Debug, Clone)]
pub struct OpenHabConfig {
    pub url: String,
    pub feeder_rule_id: String,
    pub override_item: String,
    pub temperature_item: Option<String>,
}

/// Paths are kept as text; an absolute path starts at the root `/`.
#[derive(Debug, Clone)]
pub struct NostrConfig {
    pub nak_path: String,
    pub nak_config_path: String,
    pub bunker_pubkey: String,
    pub relays: Vec<String>,
}

#[derive(Debug, Clone)]
pub struct AppConfig {
    pub service: ServiceConfig,
    pub database: DatabaseConfig,
    pub lightning: LightningConfig,
    pub strike: Option<StrikeConfig>,
    pub lnurl: Option<LnurlConfig>,
    pub lightning_address: Vec<LightningAddressConfig>,
    pub feeder: FeederConfig,
    pub openhab: OpenHabConfig,
    pub nostr: NostrConfig,
}

/// The first rule a configuration breaks.
#[derive(Debug, Clone, Copy, PartialEq, Eq, Structural)]
pub enum ConfigError {
    PublicListener,
    DatabaseNotFileSqlite,
    EmptyClnRestUrl,
    StrikeUrlInvalid,
    StrikeUrlInsecure,
    StrikeUrlHasExtras,
    AddressesWithoutLnurl,
    LnurlWithoutStrike,
    LnurlExpiryOutOfRange,
    PublicBaseUrlInvalid,
    PublicBaseUrlInsecure,
    PublicBaseUrlNotRoot,
    NoLightningAddresses,
    InvalidAddressUser,
    DuplicateAddressUser,
    InvalidDisplayName,
    InvalidDescription,
    InvalidCreditPool,
    NonHerdCreditPool,
    InvalidSendableRange,
    MissingRequiredUser,
    ZeroThreshold,
    NonCanonicalHerdUser,
    EmptyOpenHabUrl,
    EmptyFeederRuleId,
    EmptyOverrideItem,
    EmptyTemperatureItem,
    RelativeNakPath,
    RelativeNakConfigPath,
    InvalidBunkerPubkey,
    NoRelays,
    RelayUrlInvalid,
    RelayUrlInsecure,
}

pub open spec fn absolute_path(p: Seq<char>) -> bool {
    p.len() > 0 && p[0] == '/'
}

pub open spec fn has_host(u: UrlModel) -> bool {
    u.host is Some
}

pub open spec fn has_extras(u: UrlModel) -> bool {
    u.username.len() > 0 || u.password is Some || u.query is Some || u.fragment is Some
}

/// Strike's API URL: HTTPS with a host, no credentials, query or fragment.
pub open spec fn strike_url_check(parsed: Option<UrlModel>) -> Result<(), ConfigError> {
    match parsed {
        None => Err(ConfigError::StrikeUrlInvalid),
        Some(u) => if u.scheme != "https"@ || !has_host(u) {
            Err(ConfigError::StrikeUrlInsecure)
        } else if has_extras(u) {
            Err(ConfigError::StrikeUrlHasExtras)
        } else {
            Ok(())
        },
    }
}

/// The LNURL public base: a root HTTPS origin.
pub open spec fn public_base_check(parsed: Option<UrlModel>) -> Result<(), ConfigError> {
    match parsed {
        None => Err(ConfigError::PublicBaseUrlInvalid),
        Some(u) => if u.scheme != "https"@ || !has_host(u) {
            Err(ConfigError::PublicBaseUrlInsecure)
        } else if has_extras(u) || u.path != "/"@ {
            Err(ConfigError::PublicBaseUrlNotRoot)
        } else {
            Ok(())
        },
    }
}

/// A Nostr relay: `wss://` with a host.
pub open spec fn relay_check(parsed: Option<UrlModel>) -> Result<(), ConfigError> {
    match parsed {
        None => Err(ConfigError::RelayUrlInvalid),
        Some(u) => if u.scheme != "wss"@ || !has_host(u) {
            Err(ConfigError::RelayUrlInsecure)
        } else {
            Ok(())
        },
    }
}

/// The rule address `i` breaks, given the addresses before it.
pub open spec fn address_check(addrs: Seq<LightningAddressConfig>, i: int) -> Result<(), ConfigError> {
    let a = addrs[i];
    if !valid_user_bytes(encode_utf8(a.user@)) {
        Err(ConfigError::InvalidAddressUser)
    } else if exists|j: int| 0 <= j < i && #[trigger] addrs[j].user@ == a.user@ {
        Err(ConfigError::DuplicateAddressUser)
    } else if blank(a.display_name@) || byte_len(a.display_name@) > 80 {
        Err(ConfigError::InvalidDisplayName)
    } else if blank(a.description@) || byte_len(a.description@) > 250 {
        Err(ConfigError::InvalidDescription)
    } else if !valid_user_bytes(encode_utf8(a.credit_pool@)) {
        Err(ConfigError::InvalidCreditPool)
    } else if a.credit_pool@ != "herd"@ {
        Err(ConfigError::NonHerdCreditPool)
    } else if a.min_sendable_msat == 0 || a.max_sendable_msat < a.min_sendable_msat {
        Err(ConfigError::InvalidSendableRange)
    } else {
        Ok(())
    }
}

/// The first rule broken by the first `n` addresses, in order.
pub open spec fn addresses_check(addrs: Seq<LightningAddressConfig>, n: nat) -> Result<(), ConfigError>
    decreases n,
{
    if n == 0 {
        Ok(())
    } else {
        match addresses_check(addrs, (n - 1) as nat) {
            Err(e) => Err(e),
            Ok(()) => address_check(addrs, n - 1),
        }
    }
}

pub open spec fn registers_user(addrs: Seq<LightningAddressConfig>, user: Seq<char>) -> bool {
    exists|j: int| 0 <= j < addrs.len() && #[trigger] addrs[j].user@ == user
}

/// The LNURL section and the Lightning Address registry.
pub open spec fn lnurl_check(c: AppConfig) -> Result<(), ConfigError> {
    let addrs = c.lightning_address@;
    match c.lnurl {
        None => if addrs.len() > 0 {
            Err(ConfigError::AddressesWithoutLnurl)
        } else {
            Ok(())
        },
        Some(l) => if c.strike is None {
            Err(ConfigError::LnurlWithoutStrike)
        } else if l.invoice_expiry_seconds == 0 || l.invoice_expiry_seconds > 86_400 {
            Err(ConfigError::LnurlExpiryOutOfRange)
        } else if public_base_check(parsed_url(l.public_base_url@)) is Err {
            public_base_check(parsed_url(l.public_base_url@))
        } else if addrs.len() == 0 {
            Err(ConfigError::NoLightningAddresses)
        } else if addresses_check(addrs, addrs.len()) is Err {
            addresses_check(addrs, addrs.len())
        } else if exists|r: int| 0 <= r < 6 && !registers_user(addrs, #[trigger] required_user(r)) {
            Err(ConfigError::MissingRequiredUser)
        } else {
            Ok(())
        },
    }
}

/// The first relay rule broken by the first `n` relays.
pub open spec fn relays_check(relays: Seq<String>, n: nat) -> Result<(), ConfigError>
    decreases n,
{
    if n == 0 {
        Ok(())
    } else {
        match relays_check(relays, (n - 1) as nat) {
            Err(e) => Err(e),
            Ok(()) => relay_check(parsed_url(relays[n - 1]@)),
        }
    }
}

pub open spec fn sqlite_prefix() -> Seq<u8> {
    seq![115u8, 113, 108, 105, 116, 101, 58, 47, 47]
}

/// Every rule of the configuration, checked in order; the first broken rule
/// is the error.
pub open spec fn config_check(c: AppConfig) -> Result<(), ConfigError> {
    if !loopback(c.service.listen.ip) {
        Err(ConfigError::PublicListener)
    } else if !has_prefix(encode_utf8(c.database.url@), sqlite_prefix()) {
        Err(ConfigError::DatabaseNotFileSqlite)
    } else if blank(c.lightning.clnrest_url@) {
        Err(ConfigError::EmptyClnRestUrl)
    } else if c.strike is Some && strike_url_check(parsed_url(c.strike->0.api_url@)) is Err {
        strike_url_check(parsed_url(c.strike->0.api_url@))
    } else if lnurl_check(c) is Err {
        lnurl_check(c)
    } else if c.feeder.threshold_sats == 0 {
        Err(ConfigError::ZeroThreshold)
    } else if !valid_user_bytes(encode_utf8(c.lightning.herd_user@)) {
        Err(ConfigError::NonCanonicalHerdUser)
    } else if blank(c.openhab.url@) {
        Err(ConfigError::EmptyOpenHabUrl)
    } else if blank(c.openhab.feeder_rule_id@) {
        Err(ConfigError::EmptyFeederRuleId)
    } else if blank(c.openhab.override_item@) {
        Err(ConfigError::EmptyOverrideItem)
    } else if c.openhab.temperature_item is Some && blank(c.openhab.temperature_item->0@) {
        Err(ConfigError::EmptyTemperatureItem)
    } else if !absolute_path(c.nostr.nak_path@) {
        Err(ConfigError::RelativeNakPath)
    } else if !absolute_path(c.nostr.nak_config_path@) {
        Err(ConfigError::RelativeNakConfigPath)
    } else if !hex_of_len(encode_utf8(c.nostr.bunker_pubkey@), 64) {
        Err(ConfigError::InvalidBunkerPubkey)
    } else if c.nostr.relays@.len() == 0 {
        Err(ConfigError::NoRelays)
    } else {
        relays_check(c.nostr.relays@, c.nostr.relays@.len())
    }
}

fn same_opt(a: &Option<String>) -> (r: bool)
    ensures
        r == (a is Some),
{
    a.is_some()
}

/// Check parsed Strike API URL components.
pub fn check_strike_url(parsed: &Option<UrlParts>) -> (res: Result<(), ConfigError>)
    ensures
        res == strike_url_check(
            match parsed {
                Some(p) => Some(p@),
                None => None,
            },
        ),
{
    match parsed {
        None => Err(ConfigError::StrikeUrlInvalid),
        Some(u) => {
            if !same_text(u.scheme.as_str(), "https") || u.host.is_none() {
                Err(ConfigError::StrikeUrlInsecure)
            } else if u.username.as_str().unicode_len() > 0 || same_opt(&u.password) || same_opt(&u.query)
                || same_opt(&u.fragment) {
                Err(ConfigError::StrikeUrlHasExtras)
            } else {
                Ok(())
            }
        },
    }
}

/// Check parsed LNURL public base URL components.
pub fn check_public_base(parsed: &Option<UrlParts>) -> (res: Result<(), ConfigError>)
    ensures
        res == public_base_check(
            match parsed {
                Some(p) => Some(p@),
                None => None,
            },
        ),
{
    match parsed {
        None => Err(ConfigError::PublicBaseUrlInvalid),
        Some(u) => {
            if !same_text(u.scheme.as_str(), "https") || u.host.is_none() {
                Err(ConfigError::PublicBaseUrlInsecure)
            } else if u.username.as_str().unicode_len() > 0 || same_opt(&u.password) || same_opt(&u.query)
                || same_opt(&u.fragment) || !same_text(u.path.as_str(), "/") {
                Err(ConfigError::PublicBaseUrlNotRoot)
            } else {
                Ok(())
            }
        },
    }
}

/// Check parsed Nostr relay URL components.
pub fn check_relay(parsed: &Option<UrlParts>) -> (res: Result<(), ConfigError>)
    ensures
        res == relay_check(
            match parsed {
                Some(p) => Some(p@),
                None => None,
            },
        ),
{
    match parsed {
        None => Err(ConfigError::RelayUrlInvalid),
        Some(u) => {
            if !same_text(u.scheme.as_str(), "wss") || u.host.is_none() {
                Err(ConfigError::RelayUrlInsecure)
            } else {
                Ok(())
            }
        },
    }
}

fn is_absolute(path: &str) -> (r: bool)
    ensures
        r == absolute_path(path@),
{
    path.unicode_len() > 0 && path.get_char(0) == '/'
}

fn required_user_text(i: usize) -> (s: &'static str)
    requires
        i < 6,
    ensures
        s@ == required_user(i as int),
{
    if i == 0 {
        "herd"
    } else if i == 1 {
        "dexter"
    } else if i == 2 {
        "rowan"
    } else if i == 3 {
        "cosmo"
    } else if i == 4 {
        "newton"
    } else {
        "nova"
    }
}

fn registered(addrs: &Vec<LightningAddressConfig>, user: &str) -> (r: bool)
    ensures
        r == registers_user(addrs@, user@),
{
    let mut j: usize = 0;
    while j < addrs.len()
        invariant
            j <= addrs@.len(),
            forall|k: int| 0 <= k < j ==> addrs@[k].user@ != user@,
        decreases addrs@.len() - j,
    {
        if same_text(addrs[j].user.as_str(), user) {
            return true;
        }
        j = j + 1;
    }
    false
}

#[verifier::loop_isolation(false)]
fn check_address(addrs: &Vec<LightningAddressConfig>, i: usize) -> (res: Result<(), ConfigError>)
    requires
        i < addrs@.len(),
    ensures
        res == address_check(addrs@, i as int),
{
    let a = &addrs[i];
    if validate_user(a.user.as_str()).is_err() {
        return Err(ConfigError::InvalidAddressUser);
    }
    let mut j: usize = 0;
    while j < i
        invariant
            i < addrs@.len(),
            j <= i,
            a == addrs@[i as int],
            forall|k: int| 0 <= k < j ==> addrs@[k].user@ != a.user@,
        decreases i - j,
    {
        if same_text(addrs[j].user.as_str(), a.user.as_str()) {
            assert(addrs@[j as int].user@ == addrs@[i as int].user@);
            return Err(ConfigError::DuplicateAddressUser);
        }
        j = j + 1;
    }
    assert(!(exists|k: int| 0 <= k < i && #[trigger] addrs@[k].user@ == addrs@[i as int].user@));
    if is_blank(a.display_name.as_str()) || text_len(a.display_name.as_str()) > 80 {
        return Err(ConfigError::InvalidDisplayName);
    }
    if is_blank(a.description.as_str()) || text_len(a.description.as_str()) > 250 {
        return Err(ConfigError::InvalidDescription);
    }
    if validate_user(a.credit_pool.as_str()).is_err() {
        return Err(ConfigError::InvalidCreditPool);
    }
    if !same_text(a.credit_pool.as_str(), "herd") {
        return Err(ConfigError::NonHerdCreditPool);
    }
    if a.min_sendable_msat == 0 || a.max_sendable_msat < a.min_sendable_msat {
        return Err(ConfigError::InvalidSendableRange);
    }
    Ok(())
}

impl AppConfig {
    /// The Lightning Address registry and its LNURL prerequisites.
    #[verifier::loop_isolation(false)]
    pub fn validate_lnurl(&self) -> (res: Result<(), ConfigError>)
        ensures
            res == lnurl_check(*self),
    {
        let addrs = &self.lightning_address;
        let lnurl = match &self.lnurl {
            None => {
                if addrs.len() > 0 {
                    return Err(ConfigError::AddressesWithoutLnurl);
                }
                return Ok(());
            },
            Some(l) => l,
        };
        if self.strike.is_none() {
            return Err(ConfigError::LnurlWithoutStrike);
        }
        if lnurl.invoice_expiry_seconds == 0 || lnurl.invoice_expiry_seconds > 86_400 {
            return Err(ConfigError::LnurlExpiryOutOfRange);
        }
        let parsed = parse_url(lnurl.public_base_url.as_str());
        match check_public_base(&parsed) {
            Ok(()) => {},
            Err(e) => return Err(e),
        }
        if addrs.len() == 0 {
            return Err(ConfigError::NoLightningAddresses);
        }
        let mut i: usize = 0;
        while i < addrs.len()
            invariant
                i <= addrs@.len(),
                addresses_check(addrs@, i as nat) is Ok,
            decreases addrs@.len() - i,
        {
            match check_address(addrs, i) {
                Ok(()) => {},
                Err(e) => {
                    assert(addresses_check(addrs@, (i + 1) as nat) == Err::<(), ConfigError>(e));
                    proof {
                        lemma_first_error_persists(addrs@, (i + 1) as nat, addrs@.len());
                    }
                    assert(addresses_check(addrs@, addrs@.len()) == Err::<(), ConfigError>(e));
                    assert(public_base_check(parsed_url(lnurl.public_base_url@)) is Ok);
                    return Err(e);
                },
            }
            i = i + 1;
        }
        let mut r: usize = 0;
        while r < REQUIRED_USER_COUNT
            invariant
                r <= 6,
                forall|k: int| 0 <= k < r ==> registers_user(addrs@, #[trigger] required_user(k)),
            decreases 6 - r,
        {
            if !registered(addrs, required_user_text(r)) {
                assert(!registers_user(addrs@, required_user(r as int)));
                assert(lnurl_check(*self) == Err::<(), ConfigError>(ConfigError::MissingRequiredUser));
                return Err(ConfigError::MissingRequiredUser);
            }
            r = r + 1;
        }
        Ok(())
    }

    /// Every startup rule, failing closed on the first one broken.
    #[verifier::loop_isolation(false)]
    pub fn validate(&self) -> (res: Result<(), ConfigError>)
        ensures
            res == config_check(*self),
    {
        if !self.service.listen.ip.is_loopback() {
            return Err(ConfigError::PublicListener);
        }
        let sqlite: [u8; 9] = [115, 113, 108, 105, 116, 101, 58, 47, 47];
        assert(sqlite@ =~= sqlite_prefix());
        if !starts_with_bytes(self.database.url.as_str().as_bytes(), sqlite.as_slice()) {
            return Err(ConfigError::DatabaseNotFileSqlite);
        }
        if is_blank(self.lightning.clnrest_url.as_str()) {
            return Err(ConfigError::EmptyClnRestUrl);
        }
        match &self.strike {
            Some(strike) => {
                let parsed = parse_url(strike.api_url.as_str());
                match check_strike_url(&parsed) {
                    Ok(()) => {},
                    Err(e) => return Err(e),
                }
            },
            None => {},
        }
        match self.validate_lnurl() {
            Ok(()) => {},
            Err(e) => return Err(e),
        }
        if self.feeder.threshold_sats == 0 {
            return Err(ConfigError::ZeroThreshold);
        }
        if validate_user(self.lightning.herd_user.as_str()).is_err() {
            return Err(ConfigError::NonCanonicalHerdUser);
        }
        if is_blank(self.openhab.url.as_str()) {
            return Err(ConfigError::EmptyOpenHabUrl);
        }
        if is_blank(self.openhab.feeder_rule_id.as_str()) {
            return Err(ConfigError::EmptyFeederRuleId);
        }
        if is_blank(self.openhab.override_item.as_str()) {
            return Err(ConfigError::EmptyOverrideItem);
        }
        match &self.openhab.temperature_item {
            Some(item) => {
                if is_blank(item.as_str()) {
                    return Err(ConfigError::EmptyTemperatureItem);
                }
            },
            None => {},
        }
        if !is_absolute(self.nostr.nak_path.as_str()) {
            return Err(ConfigError::RelativeNakPath);
        }
        if !is_absolute(self.nostr.nak_config_path.as_str()) {
            return Err(ConfigError::RelativeNakConfigPath);
        }
        if !check_hex_of_len(self.nostr.bunker_pubkey.as_str().as_bytes(), 64) {
            return Err(ConfigError::InvalidBunkerPubkey);
        }
        let relays = &self.nostr.relays;
        if relays.len() == 0 {
            return Err(ConfigError::NoRelays);
        }
        let mut i: usize = 0;
        while i < relays.len()
            invariant
                i <= relays@.len(),
                relays_check(relays@, i as nat) is Ok,
            decreases relays@.len() - i,
        {
            let parsed = parse_url(relays[i].as_str());
            match check_relay(&parsed) {
                Ok(()) => {},
                Err(e) => {
                    assert(relays_check(relays@, (i + 1) as nat) == Err::<(), ConfigError>(e));
                    proof {
                        lemma_first_relay_error_persists(relays@, (i + 1) as nat, relays@.len());
                    }
                    return Err(e);
                },
            }
            i = i + 1;
        }
        Ok(())
    }
}

proof fn lemma_first_error_persists(addrs: Seq<LightningAddressConfig>, m: nat, n: nat)
    requires
        m <= n,
        addresses_check(addrs, m) is Err,
    ensures
        addresses_check(addrs, n) == addresses_check(addrs, m),
    decreases n - m,
{
    if m < n {
        lemma_first_error_persists(addrs, m, (n - 1) as nat);
    }
}

proof fn lemma_first_relay_error_persists(relays: Seq<String>, m: nat, n: nat)
    requires
        m <= n,
        relays_check(relays, m) is Err,
    ensures
        relays_check(relays, n) == relays_check(relays, m),
    decreases n - m,
{
    if m < n {
        lemma_first_relay_error_persists(relays, m, (n - 1) as nat);
    }
}

} // verus!
