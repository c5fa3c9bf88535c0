//! Limits, windows and trusted clients, and how they are read from the
//! environment.

use vstd::prelude::*;
use vstd::string::*;

use crate::bucket;
use crate::clock::Span;
use crate::lookup::{TextMap, TextSet};
use crate::request;
use crate::request::RequestHead;
use crate::routes::RequestClass;
use crate::text;
use crate::tier::{ApiTier, BypassKind};

verus! {

pub const DEFAULT_ANON_LIMIT: u32 = 1_000;

pub const DEFAULT_AUTH_LIMIT: u32 = 1_000;

/// Stricter default quotas for mutation (write) endpoints.
pub const DEFAULT_WRITE_ANON_LIMIT: u32 = 100;

pub const DEFAULT_WRITE_AUTH_LIMIT: u32 = 300;

pub const DEFAULT_WINDOW_SECONDS: u64 = 60;

pub const DEFAULT_ENTERPRISE_LIMIT: u32 = 100_000;

/// The length of the window that write quotas are counted over: an hour.
pub const WRITE_WINDOW_SECONDS: u64 = 3_600;

/// Tiered limits over the configured window.
pub const FREE_TIER_LIMIT: u32 = 1_000;

pub const PRO_TIER_LIMIT: u32 = 10_000;

/// The length of the burst window.
pub const BURST_WINDOW_SECONDS: u64 = 60;

/// The limits, the windows that they are counted over, and the clients that
/// they do not bind. Writes are counted over an hour, all else over `window`.
pub struct RateLimitConfig {
    pub anonymous_limit: u32,
    pub auth_limit: u32,
    pub write_anonymous_limit: u32,
    pub write_auth_limit: u32,
    pub window: Span,
    pub enterprise_limit: u32,
    pub burst_window: Span,
    pub per_api_key_limits: TextMap<u32>,
    pub trusted_client_ips: TextSet,
    pub trusted_api_keys: TextSet,
}

// ---------------------------------------------------------------------------
// Settings
// ---------------------------------------------------------------------------

/// The value of the variable `name`, where it is set.
pub open spec fn setting(vars: Map<Seq<char>, String>, name: Seq<char>) -> Option<Seq<char>> {
    if vars.contains_key(name) {
        Some(vars[name]@)
    } else {
        None
    }
}

/// The number that `raw` spells where it is positive and at most `max`, else the
/// default.
pub open spec fn positive_or(raw: Seq<char>, max: nat, default: nat) -> nat {
    match text::numeral_within(raw, max) {
        Some(n) => if n > 0 {
            n
        } else {
            default
        },
        None => default,
    }
}

/// The positive number that the variable holds, else the default.
pub open spec fn number_setting(
    vars: Map<Seq<char>, String>,
    name: Seq<char>,
    max: nat,
    default: nat,
) -> nat {
    match setting(vars, name) {
        Some(raw) => positive_or(raw, max, default),
        None => default,
    }
}

/// The positive number that the first variable holds, or, where that is not set,
/// the second one, else the default.
pub open spec fn number_setting_of_two(
    vars: Map<Seq<char>, String>,
    primary: Seq<char>,
    fallback: Seq<char>,
    max: nat,
    default: nat,
) -> nat {
    match setting(vars, primary) {
        Some(raw) => positive_or(raw, max, default),
        None => number_setting(vars, fallback, max, default),
    }
}

/// A variable whose value is not used, that value, and the default in its place.
pub struct RejectedSetting {
    pub name: String,
    pub value: String,
    pub default: u64,
}

/// What a rejected setting tells: the name, the value and the default.
pub open spec fn told(rejected: Seq<RejectedSetting>) -> Seq<(Seq<char>, Seq<char>, nat)> {
    rejected.map_values(|r: RejectedSetting| (r.name@, r.value@, r.default as nat))
}

/// The variable with its value where it is set but spells no positive number up to
/// `max`; else nothing.
pub open spec fn rejected(
    vars: Map<Seq<char>, String>,
    name: Seq<char>,
    max: nat,
    default: nat,
) -> Seq<(Seq<char>, Seq<char>, nat)> {
    match setting(vars, name) {
        Some(raw) => match text::numeral_within(raw, max) {
            Some(n) if n > 0 => Seq::empty(),
            _ => seq![(name, raw, default)],
        },
        None => Seq::empty(),
    }
}

/// The same of two variables, of which the second counts only where the first is
/// not set.
pub open spec fn rejected_of_two(
    vars: Map<Seq<char>, String>,
    primary: Seq<char>,
    fallback: Seq<char>,
    max: nat,
    default: nat,
) -> Seq<(Seq<char>, Seq<char>, nat)> {
    match setting(vars, primary) {
        Some(_) => rejected(vars, primary, max, default),
        None => rejected(vars, fallback, max, default),
    }
}

/// The variables that are set but whose value the configuration does not use.
pub open spec fn all_rejected(vars: Map<Seq<char>, String>) -> Seq<(Seq<char>, Seq<char>, nat)> {
    rejected_of_two(
        vars,
        "RATE_LIMIT_IP_PER_MINUTE"@,
        "RATE_LIMIT_ANON_PER_MINUTE"@,
        u32::MAX as nat,
        DEFAULT_ANON_LIMIT as nat,
    ) + rejected_of_two(
        vars,
        "RATE_LIMIT_API_KEY_PER_MINUTE"@,
        "RATE_LIMIT_AUTH_PER_MINUTE"@,
        u32::MAX as nat,
        DEFAULT_AUTH_LIMIT as nat,
    ) + rejected(
        vars,
        "RATE_LIMIT_WRITE_ANON_PER_HOUR"@,
        u32::MAX as nat,
        DEFAULT_WRITE_ANON_LIMIT as nat,
    ) + rejected(
        vars,
        "RATE_LIMIT_WRITE_AUTH_PER_HOUR"@,
        u32::MAX as nat,
        DEFAULT_WRITE_AUTH_LIMIT as nat,
    ) + rejected(
        vars,
        "RATE_LIMIT_WINDOW_SECONDS"@,
        u64::MAX as nat,
        DEFAULT_WINDOW_SECONDS as nat,
    ) + rejected_of_two(
        vars,
        "ENTERPRISE_RATE_LIMIT_PER_HOUR"@,
        "ENTERPRISE_RATE_LIMIT_PER_WINDOW"@,
        u32::MAX as nat,
        DEFAULT_ENTERPRISE_LIMIT as nat,
    )
}

/// The value of the variable; an empty text where it is not set.
pub open spec fn list_setting(vars: Map<Seq<char>, String>, name: Seq<char>) -> Seq<char> {
    match setting(vars, name) {
        Some(raw) => raw,
        None => Seq::empty(),
    }
}

/// The key and the limit that an entry `key=limit` gives: a key that is not
/// blank and a positive limit.
pub open spec fn key_limit(entry: Seq<char>) -> Option<(Seq<char>, u32)> {
    match text::cut(entry, '=') {
        Some((key, limit)) => match text::numeral_within(text::trimmed(limit), u32::MAX as nat) {
            Some(n) => if n > 0 && text::trimmed(key).len() > 0 {
                Some((text::trimmed(key), n as u32))
            } else {
                None
            },
            None => None,
        },
        None => None,
    }
}

/// The limits that the entries give; of two for one key, the later.
pub open spec fn key_limits(entries: Seq<Seq<char>>) -> Map<Seq<char>, u32>
    decreases entries.len(),
{
    if entries.len() == 0 {
        Map::empty()
    } else {
        let earlier = key_limits(entries.drop_last());
        match key_limit(entries.last()) {
            Some((key, limit)) => earlier.insert(key, limit),
            None => earlier,
        }
    }
}

/// The entries of a comma-separated list that are not blank.
pub open spec fn listed(raw: Seq<char>) -> Set<Seq<char>> {
    Set::new(|value: Seq<char>| value.len() > 0 && text::list_entries(raw).contains(value))
}

fn lookup<'a>(vars: &'a TextMap<String>, name: &str) -> (value: Option<&'a String>)
    ensures
        match value {
            Some(v) => setting(vars@, name@) == Some(v@),
            None => setting(vars@, name@) is None,
        },
{
    vars.get(name)
}

fn positive_u32(raw: &str, default: u32) -> (n: u32)
    ensures
        n == positive_or(raw@, u32::MAX as nat, default as nat),
{
    match text::parse_u32(raw) {
        Some(value) => if value > 0 {
            value
        } else {
            default
        },
        None => default,
    }
}

/// The positive number that the variable holds, else the default.
pub fn env_u32(vars: &TextMap<String>, key: &str, default: u32) -> (n: u32)
    ensures
        n == number_setting(vars@, key@, u32::MAX as nat, default as nat),
{
    match lookup(vars, key) {
        Some(raw) => positive_u32(raw.as_str(), default),
        None => default,
    }
}

/// The positive number that the first variable holds, or, where that is not set,
/// the second one, else the default.
pub fn env_u32_with_fallback(
    vars: &TextMap<String>,
    primary_key: &str,
    fallback_key: &str,
    default: u32,
) -> (n: u32)
    ensures
        n == number_setting_of_two(
            vars@,
            primary_key@,
            fallback_key@,
            u32::MAX as nat,
            default as nat,
        ),
{
    match lookup(vars, primary_key) {
        Some(raw) => positive_u32(raw.as_str(), default),
        None => env_u32(vars, fallback_key, default),
    }
}

/// The positive number that the variable holds, else the default.
pub fn env_u64(vars: &TextMap<String>, key: &str, default: u64) -> (n: u64)
    ensures
        n == number_setting(vars@, key@, u64::MAX as nat, default as nat),
{
    match lookup(vars, key) {
        Some(raw) => match text::parse_decimal(raw.as_str()) {
            Some(value) => if value > 0 {
                value
            } else {
                default
            },
            None => default,
        },
        None => default,
    }
}

fn note_rejected(
    noted: &mut Vec<RejectedSetting>,
    vars: &TextMap<String>,
    key: &str,
    max: u64,
    default: u64,
)
    ensures
        told(final(noted)@) == told(old(noted)@) + rejected(
            vars@,
            key@,
            max as nat,
            default as nat,
        ),
{
    if let Some(raw) = lookup(vars, key) {
        let accepted: bool = match text::parse_decimal(raw.as_str()) {
            Some(value) => 0 < value && value <= max,
            None => false,
        };
        if !accepted {
            noted.push(RejectedSetting { name: key.to_owned(), value: raw.clone(), default });
        }
    }
    assert(told(noted@) =~= told(old(noted)@) + rejected(
        vars@,
        key@,
        max as nat,
        default as nat,
    ));
}

fn note_rejected_of_two(
    noted: &mut Vec<RejectedSetting>,
    vars: &TextMap<String>,
    primary_key: &str,
    fallback_key: &str,
    max: u64,
    default: u64,
)
    ensures
        told(final(noted)@) == told(old(noted)@) + rejected_of_two(
            vars@,
            primary_key@,
            fallback_key@,
            max as nat,
            default as nat,
        ),
{
    if lookup(vars, primary_key).is_some() {
        note_rejected(noted, vars, primary_key, max, default);
    } else {
        note_rejected(noted, vars, fallback_key, max, default);
    }
}

/// The variables that are set but whose value the configuration does not use, so
/// that their owner can be told.
pub fn rejected_settings(vars: &TextMap<String>) -> (noted: Vec<RejectedSetting>)
    ensures
        told(noted@) == all_rejected(vars@),
{
    let mut noted: Vec<RejectedSetting> = Vec::new();
    let max: u64 = u32::MAX as u64;
    assert(told(noted@) =~= Seq::empty());
    note_rejected_of_two(
        &mut noted,
        vars,
        "RATE_LIMIT_IP_PER_MINUTE",
        "RATE_LIMIT_ANON_PER_MINUTE",
        max,
        DEFAULT_ANON_LIMIT as u64,
    );
    note_rejected_of_two(
        &mut noted,
        vars,
        "RATE_LIMIT_API_KEY_PER_MINUTE",
        "RATE_LIMIT_AUTH_PER_MINUTE",
        max,
        DEFAULT_AUTH_LIMIT as u64,
    );
    note_rejected(
        &mut noted,
        vars,
        "RATE_LIMIT_WRITE_ANON_PER_HOUR",
        max,
        DEFAULT_WRITE_ANON_LIMIT as u64,
    );
    note_rejected(
        &mut noted,
        vars,
        "RATE_LIMIT_WRITE_AUTH_PER_HOUR",
        max,
        DEFAULT_WRITE_AUTH_LIMIT as u64,
    );
    note_rejected(
        &mut noted,
        vars,
        "RATE_LIMIT_WINDOW_SECONDS",
        u64::MAX,
        DEFAULT_WINDOW_SECONDS,
    );
    note_rejected_of_two(
        &mut noted,
        vars,
        "ENTERPRISE_RATE_LIMIT_PER_HOUR",
        "ENTERPRISE_RATE_LIMIT_PER_WINDOW",
        max,
        DEFAULT_ENTERPRISE_LIMIT as u64,
    );
    assert(told(noted@) =~= all_rejected(vars@));
    noted
}

fn list_value(vars: &TextMap<String>, key: &str) -> (raw: String)
    ensures
        raw@ == list_setting(vars@, key@),
{
    match lookup(vars, key) {
        Some(raw) => raw.clone(),
        None => String::new(),
    }
}

/// Limits by API key, from a variable that lists entries `key=limit`. Entries
/// that are not of that form, or whose limit is not positive, are left out.
pub fn parse_key_limit_map(vars: &TextMap<String>, key: &str) -> (limits: TextMap<u32>)
    ensures
        limits@ == key_limits(text::pieces(list_setting(vars@, key@), ',')),
{
    let raw = list_value(vars, key);
    let entries = text::split(raw.as_str(), ',');
    let n: usize = entries.len();
    let ghost all = text::texts(entries@);
    let mut limits: TextMap<u32> = TextMap::new();
    let mut i: usize = 0;
    assert(all.take(0) =~= Seq::<Seq<char>>::empty());
    while i < n
        invariant
            i <= n,
            n == entries.len(),
            all == text::texts(entries@),
            limits@ == key_limits(all.take(i as int)),
        decreases n - i,
    {
        assert(all.take(i + 1).drop_last() =~= all.take(i as int));
        assert(all.take(i + 1).last() == entries@[i as int]@);
        if let Some((api_key, limit)) = text::split_once(entries[i].as_str(), '=') {
            if let Some(value) = text::parse_u32(text::trim(limit)) {
                let name = text::trim(api_key);
                if value > 0 && !name.is_empty() {
                    limits.insert(name.to_owned(), value);
                }
            }
        }
        i = i + 1;
    }
    assert(all.take(n as int) =~= all);
    limits
}

proof fn lemma_take_one_more(all: Seq<Seq<char>>, i: int, value: Seq<char>)
    requires
        0 <= i < all.len(),
    ensures
        all.take(i + 1).contains(value) <==> all.take(i).contains(value) || value == all[i],
{
    let shorter = all.take(i);
    let longer = all.take(i + 1);
    if longer.contains(value) && value != all[i] {
        let k = longer.index_of(value);
        assert(shorter[k] == value);
    }
    if shorter.contains(value) {
        let k = shorter.index_of(value);
        assert(longer[k] == value);
    }
    assert(longer[i] == all[i]);
}

/// The values that a variable lists, blank ones left out.
pub fn parse_csv_set(vars: &TextMap<String>, key: &str) -> (values: TextSet)
    ensures
        values@ == listed(list_setting(vars@, key@)),
{
    let raw = list_value(vars, key);
    let entries = text::split_list(raw.as_str());
    let n: usize = entries.len();
    let ghost all = text::texts(entries@);
    let mut values = TextSet::new();
    let mut i: usize = 0;
    while i < n
        invariant
            i <= n,
            n == entries.len(),
            all == text::texts(entries@),
            forall|value: Seq<char>| #[trigger]
                values@.contains(value) <==> value.len() > 0 && all.take(i as int).contains(value),
        decreases n - i,
    {
        assert forall|value: Seq<char>| #[trigger]
            all.take(i + 1).contains(value) <==> all.take(i as int).contains(value) || value
                == entries@[i as int]@ by {
            lemma_take_one_more(all, i as int, value);
        }
        if !entries[i].as_str().is_empty() {
            values.insert(entries[i].clone());
        }
        i = i + 1;
    }
    assert(all.take(n as int) =~= all);
    assert(values@ =~= listed(raw@));
    values
}

// ---------------------------------------------------------------------------
// Limits
// ---------------------------------------------------------------------------

/// 120 % of the per-minute share of an hourly limit, rounded up, and at least one:
/// ceil(hourly × 1.2 / 60).
pub open spec fn burst_limit(hourly: u32) -> u32 {
    let share = (hourly * 12 + 599) / 600;
    if share >= 1 {
        share as u32
    } else {
        1
    }
}

/// How many requests the burst window admits under a limit. A client may spend
/// its whole quota at once, so this never falls below the limit itself.
pub open spec fn burst_allowance(limit: u32) -> u32 {
    if burst_limit(limit) >= limit {
        burst_limit(limit)
    } else {
        limit
    }
}

pub open spec fn at_least(a: u32, b: u32) -> u32 {
    if a >= b {
        a
    } else {
        b
    }
}

/// The configuration is the one that the environment variables give.
pub open spec fn configured(config: RateLimitConfig, vars: Map<Seq<char>, String>) -> bool {
    &&& config.anonymous_limit == number_setting_of_two(
        vars,
        "RATE_LIMIT_IP_PER_MINUTE"@,
        "RATE_LIMIT_ANON_PER_MINUTE"@,
        u32::MAX as nat,
        DEFAULT_ANON_LIMIT as nat,
    )
    &&& config.auth_limit == number_setting_of_two(
        vars,
        "RATE_LIMIT_API_KEY_PER_MINUTE"@,
        "RATE_LIMIT_AUTH_PER_MINUTE"@,
        u32::MAX as nat,
        DEFAULT_AUTH_LIMIT as nat,
    )
    &&& config.write_anonymous_limit == number_setting(
        vars,
        "RATE_LIMIT_WRITE_ANON_PER_HOUR"@,
        u32::MAX as nat,
        DEFAULT_WRITE_ANON_LIMIT as nat,
    )
    &&& config.write_auth_limit == number_setting(
        vars,
        "RATE_LIMIT_WRITE_AUTH_PER_HOUR"@,
        u32::MAX as nat,
        DEFAULT_WRITE_AUTH_LIMIT as nat,
    )
    &&& config.window.nanos() == number_setting(
        vars,
        "RATE_LIMIT_WINDOW_SECONDS"@,
        u64::MAX as nat,
        DEFAULT_WINDOW_SECONDS as nat,
    ) * 1_000_000_000
    &&& config.enterprise_limit == number_setting_of_two(
        vars,
        "ENTERPRISE_RATE_LIMIT_PER_HOUR"@,
        "ENTERPRISE_RATE_LIMIT_PER_WINDOW"@,
        u32::MAX as nat,
        DEFAULT_ENTERPRISE_LIMIT as nat,
    )
    &&& config.burst_window.nanos() == BURST_WINDOW_SECONDS * 1_000_000_000
    &&& config.per_api_key_limits@ == key_limits(
        text::pieces(list_setting(vars, "RATE_LIMIT_API_KEY_LIMITS"@), ','),
    )
    &&& config.trusted_client_ips@ == listed(list_setting(vars, "RATE_LIMIT_TRUSTED_IPS"@))
    &&& config.trusted_api_keys@ == listed(list_setting(vars, "RATE_LIMIT_TRUSTED_API_KEYS"@))
}

impl RateLimitConfig {
    /// The windows are proper spans whose seconds can be counted.
    pub open spec fn wf(self) -> bool {
        bucket::countable(self.window) && bucket::countable(self.burst_window)
    }

    /// The windows that requests of a class are counted over, in nanoseconds.
    pub open spec fn windows_for(self, class: RequestClass) -> bucket::Windows {
        bucket::Windows {
            window: match class {
                RequestClass::Read => self.window.nanos(),
                RequestClass::Write => WRITE_WINDOW_SECONDS * 1_000_000_000,
            },
            burst_window: self.burst_window.nanos(),
        }
    }

    /// The limit of a tier over the window.
    pub open spec fn tier_limit(self, tier: ApiTier) -> u32 {
        match tier {
            ApiTier::Free => at_least(self.auth_limit, FREE_TIER_LIMIT),
            ApiTier::Pro => at_least(self.auth_limit, PRO_TIER_LIMIT),
            ApiTier::Enterprise => self.enterprise_limit,
        }
    }

    /// The limit that was set for the key inside the credential.
    pub open spec fn key_limit(self, token: Seq<char>) -> Option<u32> {
        if self.per_api_key_limits@.contains_key(request::api_key_of(token)) {
            Some(self.per_api_key_limits@[request::api_key_of(token)])
        } else {
            None
        }
    }

    /// How the sender of a request is trusted, where it is: by its address, else by
    /// its API key.
    pub open spec fn trust(self, request: RequestHead) -> Option<BypassKind> {
        if self.trusted_client_ips@.contains(request.client_ip@) {
            Some(BypassKind::TrustedIp)
        } else {
            match request::auth_token(request.headers) {
                Some(token) => if self.trusted_api_keys@.contains(request::api_key_of(token)) {
                    Some(BypassKind::TrustedApiKey)
                } else {
                    None
                },
                None => None,
            }
        }
    }

    /// Reads the configuration out of the environment variables.
    pub fn from_env(vars: &TextMap<String>) -> (config: RateLimitConfig)
        ensures
            config.wf(),
            configured(config, vars@),
    {
        let anonymous_limit: u32 = env_u32_with_fallback(
            vars,
            "RATE_LIMIT_IP_PER_MINUTE",
            "RATE_LIMIT_ANON_PER_MINUTE",
            DEFAULT_ANON_LIMIT,
        );
        let auth_limit: u32 = env_u32_with_fallback(
            vars,
            "RATE_LIMIT_API_KEY_PER_MINUTE",
            "RATE_LIMIT_AUTH_PER_MINUTE",
            DEFAULT_AUTH_LIMIT,
        );
        let write_anonymous_limit: u32 = env_u32(
            vars,
            "RATE_LIMIT_WRITE_ANON_PER_HOUR",
            DEFAULT_WRITE_ANON_LIMIT,
        );
        let write_auth_limit: u32 = env_u32(
            vars,
            "RATE_LIMIT_WRITE_AUTH_PER_HOUR",
            DEFAULT_WRITE_AUTH_LIMIT,
        );
        let window_seconds: u64 = env_u64(vars, "RATE_LIMIT_WINDOW_SECONDS", DEFAULT_WINDOW_SECONDS);
        let enterprise_limit: u32 = env_u32_with_fallback(
            vars,
            "ENTERPRISE_RATE_LIMIT_PER_HOUR",
            "ENTERPRISE_RATE_LIMIT_PER_WINDOW",
            DEFAULT_ENTERPRISE_LIMIT,
        );
        RateLimitConfig {
            anonymous_limit,
            auth_limit,
            write_anonymous_limit,
            write_auth_limit,
            window: Span::from_secs(window_seconds),
            enterprise_limit,
            burst_window: Span::from_secs(BURST_WINDOW_SECONDS),
            per_api_key_limits: parse_key_limit_map(vars, "RATE_LIMIT_API_KEY_LIMITS"),
            trusted_client_ips: parse_csv_set(vars, "RATE_LIMIT_TRUSTED_IPS"),
            trusted_api_keys: parse_csv_set(vars, "RATE_LIMIT_TRUSTED_API_KEYS"),
        }
    }

    /// A configuration for tests, which trusts nobody and sets no limit by key.
    pub fn for_tests(anonymous_limit: u32, auth_limit: u32, window: Span) -> (config:
        RateLimitConfig)
        ensures
            bucket::countable(window) ==> config.wf(),
            config.anonymous_limit == anonymous_limit,
            config.auth_limit == auth_limit,
            config.write_anonymous_limit == anonymous_limit / 10,
            config.write_auth_limit == auth_limit / 3,
            config.window == window,
            config.enterprise_limit == DEFAULT_ENTERPRISE_LIMIT,
            config.burst_window.nanos() == BURST_WINDOW_SECONDS * 1_000_000_000,
            config.per_api_key_limits@ == Map::<Seq<char>, u32>::empty(),
            config.trusted_client_ips@ == Set::<Seq<char>>::empty(),
            config.trusted_api_keys@ == Set::<Seq<char>>::empty(),
    {
        RateLimitConfig::for_tests_with_write(
            anonymous_limit,
            auth_limit,
            anonymous_limit / 10,
            auth_limit / 3,
            window,
        )
    }

    /// A configuration for tests with write limits of its own.
    pub fn for_tests_with_write(
        anonymous_limit: u32,
        auth_limit: u32,
        write_anonymous_limit: u32,
        write_auth_limit: u32,
        window: Span,
    ) -> (config: RateLimitConfig)
        ensures
            bucket::countable(window) ==> config.wf(),
            config.anonymous_limit == anonymous_limit,
            config.auth_limit == auth_limit,
            config.write_anonymous_limit == write_anonymous_limit,
            config.write_auth_limit == write_auth_limit,
            config.window == window,
            config.enterprise_limit == DEFAULT_ENTERPRISE_LIMIT,
            config.burst_window.nanos() == BURST_WINDOW_SECONDS * 1_000_000_000,
            config.per_api_key_limits@ == Map::<Seq<char>, u32>::empty(),
            config.trusted_client_ips@ == Set::<Seq<char>>::empty(),
            config.trusted_api_keys@ == Set::<Seq<char>>::empty(),
    {
        RateLimitConfig {
            anonymous_limit,
            auth_limit,
            write_anonymous_limit,
            write_auth_limit,
            window,
            enterprise_limit: DEFAULT_ENTERPRISE_LIMIT,
            burst_window: Span::from_secs(BURST_WINDOW_SECONDS),
            per_api_key_limits: TextMap::new(),
            trusted_client_ips: TextSet::new(),
            trusted_api_keys: TextSet::new(),
        }
    }

    /// The window that requests of a class are counted over.
    pub fn window_for(&self, class: RequestClass) -> (window: Span)
        requires
            self.wf(),
        ensures
            bucket::countable(window),
            window.nanos() == self.windows_for(class).window,
    {
        match class {
            RequestClass::Read => self.window,
            RequestClass::Write => Span::from_secs(WRITE_WINDOW_SECONDS),
        }
    }

    /// Returns the limit for the given tier.
    pub fn hourly_limit_for_tier(&self, tier: &ApiTier) -> (limit: u32)
        ensures
            limit == self.tier_limit(*tier),
    {
        match tier {
            ApiTier::Free => if self.auth_limit >= FREE_TIER_LIMIT {
                self.auth_limit
            } else {
                FREE_TIER_LIMIT
            },
            ApiTier::Pro => if self.auth_limit >= PRO_TIER_LIMIT {
                self.auth_limit
            } else {
                PRO_TIER_LIMIT
            },
            ApiTier::Enterprise => self.enterprise_limit,
        }
    }

    /// Burst limit = ceil(hourly_limit × 1.2 / 60) requests per minute.
    pub fn burst_limit_for_tier(&self, tier: &ApiTier) -> (limit: u32)
        ensures
            limit == burst_limit(self.tier_limit(*tier)),
    {
        self.burst_limit_for_limit(self.hourly_limit_for_tier(tier))
    }

    /// 120 % of the per-minute equivalent; minimum 1.
    pub fn burst_limit_for_limit(&self, hourly: u32) -> (limit: u32)
        ensures
            limit == burst_limit(hourly),
    {
        let share: u32 = ((hourly as u64 * 12 + 599) / 600) as u32;
        if share >= 1 {
            share
        } else {
            1
        }
    }

    /// How many requests the burst window admits under a limit.
    pub fn burst_allowance_for_limit(&self, limit: u32) -> (allowance: u32)
        ensures
            allowance == burst_allowance(limit),
    {
        let burst: u32 = self.burst_limit_for_limit(limit);
        if burst >= limit {
            burst
        } else {
            limit
        }
    }

    /// The limit that was set for the key inside the credential.
    pub fn per_api_key_limit(&self, token: &str) -> (limit: Option<u32>)
        ensures
            limit == self.key_limit(token@),
    {
        match self.per_api_key_limits.get(request::normalize_token(token)) {
            Some(limit) => Some(*limit),
            None => None,
        }
    }

    /// Whether the request is from a trusted client.
    pub fn is_whitelisted(&self, request: &RequestHead) -> (b: bool)
        ensures
            b == (self.trust(*request) is Some),
    {
        self.bypass_kind(request).is_some()
    }

    /// Returns the bypass kind if this request is from a trusted client, or
    /// `None` if normal rate limiting should apply.
    pub fn bypass_kind(&self, request: &RequestHead) -> (kind: Option<BypassKind>)
        ensures
            kind == self.trust(*request),
    {
        if self.trusted_client_ips.contains(request.client_ip.as_str()) {
            return Some(BypassKind::TrustedIp);
        }
        if let Some(token) = request::extract_auth_token(&request.headers) {
            if self.trusted_api_keys.contains(request::normalize_token(token.as_str())) {
                return Some(BypassKind::TrustedApiKey);
            }
        }
        None
    }
}

} // verus!
