//! Which settings give which limits, which limits bind a request, and what is done
//! with it, told by what the request and the settings hold.

use vstd::prelude::*;
use vstd::string::*;

use crate::audit;
use crate::audit::{Alert, BypassAudit, BypassSpikeState};
use crate::bucket;
use crate::bucket::RateLimitDecision;
use crate::clock::Moment;
use crate::config;
use crate::config::{RateLimitConfig, RejectedSetting};
use crate::request;
use crate::request::RequestHead;
use crate::response;
use crate::response::Refusal;
use crate::routes;
use crate::routes::RequestClass;
use crate::state;
use crate::state::{Admission, RateLimitState};
use crate::table;
use crate::text;
use crate::tier::{ApiTier, BypassKind};
use crate::wall_clock;
use crate::wall_clock::Timestamp;

verus! {

// ---------------------------------------------------------------------------
// Settings
// ---------------------------------------------------------------------------

/// The variable is set and spells a positive number up to `max`.
pub open spec fn sets(vars: Map<Seq<char>, String>, name: Seq<char>, max: nat, n: nat) -> bool {
    vars.contains_key(name) && text::numeral(vars[name]@) == Some(n) && 0 < n <= max
}

/// The variable is set, but to no positive number up to `max`.
pub open spec fn missets(vars: Map<Seq<char>, String>, name: Seq<char>, max: nat) -> bool {
    vars.contains_key(name) && match text::numeral(vars[name]@) {
        Some(n) => n == 0 || n > max,
        None => true,
    }
}

/// The number is `set` where the variable spells it, else `default`.
pub open spec fn number_from(
    number: nat,
    vars: Map<Seq<char>, String>,
    name: Seq<char>,
    max: nat,
    default: nat,
) -> bool {
    &&& forall|n: nat| #[trigger] sets(vars, name, max, n) ==> number == n
    &&& missets(vars, name, max) || !vars.contains_key(name) ==> number == default
}

/// The number is that of the first variable where it is set, else that of the second.
pub open spec fn number_from_two(
    number: nat,
    vars: Map<Seq<char>, String>,
    primary: Seq<char>,
    fallback: Seq<char>,
    max: nat,
    default: nat,
) -> bool {
    if vars.contains_key(primary) {
        number_from(number, vars, primary, max, default)
    } else {
        number_from(number, vars, fallback, max, default)
    }
}

/// A number is read from any variable, or any two, by what they spell, and is the
/// default where they spell none.
pub proof fn law_numbers_are_read_as_spelt(
    vars: Map<Seq<char>, String>,
    name: Seq<char>,
    fallback: Seq<char>,
    max: nat,
    default: nat,
)
    ensures
        number_from(config::number_setting(vars, name, max, default), vars, name, max, default),
        number_from_two(
            config::number_setting_of_two(vars, name, fallback, max, default),
            vars,
            name,
            fallback,
            max,
            default,
        ),
{
}

/// Each limit and the window come from their own variables, by the numbers that
/// these spell, and from a default of their own where they spell none.
pub proof fn law_numbers_come_from_their_variables(
    config: RateLimitConfig,
    vars: Map<Seq<char>, String>,
)
    requires
        config::configured(config, vars),
    ensures
        number_from_two(
            config.anonymous_limit as nat,
            vars,
            "RATE_LIMIT_IP_PER_MINUTE"@,
            "RATE_LIMIT_ANON_PER_MINUTE"@,
            4_294_967_295,
            1_000,
        ),
        number_from_two(
            config.auth_limit as nat,
            vars,
            "RATE_LIMIT_API_KEY_PER_MINUTE"@,
            "RATE_LIMIT_AUTH_PER_MINUTE"@,
            4_294_967_295,
            1_000,
        ),
        number_from(
            config.write_anonymous_limit as nat,
            vars,
            "RATE_LIMIT_WRITE_ANON_PER_HOUR"@,
            4_294_967_295,
            100,
        ),
        number_from(
            config.write_auth_limit as nat,
            vars,
            "RATE_LIMIT_WRITE_AUTH_PER_HOUR"@,
            4_294_967_295,
            300,
        ),
        number_from_two(
            config.enterprise_limit as nat,
            vars,
            "ENTERPRISE_RATE_LIMIT_PER_HOUR"@,
            "ENTERPRISE_RATE_LIMIT_PER_WINDOW"@,
            4_294_967_295,
            100_000,
        ),
        exists|secs: nat|
            config.window.secs * 1_000_000_000 + config.window.subsec_nanos == secs * 1_000_000_000
                && #[trigger] number_from(
                secs,
                vars,
                "RATE_LIMIT_WINDOW_SECONDS"@,
                18_446_744_073_709_551_615,
                60,
            ),
        config.burst_window.secs * 1_000_000_000 + config.burst_window.subsec_nanos
            == 60_000_000_000,
{
    let secs = config::number_setting(
        vars,
        "RATE_LIMIT_WINDOW_SECONDS"@,
        u64::MAX as nat,
        config::DEFAULT_WINDOW_SECONDS as nat,
    );
    assert(number_from(
        secs,
        vars,
        "RATE_LIMIT_WINDOW_SECONDS"@,
        18_446_744_073_709_551_615,
        60,
    ));
}

/// The trusted addresses and keys are the entries of their lists, trimmed, that are
/// not blank: each of them, and no other.
pub proof fn law_trusted_lists_hold_their_entries(
    config: RateLimitConfig,
    vars: Map<Seq<char>, String>,
    entry: Seq<char>,
)
    requires
        config::configured(config, vars),
    ensures
        config.trusted_client_ips@.contains(entry) <==> vars.contains_key(
            "RATE_LIMIT_TRUSTED_IPS"@,
        ) && entry.len() > 0 && (exists|i: int|
            #![trigger text::pieces(vars["RATE_LIMIT_TRUSTED_IPS"@]@, ',')[i]]
            0 <= i < text::pieces(vars["RATE_LIMIT_TRUSTED_IPS"@]@, ',').len() && text::trimmed(
                text::pieces(vars["RATE_LIMIT_TRUSTED_IPS"@]@, ',')[i],
            ) == entry),
        config.trusted_api_keys@.contains(entry) <==> vars.contains_key(
            "RATE_LIMIT_TRUSTED_API_KEYS"@,
        ) && entry.len() > 0 && (exists|i: int|
            #![trigger text::pieces(vars["RATE_LIMIT_TRUSTED_API_KEYS"@]@, ',')[i]]
            0 <= i < text::pieces(vars["RATE_LIMIT_TRUSTED_API_KEYS"@]@, ',').len()
                && text::trimmed(text::pieces(vars["RATE_LIMIT_TRUSTED_API_KEYS"@]@, ',')[i])
                == entry),
{
    law_lists_hold_their_entries(vars, "RATE_LIMIT_TRUSTED_IPS"@, entry);
    law_lists_hold_their_entries(vars, "RATE_LIMIT_TRUSTED_API_KEYS"@, entry);
}

/// What any variable lists are its entries, trimmed, that are not blank; a variable
/// that is not set lists nothing.
pub proof fn law_lists_hold_their_entries(
    vars: Map<Seq<char>, String>,
    name: Seq<char>,
    entry: Seq<char>,
)
    ensures
        vars.contains_key(name) ==> config::list_setting(vars, name) == vars[name]@,
        !vars.contains_key(name) ==> config::list_setting(vars, name).len() == 0,
        config::listed(config::list_setting(vars, name)).contains(entry) <==> vars.contains_key(
            name,
        ) && entry.len() > 0 && (exists|i: int|
            #![trigger text::pieces(vars[name]@, ',')[i]]
            0 <= i < text::pieces(vars[name]@, ',').len() && text::trimmed(
                text::pieces(vars[name]@, ',')[i],
            ) == entry),
{
    let raw = config::list_setting(vars, name);
    let entries = text::list_entries(raw);
    if !vars.contains_key(name) {
        assert(raw =~= Seq::<char>::empty());
        assert(entries[0] == text::trimmed(Seq::empty()));
        assert(text::trimmed(Seq::<char>::empty()) == Seq::<char>::empty());
        if entries.contains(entry) {
            let i = entries.index_of(entry);
            assert(i == 0);
        }
    } else {
        if entries.contains(entry) {
            let i = entries.index_of(entry);
            assert(text::trimmed(text::pieces(vars[name]@, ',')[i]) == entry);
        }
        if exists|i: int|
            #![trigger text::pieces(vars[name]@, ',')[i]]
            0 <= i < text::pieces(vars[name]@, ',').len() && text::trimmed(
                text::pieces(vars[name]@, ',')[i],
            ) == entry {
            let i = choose|i: int|
                #![trigger text::pieces(vars[name]@, ',')[i]]
                0 <= i < text::pieces(vars[name]@, ',').len() && text::trimmed(
                    text::pieces(vars[name]@, ',')[i],
                ) == entry;
            assert(entries[i] == entry);
        }
    }
}

/// The entry is `key=n`, white space round the key and the number aside, for a key
/// that is not blank and a positive number of 32 bits.
pub open spec fn entry_gives(entry: Seq<char>, key: Seq<char>, n: nat) -> bool {
    text::cut(entry, '=') matches Some((before, after)) && text::trimmed(before) == key
        && key.len() > 0 && text::numeral(text::trimmed(after)) == Some(n) && 0 < n
        <= 4_294_967_295
}

/// The last entry for a key gives its limit, whatever the other entries are; a key
/// without an entry has none.
pub proof fn law_last_limit_for_a_key_counts(
    entries: Seq<Seq<char>>,
    key: Seq<char>,
    i: int,
    n: nat,
)
    requires
        -1 <= i < entries.len(),
        i >= 0 ==> entry_gives(entries[i], key, n),
        forall|j: int, m: nat| i < j < entries.len() ==> !(#[trigger] entry_gives(
            entries[j],
            key,
            m,
        )),
    ensures
        i >= 0 ==> config::key_limits(entries).contains_key(key) && config::key_limits(
            entries,
        )[key] == n,
        i < 0 ==> !config::key_limits(entries).contains_key(key),
    decreases entries.len(),
{
    if entries.len() > 0 {
        let front = entries.drop_last();
        let last = entries.len() - 1;
        if let Some((k, limit)) = config::key_limit(entries[last]) {
            assert(entry_gives(entries[last], k, limit as nat));
        }
        if i < last {
            assert forall|j: int, m: nat| i < j < front.len() implies !(#[trigger] entry_gives(
                front[j],
                key,
                m,
            )) by {
                assert(front[j] == entries[j]);
                assert(!entry_gives(entries[j], key, m));
            }
            law_last_limit_for_a_key_counts(front, key, i, n);
            if let Some((k, limit)) = config::key_limit(entries[last]) {
                assert(!entry_gives(entries[last], key, limit as nat));
            }
        }
    }
}

/// The limits by key are read from their own list.
pub proof fn law_key_limits_come_from_their_list(
    config: RateLimitConfig,
    vars: Map<Seq<char>, String>,
    key: Seq<char>,
)
    requires
        config::configured(config, vars),
    ensures
        vars.contains_key("RATE_LIMIT_API_KEY_LIMITS"@) ==> config.per_api_key_limits@
            == config::key_limits(text::pieces(vars["RATE_LIMIT_API_KEY_LIMITS"@]@, ',')),
        !vars.contains_key("RATE_LIMIT_API_KEY_LIMITS"@)
            ==> !config.per_api_key_limits@.contains_key(key),
{
    if !vars.contains_key("RATE_LIMIT_API_KEY_LIMITS"@) {
        let entries = text::pieces(Seq::empty(), ',');
        let none = Seq::<char>::empty();
        assert(entries =~= seq![none]);
        none.index_of_first_ensures('=');
        assert(entries.last() == none);
        assert(text::cut(none, '=') is None);
        assert(entries.drop_last() =~= Seq::<Seq<char>>::empty());
        assert(config::key_limits(entries.drop_last()) =~= Map::<Seq<char>, u32>::empty());
    }
}

/// What is told of as rejected is a variable that is set, its value, and the default
/// that stands in its place; and the value spells no positive number of 64 bits, or
/// one that is too large for its setting.
pub proof fn law_rejected_settings_are_set_and_wrong(
    vars: Map<Seq<char>, String>,
    name: Seq<char>,
    max: nat,
    default: nat,
)
    ensures
        missets(vars, name, max) ==> config::rejected(vars, name, max, default) == seq![
            (name, vars[name]@, default),
        ],
        !missets(vars, name, max) ==> config::rejected(vars, name, max, default).len() == 0,
{
}

/// A rejected setting is told of by its name, its value and its default.
pub proof fn law_rejected_settings_are_told_whole(settings: Seq<RejectedSetting>, i: int)
    requires
        0 <= i < settings.len(),
    ensures
        config::told(settings).len() == settings.len(),
        config::told(settings)[i].0 == settings[i].name@,
        config::told(settings)[i].1 == settings[i].value@,
        config::told(settings)[i].2 == settings[i].default,
{
}

/// Of two variables for one setting the first is told of where it is set, else the
/// second.
pub proof fn law_rejected_of_two(
    vars: Map<Seq<char>, String>,
    primary: Seq<char>,
    fallback: Seq<char>,
    max: nat,
    default: nat,
)
    ensures
        vars.contains_key(primary) ==> config::rejected_of_two(
            vars,
            primary,
            fallback,
            max,
            default,
        ) == config::rejected(vars, primary, max, default),
        !vars.contains_key(primary) ==> config::rejected_of_two(
            vars,
            primary,
            fallback,
            max,
            default,
        ) == config::rejected(vars, fallback, max, default),
{
}

/// Every setting that is set to what is not used is told of, under its name and
/// value, with the default that stands in its place, and no other is.
pub proof fn law_all_rejected_settings_are_told_of(vars: Map<Seq<char>, String>)
    ensures
        config::all_rejected(vars) == config::rejected_of_two(
            vars,
            "RATE_LIMIT_IP_PER_MINUTE"@,
            "RATE_LIMIT_ANON_PER_MINUTE"@,
            4_294_967_295,
            1_000,
        ) + config::rejected_of_two(
            vars,
            "RATE_LIMIT_API_KEY_PER_MINUTE"@,
            "RATE_LIMIT_AUTH_PER_MINUTE"@,
            4_294_967_295,
            1_000,
        ) + config::rejected(vars, "RATE_LIMIT_WRITE_ANON_PER_HOUR"@, 4_294_967_295, 100)
            + config::rejected(vars, "RATE_LIMIT_WRITE_AUTH_PER_HOUR"@, 4_294_967_295, 300)
            + config::rejected(vars, "RATE_LIMIT_WINDOW_SECONDS"@, 18_446_744_073_709_551_615, 60)
            + config::rejected_of_two(
            vars,
            "ENTERPRISE_RATE_LIMIT_PER_HOUR"@,
            "ENTERPRISE_RATE_LIMIT_PER_WINDOW"@,
            4_294_967_295,
            100_000,
        ),
{
}

// ---------------------------------------------------------------------------
// Limits
// ---------------------------------------------------------------------------

/// The free and the pro tier get at least their own limit, and more where the limit
/// for credentials is above it; the enterprise tier gets its own.
pub proof fn law_tier_limits(config: RateLimitConfig)
    ensures
        config.tier_limit(ApiTier::Free) >= 1_000 && config.tier_limit(ApiTier::Free)
            >= config.auth_limit,
        config.tier_limit(ApiTier::Free) == 1_000 || config.tier_limit(ApiTier::Free)
            == config.auth_limit,
        config.tier_limit(ApiTier::Pro) >= 10_000 && config.tier_limit(ApiTier::Pro)
            >= config.auth_limit,
        config.tier_limit(ApiTier::Pro) == 10_000 || config.tier_limit(ApiTier::Pro)
            == config.auth_limit,
        config.tier_limit(ApiTier::Enterprise) == config.enterprise_limit,
{
}

/// The burst window admits the limit itself, and one request where the limit is
/// none.
pub proof fn law_burst_allowance_is_the_limit(limit: u32)
    ensures
        limit >= 1 ==> config::burst_allowance(limit) == limit,
        limit == 0 ==> config::burst_allowance(limit) == 1,
{
}

/// Reads are counted over the configured window and writes over an hour, both with
/// the same burst window.
pub proof fn law_windows_by_class(config: RateLimitConfig)
    ensures
        config.windows_for(RequestClass::Read).window == config.window.secs * 1_000_000_000
            + config.window.subsec_nanos,
        config.windows_for(RequestClass::Write).window == 3_600_000_000_000,
        config.windows_for(RequestClass::Read).burst_window == config.burst_window.secs
            * 1_000_000_000 + config.burst_window.subsec_nanos,
        config.windows_for(RequestClass::Write).burst_window == config.burst_window.secs
            * 1_000_000_000 + config.burst_window.subsec_nanos,
{
}

/// What is left of a limit and what was used of it make up the limit, and nothing is
/// left where more was used.
pub proof fn law_what_is_left(limit: u32, used: nat)
    ensures
        used <= limit ==> state::left_of(limit, used) + used == limit,
        used > limit ==> state::left_of(limit, used) == 0,
{
}

// ---------------------------------------------------------------------------
// The quota of a request
// ---------------------------------------------------------------------------

/// Reads of a contract's ABI are held to a thousand in a minute and sixty times that
/// in a window, by contract and address, whatever credential they carry.
pub proof fn law_quota_of_an_abi_read(config: RateLimitConfig, request: RequestHead)
    requires
        routes::reads_contract_abi(request.method@, request.path@),
    ensures
        ({
            let quota = state::quota_for(config, request);
            &&& quota.hourly_limit == 60_000
            &&& quota.burst_limit == 1_000
            &&& quota.client_key == "abi:"@ + request.path@ + ":"@ + request.client_ip@
            &&& quota.class == RequestClass::Read
            &&& quota.tier == request::requested_tier(request.headers)
        }),
{
    reveal_strlit("GET");
    reveal_strlit("POST");
    reveal_strlit("PUT");
    reveal_strlit("PATCH");
    reveal_strlit("DELETE");
    assert("GET"@.len() == 3 && "GET"@[0] == 'G' && "PUT"@[0] == 'P');
    assert("POST"@.len() == 4 && "PATCH"@.len() == 5 && "DELETE"@.len() == 6);
}

/// A credential whose API key has a limit of its own is held to that limit, whatever
/// its tier, and any other to the limit of its tier; a write is held to the smaller
/// of that and the write limit. It is counted by the credential, reads and writes
/// apart, and not by the address.
pub proof fn law_quota_of_a_credential(
    config: RateLimitConfig,
    request: RequestHead,
    token: Seq<char>,
)
    requires
        !routes::reads_contract_abi(request.method@, request.path@),
        request::auth_token(request.headers) == Some(token),
    ensures
        ({
            let quota = state::quota_for(config, request);
            let key = request::api_key_of(token);
            let tier = request::requested_tier(request.headers);
            let own = if config.per_api_key_limits@.contains_key(key) {
                config.per_api_key_limits@[key]
            } else {
                config.tier_limit(tier)
            };
            let write = routes::is_write(request.method@);
            &&& !write ==> quota.hourly_limit == own
            &&& write ==> quota.hourly_limit <= own && quota.hourly_limit <= config.write_auth_limit
                && (quota.hourly_limit == own || quota.hourly_limit == config.write_auth_limit)
            &&& quota.burst_limit == quota.hourly_limit || (quota.hourly_limit == 0
                && quota.burst_limit == 1)
            &&& quota.client_key == if write {
                "auth:write:"@ + token
            } else {
                "auth:read:"@ + token
            }
            &&& quota.class == if write {
                RequestClass::Write
            } else {
                RequestClass::Read
            }
            &&& quota.tier == tier
        }),
{
}

/// A request without credential is held to the limit of its class, by its address.
/// For a page of the contract listing the read limit is scaled by the page size.
pub proof fn law_quota_of_an_address(config: RateLimitConfig, request: RequestHead)
    requires
        !routes::reads_contract_abi(request.method@, request.path@),
        request::auth_token(request.headers) is None,
    ensures
        ({
            let quota = state::quota_for(config, request);
            let write = routes::is_write(request.method@);
            let listing = request.method@ == "GET"@ && request.path@ == "/api/contracts"@;
            let query = text::text_of(request.query);
            let size = match routes::query_page_size(query) {
                Some(n) => n,
                None => 50,
            };
            &&& write ==> quota.hourly_limit == config.write_anonymous_limit
            &&& !write && !listing ==> quota.hourly_limit == config.anonymous_limit
            &&& !write && listing ==> quota.hourly_limit == routes::scaled_limit(
                config.anonymous_limit,
                size,
            )
            &&& quota.burst_limit == quota.hourly_limit || (quota.hourly_limit == 0
                && quota.burst_limit == 1)
            &&& quota.client_key == if write {
                "anon:write:"@ + request.client_ip@
            } else {
                "anon:read:"@ + request.client_ip@
            }
            &&& quota.class == if write {
                RequestClass::Write
            } else {
                RequestClass::Read
            }
            &&& quota.tier == request::requested_tier(request.headers)
        }),
{
    let listing = request.method@ == "GET"@ && request.path@ == "/api/contracts"@;
    if listing {
        let size = match routes::query_page_size(text::text_of(request.query)) {
            Some(n) => n,
            None => 50,
        };
        crate::laws::law_larger_pages_get_smaller_limits(config.anonymous_limit, 0, size);
        assert(routes::scaled_limit(config.anonymous_limit, 0) <= u32::MAX);
    }
}

// ---------------------------------------------------------------------------
// What is done with a request
// ---------------------------------------------------------------------------

/// A request that is counted is admitted where the decision grants it and refused
/// where it does not, and is told that decision, its limit, and its tier. Only the
/// bucket under its own key changes, and it changes by that one check. A refusal
/// tells the wait that the decision gives.
pub proof fn law_counted_requests_are_decided_on(
    before: RateLimitState,
    after: RateLimitState,
    request: RequestHead,
    now: Moment,
    admission: Admission,
    other: Seq<char>,
)
    requires
        state::limited(before, after, request, now, admission),
    ensures
        ({
            let quota = state::quota_for(before.config, request);
            let key = quota.client_key;
            let windows = before.config.windows_for(quota.class);
            let found = table::bucket_under(before.buckets@, key);
            let made = bucket::decision(
                found,
                now,
                windows,
                quota.hourly_limit,
                quota.burst_limit,
            );
            &&& made.allowed <==> admission is Admitted
            &&& !made.allowed <==> admission is Refused
            &&& admission matches Admission::Admitted { decision, tier } ==> decision == made
                && tier == request::requested_tier(request.headers)
            &&& admission matches Admission::Refused { decision, tier, refusal } ==> decision
                == made && tier == request::requested_tier(request.headers)
                && refusal.retry_after_seconds == made.reset_seconds && refusal.limit_type@
                == quota.class.label()
            &&& after.buckets@.contains_key(key)
            &&& after.buckets@[key] == bucket::after_check(
                found,
                now,
                windows,
                quota.hourly_limit,
                quota.burst_limit,
            )
            &&& other != key ==> (after.buckets@.contains_key(other)
                <==> before.buckets@.contains_key(other))
            &&& other != key && before.buckets@.contains_key(other) ==> after.buckets@[other]
                == before.buckets@[other]
        }),
{
    let quota = state::quota_for(before.config, request);
    match request::auth_token(request.headers) {
        Some(token) => {},
        None => {},
    }
    assert(quota.tier == request::requested_tier(request.headers));
}

/// What is decided under a key goes by the bucket that stands there and by the
/// windows of the class.
pub proof fn law_decisions_go_by_the_key(
    before: RateLimitState,
    key: Seq<char>,
    class: RequestClass,
    hourly_limit: u32,
    burst_limit: u32,
    now: Moment,
    other: Seq<char>,
)
    ensures
        ({
            let found = table::bucket_under(before.buckets@, key);
            let windows = before.config.windows_for(class);
            let after = state::buckets_after(before, key, class, hourly_limit, burst_limit, now);
            &&& state::decided(before, key, class, hourly_limit, burst_limit, now)
                == bucket::decision(found, now, windows, hourly_limit, burst_limit)
            &&& after.contains_key(key) && after[key] == bucket::after_check(
                found,
                now,
                windows,
                hourly_limit,
                burst_limit,
            )
            &&& other != key ==> (after.contains_key(other) <==> before.buckets@.contains_key(
                other,
            ))
            &&& other != key && before.buckets@.contains_key(other) ==> after[other]
                == before.buckets@[other]
        }),
{
}

/// The body of a refusal says what kind of quota is exhausted and how long to wait.
pub proof fn law_refusals_say_what_is_exhausted(
    refusal: Refusal,
    class: RequestClass,
    decision: RateLimitDecision,
)
    requires
        refusal.tells(class, decision),
    ensures
        refusal.error_code@ == "RATE_LIMITED"@,
        refusal.retry_after_seconds == decision.reset_seconds,
        class == RequestClass::Write ==> refusal.limit_type@ == "write"@ && refusal.detail@
            == "Write quota exhausted. Reduce request frequency or wait for the window to reset."@,
        class == RequestClass::Read ==> refusal.limit_type@ == "read"@ && refusal.detail@
            == "Too many requests. Please retry after the indicated time."@,
{
}

/// Each header of the limiter gets one value, its number in decimal or the name of
/// the tier, and every other header keeps the values that it has. A header map takes
/// them as long as it holds fewer than six thousand names.
pub proof fn law_headers_get_one_value_each(
    values: Map<Seq<char>, Seq<Seq<u8>>>,
    decision: RateLimitDecision,
    tier: ApiTier,
    other: Seq<char>,
    more: nat,
)
    ensures
        ({
            let limits = response::with_limit_headers(values, decision);
            let tiered = response::with_tier_header(values, tier);
            let timed = response::with_retry_header(values, decision);
            let bytes = |n: nat| text::decimal_text(n).map_values(|c: char| c as u8);
            &&& limits["x-ratelimit-limit"@] == seq![bytes(decision.limit as nat)]
            &&& limits["x-ratelimit-remaining"@] == seq![bytes(decision.remaining as nat)]
            &&& limits["x-ratelimit-reset"@] == seq![bytes(decision.reset_seconds as nat)]
            &&& limits.dom() == values.dom().insert("x-ratelimit-limit"@).insert(
                "x-ratelimit-remaining"@,
            ).insert("x-ratelimit-reset"@)
            &&& other != "x-ratelimit-limit"@ && other != "x-ratelimit-remaining"@ && other
                != "x-ratelimit-reset"@ ==> limits[other] == values[other]
            &&& tiered["x-ratelimit-tier"@] == seq![tier.label().map_values(|c: char| c as u8)]
            &&& tiered.dom() == values.dom().insert("x-ratelimit-tier"@)
            &&& other != "x-ratelimit-tier"@ ==> tiered[other] == values[other]
            &&& timed["retry-after"@] == seq![bytes(decision.reset_seconds as nat)]
            &&& timed.dom() == values.dom().insert("retry-after"@)
            &&& other != "retry-after"@ ==> timed[other] == values[other]
            &&& response::has_room(values, more) <==> values.dom().finite() && values.dom().len()
                + more <= 6_000
        }),
{
    response::lemma_names_differ();
    let limits = response::with_limit_headers(values, decision);
    assert(limits.dom() =~= values.dom().insert("x-ratelimit-limit"@).insert(
        "x-ratelimit-remaining"@,
    ).insert("x-ratelimit-reset"@));
    assert(response::ascii_bytes(text::decimal_text(decision.limit as nat))
        =~= text::decimal_text(decision.limit as nat).map_values(|c: char| c as u8));
    assert(response::ascii_bytes(text::decimal_text(decision.remaining as nat))
        =~= text::decimal_text(decision.remaining as nat).map_values(|c: char| c as u8));
    assert(response::ascii_bytes(text::decimal_text(decision.reset_seconds as nat))
        =~= text::decimal_text(decision.reset_seconds as nat).map_values(|c: char| c as u8));
    assert(response::ascii_bytes(tier.label()) =~= tier.label().map_values(|c: char| c as u8));
    assert(response::with_tier_header(values, tier).dom() =~= values.dom().insert(
        "x-ratelimit-tier"@,
    ));
    assert(response::with_retry_header(values, decision).dom() =~= values.dom().insert(
        "retry-after"@,
    ));
}

/// Where header maps are the same but for some names, every other header has the same
/// values in both; where each header was kept or put, it has its former values or the
/// wanted ones. The limit headers are three.
pub proof fn law_other_headers_are_left_alone(
    before: Map<Seq<char>, Seq<Seq<u8>>>,
    after: Map<Seq<char>, Seq<Seq<u8>>>,
    wanted: Map<Seq<char>, Seq<Seq<u8>>>,
    names: Set<Seq<char>>,
    name: Seq<char>,
)
    ensures
        response::same_but(before, after, names) && !names.contains(name) ==> (after.contains_key(
            name,
        ) <==> before.contains_key(name)) && (before.contains_key(name) ==> after[name]
            == before[name]),
        response::kept_or_put(before, after, wanted) ==> {
            ||| (after.contains_key(name) <==> before.contains_key(name)) && (before.contains_key(
                name,
            ) ==> after[name] == before[name])
            ||| (after.contains_key(name) <==> wanted.contains_key(name)) && (wanted.contains_key(
                name,
            ) ==> after[name] == wanted[name])
        },
        response::limit_names().contains(name) <==> name == "x-ratelimit-limit"@ || name
            == "x-ratelimit-remaining"@ || name == "x-ratelimit-reset"@,
{
    if response::kept_or_put(before, after, wanted) {
        assert(response::agree_on(after, before, name) || response::agree_on(after, wanted, name));
    }
}

// ---------------------------------------------------------------------------
// The audit
// ---------------------------------------------------------------------------

/// An event opens a window of its own where the present one is a minute old, and
/// else adds one to its count; the count of a minute starts at one.
pub proof fn law_events_are_counted_by_the_minute(spike: BypassSpikeState, now: i64)
    ensures
        now - spike.window_start_unix >= 60 ==> audit::recorded(spike, now).window_start_unix == now
            && audit::recorded(spike, now).window_count == 1,
        now - spike.window_start_unix < 60 ==> audit::recorded(spike, now).window_start_unix
            == spike.window_start_unix,
        now - spike.window_start_unix < 60 && spike.window_count < u64::MAX ==> audit::recorded(
            spike,
            now,
        ).window_count == spike.window_count + 1,
        now - spike.window_start_unix < 60 && spike.window_count == u64::MAX ==> audit::recorded(
            spike,
            now,
        ).window_count == 0,
{
}

/// A key of up to eight characters is shown whole; of a longer one the first eight
/// are shown, then an ellipsis, and nothing else.
pub proof fn law_first_eight_characters_are_shown(key: Seq<char>, i: int)
    ensures
        key.len() <= 8 ==> audit::masked(key) == key,
        key.len() > 8 ==> audit::masked(key).len() == 9 && audit::masked(key)[8] == '…',
        key.len() > 8 && 0 <= i < 8 ==> audit::masked(key)[i] == key[i],
{
}

/// What is told of a bypass is the request's own address, path and method, how it was
/// trusted, and by whom: the address, or the API key as far as it is shown. The event
/// is counted, and an alert comes with it exactly beyond a hundred in the minute.
pub proof fn law_bypasses_are_told_of(
    before: RateLimitState,
    after: RateLimitState,
    request: RequestHead,
    kind: BypassKind,
    audit: BypassAudit,
)
    requires
        state::bypass_audited(before, after, request, kind, audit),
    ensures
        audit.event@ == "trusted_bypass"@,
        audit.client_ip@ == request.client_ip@,
        audit.path@ == request.path@,
        audit.method@ == request.method@,
        kind == BypassKind::TrustedIp ==> audit.identity_type@ == "ip"@ && audit.client_identity@
            == request.client_ip@,
        kind == BypassKind::TrustedApiKey ==> audit.identity_type@ == "api_key"@,
        kind == BypassKind::TrustedApiKey && request::auth_token(request.headers) is Some
            ==> audit.client_identity@ == audit::masked(
            request::api_key_of(request::auth_token(request.headers)->0),
        ),
        kind == BypassKind::TrustedApiKey && request::auth_token(request.headers) is None
            ==> audit.client_identity@ == "<unknown>"@,
        audit.count == after.bypass_spike.window_count,
        audit.count == 1 || audit.count == before.bypass_spike.window_count + 1 || (audit.count == 0
            && before.bypass_spike.window_count == u64::MAX),
        exists|now: i64|
            0 <= now && after.bypass_spike == #[trigger] audit::recorded(before.bypass_spike, now),
        audit.alert is Some <==> audit.count > 100,
        exists|millis: i64|
            0 <= millis <= 8_210_266_876_799_999 && audit.timestamp@
                == #[trigger] wall_clock::rfc3339_text(millis),
        audit.alert matches Some(alert) ==> alert.reports_spike(
            audit.count,
            alert.id@,
            alert.timestamp,
        ) && audit::is_random_uuid(alert.id@) && 0 <= alert.timestamp.secs <= 8_210_266_876_799
            && alert.timestamp.subsec_nanos < 1_000_000_000,
{
}

/// A record is made under the time and the count that it is given.
pub proof fn law_records_tell_time_and_count(
    audit: BypassAudit,
    request: RequestHead,
    kind: BypassKind,
    timestamp: Seq<char>,
    count: u64,
)
    requires
        audit.describes(request, kind, timestamp, count),
    ensures
        audit.timestamp@ == timestamp,
        audit.count == count,
        audit.event@ == "trusted_bypass"@,
        audit.identity_type@ == kind.identity_type(),
        audit.client_identity@ == audit::identity_of(request, kind),
        audit.client_ip@ == request.client_ip@,
        audit.path@ == request.path@,
        audit.method@ == request.method@,
{
}

/// The id of an alert is a random UUID: thirty-two hexadecimal digits in five groups
/// with hyphens between them, of which two mark its version and its variant. A moment
/// is valid from the start of 1970 to the end of the calendar.
pub proof fn law_ids_and_moments(id: Seq<char>, i: int, at: Timestamp)
    ensures
        audit::is_random_uuid(id) ==> id.len() == 36 && id[8] == '-' && id[13] == '-' && id[18]
            == '-' && id[23] == '-' && id[14] == '4' && (id[19] == '8' || id[19] == '9' || id[19]
            == 'a' || id[19] == 'b'),
        audit::is_random_uuid(id) && 0 <= i < 36 && i != 8 && i != 13 && i != 18 && i != 23 ==> (
        48 <= id[i] as int <= 57 || 97 <= id[i] as int <= 102),
        at.valid() <==> 0 <= at.secs <= 8_210_266_876_799 && at.subsec_nanos < 1_000_000_000,
{
    if audit::is_random_uuid(id) {
        assert(id[8] == '-' && id[13] == '-' && id[18] == '-' && id[23] == '-');
        if 0 <= i < 36 && i != 8 && i != 13 && i != 18 && i != 23 {
            assert(audit::is_hex(id[i]));
        }
    }
}

/// A spike alert is critical, bears the id and the time that it is given, names its
/// source, and tells the count and the threshold.
pub proof fn law_alerts_tell_the_count(
    alert: Alert,
    count: u64,
    id: Seq<char>,
    timestamp: Timestamp,
)
    requires
        alert.reports_spike(count, id, timestamp),
    ensures
        alert.id@ == id,
        alert.timestamp == timestamp,
        alert.source@ == "rate_limit_bypass"@,
        alert.severity == audit::AlertSeverity::Critical,
        alert.message@ == "Trusted-client bypass spike: "@ + text::decimal_text(count as nat)
            + " bypasses in the last 60 seconds (threshold: "@ + text::decimal_text(100)
            + "). Review RATE_LIMIT_TRUSTED_IPS / RATE_LIMIT_TRUSTED_API_KEYS for leaked or abused tokens."@,
{
}

} // verus!
