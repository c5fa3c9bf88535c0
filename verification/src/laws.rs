//! What holds across the parts of the library.

use vstd::prelude::*;
use vstd::string::*;

use crate::audit;
use crate::audit::BypassSpikeState;
use crate::bucket::{RateLimitDecision, Windows};
use crate::bucket_laws::Check;
use crate::clock::Moment;
use crate::config;
use crate::config::RateLimitConfig;
use crate::request;
use crate::request::RequestHead;
use crate::response;
use crate::routes;
use crate::routes::RequestClass;
use crate::state;
use crate::state::{Admission, RateLimitState};
use crate::table;
use crate::table_laws;
use crate::table_laws::Event;
use crate::text;
use crate::tier;
use crate::tier::{ApiTier, BypassKind};

verus! {

// ---------------------------------------------------------------------------
// Quotas
// ---------------------------------------------------------------------------

/// A write and a read are never counted in the same bucket, whoever sends them.
pub proof fn law_reads_and_writes_are_apart(
    config: RateLimitConfig,
    read: RequestHead,
    write: RequestHead,
)
    requires
        !routes::is_write(read.method@),
        routes::is_write(write.method@),
    ensures
        state::quota_for(config, read).client_key != state::quota_for(config, write).client_key,
        state::quota_for(config, read).class == RequestClass::Read,
        state::quota_for(config, write).class == RequestClass::Write,
{
    reveal_strlit("GET");
    reveal_strlit("POST");
    reveal_strlit("PUT");
    reveal_strlit("PATCH");
    reveal_strlit("DELETE");
    reveal_strlit("abi:");
    reveal_strlit("auth:read:");
    reveal_strlit("auth:write:");
    reveal_strlit("anon:read:");
    reveal_strlit("anon:write:");
    let r = state::quota_for(config, read).client_key;
    let w = state::quota_for(config, write).client_key;
    assert("GET"@.len() == 3);
    assert(!routes::reads_contract_abi(write.method@, write.path@)) by {
        assert("GET"@[0] == 'G');
        assert("PUT"@[0] == 'P');
        assert("POST"@.len() == 4 && "PATCH"@.len() == 5 && "DELETE"@.len() == 6);
    }
    assert(w[1] == 'u' || w[1] == 'n');
    assert(w[5] == 'w');
    assert(r[1] == 'b' || r[5] == 'r');
}

/// Two addresses without credential never share a bucket, and neither do two
/// credentials.
pub proof fn law_clients_are_apart(config: RateLimitConfig, one: RequestHead, other: RequestHead)
    requires
        !routes::reads_contract_abi(one.method@, one.path@),
        !routes::reads_contract_abi(other.method@, other.path@),
        match (request::auth_token(one.headers), request::auth_token(other.headers)) {
            (Some(a), Some(b)) => a != b,
            (None, None) => one.client_ip@ != other.client_ip@,
            _ => true,
        },
    ensures
        state::quota_for(config, one).client_key != state::quota_for(config, other).client_key,
{
    reveal_strlit("auth:read:");
    reveal_strlit("auth:write:");
    reveal_strlit("anon:read:");
    reveal_strlit("anon:write:");
    let a = state::quota_for(config, one).client_key;
    let b = state::quota_for(config, other).client_key;
    match (request::auth_token(one.headers), request::auth_token(other.headers)) {
        (Some(x), Some(y)) => {
            lemma_tails_differ("auth:read:"@, x, y);
            lemma_tails_differ("auth:write:"@, x, y);
            assert(a[5] == 'w' || a[5] == 'r');
            if a[5] == b[5] {
                assert(routes::class_of(one.method@) == routes::class_of(other.method@));
            }
        },
        (None, None) => {
            lemma_tails_differ("anon:read:"@, one.client_ip@, other.client_ip@);
            lemma_tails_differ("anon:write:"@, one.client_ip@, other.client_ip@);
            if a[5] == b[5] {
                assert(routes::class_of(one.method@) == routes::class_of(other.method@));
            }
        },
        (Some(x), None) => {
            assert(a[1] == 'u' && b[1] == 'n');
        },
        (None, Some(y)) => {
            assert(a[1] == 'n' && b[1] == 'u');
        },
    }
}

/// Reads of two contracts' ABIs never share a bucket, neither do two addresses that
/// read the same one, and no other request is counted with them. An address holds
/// no slash.
pub proof fn law_abi_buckets_are_apart(
    config: RateLimitConfig,
    one: RequestHead,
    other: RequestHead,
)
    requires
        routes::reads_contract_abi(one.method@, one.path@),
        !one.client_ip@.contains('/'),
        !other.client_ip@.contains('/'),
        routes::reads_contract_abi(other.method@, other.path@) ==> one.path@ != other.path@
            || one.client_ip@ != other.client_ip@,
    ensures
        state::quota_for(config, one).client_key != state::quota_for(config, other).client_key,
{
    reveal_strlit("abi:");
    reveal_strlit("auth:read:");
    reveal_strlit("auth:write:");
    reveal_strlit("anon:read:");
    reveal_strlit("anon:write:");
    let a = state::quota_for(config, one).client_key;
    let b = state::quota_for(config, other).client_key;
    assert(a[1] == 'b');
    if !routes::reads_contract_abi(other.method@, other.path@) {
        assert(b[1] == 'u' || b[1] == 'n');
    } else if a == b {
        if one.path@.len() <= other.path@.len() {
            lemma_abi_key_is_unambiguous(one.path@, one.client_ip@, other.path@, other.client_ip@);
        } else {
            lemma_abi_key_is_unambiguous(other.path@, other.client_ip@, one.path@, one.client_ip@);
        }
    }
}

proof fn lemma_abi_key_is_unambiguous(
    path: Seq<char>,
    ip: Seq<char>,
    longer: Seq<char>,
    other_ip: Seq<char>,
)
    requires
        "/abi"@.is_suffix_of(path),
        "/abi"@.is_suffix_of(longer),
        path.len() <= longer.len(),
        !ip.contains('/'),
        state::abi_key(path, ip) == state::abi_key(longer, other_ip),
    ensures
        path == longer,
        ip == other_ip,
{
    reveal_strlit("abi:");
    reveal_strlit(":");
    reveal_strlit("/abi");
    let key = state::abi_key(path, ip);
    assert(key.len() == 5 + path.len() + ip.len());
    assert forall|i: int| 0 <= i < path.len() implies path[i] == key[4 + i] by {}
    assert forall|i: int| 0 <= i < longer.len() implies longer[i] == key[4 + i] by {}
    assert forall|i: int| 0 <= i < ip.len() implies ip[i] == key[5 + path.len() + i] by {}
    if path.len() < longer.len() {
        assert(path.subrange(path.len() - 4, path.len() as int) == "/abi"@);
        assert(longer.subrange(longer.len() - 4, longer.len() as int) == "/abi"@);
        let slash = longer.len() - 4;
        assert(longer[slash] == longer.subrange(longer.len() - 4, longer.len() as int)[0]);
        assert(key[4 + slash] == '/');
        assert(key[4int + path.len()] == ':');
        if slash > path.len() {
            assert(ip[slash - path.len() - 1] == '/');
        } else if slash < path.len() {
            let tail = path.subrange(path.len() - 4, path.len() as int);
            assert(path[slash] == tail[slash - (path.len() - 4)]);
        }
    }
    assert(path =~= longer);
    assert forall|i: int| 0 <= i < other_ip.len() implies other_ip[i] == key[5 + longer.len()
        + i] by {}
    assert(ip =~= other_ip);
}

proof fn lemma_tails_differ(head: Seq<char>, a: Seq<char>, b: Seq<char>)
    requires
        a != b,
    ensures
        head + a != head + b,
{
    if head + a == head + b {
        assert((head + a).skip(head.len() as int) =~= a);
        assert((head + b).skip(head.len() as int) =~= b);
    }
}

/// The write quota of a credential is no larger than the write limit, and no
/// larger than what the credential may read.
pub proof fn law_write_quota_is_tighter(
    config: RateLimitConfig,
    token: Seq<char>,
    tier: ApiTier,
)
    ensures
        state::auth_limit(config, RequestClass::Write, token, tier) <= config.write_auth_limit,
        state::auth_limit(config, RequestClass::Write, token, tier) <= state::auth_limit(
            config,
            RequestClass::Read,
            token,
            tier,
        ),
{
}

/// The burst quota of a request never keeps a client from spending its whole
/// quota at once, except on a contract's ABI.
pub proof fn law_burst_quota_admits_the_quota(config: RateLimitConfig, request: RequestHead)
    requires
        !routes::reads_contract_abi(request.method@, request.path@),
    ensures
        state::quota_for(config, request).hourly_limit <= state::quota_for(
            config,
            request,
        ).burst_limit,
{
}

/// The burst limit is the least whole number of requests that covers 120 % of the
/// per-minute share of the hourly limit, and at least one.
pub proof fn law_burst_limit_is_the_rounded_share(hourly: u32)
    ensures
        config::burst_limit(hourly) >= 1,
        config::burst_limit(hourly) * 600 >= hourly * 12,
        config::burst_limit(hourly) > 1 ==> (config::burst_limit(hourly) - 1) * 600 < hourly * 12,
{
}

/// A larger page never gets a larger limit, no page gets none, and the default
/// page keeps the limit.
pub proof fn law_larger_pages_get_smaller_limits(base_limit: u32, page: u32, larger: u32)
    requires
        page <= larger,
    ensures
        routes::scaled_limit(base_limit, larger) <= routes::scaled_limit(base_limit, page),
        1 <= routes::scaled_limit(base_limit, page),
        page <= routes::DEFAULT_CONTRACTS_PAGE_SIZE && base_limit >= 1 ==> routes::scaled_limit(
            base_limit,
            page,
        ) == base_limit,
{
    let w = routes::page_weight(page);
    let v = routes::page_weight(larger);
    assert(1 <= w <= v);
    vstd::arithmetic::div_mod::lemma_div_is_ordered_by_denominator(base_limit as int, w, v);
    vstd::arithmetic::div_mod::lemma_div_basics_2(base_limit as int);
}

/// A page size that a query asks for lies within bounds.
pub proof fn law_page_size_is_within_bounds(query: Option<Seq<char>>)
    ensures
        routes::query_page_size(query) matches Some(size) ==> 1 <= size
            <= routes::MAX_CONTRACTS_PAGE_SIZE,
{
    if let Some(q) = query {
        lemma_first_page_size(text::pieces(q, '&'));
    }
}

proof fn lemma_first_page_size(pairs: Seq<Seq<char>>)
    ensures
        routes::first_page_size(pairs) matches Some(size) ==> 1 <= size
            <= routes::MAX_CONTRACTS_PAGE_SIZE,
    decreases pairs.len(),
{
    if pairs.len() > 0 {
        lemma_first_page_size(pairs.skip(1));
    }
}

// ---------------------------------------------------------------------------
// The limiter over time
// ---------------------------------------------------------------------------

/// What the requests under a key are counted as.
pub open spec fn class_of_key(key: Seq<char>) -> RequestClass {
    if "auth:write:"@.is_prefix_of(key) || "anon:write:"@.is_prefix_of(key) {
        RequestClass::Write
    } else {
        RequestClass::Read
    }
}

/// What the requests under each key are counted over.
pub open spec fn windows_by_key(config: RateLimitConfig) -> spec_fn(Seq<char>) -> Windows {
    |key: Seq<char>| config.windows_for(class_of_key(key))
}

/// The key of a request's bucket tells what the request is counted as, so that all
/// requests under one key are counted over the same windows.
pub proof fn law_keys_tell_the_class(config: RateLimitConfig, request: RequestHead)
    ensures
        class_of_key(state::quota_for(config, request).client_key) == state::quota_for(
            config,
            request,
        ).class,
{
    reveal_strlit("GET");
    reveal_strlit("POST");
    reveal_strlit("PUT");
    reveal_strlit("PATCH");
    reveal_strlit("DELETE");
    reveal_strlit("abi:");
    reveal_strlit("auth:read:");
    reveal_strlit("auth:write:");
    reveal_strlit("anon:read:");
    reveal_strlit("anon:write:");
    let key = state::quota_for(config, request).client_key;
    assert("auth:write:"@.is_prefix_of(key) ==> key[1] == 'u' && key[5] == 'w') by {
        if "auth:write:"@.is_prefix_of(key) {
            assert(key.subrange(0, 11)[1] == 'u' && key.subrange(0, 11)[5] == 'w');
        }
    }
    assert("anon:write:"@.is_prefix_of(key) ==> key[1] == 'n' && key[5] == 'w') by {
        if "anon:write:"@.is_prefix_of(key) {
            assert(key.subrange(0, 11)[1] == 'n' && key.subrange(0, 11)[5] == 'w');
        }
    }
    if routes::reads_contract_abi(request.method@, request.path@) {
        assert(key[1] == 'b');
        assert("GET"@.len() == 3 && "GET"@[0] == 'G' && "PUT"@[0] == 'P');
        assert("POST"@.len() == 4 && "PATCH"@.len() == 5 && "DELETE"@.len() == 6);
    } else if routes::is_write(request.method@) {
        match request::auth_token(request.headers) {
            Some(token) => {
                assert("auth:write:"@ =~= key.subrange(0, 11));
            },
            None => {
                assert("anon:write:"@ =~= key.subrange(0, 11));
            },
        }
    } else {
        assert(key[5] == 'r');
    }
}

/// A request as the table of buckets sees it.
pub open spec fn counted(config: RateLimitConfig, request: RequestHead, now: Moment) -> Event {
    let quota = state::quota_for(config, request);
    Event::Request {
        key: quota.client_key,
        check: Check { now, hourly_limit: quota.hourly_limit, burst_limit: quota.burst_limit },
    }
}

/// What the limiter does with a request that it counts is one event more in the
/// history of its buckets: the buckets are those that the longer history leaves,
/// and the request is among the grants under its key exactly where it is admitted.
/// What holds of every history thus holds of every limiter.
pub proof fn law_counted_requests_make_history(
    before: RateLimitState,
    after: RateLimitState,
    request: RequestHead,
    now: Moment,
    admission: Admission,
    history: Seq<Event>,
)
    requires
        state::limited(before, after, request, now, admission),
        before.buckets@ == table_laws::after_events(history, windows_by_key(before.config)),
    ensures
        ({
            let windows = windows_by_key(before.config);
            let event = counted(before.config, request, now);
            let key = state::quota_for(before.config, request).client_key;
            let earlier = table_laws::granted_under(history, windows, key);
            &&& after.buckets@ == table_laws::after_events(history.push(event), windows)
            &&& table_laws::granted_under(history.push(event), windows, key) == (
            if admission is Admitted {
                earlier.push(event->check)
            } else {
                earlier
            })
        }),
{
    law_keys_tell_the_class(before.config, request);
    assert(history.push(counted(before.config, request, now)).drop_last() =~= history);
}

/// An eviction is one event more in the history of the buckets, too, and grants
/// nothing.
pub proof fn law_evictions_make_history(
    config: RateLimitConfig,
    now: Moment,
    history: Seq<Event>,
    key: Seq<char>,
)
    ensures
        ({
            let windows = windows_by_key(config);
            let longer = history.push(Event::Eviction { now });
            &&& table_laws::after_events(longer, windows) == table::active_buckets(
                table_laws::after_events(history, windows),
                now,
            )
            &&& table_laws::granted_under(longer, windows, key) == table_laws::granted_under(
                history,
                windows,
                key,
            )
        }),
{
    assert(history.push(Event::Eviction { now }).drop_last() =~= history);
}

// ---------------------------------------------------------------------------
// Configuration
// ---------------------------------------------------------------------------

/// Whatever the environment holds, no limit that is read from it is zero, the
/// window is at least a second, and every key or address that has a limit or is
/// trusted is not blank and has no white space round it.
pub proof fn law_configured_limits_are_positive(
    config: RateLimitConfig,
    vars: Map<Seq<char>, String>,
    name: Seq<char>,
)
    requires
        config::configured(config, vars),
    ensures
        config.anonymous_limit > 0,
        config.auth_limit > 0,
        config.write_anonymous_limit > 0,
        config.write_auth_limit > 0,
        config.enterprise_limit > 0,
        config.window.nanos() >= 1_000_000_000,
        config.per_api_key_limits@.contains_key(name) ==> name.len() > 0 && text::trimmed(name)
            == name && config.per_api_key_limits@[name] > 0,
        config.trusted_client_ips@.contains(name) ==> name.len() > 0 && text::trimmed(name) == name,
        config.trusted_api_keys@.contains(name) ==> name.len() > 0 && text::trimmed(name) == name,
{
    lemma_entries_are_trimmed(config::list_setting(vars, "RATE_LIMIT_TRUSTED_IPS"@), name);
    lemma_entries_are_trimmed(config::list_setting(vars, "RATE_LIMIT_TRUSTED_API_KEYS"@), name);
    lemma_key_limits_are_positive(
        text::pieces(config::list_setting(vars, "RATE_LIMIT_API_KEY_LIMITS"@), ','),
        name,
    );
}

proof fn lemma_entries_are_trimmed(raw: Seq<char>, name: Seq<char>)
    ensures
        config::listed(raw).contains(name) ==> text::trimmed(name) == name,
{
    if text::list_entries(raw).contains(name) {
        let i = text::list_entries(raw).index_of(name);
        lemma_trimmed_twice(text::pieces(raw, ',')[i]);
    }
}

/// Trimming leaves nothing to trim.
proof fn lemma_trimmed_twice(s: Seq<char>)
    ensures
        text::trimmed(text::trimmed(s)) == text::trimmed(s),
{
    let start = text::trimmed_start(s);
    lemma_trimmed_start(s);
    lemma_trimmed_end(start);
    let inner = text::trimmed_end(start);
    if inner.len() > 0 {
        assert(inner[0] == start[0]);
    }
    assert(text::trimmed_start(inner) == inner);
}

proof fn lemma_trimmed_start(s: Seq<char>)
    ensures
        text::trimmed_start(s).len() > 0 ==> !text::is_white_space(text::trimmed_start(s)[0]),
    decreases s.len(),
{
    if s.len() > 0 && text::is_white_space(s[0]) {
        lemma_trimmed_start(s.skip(1));
    }
}

proof fn lemma_trimmed_end(s: Seq<char>)
    ensures
        text::trimmed_end(s).is_prefix_of(s),
        text::trimmed_end(s).len() > 0 ==> text::trimmed_end(s)[0] == s[0]
            && !text::is_white_space(text::trimmed_end(s).last()),
        text::trimmed_end(text::trimmed_end(s)) == text::trimmed_end(s),
    decreases s.len(),
{
    if s.len() > 0 && text::is_white_space(s.last()) {
        lemma_trimmed_end(s.drop_last());
        let inner = text::trimmed_end(s);
        assert(inner =~= s.subrange(0, inner.len() as int));
    } else {
        assert(s =~= s.subrange(0, s.len() as int));
    }
}

/// A number is read from a variable exactly as the variable spells it, unless the
/// variable is not set or is told of as rejected; then the default stands.
pub proof fn law_unused_values_are_told_of(
    vars: Map<Seq<char>, String>,
    name: Seq<char>,
    max: nat,
    default: nat,
)
    ensures
        config::rejected(vars, name, max, default).len() > 0 ==> config::setting(vars, name) is Some
            && config::number_setting(vars, name, max, default) == default,
        config::setting(vars, name) matches Some(raw) ==> config::rejected(
            vars,
            name,
            max,
            default,
        ).len() > 0 || text::numeral(raw) == Some(
            config::number_setting(vars, name, max, default),
        ),
        config::setting(vars, name) is None ==> config::number_setting(vars, name, max, default)
            == default,
{
}

proof fn lemma_key_limits_are_positive(entries: Seq<Seq<char>>, name: Seq<char>)
    ensures
        config::key_limits(entries).contains_key(name) ==> name.len() > 0 && text::trimmed(name)
            == name && config::key_limits(entries)[name] > 0,
    decreases entries.len(),
{
    if entries.len() > 0 {
        if let Some((key, limit)) = text::cut(entries.last(), '=') {
            lemma_trimmed_twice(key);
        }
        lemma_key_limits_are_positive(entries.drop_last(), name);
    }
}

// ---------------------------------------------------------------------------
// Plans
// ---------------------------------------------------------------------------

/// A tier's own name, in whatever letter case, stands for that tier.
pub proof fn law_tier_names_are_recognised(tier: ApiTier, plan: Seq<char>)
    requires
        text::is_ascii_text(plan),
        text::ascii_lowercase(plan) == tier.label(),
    ensures
        tier::tier_for_plan(plan) == tier,
{
    reveal_strlit("free");
    reveal_strlit("pro");
    reveal_strlit("enterprise");
    assert("free"@.len() == 4 && "pro"@.len() == 3 && "enterprise"@.len() == 10);
}

// ---------------------------------------------------------------------------
// Trust
// ---------------------------------------------------------------------------

/// A request is trusted exactly where its sender's address is, or the API key
/// that it carries, and the address counts first.
pub proof fn law_trust_is_by_address_or_key(config: RateLimitConfig, request: RequestHead)
    ensures
        config.trust(request) == Some(BypassKind::TrustedIp)
            <==> config.trusted_client_ips@.contains(request.client_ip@),
        config.trust(request) is Some <==> {
            ||| config.trusted_client_ips@.contains(request.client_ip@)
            ||| (request::auth_token(request.headers) matches Some(token)
                && config.trusted_api_keys@.contains(request::api_key_of(token)))
        },
{
}

/// Of an API key an audit record shows at most the first eight characters: two
/// longer keys that begin alike are shown alike.
pub proof fn law_keys_are_masked(key: Seq<char>, other: Seq<char>)
    requires
        key.len() > audit::SHOWN_KEY_CHARS,
        other.len() > audit::SHOWN_KEY_CHARS,
        key.take(audit::SHOWN_KEY_CHARS as int) == other.take(audit::SHOWN_KEY_CHARS as int),
    ensures
        audit::masked(key) == audit::masked(other),
        audit::masked(key).len() == audit::SHOWN_KEY_CHARS + 1,
{
}

/// The spike window after events at those moments.
pub open spec fn after_bypasses(state: BypassSpikeState, moments: Seq<i64>) -> BypassSpikeState
    decreases moments.len(),
{
    if moments.len() == 0 {
        state
    } else {
        audit::recorded(after_bypasses(state, moments.drop_last()), moments.last())
    }
}

/// Within one window every event is counted, one by one.
pub proof fn law_bypasses_are_counted(state: BypassSpikeState, moments: Seq<i64>)
    requires
        forall|i: int|
            0 <= i < moments.len() ==> #[trigger] moments[i] - state.window_start_unix
                < audit::BYPASS_WINDOW_SECS,
        state.window_count + moments.len() <= u64::MAX,
    ensures
        after_bypasses(state, moments).window_start_unix == state.window_start_unix,
        after_bypasses(state, moments).window_count == state.window_count + moments.len(),
    decreases moments.len(),
{
    if moments.len() > 0 {
        let earlier = moments.drop_last();
        assert forall|i: int| 0 <= i < earlier.len() implies #[trigger] earlier[i]
            - state.window_start_unix < audit::BYPASS_WINDOW_SECS by {
            assert(earlier[i] == moments[i]);
        }
        law_bypasses_are_counted(state, earlier);
        assert(moments.last() == moments[moments.len() - 1]);
    }
}

/// Once the window has expired, the count starts again from one.
pub proof fn law_spike_window_restarts(state: BypassSpikeState, now: i64)
    requires
        now - state.window_start_unix >= audit::BYPASS_WINDOW_SECS,
    ensures
        audit::recorded(state, now) == (BypassSpikeState {
            window_start_unix: now,
            window_count: 1,
        }),
{
}

/// Within one window an event finds the count above the threshold exactly where
/// the events before it, and those that the window began with, have reached the
/// threshold: no alert is fired for fewer events, and one for every event beyond.
pub proof fn law_alerts_begin_beyond_the_threshold(
    state: BypassSpikeState,
    moments: Seq<i64>,
    n: int,
)
    requires
        forall|i: int|
            0 <= i < moments.len() ==> #[trigger] moments[i] - state.window_start_unix
                < audit::BYPASS_WINDOW_SECS,
        state.window_count + moments.len() <= u64::MAX,
        0 <= n <= moments.len(),
    ensures
        after_bypasses(state, moments.take(n)).window_count > audit::BYPASS_SPIKE_THRESHOLD <==> n
            + state.window_count > audit::BYPASS_SPIKE_THRESHOLD,
{
    let first = moments.take(n);
    assert forall|i: int| 0 <= i < first.len() implies #[trigger] first[i]
        - state.window_start_unix < audit::BYPASS_WINDOW_SECS by {
        assert(first[i] == moments[i]);
    }
    law_bypasses_are_counted(state, first);
}

// ---------------------------------------------------------------------------
// Texts
// ---------------------------------------------------------------------------

/// A number written in decimal reads back as that number.
pub proof fn law_numbers_read_back(n: nat)
    ensures
        text::numeral(text::decimal_text(n)) == Some(n),
{
    lemma_decimal_digits(n);
    let s = text::decimal_text(n);
    assert(text::is_digit(s[0]));
    assert(text::unsigned(s) == s);
}

proof fn lemma_decimal_digits(n: nat)
    ensures
        text::decimal_text(n).len() > 0,
        text::all_digits(text::decimal_text(n)),
        text::digits_value(text::decimal_text(n)) == n,
    decreases n,
{
    let s = text::decimal_text(n);
    if n < 10 {
        assert(s.drop_last() =~= Seq::<char>::empty());
        assert(text::digits_value(s.drop_last()) == 0);
    } else {
        lemma_decimal_digits(n / 10);
        assert(s.drop_last() =~= text::decimal_text(n / 10));
    }
}

proof fn lemma_visible_text_reads_back(s: Seq<char>)
    requires
        response::is_visible_text(s),
    ensures
        request::visible_text(response::ascii_bytes(s)) == Some(s),
{
    let bytes = response::ascii_bytes(s);
    assert forall|i: int| 0 <= i < bytes.len() implies request::is_visible(
        #[trigger] bytes[i],
    ) by {
        assert(' ' <= s[i] <= '~');
    }
    assert(bytes.map_values(|byte: u8| byte as char) =~= s) by {
        assert forall|i: int| 0 <= i < s.len() implies bytes[i] as char == s[i] by {
            assert(' ' <= s[i] <= '~');
        }
    }
}

/// A client reads in the headers of a refusal what was decided: the limit, what
/// remains of it, when it resets, its tier, and how long to wait.
pub proof fn law_refusal_headers_read_back(
    values: Map<Seq<char>, Seq<Seq<u8>>>,
    decision: RateLimitDecision,
    tier: ApiTier,
)
    ensures
        ({
            let sent = response::with_retry_header(
                response::with_tier_header(
                    response::with_limit_headers(values, decision),
                    tier,
                ),
                decision,
            );
            &&& request::text_under(sent, "x-ratelimit-limit"@) == Some(
                text::decimal_text(decision.limit as nat),
            )
            &&& request::text_under(sent, "x-ratelimit-remaining"@) == Some(
                text::decimal_text(decision.remaining as nat),
            )
            &&& request::text_under(sent, "x-ratelimit-reset"@) == Some(
                text::decimal_text(decision.reset_seconds as nat),
            )
            &&& request::text_under(sent, "x-ratelimit-tier"@) == Some(tier.label())
            &&& request::text_under(sent, "retry-after"@) == Some(
                text::decimal_text(decision.reset_seconds as nat),
            )
        }),
{
    reveal_strlit("free");
    reveal_strlit("pro");
    reveal_strlit("enterprise");
    response::lemma_names_differ();
    response::lemma_decimal_is_visible(decision.limit as nat);
    response::lemma_decimal_is_visible(decision.remaining as nat);
    response::lemma_decimal_is_visible(decision.reset_seconds as nat);
    lemma_visible_text_reads_back(text::decimal_text(decision.limit as nat));
    lemma_visible_text_reads_back(text::decimal_text(decision.remaining as nat));
    lemma_visible_text_reads_back(text::decimal_text(decision.reset_seconds as nat));
    lemma_visible_text_reads_back(tier.label());
}

/// The pieces of a text, joined again, make up the text.
pub proof fn law_pieces_join_to_the_whole(s: Seq<char>, sep: char)
    ensures
        text::joined(text::pieces(s, sep), sep) == s,
        text::pieces(s, sep).len() > 0,
    decreases s.len(),
{
    let parts = text::pieces(s, sep);
    if s.len() == 0 {
        assert(text::joined(parts, sep) =~= s);
    } else {
        let front = text::pieces(s.drop_last(), sep);
        law_pieces_join_to_the_whole(s.drop_last(), sep);
        if s.last() == sep {
            assert(parts.drop_last() =~= front);
            assert(text::joined(parts, sep) =~= s);
        } else {
            assert(parts.drop_last() =~= front.drop_last());
            assert(parts.last() == front.last().push(s.last()));
            if front.len() == 1 {
                assert(text::joined(parts, sep) =~= s);
            } else {
                assert(text::joined(parts, sep) =~= text::joined(front, sep).push(s.last()));
                assert(text::joined(parts, sep) =~= s);
            }
        }
    }
}

} // verus!
