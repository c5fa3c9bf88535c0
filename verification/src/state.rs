//! The limiter: which quota a request falls under, what is decided on it, and
//! what a client has left.

use vstd::prelude::*;
use vstd::string::*;

use crate::audit;
use crate::audit::{BypassAudit, BypassSpikeState};
use crate::bucket;
use crate::bucket::{BucketView, RateLimitDecision};
use crate::clock;
use crate::clock::Moment;
use crate::config;
use crate::config::RateLimitConfig;
use crate::lookup::TextMap;
use crate::request;
use crate::request::RequestHead;
use crate::response::Refusal;
use crate::routes;
use crate::routes::RequestClass;
use crate::table;
use crate::table::BucketTable;
use crate::tier::{ApiTier, BypassKind};
use crate::wall_clock;

verus! {

/// The limit on reading the ABI of one contract from one address, per minute.
pub const ABI_ENDPOINT_LIMIT_PER_MINUTE: u32 = 1_000;

/// The limit on reading the ABI of one contract from one address over the configured
/// window: sixty times that per minute.
pub const ABI_ENDPOINT_LIMIT_PER_WINDOW: u32 = 60_000;

// ---------------------------------------------------------------------------
// Quotas
// ---------------------------------------------------------------------------

/// The quota that a request falls under: how many requests the window and the
/// burst window admit, the bucket that it is counted in, what it is counted as,
/// and the tier that the client is on.
pub struct Quota {
    pub hourly_limit: u32,
    pub burst_limit: u32,
    pub client_key: Seq<char>,
    pub class: RequestClass,
    pub tier: ApiTier,
}

/// The bucket of one contract's ABI and one address.
pub open spec fn abi_key(path: Seq<char>, ip: Seq<char>) -> Seq<char> {
    "abi:"@ + path + ":"@ + ip
}

/// The bucket of a credential, for reads or for writes.
pub open spec fn auth_key(class: RequestClass, token: Seq<char>) -> Seq<char> {
    match class {
        RequestClass::Read => "auth:read:"@ + token,
        RequestClass::Write => "auth:write:"@ + token,
    }
}

/// The bucket of an address without credential, for reads or for writes.
pub open spec fn anon_key(class: RequestClass, ip: Seq<char>) -> Seq<char> {
    match class {
        RequestClass::Read => "anon:read:"@ + ip,
        RequestClass::Write => "anon:write:"@ + ip,
    }
}

/// The limit of a credential: the one set for its key, else that of the tier; for
/// writes no more than the write limit.
pub open spec fn auth_limit(
    config: RateLimitConfig,
    class: RequestClass,
    token: Seq<char>,
    tier: ApiTier,
) -> u32 {
    let hourly = match config.key_limit(token) {
        Some(limit) => limit,
        None => config.tier_limit(tier),
    };
    match class {
        RequestClass::Read => hourly,
        RequestClass::Write => if config.write_auth_limit <= hourly {
            config.write_auth_limit
        } else {
            hourly
        },
    }
}

/// The limit of an address without credential: the write limit, or the read
/// limit, which for the contract listing is scaled by the page size.
pub open spec fn anon_limit(config: RateLimitConfig, request: RequestHead) -> u32 {
    match routes::class_of(request.method@) {
        RequestClass::Write => config.write_anonymous_limit,
        RequestClass::Read => match routes::listing_page_size(
            request.method@,
            request.path@,
            crate::text::text_of(request.query),
        ) {
            Some(size) => routes::scaled_limit(config.anonymous_limit, size) as u32,
            None => config.anonymous_limit,
        },
    }
}

/// The quota that a request falls under: that of a contract's ABI where it reads
/// one, else that of its credential where it carries one, else that of its
/// sender's address.
pub open spec fn quota_for(config: RateLimitConfig, request: RequestHead) -> Quota {
    let class = routes::class_of(request.method@);
    let tier = request::requested_tier(request.headers);
    if routes::reads_contract_abi(request.method@, request.path@) {
        Quota {
            hourly_limit: ABI_ENDPOINT_LIMIT_PER_WINDOW,
            burst_limit: ABI_ENDPOINT_LIMIT_PER_MINUTE,
            client_key: abi_key(request.path@, request.client_ip@),
            class,
            tier,
        }
    } else {
        match request::auth_token(request.headers) {
            Some(token) => Quota {
                hourly_limit: auth_limit(config, class, token, tier),
                burst_limit: config::burst_allowance(auth_limit(config, class, token, tier)),
                client_key: auth_key(class, token),
                class,
                tier,
            },
            None => Quota {
                hourly_limit: anon_limit(config, request),
                burst_limit: config::burst_allowance(anon_limit(config, request)),
                client_key: anon_key(class, request.client_ip@),
                class,
                tier,
            },
        }
    }
}

/// Names a bucket, and tells what is counted in it.
pub struct BucketKey {
    pub client_key: String,
    pub class: RequestClass,
}

fn keyed(prefix: &str, rest: &str, class: RequestClass) -> (key: BucketKey)
    ensures
        key.client_key@ == prefix@ + rest@,
        key.class == class,
{
    let mut client_key = prefix.to_owned();
    client_key.append(rest);
    BucketKey { client_key, class }
}

// ---------------------------------------------------------------------------
// Snapshots and admissions
// ---------------------------------------------------------------------------

/// Snapshot of quota usage for a client key.
#[derive(Debug, Clone)]
pub struct QuotaSnapshot {
    pub tier: String,
    pub hourly_limit: u32,
    pub hourly_used: usize,
    pub hourly_remaining: usize,
    pub burst_limit: u32,
    pub burst_used: usize,
    pub burst_remaining: usize,
}

/// What is left of a limit; nothing where more than that was used.
pub open spec fn left_of(limit: u32, used: nat) -> nat {
    if used <= limit {
        (limit - used) as nat
    } else {
        0
    }
}

fn remaining_of(limit: u32, used: usize) -> (left: usize)
    ensures
        left == left_of(limit, used as nat),
{
    if used <= limit as usize {
        limit as usize - used
    } else {
        0
    }
}

/// What is to be done with a request.
pub enum Admission {
    /// It is passed on as that of a trusted client, and audited.
    Bypass(BypassAudit),
    /// It is passed on without being counted.
    Exempt,
    /// It is passed on, and its response gets the headers of the decision.
    Admitted { decision: RateLimitDecision, tier: ApiTier },
    /// It is refused.
    Refused { decision: RateLimitDecision, tier: ApiTier, refusal: Refusal },
}

// ---------------------------------------------------------------------------
// The limiter
// ---------------------------------------------------------------------------

/// The limiter's configuration, the buckets of its clients, and the window over
/// bypass events.
pub struct RateLimitState {
    pub config: RateLimitConfig,
    pub buckets: BucketTable,
    pub bypass_spike: BypassSpikeState,
}

/// What is decided on a request of that class under that key.
pub open spec fn decided(
    state: RateLimitState,
    client_key: Seq<char>,
    class: RequestClass,
    hourly_limit: u32,
    burst_limit: u32,
    now: Moment,
) -> RateLimitDecision {
    bucket::decision(
        table::bucket_under(state.buckets@, client_key),
        now,
        state.config.windows_for(class),
        hourly_limit,
        burst_limit,
    )
}

/// The buckets after a request of that class under that key.
pub open spec fn buckets_after(
    state: RateLimitState,
    client_key: Seq<char>,
    class: RequestClass,
    hourly_limit: u32,
    burst_limit: u32,
    now: Moment,
) -> Map<Seq<char>, BucketView> {
    state.buckets@.insert(
        client_key,
        bucket::after_check(
            table::bucket_under(state.buckets@, client_key),
            now,
            state.config.windows_for(class),
            hourly_limit,
            burst_limit,
        ),
    )
}

impl RateLimitState {
    pub open spec fn wf(self) -> bool {
        self.config.wf() && self.buckets.wf()
    }

    /// A limiter configured from the environment variables.
    pub fn from_env(vars: &TextMap<String>) -> (state: RateLimitState)
        ensures
            state.wf(),
            config::configured(state.config, vars@),
            state.buckets@ == Map::<Seq<char>, BucketView>::empty(),
            0 <= state.bypass_spike.window_start_unix <= wall_clock::LAST_SECOND,
            state.bypass_spike.window_count == 0,
    {
        RateLimitState::new(RateLimitConfig::from_env(vars))
    }

    /// A limiter that has seen no request yet.
    pub fn new(config: RateLimitConfig) -> (state: RateLimitState)
        requires
            config.wf(),
        ensures
            state.wf(),
            state.config == config,
            state.buckets@ == Map::<Seq<char>, BucketView>::empty(),
            0 <= state.bypass_spike.window_start_unix <= wall_clock::LAST_SECOND,
            state.bypass_spike.window_count == 0,
    {
        RateLimitState {
            config,
            buckets: BucketTable::new(),
            bypass_spike: BypassSpikeState::new(),
        }
    }

    /// Takes out the buckets that have seen no traffic within the last two of
    /// their windows, and tells how many there were.
    pub fn evict_expired(&mut self, now: Moment) -> (evicted: usize)
        requires
            old(self).wf(),
        ensures
            final(self).wf(),
            final(self).config == old(self).config,
            final(self).bypass_spike == old(self).bypass_spike,
            final(self).buckets@ == table::active_buckets(old(self).buckets@, now),
            evicted == old(self).buckets@.dom().len() - final(self).buckets@.dom().len(),
    {
        self.buckets.evict(now)
    }

    /// Decides on a request at `now` under that key and those limits.
    pub fn check_request(
        &mut self,
        key: BucketKey,
        hourly_limit: u32,
        burst_limit: u32,
        now: Moment,
    ) -> (made: RateLimitDecision)
        requires
            old(self).wf(),
        ensures
            final(self).wf(),
            final(self).config == old(self).config,
            final(self).bypass_spike == old(self).bypass_spike,
            made == decided(
                *old(self),
                key.client_key@,
                key.class,
                hourly_limit,
                burst_limit,
                now,
            ),
            final(self).buckets@ == buckets_after(
                *old(self),
                key.client_key@,
                key.class,
                hourly_limit,
                burst_limit,
                now,
            ),
    {
        let window = self.config.window_for(key.class);
        let burst_window = self.config.burst_window;
        assert(bucket::windows_of(window, burst_window) == self.config.windows_for(key.class));
        self.buckets.check(
            key.client_key,
            now,
            window,
            burst_window,
            hourly_limit,
            burst_limit,
        )
    }

    /// Returns the quota snapshot for a client key at `now` without consuming a
    /// token.
    ///
    /// The burst figures are told of the tier's burst limit, 120 % of its share of
    /// a minute. They are not what is enforced: a client may spend its whole quota
    /// at once, and the burst window holds it to no less than that.
    pub fn quota_snapshot(&self, client_key: &str, tier: &ApiTier, now: Moment) -> (snapshot:
        QuotaSnapshot)
        requires
            self.wf(),
        ensures
            snapshot.tier@ == tier.label(),
            snapshot.hourly_limit == self.config.tier_limit(*tier),
            snapshot.hourly_used == bucket::count_after(
                table::bucket_under(self.buckets@, client_key@).hits,
                clock::cutoff(
                    now.nanos as int,
                    table::bucket_under(self.buckets@, client_key@).window,
                ),
            ),
            snapshot.hourly_remaining == left_of(
                snapshot.hourly_limit,
                snapshot.hourly_used as nat,
            ),
            snapshot.burst_limit == config::burst_limit(self.config.tier_limit(*tier)),
            snapshot.burst_used == bucket::count_after(
                table::bucket_under(self.buckets@, client_key@).burst_hits,
                clock::cutoff(now.nanos as int, self.config.burst_window.nanos()),
            ),
            snapshot.burst_remaining == left_of(snapshot.burst_limit, snapshot.burst_used as nat),
    {
        let hourly_limit: u32 = self.config.hourly_limit_for_tier(tier);
        let burst_limit: u32 = self.config.burst_limit_for_tier(tier);
        let mut hourly_used: usize = 0;
        let mut burst_used: usize = 0;
        if let Some(bucket) = self.buckets.get(client_key) {
            hourly_used = bucket.hourly_used(now);
            burst_used = bucket.burst_used(now, self.config.burst_window);
        }
        QuotaSnapshot {
            tier: tier.as_str().to_owned(),
            hourly_limit,
            hourly_used,
            hourly_remaining: remaining_of(hourly_limit, hourly_used),
            burst_limit,
            burst_used,
            burst_remaining: remaining_of(burst_limit, burst_used),
        }
    }

    /// Records a trusted-client bypass event, and returns what is to be told of
    /// it: the audit log entry, the counter and the gauge, and, where the count
    /// of the current minute exceeds the threshold, a critical alert.
    pub fn audit_bypass(&mut self, request: &RequestHead, kind: BypassKind) -> (audit: BypassAudit)
        requires
            old(self).wf(),
        ensures
            final(self).wf(),
            final(self).config == old(self).config,
            final(self).buckets@ == old(self).buckets@,
            bypass_audited(*old(self), *final(self), *request, kind, audit),
    {
        let timestamp = wall_clock::timestamp_now();
        let count: u64 = self.bypass_spike.record_and_count();
        let mut audit = audit::describe_bypass(request, kind, timestamp, count);
        audit.alert = audit::alert_for_count(count);
        audit
    }

    /// Derives the limits, the bucket key and the API tier from a request.
    ///
    /// The tier is that of the plan header, and free where there is none. Writes
    /// get a separate, stricter bucket.
    pub fn select_limit_and_key(&self, request: &RequestHead) -> (selected: (
        u32,
        u32,
        BucketKey,
        ApiTier,
    ))
        ensures
            selected.0 == quota_for(self.config, *request).hourly_limit,
            selected.1 == quota_for(self.config, *request).burst_limit,
            selected.2.client_key@ == quota_for(self.config, *request).client_key,
            selected.2.class == quota_for(self.config, *request).class,
            selected.3 == quota_for(self.config, *request).tier,
    {
        let tier = request::extract_api_tier(&request.headers);
        let method = request.method.as_str();
        let path = request.path.as_str();
        let class = RequestClass::of_method(method);

        if routes::is_contract_abi_endpoint(method, path) {
            let mut client_key = "abi:".to_owned();
            client_key.append(path);
            client_key.append(":");
            client_key.append(request.client_ip.as_str());
            return (
                ABI_ENDPOINT_LIMIT_PER_WINDOW,
                ABI_ENDPOINT_LIMIT_PER_MINUTE,
                BucketKey { client_key, class },
                tier,
            );
        }
        if let Some(token) = request::extract_auth_token(&request.headers) {
            let hourly: u32 = match self.config.per_api_key_limit(token.as_str()) {
                Some(limit) => limit,
                None => self.config.hourly_limit_for_tier(&tier),
            };
            let (limit, key): (u32, BucketKey) = match class {
                RequestClass::Read => (hourly, keyed("auth:read:", token.as_str(), class)),
                RequestClass::Write => (
                    if self.config.write_auth_limit <= hourly {
                        self.config.write_auth_limit
                    } else {
                        hourly
                    },
                    keyed("auth:write:", token.as_str(), class),
                ),
            };
            return (limit, self.config.burst_allowance_for_limit(limit), key, tier);
        }
        let ip = request.client_ip.as_str();
        let (limit, key): (u32, BucketKey) = match class {
            RequestClass::Write => (
                self.config.write_anonymous_limit,
                keyed("anon:write:", ip, class),
            ),
            RequestClass::Read => (
                match routes::contracts_page_size_rate_limit(method, path, &request.query) {
                    Some(size) => routes::scale_limit_by_page_size(
                        self.config.anonymous_limit,
                        size,
                    ),
                    None => self.config.anonymous_limit,
                },
                keyed("anon:read:", ip, class),
            ),
        };
        (limit, self.config.burst_allowance_for_limit(limit), key, tier)
    }
}

/// A bypass event was recorded and the audit record tells of it: under the
/// present time, with the running count, and with an alert exactly where the
/// count exceeds the threshold.
pub open spec fn bypass_audited(
    before: RateLimitState,
    after: RateLimitState,
    request: RequestHead,
    kind: BypassKind,
    audit: BypassAudit,
) -> bool {
    &&& exists|now: i64|
        0 <= now <= wall_clock::LAST_SECOND && after.bypass_spike == #[trigger] audit::recorded(
            before.bypass_spike,
            now,
        )
    &&& audit.describes(request, kind, audit.timestamp@, after.bypass_spike.window_count)
    &&& exists|millis: i64|
        0 <= millis <= wall_clock::LAST_MILLISECOND && audit.timestamp@
            == #[trigger] wall_clock::rfc3339_text(millis)
    &&& match audit.alert {
        Some(alert) => audit.count > audit::BYPASS_SPIKE_THRESHOLD && audit::is_random_uuid(
            alert.id@,
        ) && alert.timestamp.valid() && alert.reports_spike(
            audit.count,
            alert.id@,
            alert.timestamp,
        ),
        None => audit.count <= audit::BYPASS_SPIKE_THRESHOLD,
    }
}

/// What is done with a request of a client that is not trusted, on a path that is
/// not exempt: it is counted, and granted or refused.
pub open spec fn limited(
    before: RateLimitState,
    after: RateLimitState,
    request: RequestHead,
    now: Moment,
    admission: Admission,
) -> bool {
    let quota = quota_for(before.config, request);
    let made = decided(
        before,
        quota.client_key,
        quota.class,
        quota.hourly_limit,
        quota.burst_limit,
        now,
    );
    &&& after.buckets@ == buckets_after(
        before,
        quota.client_key,
        quota.class,
        quota.hourly_limit,
        quota.burst_limit,
        now,
    )
    &&& match admission {
        Admission::Admitted { decision, tier } => made.allowed && decision == made && tier
            == quota.tier,
        Admission::Refused { decision, tier, refusal } => !made.allowed && decision == made && tier
            == quota.tier && refusal.tells(quota.class, made),
        _ => false,
    }
}

/// Decides what is to be done with a request at `now`. One of a trusted client
/// is audited and passed on, one on an exempt path is passed on, and any other is
/// counted under its quota.
pub fn rate_limit_middleware(
    rate_limiter: &mut RateLimitState,
    request: &RequestHead,
    now: Moment,
) -> (admission: Admission)
    requires
        old(rate_limiter).wf(),
    ensures
        final(rate_limiter).wf(),
        final(rate_limiter).config == old(rate_limiter).config,
        match old(rate_limiter).config.trust(*request) {
            Some(kind) => {
                &&& final(rate_limiter).buckets@ == old(rate_limiter).buckets@
                &&& admission matches Admission::Bypass(audit) && bypass_audited(
                    *old(rate_limiter),
                    *final(rate_limiter),
                    *request,
                    kind,
                    audit,
                )
            },
            None => {
                &&& final(rate_limiter).bypass_spike == old(rate_limiter).bypass_spike
                &&& if routes::exempt(request.path@) {
                    admission is Exempt && final(rate_limiter).buckets@ == old(
                        rate_limiter,
                    ).buckets@
                } else {
                    limited(*old(rate_limiter), *final(rate_limiter), *request, now, admission)
                }
            },
        },
{
    if let Some(kind) = rate_limiter.config.bypass_kind(request) {
        return Admission::Bypass(rate_limiter.audit_bypass(request, kind));
    }
    if routes::is_exempt_path(request.path.as_str()) {
        return Admission::Exempt;
    }
    let (hourly_limit, burst_limit, key, tier) = rate_limiter.select_limit_and_key(request);
    let class = key.class;
    let decision = rate_limiter.check_request(key, hourly_limit, burst_limit, now);
    if decision.allowed {
        Admission::Admitted { decision, tier }
    } else {
        Admission::Refused { decision, tier, refusal: Refusal::new(class, &decision) }
    }
}

} // verus!
