//! The audit of trusted clients: what is told of each request that bypasses the
//! limiter, and the alert when there are too many of them.

use uuid::Uuid;
use vstd::prelude::*;
use vstd::string::*;

use crate::request;
use crate::request::RequestHead;
use crate::text;
use crate::tier::BypassKind;
use crate::wall_clock;
use crate::wall_clock::Timestamp;

verus! {

/// How many bypass events a minute may hold before a spike alert is fired.
pub const BYPASS_SPIKE_THRESHOLD: u64 = 100;

/// How long a bypass-spike window lasts, in seconds.
pub const BYPASS_WINDOW_SECS: u64 = 60;

/// How many characters of an API key an audit record shows.
pub const SHOWN_KEY_CHARS: usize = 8;

// ---------------------------------------------------------------------------
// The spike window
// ---------------------------------------------------------------------------

/// The rolling window over bypass events: when it started, in seconds since the
/// start of 1970, and how many events were recorded in it.
#[derive(Debug, Clone, Copy, PartialEq, Eq, Structural)]
pub struct BypassSpikeState {
    pub window_start_unix: i64,
    pub window_count: u64,
}

/// The window after an event at `now`: a fresh one where the old one has expired,
/// else the old one with one event more. The counter wraps round at its end.
pub open spec fn recorded(state: BypassSpikeState, now: i64) -> BypassSpikeState {
    if now - state.window_start_unix >= BYPASS_WINDOW_SECS {
        BypassSpikeState { window_start_unix: now, window_count: 1 }
    } else {
        BypassSpikeState {
            window_start_unix: state.window_start_unix,
            window_count: if state.window_count < u64::MAX {
                (state.window_count + 1) as u64
            } else {
                0
            },
        }
    }
}

impl BypassSpikeState {
    /// A window that starts at `now` and holds no event.
    pub fn starting_at(now: i64) -> (state: BypassSpikeState)
        ensures
            state.window_start_unix == now,
            state.window_count == 0,
    {
        BypassSpikeState { window_start_unix: now, window_count: 0 }
    }

    /// A window that starts at the clock's moment and holds no event.
    pub fn new() -> (state: BypassSpikeState)
        ensures
            0 <= state.window_start_unix <= wall_clock::LAST_SECOND,
            state.window_count == 0,
    {
        BypassSpikeState::starting_at(wall_clock::utc_seconds_now())
    }

    /// Records one bypass event at `now`, and returns the running count within
    /// the current window.
    pub fn record_and_count_at(&mut self, now: i64) -> (count: u64)
        ensures
            *final(self) == recorded(*old(self), now),
            count == final(self).window_count,
    {
        if now as i128 - self.window_start_unix as i128 >= BYPASS_WINDOW_SECS as i128 {
            self.window_start_unix = now;
            self.window_count = 1;
        } else if self.window_count < u64::MAX {
            self.window_count = self.window_count + 1;
        } else {
            self.window_count = 0;
        }
        self.window_count
    }

    /// Records one bypass event and returns the running count within the current
    /// 1-minute window. Starts a fresh window when the old one has expired.
    pub fn record_and_count(&mut self) -> (count: u64)
        ensures
            exists|now: i64|
                0 <= now <= wall_clock::LAST_SECOND && *final(self) == #[trigger] recorded(
                    *old(self),
                    now,
                ),
            count == final(self).window_count,
    {
        let now: i64 = wall_clock::utc_seconds_now();
        self.record_and_count_at(now)
    }
}

// ---------------------------------------------------------------------------
// The audit record
// ---------------------------------------------------------------------------

/// An API key as an audit record shows it: its first characters and an ellipsis
/// where it is longer.
pub open spec fn masked(key: Seq<char>) -> Seq<char> {
    if key.len() > SHOWN_KEY_CHARS {
        key.take(SHOWN_KEY_CHARS as int).push('…')
    } else {
        key
    }
}

/// Who sent a request, as an audit record shows it: the address, or the masked
/// API key.
pub open spec fn identity_of(request: RequestHead, kind: BypassKind) -> Seq<char> {
    match kind {
        BypassKind::TrustedIp => request.client_ip@,
        BypassKind::TrustedApiKey => match request::auth_token(request.headers) {
            Some(token) => masked(request::api_key_of(token)),
            None => "<unknown>"@,
        },
    }
}

fn mask(key: &str) -> (shown: String)
    ensures
        shown@ == masked(key@),
{
    if key.unicode_len() > SHOWN_KEY_CHARS {
        let mut shown = key.substring_char(0, SHOWN_KEY_CHARS).to_owned();
        assert(shown@ =~= key@.take(SHOWN_KEY_CHARS as int));
        shown.push('…');
        shown
    } else {
        key.to_owned()
    }
}

/// Who sent a request, as an audit record shows it.
pub fn client_identity(request: &RequestHead, kind: BypassKind) -> (identity: String)
    ensures
        identity@ == identity_of(*request, kind),
{
    match kind {
        BypassKind::TrustedIp => request.client_ip.clone(),
        BypassKind::TrustedApiKey => match request::extract_auth_token(&request.headers) {
            Some(token) => mask(request::normalize_token(token.as_str())),
            None => "<unknown>".to_owned(),
        },
    }
}

#[derive(Debug, Clone, Copy, PartialEq, Eq, Structural)]
pub enum AlertSeverity {
    Critical,
}

/// An alert to be dispatched.
pub struct Alert {
    pub id: String,
    pub source: String,
    pub message: String,
    pub severity: AlertSeverity,
    pub timestamp: Timestamp,
}

/// What is told of a request that bypassed the limiter: the fields of the audit
/// log entry, the label of the lifetime counter to raise by one, the value of
/// the per-minute gauge, and the alert to dispatch where the count calls for one.
pub struct BypassAudit {
    pub event: &'static str,
    pub identity_type: &'static str,
    pub client_identity: String,
    pub client_ip: String,
    pub path: String,
    pub method: String,
    pub timestamp: String,
    pub count: u64,
    pub alert: Option<Alert>,
}

impl BypassAudit {
    /// The record tells of that request what is to be told, under that time and
    /// that count.
    pub open spec fn describes(
        self,
        request: RequestHead,
        kind: BypassKind,
        timestamp: Seq<char>,
        count: u64,
    ) -> bool {
        &&& self.event@ == "trusted_bypass"@
        &&& self.identity_type@ == kind.identity_type()
        &&& self.client_identity@ == identity_of(request, kind)
        &&& self.client_ip@ == request.client_ip@
        &&& self.path@ == request.path@
        &&& self.method@ == request.method@
        &&& self.timestamp@ == timestamp
        &&& self.count == count
    }
}

/// What is told of a request that bypassed the limiter, apart from an alert.
pub fn describe_bypass(
    request: &RequestHead,
    kind: BypassKind,
    timestamp: String,
    count: u64,
) -> (audit: BypassAudit)
    ensures
        audit.describes(*request, kind, timestamp@, count),
        audit.alert is None,
{
    BypassAudit {
        event: "trusted_bypass",
        identity_type: kind.as_identity_type(),
        client_identity: client_identity(request, kind),
        client_ip: request.client_ip.clone(),
        path: request.path.clone(),
        method: request.method.clone(),
        timestamp,
        count,
        alert: None,
    }
}

/// The text of a spike alert.
pub open spec fn spike_message(count: u64) -> Seq<char> {
    "Trusted-client bypass spike: "@ + text::decimal_text(count as nat)
        + " bypasses in the last 60 seconds (threshold: "@ + text::decimal_text(
        BYPASS_SPIKE_THRESHOLD as nat,
    )
        + "). Review RATE_LIMIT_TRUSTED_IPS / RATE_LIMIT_TRUSTED_API_KEYS for leaked or abused tokens."@
}

impl Alert {
    /// The alert that there were `count` bypass events within a minute.
    pub open spec fn reports_spike(self, count: u64, id: Seq<char>, timestamp: Timestamp) -> bool {
        &&& self.id@ == id
        &&& self.source@ == "rate_limit_bypass"@
        &&& self.message@ == spike_message(count)
        &&& self.severity == AlertSeverity::Critical
        &&& self.timestamp == timestamp
    }
}

/// The alert that there were `count` bypass events within a minute.
pub fn spike_alert(count: u64, id: String, timestamp: Timestamp) -> (alert: Alert)
    ensures
        alert.reports_spike(count, id@, timestamp),
{
    let mut message = "Trusted-client bypass spike: ".to_owned();
    message.append(text::decimal(count).as_str());
    message.append(" bypasses in the last 60 seconds (threshold: ");
    message.append(text::decimal(BYPASS_SPIKE_THRESHOLD).as_str());
    message.append(
        "). Review RATE_LIMIT_TRUSTED_IPS / RATE_LIMIT_TRUSTED_API_KEYS for leaked or abused tokens.",
    );
    Alert {
        id,
        source: "rate_limit_bypass".to_owned(),
        message,
        severity: AlertSeverity::Critical,
        timestamp,
    }
}

/// A hexadecimal digit, in lower case.
pub open spec fn is_hex(c: char) -> bool {
    '0' <= c <= '9' || 'a' <= c <= 'f'
}

/// A random UUID: five groups of hexadecimal digits with hyphens between them,
/// and the digits that mark its version and its variant.
pub open spec fn is_random_uuid(s: Seq<char>) -> bool {
    &&& s.len() == 36
    &&& forall|i: int|
        0 <= i < 36 ==> if i == 8 || i == 13 || i == 18 || i == 23 {
            #[trigger] s[i] == '-'
        } else {
            is_hex(s[i])
        }
    &&& s[14] == '4'
    &&& s[19] == '8' || s[19] == '9' || s[19] == 'a' || s[19] == 'b'
}

/// Calls `uuid::Uuid::new_v4` and writes the result out. It has the form of a
/// random UUID; which one it is rests on chance. On a machine that has no random
/// bytes to give the call panics.
#[verifier::external_body]
fn new_alert_id() -> (id: String)
    ensures
        is_random_uuid(id@),
{
    Uuid::new_v4().to_string()
}

/// The alert that `count` bypass events call for: one under a fresh id exactly
/// where the count exceeds the threshold.
pub fn alert_for_count(count: u64) -> (alert: Option<Alert>)
    ensures
        match alert {
            Some(a) => count > BYPASS_SPIKE_THRESHOLD && is_random_uuid(a.id@)
                && a.timestamp.valid() && a.reports_spike(count, a.id@, a.timestamp),
            None => count <= BYPASS_SPIKE_THRESHOLD,
        },
{
    if count > BYPASS_SPIKE_THRESHOLD {
        Some(spike_alert(count, new_alert_id(), wall_clock::utc_now()))
    } else {
        None
    }
}

} // verus!
