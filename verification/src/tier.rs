//! Plans, and the ways in which a trusted client bypasses the limiter.

use vstd::prelude::*;
use vstd::string::*;

use crate::text;

verus! {

/// API tier that determines quota limits.
#[derive(Debug, Clone, Copy, PartialEq, Eq, Structural)]
pub enum ApiTier {
    Free,
    Pro,
    /// The limit of this tier comes from the environment at startup.
    Enterprise,
}

/// The tier that a plan name in lower case stands for; free where it stands for
/// no other.
pub open spec fn tier_of(lowered: Seq<char>) -> ApiTier {
    if lowered == "pro"@ {
        ApiTier::Pro
    } else if lowered == "enterprise"@ {
        ApiTier::Enterprise
    } else {
        ApiTier::Free
    }
}

/// The tier that a plan name stands for, whatever its letter case.
pub open spec fn tier_for_plan(plan: Seq<char>) -> ApiTier {
    if text::is_ascii_text(plan) {
        tier_of(text::ascii_lowercase(plan))
    } else {
        tier_of(text::unicode_lowercase(plan))
    }
}

impl ApiTier {
    /// The tier's name.
    pub open spec fn label(self) -> Seq<char> {
        match self {
            ApiTier::Free => "free"@,
            ApiTier::Pro => "pro"@,
            ApiTier::Enterprise => "enterprise"@,
        }
    }

    pub fn as_str(&self) -> (name: &'static str)
        ensures
            name@ == self.label(),
    {
        match self {
            ApiTier::Free => "free",
            ApiTier::Pro => "pro",
            ApiTier::Enterprise => "enterprise",
        }
    }

    /// The tier that a plan name in lower case stands for.
    pub fn from_lowercase(lowered: &str) -> (tier: ApiTier)
        ensures
            tier == tier_of(lowered@),
    {
        if text::same_text(lowered, "pro") {
            ApiTier::Pro
        } else if text::same_text(lowered, "enterprise") {
            ApiTier::Enterprise
        } else {
            ApiTier::Free
        }
    }

    /// The tier that the value of a plan header stands for.
    pub fn from_header(value: &str) -> (tier: ApiTier)
        ensures
            tier == tier_for_plan(value@),
            tier == tier_of(text::unicode_lowercase(value@)),
    {
        let lowered = text::to_lowercase(value);
        ApiTier::from_lowercase(lowered.as_str())
    }
}

/// Identifies which bypass mechanism was used for a single request.
#[derive(Debug, Clone, Copy, PartialEq, Eq, Structural)]
pub enum BypassKind {
    /// The client's IP address is trusted.
    TrustedIp,
    /// The client's API key is trusted.
    TrustedApiKey,
}

impl BypassKind {
    /// The name of the mechanism in logs and metrics.
    pub open spec fn identity_type(self) -> Seq<char> {
        match self {
            BypassKind::TrustedIp => "ip"@,
            BypassKind::TrustedApiKey => "api_key"@,
        }
    }

    pub fn as_identity_type(self) -> (name: &'static str)
        ensures
            name@ == self.identity_type(),
    {
        match self {
            BypassKind::TrustedIp => "ip",
            BypassKind::TrustedApiKey => "api_key",
        }
    }
}

} // verus!
