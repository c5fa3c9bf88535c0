//! What the limiter adds to a response.

use axum::http::{HeaderMap, HeaderValue};
use vstd::prelude::*;
use vstd::string::*;

use crate::bucket::RateLimitDecision;
use crate::request;
use crate::routes::RequestClass;
use crate::text;
use crate::tier::ApiTier;

verus! {

/// As long as a header map holds fewer names than this, it takes one more.
pub const ROOMY: usize = 6_000;

/// The bytes of an ASCII text.
pub open spec fn ascii_bytes(s: Seq<char>) -> Seq<u8> {
    s.map_values(|c: char| c as u8)
}

/// Whether every character may stand in a header value.
pub open spec fn is_visible_text(s: Seq<char>) -> bool {
    forall|i: int| 0 <= i < s.len() ==> ' ' <= #[trigger] s[i] <= '~'
}

/// Calls `HeaderValue::from_str`, which turns a visible ASCII text into the value
/// of the same bytes, and `HeaderMap::try_insert`, which puts it under the name in
/// place of all values that were there and leaves those under all other names. Only
/// a map that has grown to its greatest size refuses, and then it is left as it was;
/// one with few names never does.
#[verifier::external_body]
fn put(headers: &mut HeaderMap<HeaderValue>, name: &'static str, value: &str) -> (placed: bool)
    requires
        request::is_header_name(name@),
        is_visible_text(value@),
    ensures
        request::header_values(*final(headers)).dom().finite(),
        request::header_values(*final(headers)) == if placed {
            request::header_values(*old(headers)).insert(name@, seq![ascii_bytes(value@)])
        } else {
            request::header_values(*old(headers))
        },
        request::header_values(*old(headers)).dom().len() < ROOMY ==> placed,
{
    match HeaderValue::from_str(value) {
        Ok(value) => headers.try_insert(name, value).is_ok(),
        Err(_) => false,
    }
}

/// Whether a header map can take `more` names.
pub open spec fn has_room(values: Map<Seq<char>, Seq<Seq<u8>>>, more: nat) -> bool {
    values.dom().finite() && values.dom().len() + more <= ROOMY
}

/// The headers with the limit, what remains of it, and when it resets, each under
/// its one value.
pub open spec fn with_limit_headers(
    values: Map<Seq<char>, Seq<Seq<u8>>>,
    decision: RateLimitDecision,
) -> Map<Seq<char>, Seq<Seq<u8>>> {
    values.insert(
        "x-ratelimit-limit"@,
        seq![ascii_bytes(text::decimal_text(decision.limit as nat))],
    ).insert(
        "x-ratelimit-remaining"@,
        seq![ascii_bytes(text::decimal_text(decision.remaining as nat))],
    ).insert(
        "x-ratelimit-reset"@,
        seq![ascii_bytes(text::decimal_text(decision.reset_seconds as nat))],
    )
}

/// The headers with the client's tier as the one value under its name.
pub open spec fn with_tier_header(
    values: Map<Seq<char>, Seq<Seq<u8>>>,
    tier: ApiTier,
) -> Map<Seq<char>, Seq<Seq<u8>>> {
    values.insert("x-ratelimit-tier"@, seq![ascii_bytes(tier.label())])
}

/// The headers with how long to wait before the next try as the one value under its
/// name.
pub open spec fn with_retry_header(
    values: Map<Seq<char>, Seq<Seq<u8>>>,
    decision: RateLimitDecision,
) -> Map<Seq<char>, Seq<Seq<u8>>> {
    values.insert(
        "retry-after"@,
        seq![ascii_bytes(text::decimal_text(decision.reset_seconds as nat))],
    )
}

/// The header maps hold the same values under every name but those.
pub open spec fn same_but(
    before: Map<Seq<char>, Seq<Seq<u8>>>,
    after: Map<Seq<char>, Seq<Seq<u8>>>,
    names: Set<Seq<char>>,
) -> bool {
    forall|name: Seq<char>|
        #![trigger after.contains_key(name)]
        #![trigger after[name]]
        !names.contains(name) ==> agree_on(after, before, name)
}

/// The header maps hold the same values under that name, or both hold none.
pub open spec fn agree_on(
    one: Map<Seq<char>, Seq<Seq<u8>>>,
    other: Map<Seq<char>, Seq<Seq<u8>>>,
    name: Seq<char>,
) -> bool {
    &&& one.contains_key(name) <==> other.contains_key(name)
    &&& one.contains_key(name) ==> one[name] == other[name]
}

/// Under every name stands what stood there before, or what was wanted.
pub open spec fn kept_or_put(
    before: Map<Seq<char>, Seq<Seq<u8>>>,
    after: Map<Seq<char>, Seq<Seq<u8>>>,
    wanted: Map<Seq<char>, Seq<Seq<u8>>>,
) -> bool {
    forall|name: Seq<char>|
        #[trigger] agree_on(after, before, name) || agree_on(after, wanted, name)
}

/// The names of the headers that tell of a limit.
pub open spec fn limit_names() -> Set<Seq<char>> {
    set!["x-ratelimit-limit"@, "x-ratelimit-remaining"@, "x-ratelimit-reset"@]
}

/// The names of the limiter's headers differ from each other.
pub proof fn lemma_names_differ()
    ensures
        "x-ratelimit-limit"@ != "x-ratelimit-remaining"@,
        "x-ratelimit-limit"@ != "x-ratelimit-reset"@,
        "x-ratelimit-limit"@ != "x-ratelimit-tier"@,
        "x-ratelimit-limit"@ != "retry-after"@,
        "x-ratelimit-remaining"@ != "x-ratelimit-reset"@,
        "x-ratelimit-remaining"@ != "x-ratelimit-tier"@,
        "x-ratelimit-remaining"@ != "retry-after"@,
        "x-ratelimit-reset"@ != "x-ratelimit-tier"@,
        "x-ratelimit-reset"@ != "retry-after"@,
        "x-ratelimit-tier"@ != "retry-after"@,
{
    reveal_strlit("x-ratelimit-limit");
    reveal_strlit("x-ratelimit-remaining");
    reveal_strlit("x-ratelimit-reset");
    reveal_strlit("x-ratelimit-tier");
    reveal_strlit("retry-after");
    assert("x-ratelimit-limit"@.len() == 17 && "x-ratelimit-remaining"@.len() == 21
        && "x-ratelimit-reset"@.len() == 17 && "x-ratelimit-tier"@.len() == 16
        && "retry-after"@.len() == 11);
    assert("x-ratelimit-limit"@[12] == 'l' && "x-ratelimit-reset"@[12] == 'r');
}

/// One header more, put or not.
proof fn lemma_one_more(
    before: Map<Seq<char>, Seq<Seq<u8>>>,
    reached: Map<Seq<char>, Seq<Seq<u8>>>,
    wanted: Map<Seq<char>, Seq<Seq<u8>>>,
    name: Seq<char>,
    values: Seq<Seq<u8>>,
)
    requires
        kept_or_put(before, reached, wanted),
        agree_on(wanted, before, name),
    ensures
        kept_or_put(before, reached, wanted.insert(name, values)),
        kept_or_put(before, reached.insert(name, values), wanted.insert(name, values)),
{
    assert forall|other: Seq<char>|
        #[trigger] agree_on(reached, before, other) || agree_on(
            reached,
            wanted.insert(name, values),
            other,
        ) by {
        assert(agree_on(reached, before, other) || agree_on(reached, wanted, other));
    }
    assert forall|other: Seq<char>|
        #[trigger] agree_on(reached.insert(name, values), before, other) || agree_on(
            reached.insert(name, values),
            wanted.insert(name, values),
            other,
        ) by {
        assert(agree_on(reached, before, other) || agree_on(reached, wanted, other));
    }
}

/// The digits of a number may stand in a header value.
pub proof fn lemma_decimal_is_visible(n: nat)
    ensures
        is_visible_text(text::decimal_text(n)),
    decreases n,
{
    if n >= 10 {
        lemma_decimal_is_visible(n / 10);
    }
}

fn put_number(headers: &mut HeaderMap<HeaderValue>, name: &'static str, n: u64) -> (placed: bool)
    requires
        request::is_header_name(name@),
    ensures
        request::header_values(*final(headers)).dom().finite(),
        request::header_values(*final(headers)) == if placed {
            request::header_values(*old(headers)).insert(
                name@,
                seq![ascii_bytes(text::decimal_text(n as nat))],
            )
        } else {
            request::header_values(*old(headers))
        },
        request::header_values(*old(headers)).dom().len() < ROOMY ==> placed,
{
    proof {
        lemma_decimal_is_visible(n as nat);
    }
    put(headers, name, text::decimal(n).as_str())
}

/// Adds the tier header in place of what stood under its name. Tells whether the
/// headers had room for it; where they had not, they are left as they were.
pub fn attach_tier_header(headers: &mut HeaderMap<HeaderValue>, tier: &ApiTier) -> (attached: bool)
    ensures
        attached ==> request::header_values(*final(headers)) == with_tier_header(
            request::header_values(*old(headers)),
            *tier,
        ),
        !attached ==> request::header_values(*final(headers)) == request::header_values(
            *old(headers),
        ),
        has_room(request::header_values(*old(headers)), 1) ==> attached,
{
    proof {
        reveal_strlit("x-ratelimit-tier");
        reveal_strlit("free");
        reveal_strlit("pro");
        reveal_strlit("enterprise");
    }
    put(headers, "x-ratelimit-tier", tier.as_str())
}

/// Adds the headers with the limit, what remains of it, and when it resets, each in
/// place of what stood under its name. Tells whether the headers had room for them;
/// one for which there was none is left as it was.
pub fn attach_rate_limit_headers(
    headers: &mut HeaderMap<HeaderValue>,
    decision: &RateLimitDecision,
) -> (attached: bool)
    ensures
        attached ==> request::header_values(*final(headers)) == with_limit_headers(
            request::header_values(*old(headers)),
            *decision,
        ),
        same_but(
            request::header_values(*old(headers)),
            request::header_values(*final(headers)),
            limit_names(),
        ),
        kept_or_put(
            request::header_values(*old(headers)),
            request::header_values(*final(headers)),
            with_limit_headers(request::header_values(*old(headers)), *decision),
        ),
        has_room(request::header_values(*old(headers)), 3) ==> attached,
{
    proof {
        reveal_strlit("x-ratelimit-limit");
        reveal_strlit("x-ratelimit-remaining");
        reveal_strlit("x-ratelimit-reset");
    }
    let ghost before = request::header_values(*headers);
    let limit: bool = put_number(headers, "x-ratelimit-limit", decision.limit as u64);
    let ghost first = request::header_values(*headers);
    let remaining: bool = put_number(headers, "x-ratelimit-remaining", decision.remaining as u64);
    let ghost second = request::header_values(*headers);
    let reset: bool = put_number(headers, "x-ratelimit-reset", decision.reset_seconds);
    proof {
        lemma_names_differ();
        let name = "x-ratelimit-limit"@;
        let values = seq![ascii_bytes(text::decimal_text(decision.limit as nat))];
        lemma_one_more(before, before, before, name, values);
        let wanted = before.insert(name, values);
        let name = "x-ratelimit-remaining"@;
        let values = seq![ascii_bytes(text::decimal_text(decision.remaining as nat))];
        lemma_one_more(before, first, wanted, name, values);
        let wanted = wanted.insert(name, values);
        let name = "x-ratelimit-reset"@;
        let values = seq![ascii_bytes(text::decimal_text(decision.reset_seconds as nat))];
        lemma_one_more(before, second, wanted, name, values);
    }
    limit && remaining && reset
}

/// Adds the headers of a granted request's response: the limit headers and the
/// tier. Tells whether the headers had room for them.
pub fn attach_admission_headers(
    headers: &mut HeaderMap<HeaderValue>,
    decision: &RateLimitDecision,
    tier: &ApiTier,
) -> (attached: bool)
    ensures
        attached ==> request::header_values(*final(headers)) == with_tier_header(
            with_limit_headers(request::header_values(*old(headers)), *decision),
            *tier,
        ),
        same_but(
            request::header_values(*old(headers)),
            request::header_values(*final(headers)),
            limit_names().insert("x-ratelimit-tier"@),
        ),
        kept_or_put(
            request::header_values(*old(headers)),
            request::header_values(*final(headers)),
            with_tier_header(
                with_limit_headers(request::header_values(*old(headers)), *decision),
                *tier,
            ),
        ),
        has_room(request::header_values(*old(headers)), 4) ==> attached,
{
    let ghost before = request::header_values(*headers);
    let told: bool = attach_rate_limit_headers(headers, decision);
    let ghost reached = request::header_values(*headers);
    let tiered: bool = attach_tier_header(headers, tier);
    proof {
        lemma_names_differ();
        lemma_one_more(
            before,
            reached,
            with_limit_headers(before, *decision),
            "x-ratelimit-tier"@,
            seq![ascii_bytes(tier.label())],
        );
    }
    told && tiered
}

/// Adds the headers of a refusal: those of a granted request, and how long to
/// wait. Tells whether the headers had room for them.
pub fn attach_refusal_headers(
    headers: &mut HeaderMap<HeaderValue>,
    decision: &RateLimitDecision,
    tier: &ApiTier,
) -> (attached: bool)
    ensures
        attached ==> request::header_values(*final(headers)) == with_retry_header(
            with_tier_header(
                with_limit_headers(request::header_values(*old(headers)), *decision),
                *tier,
            ),
            *decision,
        ),
        same_but(
            request::header_values(*old(headers)),
            request::header_values(*final(headers)),
            limit_names().insert("x-ratelimit-tier"@).insert("retry-after"@),
        ),
        kept_or_put(
            request::header_values(*old(headers)),
            request::header_values(*final(headers)),
            with_retry_header(
                with_tier_header(
                    with_limit_headers(request::header_values(*old(headers)), *decision),
                    *tier,
                ),
                *decision,
            ),
        ),
        has_room(request::header_values(*old(headers)), 5) ==> attached,
{
    proof {
        reveal_strlit("retry-after");
    }
    let ghost before = request::header_values(*headers);
    let told: bool = attach_admission_headers(headers, decision, tier);
    let ghost reached = request::header_values(*headers);
    let timed: bool = put_number(headers, "retry-after", decision.reset_seconds);
    proof {
        lemma_names_differ();
        lemma_one_more(
            before,
            reached,
            with_tier_header(with_limit_headers(before, *decision), *tier),
            "retry-after"@,
            seq![ascii_bytes(text::decimal_text(decision.reset_seconds as nat))],
        );
    }
    told && timed
}

/// What the client is told in the body of a refusal.
pub struct Refusal {
    pub error_code: &'static str,
    pub detail: &'static str,
    pub retry_after_seconds: u64,
    pub limit_type: &'static str,
}

/// The sentence that explains a refusal.
pub open spec fn refusal_detail(class: RequestClass) -> Seq<char> {
    match class {
        RequestClass::Write =>
            "Write quota exhausted. Reduce request frequency or wait for the window to reset."@,
        RequestClass::Read => "Too many requests. Please retry after the indicated time."@,
    }
}

impl Refusal {
    /// The refusal tells a request of that class of that decision.
    pub open spec fn tells(self, class: RequestClass, decision: RateLimitDecision) -> bool {
        &&& self.error_code@ == "RATE_LIMITED"@
        &&& self.detail@ == refusal_detail(class)
        &&& self.retry_after_seconds == decision.reset_seconds
        &&& self.limit_type@ == class.label()
    }

    pub fn new(class: RequestClass, decision: &RateLimitDecision) -> (refusal: Refusal)
        ensures
            refusal.tells(class, *decision),
    {
        let detail = match class {
            RequestClass::Write => "Write quota exhausted. Reduce request frequency or wait for the window to reset.",
            RequestClass::Read => "Too many requests. Please retry after the indicated time.",
        };
        Refusal {
            error_code: "RATE_LIMITED",
            detail,
            retry_after_seconds: decision.reset_seconds,
            limit_type: class.as_str(),
        }
    }
}

} // verus!
