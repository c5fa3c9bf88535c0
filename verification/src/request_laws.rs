//! Who is taken to have sent a request, and for what, whatever its headers, its path
//! and its query hold.

use vstd::prelude::*;
use vstd::string::*;

use crate::request;
use crate::request::{AddrReading, AddressClues, RequestHeaders};
use crate::routes;
use crate::routes::RequestClass;
use crate::text;
use crate::text_laws;
use crate::tier;
use crate::tier::{ApiTier, BypassKind};

verus! {

// ---------------------------------------------------------------------------
// Headers
// ---------------------------------------------------------------------------

/// The text of a header value is its bytes, one character each; a value has a text
/// unless one of its bytes is a control character other than the tab, or not ASCII.
pub proof fn law_header_text_is_byte_by_byte(bytes: Seq<u8>)
    ensures
        request::visible_text(bytes) is Some <==> (forall|i: int|
            0 <= i < bytes.len() ==> (#[trigger] bytes[i] == 9 || 32 <= bytes[i] <= 126)),
        request::visible_text(bytes) matches Some(t) ==> t.len() == bytes.len() && (forall|i: int|
            0 <= i < bytes.len() ==> #[trigger] t[i] as int == bytes[i] as int),
{
    if forall|i: int| 0 <= i < bytes.len() ==> (#[trigger] bytes[i] == 9 || 32 <= bytes[i] <= 126) {
        assert forall|i: int| 0 <= i < bytes.len() implies request::is_visible(
            #[trigger] bytes[i],
        ) by {}
    }
    if request::visible_text(bytes) is Some {
        assert forall|i: int| 0 <= i < bytes.len() implies (#[trigger] bytes[i] == 9 || 32
            <= bytes[i] <= 126) by {
            assert(request::is_visible(bytes[i]));
        }
    }
}

/// Of several values under a name the first one counts, and where there is none
/// there is no text.
pub proof fn law_first_header_value_counts(
    values: Map<Seq<char>, Seq<Seq<u8>>>,
    name: Seq<char>,
    first: Seq<u8>,
    more: Seq<Seq<u8>>,
)
    ensures
        request::text_under(values.insert(name, seq![first] + more), name) == request::visible_text(
            first,
        ),
        request::text_under(values.remove(name), name) is None,
{
    assert((seq![first] + more)[0] == first);
}

// ---------------------------------------------------------------------------
// The client's address
// ---------------------------------------------------------------------------

/// Whether an entry reads as an IP address or as a socket address.
pub open spec fn names_one(reading: AddrReading) -> bool {
    reading.ip is Some || reading.socket_ip is Some
}

/// The first entry that reads as an address gives it, whatever follows; what reads
/// as an IP address is taken as one, even where it reads as a socket address too.
/// Where no entry reads as an address there is none.
pub proof fn law_first_named_address_counts(readings: Seq<AddrReading>, i: int)
    requires
        0 <= i <= readings.len(),
        forall|j: int|
            0 <= j < i ==> (#[trigger] readings[j]).ip is None && readings[j].socket_ip is None,
    ensures
        i == readings.len() ==> request::first_address(readings) is None,
        i < readings.len() && readings[i].ip is Some ==> request::first_address(readings) == Some(
            readings[i].ip->0@,
        ),
        i < readings.len() && readings[i].ip is None && readings[i].socket_ip is Some
            ==> request::first_address(readings) == Some(readings[i].socket_ip->0@),
    decreases readings.len(),
{
    if i > 0 {
        let rest = readings.skip(1);
        assert(readings[0].ip is None && readings[0].socket_ip is None);
        assert forall|j: int| 0 <= j < i - 1 implies (#[trigger] rest[j]).ip is None
            && rest[j].socket_ip is None by {
            assert(rest[j] == readings[j + 1]);
        }
        law_first_named_address_counts(rest, i - 1);
    }
}

/// What an entry after one that names an address says does not matter.
pub proof fn law_later_entries_do_not_matter(
    before: Seq<AddrReading>,
    named: AddrReading,
    after: Seq<AddrReading>,
    other: Seq<AddrReading>,
)
    requires
        named.ip is Some || named.socket_ip is Some,
    ensures
        request::first_address(before.push(named) + after) == request::first_address(
            before.push(named) + other,
        ),
        request::first_address(before.push(named)) is Some,
    decreases before.len(),
{
    let one = before.push(named) + after;
    let two = before.push(named) + other;
    let short = before.push(named);
    if before.len() > 0 {
        let rest = before.skip(1);
        law_later_entries_do_not_matter(rest, named, after, other);
        assert(one.skip(1) =~= rest.push(named) + after);
        assert(two.skip(1) =~= rest.push(named) + other);
        assert(short.skip(1) =~= rest.push(named));
        assert(one[0] == before[0] && two[0] == before[0] && short[0] == before[0]);
    } else {
        assert(one[0] == named && two[0] == named && short[0] == named);
    }
}

/// The forwarding header counts before the real-address header, that before the
/// peer, and without any of them the client is unknown.
pub proof fn law_clues_count_in_order(clues: AddressClues)
    ensures
        request::first_address(clues.forwarded@) matches Some(ip) ==> request::client_ip_of(clues)
            == ip,
        request::first_address(clues.forwarded@) is None ==> {
            &&& (clues.real_ip matches Some(r) && r.ip is Some) ==> request::client_ip_of(clues)
                == clues.real_ip->0.ip->0@
            &&& (clues.real_ip matches Some(r) && r.ip is None && r.socket_ip is Some)
                ==> request::client_ip_of(clues) == clues.real_ip->0.socket_ip->0@
            &&& (clues.real_ip is None || !names_one(clues.real_ip->0)) && clues.peer_ip is Some
                ==> request::client_ip_of(clues) == clues.peer_ip->0@
            &&& (clues.real_ip is None || !names_one(clues.real_ip->0)) && clues.peer_ip is None
                ==> request::client_ip_of(clues) == "unknown"@
        },
{
}

// ---------------------------------------------------------------------------
// Plan and credentials
// ---------------------------------------------------------------------------

/// A plan is known by its letters in either case; without a plan header, and for
/// any other plan in ASCII, the tier is free.
pub proof fn law_plans_are_known_by_their_letters(headers: RequestHeaders, plan: Seq<char>)
    requires
        forall|i: int| 0 <= i < plan.len() ==> (#[trigger] plan[i]) as int <= 127,
    ensures
        ({
            let lowered = plan.map_values(
                |c: char|
                    if 'A' <= c <= 'Z' {
                        (c as int + 32) as char
                    } else {
                        c
                    },
            );
            let found = tier::tier_for_plan(plan);
            &&& lowered == "pro"@ ==> found == ApiTier::Pro
            &&& lowered == "enterprise"@ ==> found == ApiTier::Enterprise
            &&& lowered != "pro"@ && lowered != "enterprise"@ ==> found == ApiTier::Free
        }),
        headers.x_api_plan is None ==> request::requested_tier(headers) == ApiTier::Free,
        headers.x_api_plan matches Some(p) ==> request::requested_tier(headers)
            == tier::tier_for_plan(p@),
        ApiTier::Free.label() == "free"@,
        ApiTier::Pro.label() == "pro"@,
        ApiTier::Enterprise.label() == "enterprise"@,
        BypassKind::TrustedIp.identity_type() == "ip"@,
        BypassKind::TrustedApiKey.identity_type() == "api_key"@,
{
    reveal_strlit("pro");
    reveal_strlit("enterprise");
    assert("pro"@.len() == 3 && "enterprise"@.len() == 10);
    let lowered = plan.map_values(
        |c: char|
            if 'A' <= c <= 'Z' {
                (c as int + 32) as char
            } else {
                c
            },
    );
    assert(text::is_ascii_text(plan));
    assert(text::ascii_lowercase(plan) =~= lowered);
}

/// A plan name in lower case stands for a tier only where it is that tier's name, and
/// a plan that is not all ASCII is known by its lower-case form.
pub proof fn law_plans_beyond_ascii(lowered: Seq<char>, plan: Seq<char>, i: int)
    requires
        0 <= i < plan.len(),
        plan[i] as int > 127,
    ensures
        tier::tier_of(lowered) == ApiTier::Pro <==> lowered == "pro"@,
        tier::tier_of(lowered) == ApiTier::Enterprise <==> lowered == "enterprise"@,
        tier::tier_for_plan(plan) == tier::tier_of(text::unicode_lowercase(plan)),
{
    reveal_strlit("pro");
    reveal_strlit("enterprise");
    assert("pro"@.len() == 3 && "enterprise"@.len() == 10);
    assert(!text::is_ascii_text(plan));
}

/// Whether a text neither begins nor ends with white space.
pub open spec fn bare(s: Seq<char>) -> bool {
    s.len() > 0 ==> !text::is_white_space(s[0]) && !text::is_white_space(s[s.len() - 1])
}

/// Whether a text is white space only.
pub open spec fn blank(s: Seq<char>) -> bool {
    forall|i: int| 0 <= i < s.len() ==> text::is_white_space(#[trigger] s[i])
}

/// The API-key header counts before the authorization header, each without the
/// white space round it; a blank one counts as none.
pub proof fn law_api_key_counts_before_authorization(
    headers: RequestHeaders,
    left: Seq<char>,
    token: Seq<char>,
    right: Seq<char>,
)
    requires
        blank(left),
        blank(right),
        bare(token),
        token.len() > 0,
    ensures
        (headers.x_api_key matches Some(v) && v@ == left + token + right) ==> request::auth_token(
            headers,
        ) == Some(token),
        (headers.x_api_key is None || blank(headers.x_api_key->0@)) && (
        headers.authorization matches Some(v) && v@ == left + token + right) ==> request::auth_token(
            headers,
        ) == Some(token),
        (headers.x_api_key is None || blank(headers.x_api_key->0@)) && (headers.authorization is None
            || blank(headers.authorization->0@)) ==> request::auth_token(headers) is None,
{
    text_laws::law_trimming_takes_off_what_stands_round(left, token, right);
    if headers.x_api_key is Some && blank(headers.x_api_key->0@) {
        lemma_blank_is_trimmed_away(headers.x_api_key->0@);
    }
    if headers.authorization is Some && blank(headers.authorization->0@) {
        lemma_blank_is_trimmed_away(headers.authorization->0@);
    }
}

proof fn lemma_blank_is_trimmed_away(s: Seq<char>)
    requires
        blank(s),
    ensures
        text::trimmed(s).len() == 0,
{
    text_laws::law_trimming_takes_off_what_stands_round(s, Seq::empty(), Seq::empty());
    assert(s + Seq::<char>::empty() + Seq::<char>::empty() =~= s);
}

/// The API key inside a credential is what stands behind one of the two schemes, or
/// all of it where none of them stands in front, without the white space round it.
pub proof fn law_api_key_stands_behind_the_scheme(
    left: Seq<char>,
    key: Seq<char>,
    right: Seq<char>,
)
    requires
        blank(left),
        blank(right),
        bare(key),
    ensures
        request::api_key_of("Bearer "@ + left + key + right) == key,
        request::api_key_of("ApiKey "@ + left + key + right) == key,
        !"Bearer "@.is_prefix_of(left + key + right) && !"ApiKey "@.is_prefix_of(
            left + key + right,
        ) ==> request::api_key_of(left + key + right) == key,
{
    reveal_strlit("Bearer ");
    reveal_strlit("ApiKey ");
    text_laws::law_trimming_takes_off_what_stands_round(left, key, right);
    let inner = left + key + right;
    let bearer = "Bearer "@ + left + key + right;
    let api_key = "ApiKey "@ + left + key + right;
    assert("Bearer "@.len() == 7 && "ApiKey "@.len() == 7);
    assert(bearer.subrange(0, 7) =~= "Bearer "@);
    assert(bearer.skip(7) =~= inner);
    assert(api_key.subrange(0, 7) =~= "ApiKey "@);
    assert(api_key.skip(7) =~= inner);
    assert(!"Bearer "@.is_prefix_of(api_key)) by {
        assert(api_key.subrange(0, 7)[0] == 'A' && "Bearer "@[0] == 'B');
    }
}

// ---------------------------------------------------------------------------
// Method and path
// ---------------------------------------------------------------------------

/// Whatever follows `/health` or `/api/admin/` is exempt, and so is the metrics
/// endpoint; no other path is.
pub proof fn law_exempt_paths(rest: Seq<char>, path: Seq<char>)
    ensures
        routes::exempt("/health"@ + rest),
        routes::exempt("/api/admin/"@ + rest),
        routes::exempt("/metrics"@),
        routes::exempt(path) ==> path == "/metrics"@ || "/health"@.is_prefix_of(path)
            || "/api/admin/"@.is_prefix_of(path),
{
    let health = "/health"@ + rest;
    assert(health.subrange(0, "/health"@.len() as int) =~= "/health"@);
    let admin = "/api/admin/"@ + rest;
    assert(admin.subrange(0, "/api/admin/"@.len() as int) =~= "/api/admin/"@);
}

/// A request is counted as a write exactly where its method is one of four.
pub proof fn law_writes_are_known_by_their_method(method: Seq<char>)
    ensures
        routes::class_of(method) == RequestClass::Write <==> method == "POST"@ || method == "PUT"@
            || method == "PATCH"@ || method == "DELETE"@,
        routes::is_write(method) <==> routes::class_of(method) == RequestClass::Write,
        RequestClass::Read.label() == "read"@,
        RequestClass::Write.label() == "write"@,
{
}

/// The ABI of a contract is read by a GET of a path below the contracts that ends in
/// `/abi`, and by no other request.
pub proof fn law_abi_paths(method: Seq<char>, path: Seq<char>, contract: Seq<char>)
    ensures
        routes::reads_contract_abi("GET"@, "/api/v1/contracts/"@ + contract + "/abi"@),
        routes::reads_contract_abi(method, path) <==> method == "GET"@
            && "/api/v1/contracts/"@.is_prefix_of(path) && "/abi"@.is_suffix_of(path),
{
    let whole = "/api/v1/contracts/"@ + contract + "/abi"@;
    assert(whole.subrange(0, "/api/v1/contracts/"@.len() as int) =~= "/api/v1/contracts/"@);
    assert(whole.subrange(whole.len() - "/abi"@.len(), whole.len() as int) =~= "/abi"@);
}

// ---------------------------------------------------------------------------
// Page sizes
// ---------------------------------------------------------------------------

/// Whether a pair of a query is `limit=n` or `page_size=n`, for a number of 32 bits.
pub open spec fn asks_for(pair: Seq<char>, n: nat) -> bool {
    n <= 4_294_967_295 && {
        ||| "limit="@.is_prefix_of(pair) && text::numeral(pair.skip(6)) == Some(n)
        ||| "page_size="@.is_prefix_of(pair) && text::numeral(pair.skip(10)) == Some(n)
    }
}

/// A page size brought within 1 and 1000.
pub open spec fn within_bounds(n: nat) -> nat {
    if n == 0 {
        1
    } else if n > 1000 {
        1000
    } else {
        n
    }
}

/// The first pair of a query that asks for a page size gets it, within bounds,
/// wherever it stands and whatever pairs follow; where no pair asks for one there
/// is none.
pub proof fn law_first_page_size_counts(pairs: Seq<Seq<char>>, i: int, n: nat)
    requires
        pairs.len() > 0,
        forall|j: int| 0 <= j < pairs.len() ==> !(#[trigger] pairs[j]).contains('&'),
        0 <= i <= pairs.len(),
        forall|j: int, m: nat| 0 <= j < i ==> !(#[trigger] asks_for(pairs[j], m)),
        i < pairs.len() ==> asks_for(pairs[i], n),
    ensures
        ({
            let found = routes::query_page_size(Some(text::joined(pairs, '&')));
            &&& i < pairs.len() ==> (found matches Some(size) && size == within_bounds(n))
            &&& i == pairs.len() ==> found is None
        }),
        routes::query_page_size(None) is None,
{
    text_laws::law_splitting_undoes_joining(pairs, '&');
    lemma_first_page_size(pairs, i, n);
}

proof fn lemma_first_page_size(pairs: Seq<Seq<char>>, i: int, n: nat)
    requires
        0 <= i <= pairs.len(),
        forall|j: int, m: nat| 0 <= j < i ==> !(#[trigger] asks_for(pairs[j], m)),
        i < pairs.len() ==> asks_for(pairs[i], n),
    ensures
        i < pairs.len() ==> (routes::first_page_size(pairs) matches Some(size) && size
            == within_bounds(n)),
        i == pairs.len() ==> routes::first_page_size(pairs) is None,
    decreases pairs.len(),
{
    if pairs.len() > 0 {
        lemma_pair(pairs[0], n);
        if i > 0 {
            let rest = pairs.skip(1);
            assert forall|j: int, m: nat| 0 <= j < i - 1 implies !(#[trigger] asks_for(
                rest[j],
                m,
            )) by {
                assert(!asks_for(pairs[j + 1], m));
                assert(rest[j] == pairs[j + 1]);
            }
            lemma_first_page_size(rest, i - 1, n);
            if let Some(size) = routes::pair_page_size(pairs[0]) {
                let m = choose|m: nat| asks_for(pairs[0], m);
                assert(!asks_for(pairs[0], m));
            }
        }
    }
}

proof fn lemma_pair(pair: Seq<char>, n: nat)
    ensures
        asks_for(pair, n) ==> (routes::pair_page_size(pair) matches Some(size) && size
            == within_bounds(n)),
        routes::pair_page_size(pair) is Some ==> exists|m: nat| #[trigger] asks_for(pair, m),
{
    reveal_strlit("limit");
    reveal_strlit("page_size");
    reveal_strlit("limit=");
    reveal_strlit("page_size=");
    assert("limit"@.push('=') =~= "limit="@);
    assert("page_size"@.push('=') =~= "page_size="@);
    lemma_pair_of("limit"@, pair);
    lemma_pair_of("page_size"@, pair);
    assert("limit="@.len() == 6 && "page_size="@.len() == 10);
    assert("limit"@.len() == 5 && "page_size"@.len() == 9);
    if routes::pair_page_size(pair) is Some {
        if text::cut(pair, '=') is None {
            text_laws::law_nothing_else_is_a_numeral(Seq::empty(), 0);
        } else {
            let (key, value) = text::cut(pair, '=')->0;
            let m = text::numeral(value)->0;
            assert(asks_for(pair, m));
        }
    }
}

proof fn lemma_pair_of(key: Seq<char>, pair: Seq<char>)
    requires
        !key.contains('='),
    ensures
        key.push('=').is_prefix_of(pair) <==> (text::cut(pair, '=') matches Some((k, v)) && k
            == key),
        text::cut(pair, '=') matches Some((k, v)) ==> k == key ==> v == pair.skip(
            key.len() as int + 1,
        ),
{
    let n = key.len() as int;
    if key.push('=').is_prefix_of(pair) {
        assert(pair =~= key.push('=') + pair.skip(n + 1)) by {
            assert(pair.subrange(0, n + 1) == key.push('='));
            assert forall|i: int| 0 <= i < n + 1 implies pair[i] == key.push('=')[i] by {
                assert(pair.subrange(0, n + 1)[i] == pair[i]);
            }
        }
        text_laws::law_cut_is_at_the_first_separator(key, '=', pair.skip(n + 1));
    }
    pair.index_of_first_ensures('=');
    if let Some((k, v)) = text::cut(pair, '=') {
        if k == key {
            let i = pair.index_of_first('=')->0;
            assert(k.len() == i);
            assert(pair.subrange(0, n + 1) =~= key.push('='));
        }
    }
}

/// Only a GET of the contract listing has a page size: that of its query, or else
/// fifty.
pub proof fn law_only_the_listing_has_a_page_size(
    method: Seq<char>,
    path: Seq<char>,
    query: Option<Seq<char>>,
)
    ensures
        routes::listing_page_size(method, path, query) is Some <==> method == "GET"@ && path
            == "/api/contracts"@,
        routes::listing_page_size("GET"@, "/api/contracts"@, query) == (
        match routes::query_page_size(query) {
            Some(size) => Some(size),
            None => Some(50u32),
        }),
{
}

/// A page of more than fifty entries weighs as many requests as fifties are begun:
/// the limit is divided among them and rounded down, but not below one.
pub proof fn law_limit_is_divided_by_begun_fifties(base_limit: u32, page_size: u32, fifties: int)
    requires
        fifties >= 1,
        page_size <= 50 * fifties,
        page_size > 50 * (fifties - 1) || fifties == 1,
    ensures
        base_limit >= fifties ==> routes::scaled_limit(base_limit, page_size) * fifties
            <= base_limit < (routes::scaled_limit(base_limit, page_size) + 1) * fifties,
        base_limit < fifties ==> routes::scaled_limit(base_limit, page_size) == 1,
{
    let weight = routes::page_weight(page_size);
    assert(weight == fifties);
    let share = base_limit as int / fifties;
    vstd::arithmetic::div_mod::lemma_fundamental_div_mod(base_limit as int, fifties);
    vstd::arithmetic::div_mod::lemma_mod_bound(base_limit as int, fifties);
    assert(share * fifties == fifties * share) by (nonlinear_arith);
    assert((share + 1) * fifties == fifties * share + fifties) by (nonlinear_arith);
    if base_limit < fifties {
        vstd::arithmetic::div_mod::lemma_basic_div(base_limit as int, fifties);
    } else {
        assert(share >= 1) by (nonlinear_arith)
            requires
                base_limit < fifties * share + fifties,
                base_limit >= fifties,
                fifties >= 1,
        ;
    }
}

// ---------------------------------------------------------------------------
// Endpoint keys
// ---------------------------------------------------------------------------

/// A letter or a digit of ASCII.
pub open spec fn in_words(c: char) -> bool {
    48 <= c as int <= 57 || 65 <= c as int <= 90 || 97 <= c as int <= 122
}

/// That letter in upper case.
pub open spec fn raised(c: char) -> char {
    if 97 <= c as int <= 122 {
        (c as int - 32) as char
    } else {
        c
    }
}

/// The words of a path grow by its letters and digits, raised; any other character
/// ends a word, and one underscore stands between a word and the next.
pub proof fn law_words_grow_by_letters_and_digits(path: Seq<char>, c: char)
    ensures
        routes::compacted(Seq::empty()) == Seq::<char>::empty(),
        !in_words(c) ==> routes::compacted(path.push(c)) == routes::compacted(path),
        in_words(c) && path.len() > 0 && in_words(path[path.len() - 1]) ==> routes::compacted(
            path.push(c),
        ) == routes::compacted(path).push(raised(c)),
        in_words(c) && (path.len() == 0 || !in_words(path[path.len() - 1]))
            && routes::compacted(path).len() == 0 ==> routes::compacted(path.push(c)) == seq![
            raised(c),
        ],
        in_words(c) && (path.len() == 0 || !in_words(path[path.len() - 1]))
            && routes::compacted(path).len() > 0 ==> routes::compacted(path.push(c))
            == routes::compacted(path).push('_').push(raised(c)),
{
    let none = Seq::<char>::empty();
    let s = routes::screened(path);
    let mark = if in_words(c) {
        raised(c)
    } else {
        '_'
    };
    let longer = routes::screened(path.push(c));
    assert(longer =~= s.push(mark));
    assert(longer.drop_last() =~= s);
    let parts = text::pieces(s, '_');
    lemma_last_piece(s);
    let front = parts.drop_last();
    let last = parts.last();
    assert(parts =~= front.push(last));
    text_laws::law_empty_parts_are_left_out(front, last);
    text_laws::law_empty_parts_are_left_out(parts, none);
    text_laws::law_empty_parts_are_left_out(front, last.push(mark));
    let words = text::non_empty(front);
    text_laws::law_joining_appends(words, '_', last);
    text_laws::law_joining_appends(words, '_', last.push(mark));
    lemma_joined_words(words);
    assert(words =~= Seq::<Seq<char>>::empty() || words.len() > 0);
    if words.len() == 0 {
        assert(words.push(last) =~= seq![last]);
        assert(words.push(last.push(mark)) =~= seq![last.push(mark)]);
    }
    if path.len() > 0 {
        assert(s.last() == (if in_words(path[path.len() - 1]) {
            raised(path[path.len() - 1])
        } else {
            '_'
        }));
    }
    if in_words(c) {
        if last.len() > 0 {
            if words.len() > 0 {
                assert(text::joined(words, '_').push('_') + last.push(mark) =~= (text::joined(
                    words,
                    '_',
                ).push('_') + last).push(mark));
            }
        } else {
            assert(last =~= none);
            assert(none.push(mark) =~= seq![mark]);
            if words.len() > 0 {
                assert(text::joined(words, '_').push('_') + none.push(mark) =~= text::joined(
                    words,
                    '_',
                ).push('_').push(mark));
            }
        }
    }
    assert(routes::screened(none) =~= none);
    text_laws::law_empty_parts_are_left_out(Seq::empty(), none);
    assert(text::pieces(none, '_') =~= Seq::<Seq<char>>::empty().push(none));
    assert(routes::compacted(none) =~= none);
}

/// The last piece is empty exactly where the text ends with the separator.
proof fn lemma_last_piece(s: Seq<char>)
    ensures
        text::pieces(s, '_').len() > 0,
        text::pieces(s, '_').last().len() == 0 <==> s.len() == 0 || s.last() == '_',
    decreases s.len(),
{
    if s.len() > 0 {
        lemma_last_piece(s.drop_last());
    }
}

/// Words that each hold a character hold one together.
proof fn lemma_joined_words(words: Seq<Seq<char>>)
    ensures
        words.len() > 0 && words[0].len() > 0 ==> text::joined(words, '_').len() > 0,
        words.len() > 1 ==> text::joined(words, '_').len() > 0,
{
}

/// The key of an endpoint is its method, raised, an underscore, and the words of its
/// path, or `ROOT` where it has none.
pub proof fn law_endpoint_keys(method: Seq<char>, path: Seq<char>)
    ensures
        routes::compacted(path).len() == 0 ==> routes::endpoint_key_text(method, path)
            == text::ascii_uppercase(method) + "_ROOT"@,
        routes::compacted(path).len() > 0 ==> routes::endpoint_key_text(method, path)
            == text::ascii_uppercase(method) + "_"@ + routes::compacted(path),
{
}

} // verus!
