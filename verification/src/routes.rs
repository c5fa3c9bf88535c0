//! Rules that go by the method and the path of a request.

use vstd::prelude::*;
use vstd::string::*;

use crate::text;

verus! {

/// The page size of the contract listing where the request names none.
pub const DEFAULT_CONTRACTS_PAGE_SIZE: u32 = 50;

/// The largest page size of the contract listing.
pub const MAX_CONTRACTS_PAGE_SIZE: u32 = 1000;

/// Whether the path is a health probe, the metrics endpoint or an admin path.
pub open spec fn exempt(path: Seq<char>) -> bool {
    ||| "/health"@.is_prefix_of(path)
    ||| path == "/metrics"@
    ||| "/api/admin/"@.is_prefix_of(path)
}

/// Paths that bypass rate limiting entirely.
///
/// Health probes must not be rate-limited so that load balancers and
/// orchestrators always get a response. The metrics scrape endpoint and internal
/// admin APIs are also exempt.
pub fn is_exempt_path(path: &str) -> (b: bool)
    ensures
        b == exempt(path@),
{
    text::starts_with(path, "/health") || text::same_text(path, "/metrics") || text::starts_with(
        path,
        "/api/admin/",
    )
}

/// Whether a request of that method may change state.
pub open spec fn is_write(method: Seq<char>) -> bool {
    method == "POST"@ || method == "PUT"@ || method == "PATCH"@ || method == "DELETE"@
}

pub fn is_write_method(method: &str) -> (b: bool)
    ensures
        b == is_write(method@),
{
    text::same_text(method, "POST") || text::same_text(method, "PUT") || text::same_text(
        method,
        "PATCH",
    ) || text::same_text(method, "DELETE")
}

/// What a request is counted as: reads and writes have quotas of their own.
#[derive(Debug, Clone, Copy, PartialEq, Eq, Structural)]
pub enum RequestClass {
    Read,
    Write,
}

/// What a request of that method is counted as.
pub open spec fn class_of(method: Seq<char>) -> RequestClass {
    if is_write(method) {
        RequestClass::Write
    } else {
        RequestClass::Read
    }
}

impl RequestClass {
    /// The name of the class in keys, logs and replies.
    pub open spec fn label(self) -> Seq<char> {
        match self {
            RequestClass::Read => "read"@,
            RequestClass::Write => "write"@,
        }
    }

    pub fn as_str(&self) -> (name: &'static str)
        ensures
            name@ == self.label(),
    {
        match self {
            RequestClass::Read => "read",
            RequestClass::Write => "write",
        }
    }

    /// What a request of that method is counted as.
    pub fn of_method(method: &str) -> (class: RequestClass)
        ensures
            class == class_of(method@),
    {
        if is_write_method(method) {
            RequestClass::Write
        } else {
            RequestClass::Read
        }
    }
}

/// Whether the request reads the ABI of a contract.
pub open spec fn reads_contract_abi(method: Seq<char>, path: Seq<char>) -> bool {
    &&& method == "GET"@
    &&& "/api/v1/contracts/"@.is_prefix_of(path)
    &&& "/abi"@.is_suffix_of(path)
}

pub fn is_contract_abi_endpoint(method: &str, path: &str) -> (b: bool)
    ensures
        b == reads_contract_abi(method@, path@),
{
    text::same_text(method, "GET") && text::starts_with(path, "/api/v1/contracts/")
        && text::ends_with(path, "/abi")
}

/// The page size brought within bounds.
pub open spec fn clamped_page_size(n: nat) -> u32 {
    if n < 1 {
        1
    } else if n > MAX_CONTRACTS_PAGE_SIZE {
        MAX_CONTRACTS_PAGE_SIZE
    } else {
        n as u32
    }
}

/// The page size that one pair of a query asks for.
pub open spec fn pair_page_size(pair: Seq<char>) -> Option<u32> {
    let (key, value) = match text::cut(pair, '=') {
        Some((before, after)) => (before, after),
        None => (pair, Seq::empty()),
    };
    if key == "limit"@ || key == "page_size"@ {
        match text::numeral_within(value, u32::MAX as nat) {
            Some(n) => Some(clamped_page_size(n)),
            None => None,
        }
    } else {
        None
    }
}

/// The page size of the first pair that asks for one.
pub open spec fn first_page_size(pairs: Seq<Seq<char>>) -> Option<u32>
    decreases pairs.len(),
{
    if pairs.len() == 0 {
        None
    } else if pair_page_size(pairs[0]) is Some {
        pair_page_size(pairs[0])
    } else {
        first_page_size(pairs.skip(1))
    }
}

/// The page size that a query asks for.
pub open spec fn query_page_size(query: Option<Seq<char>>) -> Option<u32> {
    match query {
        Some(q) => first_page_size(text::pieces(q, '&')),
        None => None,
    }
}

fn page_size_in_pair(pair: &str) -> (size: Option<u32>)
    ensures
        size == pair_page_size(pair@),
{
    let (key, value) = match text::split_once(pair, '=') {
        Some((before, after)) => (before, after),
        None => (pair, ""),
    };
    proof {
        reveal_strlit("");
        assert(""@ =~= Seq::<char>::empty());
    }
    if text::same_text(key, "limit") || text::same_text(key, "page_size") {
        match text::parse_u32(value) {
            Some(parsed) => if parsed < 1 {
                Some(1)
            } else if parsed > MAX_CONTRACTS_PAGE_SIZE {
                Some(MAX_CONTRACTS_PAGE_SIZE)
            } else {
                Some(parsed)
            },
            None => None,
        }
    } else {
        None
    }
}

/// The page size that a query asks for, brought within bounds.
pub fn extract_page_size(query: &Option<String>) -> (size: Option<u32>)
    ensures
        size == query_page_size(text::text_of(*query)),
{
    match query {
        Some(q) => {
            let pairs = text::split(q.as_str(), '&');
            let n: usize = pairs.len();
            let ghost all = text::pieces(q@, '&');
            let mut i: usize = 0;
            assert(all.skip(0) =~= all);
            while i < n
                invariant
                    i <= n,
                    n == pairs.len(),
                    all == text::texts(pairs@),
                    query_page_size(text::text_of(*query)) == first_page_size(all),
                    first_page_size(all) == first_page_size(all.skip(i as int)),
                decreases n - i,
            {
                assert(all.skip(i as int)[0] == pairs@[i as int]@);
                assert(all.skip(i as int).skip(1) =~= all.skip(i + 1));
                let size = page_size_in_pair(pairs[i].as_str());
                if size.is_some() {
                    return size;
                }
                i = i + 1;
            }
            None
        },
        None => None,
    }
}

/// The page size of a request for the contract listing; none for any other
/// request.
pub open spec fn listing_page_size(
    method: Seq<char>,
    path: Seq<char>,
    query: Option<Seq<char>>,
) -> Option<u32> {
    if method != "GET"@ || path != "/api/contracts"@ {
        None
    } else {
        match query_page_size(query) {
            Some(size) => Some(size),
            None => Some(DEFAULT_CONTRACTS_PAGE_SIZE),
        }
    }
}

pub fn contracts_page_size_rate_limit(method: &str, path: &str, query: &Option<String>) -> (size:
    Option<u32>)
    ensures
        size == listing_page_size(method@, path@, text::text_of(*query)),
{
    if !text::same_text(method, "GET") || !text::same_text(path, "/api/contracts") {
        return None;
    }
    match extract_page_size(query) {
        Some(size) => Some(size),
        None => Some(DEFAULT_CONTRACTS_PAGE_SIZE),
    }
}

/// How many pages of the default size a page of that size weighs, and at least one.
pub open spec fn page_weight(page_size: u32) -> int {
    let pages = (page_size + DEFAULT_CONTRACTS_PAGE_SIZE - 1) / DEFAULT_CONTRACTS_PAGE_SIZE as int;
    if pages >= 1 {
        pages
    } else {
        1
    }
}

/// The limit divided by the weight of a page, and at least one.
pub open spec fn scaled_limit(base_limit: u32, page_size: u32) -> int {
    let share = base_limit as int / page_weight(page_size);
    if share >= 1 {
        share
    } else {
        1
    }
}

/// The limit on requests for pages of that size.
pub fn scale_limit_by_page_size(base_limit: u32, page_size: u32) -> (limit: u32)
    ensures
        limit == scaled_limit(base_limit, page_size),
{
    let full: u32 = page_size / DEFAULT_CONTRACTS_PAGE_SIZE;
    let pages: u32 = if page_size % DEFAULT_CONTRACTS_PAGE_SIZE > 0 {
        full + 1
    } else {
        full
    };
    let weight: u32 = if pages >= 1 {
        pages
    } else {
        1
    };
    assert(weight == page_weight(page_size));
    let share: u32 = base_limit / weight;
    if share >= 1 {
        share
    } else {
        1
    }
}

/// A path with its letters in upper case and an underscore for every character
/// that is neither a letter nor a digit.
pub open spec fn screened(path: Seq<char>) -> Seq<char> {
    path.map_values(
        |c: char|
            if text::is_ascii_alphanumeric(c) {
                text::ascii_upper(c)
            } else {
                '_'
            },
    )
}

/// The words of a path, with one underscore between each and the next.
pub open spec fn compacted(path: Seq<char>) -> Seq<char> {
    text::joined(text::non_empty(text::pieces(screened(path), '_')), '_')
}

/// The key of an endpoint: its method and the words of its path.
pub open spec fn endpoint_key_text(method: Seq<char>, path: Seq<char>) -> Seq<char> {
    if compacted(path).len() == 0 {
        text::ascii_uppercase(method) + "_ROOT"@
    } else {
        text::ascii_uppercase(method) + "_"@ + compacted(path)
    }
}

fn screen(path: &str) -> (marked: String)
    ensures
        marked@ == screened(path@),
{
    let mut marked: String = String::new();
    let raised = text::chars_of(text::to_ascii_uppercase(path).as_str());
    let n: usize = raised.len();
    let mut i: usize = 0;
    while i < n
        invariant
            i <= n,
            n == raised.len(),
            raised@ == text::ascii_uppercase(path@),
            marked@ == screened(path@.take(i as int)),
        decreases n - i,
    {
        let c: char = raised[i];
        assert(c == text::ascii_upper(path@[i as int]));
        if ('0' <= c && c <= '9') || ('A' <= c && c <= 'Z') {
            marked.push(c);
        } else {
            marked.push('_');
        }
        i = i + 1;
        assert(marked@ =~= screened(path@.take(i as int)));
    }
    assert(path@.take(n as int) =~= path@);
    marked
}

/// The key of an endpoint, for settings that go by endpoint.
pub fn endpoint_key(method: &str, path: &str) -> (key: String)
    ensures
        key@ == endpoint_key_text(method@, path@),
{
    let marked = screen(path);
    let parts = text::split(marked.as_str(), '_');
    let n: usize = parts.len();
    let ghost all = text::texts(parts@);
    let ghost holds = |p: Seq<char>| p.len() > 0;
    let mut words: Vec<String> = Vec::new();
    let mut i: usize = 0;
    assert(all.take(0).filter(holds) =~= Seq::<Seq<char>>::empty());
    while i < n
        invariant
            i <= n,
            n == parts.len(),
            all == text::texts(parts@),
            holds == (|p: Seq<char>| p.len() > 0),
            text::texts(words@) == all.take(i as int).filter(holds),
        decreases n - i,
    {
        proof {
            reveal(Seq::filter);
            assert(all.take(i + 1).drop_last() =~= all.take(i as int));
            assert(all.take(i + 1).last() == parts@[i as int]@);
        }
        if !parts[i].as_str().is_empty() {
            let ghost earlier = words@;
            words.push(parts[i].clone());
            assert(text::texts(words@) =~= text::texts(earlier).push(parts@[i as int]@));
        }
        i = i + 1;
    }
    assert(all.take(n as int) =~= all);
    let compact_path = text::join(&words, '_');
    let mut key = text::to_ascii_uppercase(method);
    if compact_path.as_str().is_empty() {
        key.append("_ROOT");
    } else {
        key.append("_");
        key.append(compact_path.as_str());
    }
    key
}

} // verus!
