//! What the limiter reads of a request: who sent it, and for what.

use axum::http::{HeaderMap, HeaderValue};
use vstd::prelude::*;
use vstd::string::*;

use crate::text;
use crate::tier;
use crate::tier::ApiTier;

verus! {

// ---------------------------------------------------------------------------
// Headers as they arrive
// ---------------------------------------------------------------------------

/// `axum::http::HeaderMap`, a collection of header values by header name.
#[verifier::external_type_specification]
#[verifier::external_body]
#[verifier::reject_recursive_types(T)]
pub struct ExHeaderMap<T>(axum::http::HeaderMap<T>);

/// `axum::http::HeaderValue`, the bytes of one header value.
#[verifier::external_type_specification]
#[verifier::external_body]
pub struct ExHeaderValue(axum::http::HeaderValue);

/// What a header map holds: under each name, in lower case, the bytes of its
/// values, in order.
pub uninterp spec fn header_values(headers: HeaderMap<HeaderValue>) -> Map<Seq<char>, Seq<Seq<u8>>>;

/// Whether `name` is a header name in lower case, of letters, digits and hyphens
/// and of ordinary length.
pub open spec fn is_header_name(name: Seq<char>) -> bool {
    1 <= name.len() <= 64 && forall|i: int|
        0 <= i < name.len() ==> {
            ||| 'a' <= #[trigger] name[i] <= 'z'
            ||| '0' <= name[i] <= '9'
            ||| name[i] == '-'
        }
}

/// Calls `HeaderMap::get`: the first value under the name, as bytes, where there
/// is one.
#[verifier::external_body]
fn first_value(headers: &HeaderMap<HeaderValue>, name: &str) -> (value: Option<Vec<u8>>)
    requires
        is_header_name(name@),
    ensures
        match value {
            Some(bytes) => header_values(*headers).contains_key(name@) && header_values(
                *headers,
            )[name@].len() > 0 && bytes@ == header_values(*headers)[name@][0],
            None => !header_values(*headers).contains_key(name@),
        },
{
    headers.get(name).map(|value| value.as_bytes().to_vec())
}

/// A byte that may stand in a header text: visible ASCII, a space or a tab.
pub open spec fn is_visible(byte: u8) -> bool {
    32 <= byte < 127 || byte == 9
}

/// The text of a header value; none where a byte of it is not visible.
pub open spec fn visible_text(bytes: Seq<u8>) -> Option<Seq<char>> {
    if forall|i: int| 0 <= i < bytes.len() ==> is_visible(#[trigger] bytes[i]) {
        Some(bytes.map_values(|byte: u8| byte as char))
    } else {
        None
    }
}

/// The text of a header value; none where a byte of it is not visible.
pub fn header_text(bytes: &Vec<u8>) -> (value: Option<String>)
    ensures
        text::text_of(value) == visible_text(bytes@),
{
    let n: usize = bytes.len();
    let mut value: String = String::new();
    let mut i: usize = 0;
    while i < n
        invariant
            i <= n,
            n == bytes.len(),
            forall|k: int| 0 <= k < i ==> is_visible(#[trigger] bytes@[k]),
            value@ == bytes@.take(i as int).map_values(|byte: u8| byte as char),
        decreases n - i,
    {
        let byte: u8 = bytes[i];
        if !((32 <= byte && byte < 127) || byte == 9) {
            assert(!is_visible(bytes@[i as int]));
            return None;
        }
        value.push(byte as char);
        i = i + 1;
        assert(value@ =~= bytes@.take(i as int).map_values(|byte: u8| byte as char));
    }
    assert(bytes@.take(n as int) =~= bytes@);
    Some(value)
}

/// The text of the first value under `name`, where there is one with a text.
pub open spec fn text_under(values: Map<Seq<char>, Seq<Seq<u8>>>, name: Seq<char>) -> Option<Seq<char>> {
    if values.contains_key(name) {
        visible_text(values[name][0])
    } else {
        None
    }
}

fn read_text(headers: &HeaderMap<HeaderValue>, name: &str) -> (value: Option<String>)
    requires
        is_header_name(name@),
    ensures
        text::text_of(value) == text_under(header_values(*headers), name@),
{
    match first_value(headers, name) {
        Some(bytes) => header_text(&bytes),
        None => None,
    }
}

/// The headers by which the limiter knows a client, each as text where it is
/// present and readable.
pub struct RequestHeaders {
    pub x_forwarded_for: Option<String>,
    pub x_real_ip: Option<String>,
    pub x_api_key: Option<String>,
    pub authorization: Option<String>,
    pub x_api_plan: Option<String>,
}

impl RequestHeaders {
    /// Reads the headers out of a header map.
    pub fn read(headers: &HeaderMap<HeaderValue>) -> (read: RequestHeaders)
        ensures
            text::text_of(read.x_forwarded_for) == text_under(
                header_values(*headers),
                "x-forwarded-for"@,
            ),
            text::text_of(read.x_real_ip) == text_under(header_values(*headers), "x-real-ip"@),
            text::text_of(read.x_api_key) == text_under(header_values(*headers), "x-api-key"@),
            text::text_of(read.authorization) == text_under(
                header_values(*headers),
                "authorization"@,
            ),
            text::text_of(read.x_api_plan) == text_under(header_values(*headers), "x-api-plan"@),
    {
        proof {
            reveal_strlit("x-forwarded-for");
            reveal_strlit("x-real-ip");
            reveal_strlit("x-api-key");
            reveal_strlit("authorization");
            reveal_strlit("x-api-plan");
        }
        RequestHeaders {
            x_forwarded_for: read_text(headers, "x-forwarded-for"),
            x_real_ip: read_text(headers, "x-real-ip"),
            x_api_key: read_text(headers, "x-api-key"),
            authorization: read_text(headers, "authorization"),
            x_api_plan: read_text(headers, "x-api-plan"),
        }
    }
}

// ---------------------------------------------------------------------------
// The client's address
// ---------------------------------------------------------------------------

/// What a text names when read as an address: an IP address, or a socket
/// address, of which the IP address counts; both in canonical spelling.
pub struct AddrReading {
    pub ip: Option<String>,
    pub socket_ip: Option<String>,
}

impl AddrReading {
    /// The IP address that the text names.
    pub open spec fn address(self) -> Option<Seq<char>> {
        match self.ip {
            Some(ip) => Some(ip@),
            None => text::text_of(self.socket_ip),
        }
    }
}

/// The IP address that a text names: itself, or that of a socket address.
pub fn parse_ip_addr(reading: &AddrReading) -> (ip: Option<String>)
    ensures
        text::text_of(ip) == reading.address(),
{
    match &reading.ip {
        Some(ip) => Some(ip.clone()),
        None => match &reading.socket_ip {
            Some(ip) => Some(ip.clone()),
            None => None,
        },
    }
}

/// The address of the first entry that names one.
pub open spec fn first_address(readings: Seq<AddrReading>) -> Option<Seq<char>>
    decreases readings.len(),
{
    if readings.len() == 0 {
        None
    } else if readings[0].address() is Some {
        readings[0].address()
    } else {
        first_address(readings.skip(1))
    }
}

/// The address of the first entry of a forwarding header that names one.
pub fn parse_x_forwarded_for(readings: &Vec<AddrReading>) -> (ip: Option<String>)
    ensures
        text::text_of(ip) == first_address(readings@),
{
    let n: usize = readings.len();
    let mut i: usize = 0;
    assert(readings@.skip(0) =~= readings@);
    while i < n
        invariant
            i <= n,
            n == readings.len(),
            first_address(readings@) == first_address(readings@.skip(i as int)),
        decreases n - i,
    {
        assert(readings@.skip(i as int)[0] == readings@[i as int]);
        assert(readings@.skip(i as int).skip(1) =~= readings@.skip(i + 1));
        let ip = parse_ip_addr(&readings[i]);
        if ip.is_some() {
            return ip;
        }
        i = i + 1;
    }
    None
}

/// The texts that may name the client's address: the entries of the forwarding
/// header, in order, and the real-address header.
pub struct AddressTexts {
    pub forwarded: Vec<String>,
    pub real_ip: Option<String>,
}

/// The texts of a request's headers that may name the client's address.
pub fn address_texts(headers: &RequestHeaders) -> (found: AddressTexts)
    ensures
        text::texts(found.forwarded@) == (match headers.x_forwarded_for {
            Some(raw) => text::list_entries(raw@),
            None => Seq::empty(),
        }),
        text::text_of(found.real_ip) == text::text_of(headers.x_real_ip),
{
    let forwarded = match &headers.x_forwarded_for {
        Some(raw) => text::split_list(raw.as_str()),
        None => Vec::new(),
    };
    assert(headers.x_forwarded_for is None ==> text::texts(forwarded@) =~= Seq::empty());
    let real_ip = match &headers.x_real_ip {
        Some(raw) => Some(raw.clone()),
        None => None,
    };
    AddressTexts { forwarded, real_ip }
}

/// How the entries of the forwarding header and the real-address header read,
/// and the address of the connection's peer.
pub struct AddressClues {
    pub forwarded: Vec<AddrReading>,
    pub real_ip: Option<AddrReading>,
    pub peer_ip: Option<String>,
}

/// The client's address: as forwarded, else as the real-address header gives it,
/// else that of the peer.
pub open spec fn client_ip_of(clues: AddressClues) -> Seq<char> {
    match first_address(clues.forwarded@) {
        Some(ip) => ip,
        None => match clues.real_ip {
            Some(reading) if reading.address() is Some => reading.address()->0,
            _ => match clues.peer_ip {
                Some(ip) => ip@,
                None => "unknown"@,
            },
        },
    }
}

/// The client's address, by the first clue that gives one.
pub fn extract_client_ip(clues: &AddressClues) -> (ip: String)
    ensures
        ip@ == client_ip_of(*clues),
{
    if let Some(ip) = parse_x_forwarded_for(&clues.forwarded) {
        return ip;
    }
    if let Some(reading) = &clues.real_ip {
        if let Some(ip) = parse_ip_addr(reading) {
            return ip;
        }
    }
    if let Some(ip) = &clues.peer_ip {
        return ip.clone();
    }
    "unknown".to_owned()
}

// ---------------------------------------------------------------------------
// Plan and credentials
// ---------------------------------------------------------------------------

/// The tier that the plan header asks for; free where there is none.
pub open spec fn requested_tier(headers: RequestHeaders) -> ApiTier {
    match headers.x_api_plan {
        Some(plan) => tier::tier_for_plan(plan@),
        None => ApiTier::Free,
    }
}

/// Resolves the API tier from the plan header. Free where the header is absent
/// or unrecognised.
pub fn extract_api_tier(headers: &RequestHeaders) -> (tier: ApiTier)
    ensures
        tier == requested_tier(*headers),
{
    match &headers.x_api_plan {
        Some(plan) => ApiTier::from_header(plan.as_str()),
        None => ApiTier::Free,
    }
}

/// The value without the white space round it, where anything is left.
pub open spec fn present(value: Option<String>) -> Option<Seq<char>> {
    match value {
        Some(v) => if text::trimmed(v@).len() > 0 {
            Some(text::trimmed(v@))
        } else {
            None
        },
        None => None,
    }
}

fn trimmed_value(value: &Option<String>) -> (token: Option<String>)
    ensures
        text::text_of(token) == present(*value),
{
    match value {
        Some(v) => {
            let inner = text::trim(v.as_str());
            if inner.is_empty() {
                None
            } else {
                Some(inner.to_owned())
            }
        },
        None => None,
    }
}

/// The credential that a request carries: its API key, else what it gives as
/// authorization.
pub open spec fn auth_token(headers: RequestHeaders) -> Option<Seq<char>> {
    match present(headers.x_api_key) {
        Some(token) => Some(token),
        None => present(headers.authorization),
    }
}

/// The credential that a request carries, where it carries one.
pub fn extract_auth_token(headers: &RequestHeaders) -> (token: Option<String>)
    ensures
        text::text_of(token) == auth_token(*headers),
{
    if let Some(token) = trimmed_value(&headers.x_api_key) {
        return Some(token);
    }
    trimmed_value(&headers.authorization)
}

/// The API key inside a credential: without a scheme in front, and without white
/// space round it.
pub open spec fn api_key_of(token: Seq<char>) -> Seq<char> {
    text::trimmed(
        if "Bearer "@.is_prefix_of(token) {
            token.skip("Bearer "@.len() as int)
        } else if "ApiKey "@.is_prefix_of(token) {
            token.skip("ApiKey "@.len() as int)
        } else {
            token
        },
    )
}

/// The API key inside a credential.
pub fn normalize_token(token: &str) -> (key: &str)
    ensures
        key@ == api_key_of(token@),
{
    let bare = match text::strip_prefix(token, "Bearer ") {
        Some(rest) => rest,
        None => match text::strip_prefix(token, "ApiKey ") {
            Some(rest) => rest,
            None => token,
        },
    };
    text::trim(bare)
}

/// What the limiter reads of a request.
pub struct RequestHead {
    pub method: String,
    pub path: String,
    pub query: Option<String>,
    pub headers: RequestHeaders,
    pub client_ip: String,
}

impl RequestHead {
    /// The head of a request whose sender's address is told by `clues`.
    pub fn new(
        method: String,
        path: String,
        query: Option<String>,
        headers: RequestHeaders,
        clues: &AddressClues,
    ) -> (head: RequestHead)
        ensures
            head.method == method,
            head.path == path,
            head.query == query,
            head.headers == headers,
            head.client_ip@ == client_ip_of(*clues),
    {
        RequestHead { method, path, query, headers, client_ip: extract_client_ip(clues) }
    }
}

} // verus!
