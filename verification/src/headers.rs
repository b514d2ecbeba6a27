//! The HTTP headers of a request.

use reqwest::header::{HeaderMap, HeaderValue};
use vstd::prelude::*;
use vstd::string::*;
use vstd::utf8::encode_utf8;

verus! {

/// `reqwest::header::HeaderMap`.
#[verifier::external_type_specification]
#[verifier::external_body]
#[verifier::reject_recursive_types(T)]
pub struct ExHeaderMap<T>(reqwest::header::HeaderMap<T>);

/// `reqwest::header::HeaderValue`.
#[verifier::external_type_specification]
#[verifier::external_body]
pub struct ExHeaderValue(reqwest::header::HeaderValue);

/// `reqwest::header::InvalidHeaderValue`.
#[verifier::external_type_specification]
#[verifier::external_body]
pub struct ExInvalidHeaderValue(reqwest::header::InvalidHeaderValue);

/// The bytes of a header value.
pub uninterp spec fn header_bytes(value: reqwest::header::HeaderValue) -> Seq<u8>;

/// The values of each header in a header map.
pub uninterp spec fn header_lines(
    headers: reqwest::header::HeaderMap<reqwest::header::HeaderValue>,
) -> Map<Seq<char>, Seq<Seq<u8>>>;

/// No header at all.
pub open spec fn no_headers() -> Map<Seq<char>, Seq<Seq<u8>>> {
    Map::empty()
}

/// `HeaderMap::new` holds no header.
pub assume_specification[ reqwest::header::HeaderMap::new ]() -> (headers: reqwest::header::HeaderMap)
    ensures
        header_lines(headers) == no_headers(),
;

/// The characters that may stand in a header value: no control character but the tab.
pub open spec fn header_safe(text: Seq<char>) -> bool {
    forall|i: int|
        0 <= i < text.len() ==> (#[trigger] text[i] as u32) >= 32 && text[i] as u32 != 127 || text[i]
            == '\t'
}

/// `HeaderValue::from_str` takes any text without control characters as it is, and refuses any
/// other.
pub assume_specification[ reqwest::header::HeaderValue::from_str ](src: &str) -> (value: Result<
    reqwest::header::HeaderValue,
    reqwest::header::InvalidHeaderValue,
>)
    ensures
        match value {
            Ok(v) => header_safe(src@) && header_bytes(v) == encode_utf8(src@),
            Err(_) => !header_safe(src@),
        },
;

/// `HeaderValue::from_static` takes a text of visible ASCII characters as it is. It panics on any
/// other.
pub assume_specification[ reqwest::header::HeaderValue::from_static ](src: &'static str) -> (value:
    reqwest::header::HeaderValue)
    requires
        forall|i: int| 0 <= i < src@.len() ==> 32 <= (#[trigger] src@[i] as u32) < 127,
    ensures
        header_bytes(value) == encode_utf8(src@),
;

/// Lower-case letters and hyphens, as in the name of a header.
pub open spec fn header_name(name: Seq<char>) -> bool {
    &&& 0 < name.len() <= 64
    &&& forall|i: int| 0 <= i < name.len() ==> 'a' <= #[trigger] name[i] <= 'z' || name[i] == '-'
}

/// `HeaderMap::insert` makes `value` the only value of the header `name`. It panics on a name that
/// is not one of a header, and on a map that has grown beyond its largest size.
#[verifier::external_body]
fn insert(headers: &mut HeaderMap, name: &'static str, value: HeaderValue)
    requires
        header_name(name@),
        header_lines(*old(headers)).dom().len() < 64,
    ensures
        header_lines(*final(headers)) == header_lines(*old(headers)).insert(
            name@,
            seq![header_bytes(value)],
        ),
{
    headers.insert(name, value);
}

/// Why no headers could be made.
#[derive(Debug, Clone, Copy, PartialEq, Eq, Structural)]
pub enum HeaderError {
    /// The API key holds a character that no header may hold.
    InvalidApiKey,
}

impl HeaderError {
    /// What is said of the error.
    pub fn message(&self) -> (text: &'static str)
        ensures
            text@ == "failed to parse header value"@,
    {
        "failed to parse header value"
    }
}

/// The headers of a request that carries JSON and is authorised by `api_key`.
pub open spec fn chat_headers(api_key: Seq<char>) -> Map<Seq<char>, Seq<Seq<u8>>> {
    map![
        "content-type"@ => seq![encode_utf8("application/json"@)],
        "authorization"@ => seq![encode_utf8("Bearer "@ + api_key)],
    ]
}

/// The headers of a request, where `api_key` can stand in one.
pub fn request_headers(api_key: &str) -> (headers: Result<HeaderMap, HeaderError>)
    ensures
        match headers {
            Ok(h) => header_safe(api_key@) && header_lines(h) == chat_headers(api_key@),
            Err(e) => !header_safe(api_key@) && e == HeaderError::InvalidApiKey,
        },
{
    proof {
        reveal_strlit("content-type");
        reveal_strlit("authorization");
        reveal_strlit("application/json");
        reveal_strlit("Bearer ");
    }
    let mut headers = HeaderMap::new();
    insert(&mut headers, "content-type", HeaderValue::from_static("application/json"));
    let mut bearer = "Bearer ".to_owned();
    bearer.append(api_key);
    proof {
        lemma_bearer_safe(api_key@);
    }
    match HeaderValue::from_str(&bearer) {
        Ok(value) => {
            insert(&mut headers, "authorization", value);
            assert(header_lines(headers) =~= chat_headers(api_key@));
            Ok(headers)
        },
        Err(_) => Err(HeaderError::InvalidApiKey),
    }
}

proof fn lemma_bearer_safe(api_key: Seq<char>)
    ensures
        header_safe("Bearer "@ + api_key) == header_safe(api_key),
{
    reveal_strlit("Bearer ");
    let line = "Bearer "@ + api_key;
    if header_safe(line) {
        assert forall|i: int| 0 <= i < api_key.len() implies (#[trigger] api_key[i] as u32) >= 32
            && api_key[i] as u32 != 127 || api_key[i] == '\t' by {
            assert(line[i + 7] == api_key[i]);
        }
    }
    if header_safe(api_key) {
        assert forall|i: int| 0 <= i < line.len() implies (#[trigger] line[i] as u32) >= 32
            && line[i] as u32 != 127 || line[i] == '\t' by {
            if i >= 7 {
                assert(line[i] == api_key[i - 7]);
            }
        }
    }
}

// ---- laws ----

/// A text can stand in a header exactly where it holds none of the control characters below 32 but
/// the tab, nor the one at 127; and two texts can stand there one behind the other exactly where
/// each can.
pub proof fn control_characters_are_not_safe(a: Seq<char>, b: Seq<char>)
    ensures
        header_safe(a) <==> forall|i: int|
            0 <= i < a.len() ==> {
                ||| #[trigger] a[i] == '\t'
                ||| 32 <= a[i] as u32 <= 126
                ||| 128 <= a[i] as u32
            },
        header_safe(a + b) <==> header_safe(a) && header_safe(b),
{
    let line = a + b;
    if header_safe(line) {
        assert forall|i: int| 0 <= i < a.len() implies (#[trigger] a[i] as u32) >= 32 && a[i] as u32
            != 127 || a[i] == '\t' by {
            assert(line[i] == a[i]);
        }
        assert forall|i: int| 0 <= i < b.len() implies (#[trigger] b[i] as u32) >= 32 && b[i] as u32
            != 127 || b[i] == '\t' by {
            assert(line[i + a.len()] == b[i]);
        }
    }
    if header_safe(a) && header_safe(b) {
        assert forall|i: int| 0 <= i < line.len() implies (#[trigger] line[i] as u32) >= 32
            && line[i] as u32 != 127 || line[i] == '\t' by {
            if i >= a.len() {
                assert(line[i] == b[i - a.len()]);
            } else {
                assert(line[i] == a[i]);
            }
        }
    }
}

/// A request has two headers, each with one value: it carries JSON, and the whole API key stands
/// behind the word `Bearer`.
pub proof fn requests_are_authorised_by_the_key(api_key: Seq<char>)
    ensures
        chat_headers(api_key).dom() == set!["content-type"@, "authorization"@],
        chat_headers(api_key)["content-type"@] == seq![encode_utf8("application/json"@)],
        chat_headers(api_key)["authorization"@] == seq![encode_utf8("Bearer "@ + api_key)],
{
    reveal_strlit("content-type");
    reveal_strlit("authorization");
    assert("content-type"@.len() == 12 && "authorization"@.len() == 13);
    assert(chat_headers(api_key).dom() =~= set!["content-type"@, "authorization"@]);
}

} // verus!
