use vstd::prelude::*;
use vstd::string::StringExecFns;
use vstd::utf8::encode_utf8;

use crate::request_type::{segment_of, RequestType};

verus! {

/// Host of the default endpoint.
pub const API_URL: &'static str = "https://cdn.capture.page";

/// Host of the edge endpoint.
pub const EDGE_URL: &'static str = "https://edge.capture.page";

/// The lowercase hexadecimal MD5 digest of a byte string.
pub uninterp spec fn md5_lower_hex(data: Seq<u8>) -> Seq<char>;

/// A lowercase hexadecimal digit: `0` to `9` or `a` to `f`.
pub open spec fn is_lower_hex_digit(c: char) -> bool {
    ('0' <= c && c <= '9') || ('a' <= c && c <= 'f')
}

/// A well-formed token: 32 lowercase hexadecimal digits.
pub open spec fn is_token(t: Seq<char>) -> bool {
    t.len() == 32 && forall|i: int| 0 <= i < t.len() ==> is_lower_hex_digit(#[trigger] t[i])
}

/// Relies on md5::compute and the `{:x}` form of its digest: the digest of the
/// UTF-8 bytes of `data`, two lowercase hexadecimal digits for each of its 16 bytes.
#[verifier::external_body]
fn md5_hex(data: &str) -> (r: String)
    ensures
        r@ == md5_lower_hex(encode_utf8(data@)),
        is_token(r@),
{
    format!("{:x}", md5::compute(data.as_bytes()))
}

/// The bytes that are signed: the secret followed by the query string.
pub open spec fn signed_bytes(secret: Seq<char>, query: Seq<char>) -> Seq<u8> {
    encode_utf8(secret + query)
}

/// The signing token of a query string under a secret.
pub open spec fn token_of(secret: Seq<char>, query: Seq<char>) -> Seq<char> {
    md5_lower_hex(signed_bytes(secret, query))
}

/// Two different secrets sign different byte strings for the same query. That
/// their tokens differ as well rests on MD5 itself and is not stated here.
pub proof fn different_secrets_sign_different_bytes(
    secret1: Seq<char>,
    secret2: Seq<char>,
    query: Seq<char>,
)
    requires
        secret1 != secret2,
    ensures
        signed_bytes(secret1, query) != signed_bytes(secret2, query),
{
    if signed_bytes(secret1, query) == signed_bytes(secret2, query) {
        vstd::utf8::encode_utf8_decode_utf8(secret1 + query);
        vstd::utf8::encode_utf8_decode_utf8(secret2 + query);
        assert(secret1 + query == secret2 + query);
        assert(secret1 =~= (secret1 + query).subrange(0, secret1.len() as int));
        assert(secret2 =~= (secret2 + query).subrange(0, secret2.len() as int));
    }
}

/// The signing token: the MD5 digest, in lowercase hexadecimal, of the secret
/// and the query string written one after the other.
pub fn generate_token(secret: &str, query: &str) -> (r: String)
    ensures
        r@ == token_of(secret@, query@),
        is_token(r@),
{
    let mut data = secret.to_string();
    data.append(query);
    md5_hex(data.as_str())
}

/// The host that the edge flag selects.
pub open spec fn base_host(use_edge: bool) -> Seq<char> {
    if use_edge {
        EDGE_URL@
    } else {
        API_URL@
    }
}

/// `{host}/{key}/{token}/{segment}?{query}`.
pub open spec fn url_with_token(
    use_edge: bool,
    key: Seq<char>,
    token: Seq<char>,
    request_type: RequestType,
    query: Seq<char>,
) -> Seq<char> {
    base_host(use_edge) + seq!['/'] + key + seq!['/'] + token + seq!['/'] + segment_of(request_type)
        + seq!['?'] + query
}

/// Writes a request URL from its parts: `{host}/{key}/{token}/{segment}?{query}`,
/// the host being the edge one where `use_edge` is set and the default one otherwise.
pub fn compose_url(
    use_edge: bool,
    key: &str,
    token: &str,
    request_type: RequestType,
    query: &str,
) -> (r: String)
    ensures
        r@ == url_with_token(use_edge, key@, token@, request_type, query@),
{
    let mut url = if use_edge {
        EDGE_URL.to_string()
    } else {
        API_URL.to_string()
    };
    proof {
        reveal_strlit("/");
        reveal_strlit("?");
    }
    url.append("/");
    url.append(key);
    url.append("/");
    url.append(token);
    url.append("/");
    url.append(request_type.as_str());
    url.append("?");
    url.append(query);
    url
}

} // verus!
