//! The sign-in URL of Epic Games.
use crate::legacy_games::api::endpoints::concat;
use url::form_urlencoded;
use vstd::prelude::*;
use vstd::string::StringExecFns;
use vstd::string::StringSliceAdditionalSpecFns;
use vstd::utf8::encode_utf8;

verus! {

/// The bytes that form encoding keeps as they are: `*`, `-`, `.`, `_`,
/// digits and ASCII letters.
pub open spec fn kept_byte(b: u8) -> bool {
    b == 42 || b == 45 || b == 46 || (48 <= b <= 57) || (65 <= b <= 90) || b == 95 || (97 <= b
        <= 122)
}

/// An upper-case hexadecimal digit.
pub open spec fn hex_digit(d: u8) -> char {
    if d < 10 {
        (48 + d) as char
    } else {
        (55 + d) as char
    }
}

/// How form encoding writes one byte: kept, a space as `+`, else `%`
/// and two upper-case hexadecimal digits.
pub open spec fn form_encode_byte(b: u8) -> Seq<char> {
    if kept_byte(b) {
        seq![b as char]
    } else if b == 32 {
        seq!['+']
    } else {
        seq!['%', hex_digit(b / 16), hex_digit(b % 16)]
    }
}

/// The `application/x-www-form-urlencoded` form of `bytes`.
pub open spec fn form_urlencoded_spec(bytes: Seq<u8>) -> Seq<char>
    decreases bytes.len(),
{
    if bytes.len() == 0 {
        Seq::empty()
    } else {
        form_urlencoded_spec(bytes.drop_last()) + form_encode_byte(bytes.last())
    }
}

/// `url::form_urlencoded::byte_serialize(input)` collected into a string.
///
/// Trusted: the result encodes each byte in turn as `form_encode_byte`
/// says, which is what the crate's `byte_serialized_unchanged` and
/// `percent_encode_byte` do.
#[verifier::external_body]
fn form_urlencode(input: &[u8]) -> (r: String)
    ensures
        r@ == form_urlencoded_spec(input@),
{
    form_urlencoded::byte_serialize(input).collect::<String>()
}

/// The page Epic Games sends the browser back to after sign-in, for the
/// application `client_id`.
pub open spec fn redirect_url(client_id: Seq<char>) -> Seq<char> {
    "https://www.epicgames.com/id/api/redirect?clientId="@ + client_id + "&responseType=code"@
}

/// The sign-in page, with the page to come back to form-encoded in it.
pub open spec fn auth_url_spec(client_id: Seq<char>) -> Seq<char> {
    "https://www.epicgames.com/id/login?redirectUrl="@ + form_urlencoded_spec(
        encode_utf8(redirect_url(client_id)),
    )
}

/// The sign-in page, with the page to come back to form-encoded in it.
pub fn auth_url(client_id: &str) -> (r: String)
    ensures
        r@ == auth_url_spec(client_id@),
{
    let mut redirect = concat("https://www.epicgames.com/id/api/redirect?clientId=", client_id);
    redirect.append("&responseType=code");
    let encoded = form_urlencode(redirect.as_str().as_bytes());
    concat("https://www.epicgames.com/id/login?redirectUrl=", encoded.as_str())
}

} // verus!
