//! Extraction of the caller's user ID from a JWT: the token's payload part
//! is base64url-decoded, parsed as JSON, and searched for the usual user-ID
//! claims.

use vstd::prelude::*;
use crate::json::{json_of, lookup_spec, lookup_field, parse_json, JsonValue};

verus! {

/// The bytes behind a base64url (unpadded) text, when it decodes at all.
pub uninterp spec fn b64url_of(s: Seq<char>) -> Option<Seq<u8>>;

/// Relies on base64's URL_SAFE_NO_PAD engine: decodes base64url text
/// without padding, failing on invalid input; the outcome is a function of
/// the text alone.
#[verifier::external_body]
fn b64url_decode(s: &str) -> (r: Option<Vec<u8>>)
    ensures
        match r {
            Some(b) => b64url_of(s@) == Some(b@),
            None => b64url_of(s@) is None,
        },
{
    base64::Engine::decode(&base64::engine::general_purpose::URL_SAFE_NO_PAD, s).ok()
}

/// Relies on String::from_utf8: succeeds exactly on valid UTF-8 and then
/// carries the decoded characters of those bytes.
#[verifier::external_body]
fn utf8_string(bytes: Vec<u8>) -> (r: Option<String>)
    ensures
        match r {
            Some(t) => vstd::utf8::valid_utf8(bytes@) && t@ == vstd::utf8::decode_utf8(bytes@),
            None => !vstd::utf8::valid_utf8(bytes@),
        },
{
    String::from_utf8(bytes).ok()
}

/// Index of the first '.' at or after `t`; the length when none exists.
pub open spec fn dot_pos(s: Seq<char>, t: int) -> int
    decreases s.len() - t when t <= s.len()
{
    if t < 0 || t >= s.len() {
        s.len() as int
    } else if s[t] == '.' {
        t
    } else {
        dot_pos(s, t + 1)
    }
}

/// The payload part of a token of the form header.payload.signature;
/// `None` unless the token has exactly three parts.
pub open spec fn jwt_payload_span(s: Seq<char>) -> Option<Seq<char>> {
    let d1 = dot_pos(s, 0);
    let d2 = dot_pos(s, d1 + 1);
    let d3 = dot_pos(s, d2 + 1);
    if d1 < s.len() && d2 < s.len() && d3 == s.len() {
        Some(s.subrange(d1 + 1, d2))
    } else {
        None
    }
}

/// The user ID claimed by a JWT payload: the first present claim among
/// userId, user_id, sub and id, if its value is a string.
pub open spec fn user_id_claim(t: JsonValue) -> Option<Seq<char>> {
    match t {
        JsonValue::Object(fs) => {
            let c = if lookup_spec(fs@, "userId"@) is Some {
                lookup_spec(fs@, "userId"@)
            } else if lookup_spec(fs@, "user_id"@) is Some {
                lookup_spec(fs@, "user_id"@)
            } else if lookup_spec(fs@, "sub"@) is Some {
                lookup_spec(fs@, "sub"@)
            } else {
                lookup_spec(fs@, "id"@)
            };
            match c {
                Some(JsonValue::String(s)) => Some(s@),
                _ => None,
            }
        },
        _ => None,
    }
}

/// What `extract_user_id_from_jwt` yields for a token: the payload is
/// base64url-decoded, read as UTF-8, parsed as JSON, and the user-ID claim
/// taken; any failure along the way gives nothing.
pub open spec fn jwt_user_id(token: Seq<char>) -> Option<Seq<char>> {
    match jwt_payload_span(token) {
        None => None,
        Some(p) => match b64url_of(p) {
            None => None,
            Some(bytes) => if !vstd::utf8::valid_utf8(bytes) {
                None
            } else {
                match json_of(vstd::utf8::decode_utf8(bytes)) {
                    None => None,
                    Some(t) => user_id_claim(t),
                }
            },
        },
    }
}

fn dot_pos_x(s: &str, t: usize) -> (r: usize)
    requires
        t <= s@.len(),
    ensures
        r == dot_pos(s@, t as int),
        t <= r <= s@.len(),
        r < s@.len() ==> s@[r as int] == '.',
{
    let len = s.unicode_len();
    let mut k = t;
    loop
        invariant_except_break
            t <= k <= len,
            len == s@.len(),
            dot_pos(s@, t as int) == dot_pos(s@, k as int),
        ensures
            t <= k <= len,
            len == s@.len(),
            dot_pos(s@, t as int) == dot_pos(s@, k as int),
            k == len || s@[k as int] == '.',
            k < len ==> dot_pos(s@, k as int) == k,
        decreases len - k,
    {
        if k >= len {
            break;
        }
        if s.get_char(k) == '.' {
            break;
        }
        k = k + 1;
    }
    k
}

/// Extract the caller's user ID from a JWT by decoding its payload and
/// reading the usual user-ID claims.
pub fn extract_user_id_from_jwt(token: &str) -> (r: Option<String>)
    ensures
        match r {
            Some(s) => jwt_user_id(token@) == Some(s@),
            None => jwt_user_id(token@) is None,
        },
{
    let len = token.unicode_len();
    let d1 = dot_pos_x(token, 0);
    if d1 == len {
        return None;
    }
    let d2 = dot_pos_x(token, d1 + 1);
    if d2 == len {
        return None;
    }
    let d3 = dot_pos_x(token, d2 + 1);
    if d3 < len {
        return None;
    }
    let payload = token.substring_char(d1 + 1, d2);
    assert(payload@ == jwt_payload_span(token@).unwrap());

    let decoded = match b64url_decode(payload) {
        Some(b) => b,
        None => {
            return None;
        },
    };
    let payload_str = match utf8_string(decoded) {
        Some(t) => t,
        None => {
            return None;
        },
    };
    let tree = match parse_json(payload_str.as_str()) {
        Some(t) => t,
        None => {
            return None;
        },
    };

    match &tree {
        JsonValue::Object(fs) => {
            let claim = if lookup_field(fs, "userId").is_some() {
                lookup_field(fs, "userId")
            } else if lookup_field(fs, "user_id").is_some() {
                lookup_field(fs, "user_id")
            } else if lookup_field(fs, "sub").is_some() {
                lookup_field(fs, "sub")
            } else {
                lookup_field(fs, "id")
            };
            match claim {
                Some(v) => match v {
                    JsonValue::String(s) => Some(s.clone()),
                    _ => None,
                },
                None => None,
            }
        },
        _ => None,
    }
}

} // verus!
