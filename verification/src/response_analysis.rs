//! Soft-fail and binary-response heuristics: a 200 OK whose body talks of
//! errors or denial, or carries binary or unstructured data, may mean that
//! authorization worked despite the success status.

use vstd::prelude::*;
use crate::text::{contains_ci_seq, str_contains_ci};
use vstd::string::StringSliceAdditionalSpecFns;

verus! {

pub open spec fn soft_fail_message(k: Seq<char>) -> Seq<char> {
    "Soft fail: '"@ + k + "'"@
}

/// A character outside printable text: non-ASCII, or an ASCII control
/// character that is not whitespace.
pub open spec fn is_binary_char(c: char) -> bool {
    ||| (c as u32) >= 128
    ||| (((c as u32) < 32 || (c as u32) == 127) && !(c == ' ' || c == '\t' || c == '\n' || c
        == '\u{C}' || c == '\r'))
}

pub open spec fn count_binary(s: Seq<char>) -> nat
    decreases s.len(),
{
    if s.len() == 0 {
        0
    } else {
        count_binary(s.drop_last()) + if is_binary_char(s.last()) {
            1nat
        } else {
            0nat
        }
    }
}

/// The byte length of the encoded text, as the machine reports it.
pub open spec fn byte_len(s: Seq<char>) -> usize {
    vstd::utf8::encode_utf8(s).len() as usize
}

/// The body is likely binary: it holds a NUL character, or more than 30%
/// of its characters are non-printable relative to its byte length.
pub open spec fn likely_binary_spec(s: Seq<char>) -> bool {
    ||| exists|i: int| 0 <= i < s.len() && s[i] == '\0'
    ||| (s.len() > 0 && 10 * count_binary(s) > 3 * byte_len(s))
}

pub open spec fn is_space_char(c: char) -> bool {
    c == ' ' || c == '\t' || c == '\n' || c == '\u{B}' || c == '\u{C}' || c == '\r'
}

/// Index of the first non-whitespace character at or after `i`; the length
/// when none exists.
pub open spec fn first_non_space(s: Seq<char>, i: int) -> int
    decreases s.len() - i when i <= s.len()
{
    if i < 0 || i >= s.len() {
        s.len() as int
    } else if is_space_char(s[i]) {
        first_non_space(s, i + 1)
    } else {
        i
    }
}

/// One past the last non-whitespace character at an index below `j`; zero
/// when none exists.
pub open spec fn last_non_space(s: Seq<char>, j: int) -> int
    decreases j when j <= s.len()
{
    if j <= 0 || j > s.len() {
        0
    } else if is_space_char(s[j - 1]) {
        last_non_space(s, j - 1)
    } else {
        j
    }
}

/// The trimmed body looks like structured data: empty, JSON-like, or an
/// XML/HTML-like tag span.
pub open spec fn structured_data_spec(s: Seq<char>) -> bool {
    let a = first_non_space(s, 0);
    let b = last_non_space(s, s.len() as int);
    if a >= s.len() {
        true
    } else {
        s[a] == '{' || s[a] == '[' || (s[a] == '<' && s[b - 1] == '>')
    }
}

/// What `analyze_response_soft_fails` reports for a body: the first
/// matching soft-fail keyword, else a binary warning, else a warning for
/// long unstructured text, else nothing.
pub open spec fn soft_fail_spec(s: Seq<char>) -> Option<Seq<char>> {
    if contains_ci_seq(s, "error"@) {
        Some(soft_fail_message("error"@))
    } else if contains_ci_seq(s, "not allowed"@) {
        Some(soft_fail_message("not allowed"@))
    } else if contains_ci_seq(s, "denied"@) {
        Some(soft_fail_message("denied"@))
    } else if contains_ci_seq(s, "forbidden"@) {
        Some(soft_fail_message("forbidden"@))
    } else if contains_ci_seq(s, "unauthorized"@) {
        Some(soft_fail_message("unauthorized"@))
    } else if contains_ci_seq(s, "permission"@) {
        Some(soft_fail_message("permission"@))
    } else if contains_ci_seq(s, "access denied"@) {
        Some(soft_fail_message("access denied"@))
    } else if contains_ci_seq(s, "not authorized"@) {
        Some(soft_fail_message("not authorized"@))
    } else if contains_ci_seq(s, "invalid"@) {
        Some(soft_fail_message("invalid"@))
    } else if contains_ci_seq(s, "failed"@) {
        Some(soft_fail_message("failed"@))
    } else if contains_ci_seq(s, "rejected"@) {
        Some(soft_fail_message("rejected"@))
    } else if contains_ci_seq(s, "not permitted"@) {
        Some(soft_fail_message("not permitted"@))
    } else if likely_binary_spec(s) {
        Some("Binary or non-text response"@)
    } else if !structured_data_spec(s) && s.len() > 0 && byte_len(s) > 50 {
        Some("Possible file or non-JSON response"@)
    } else {
        None
    }
}

proof fn lemma_byte_len(body: &str)
    ensures
        body.spec_bytes() == vstd::utf8::encode_utf8(body@),
{
}

proof fn lemma_last_non_space_past(s: Seq<char>, j: int, a: int)
    requires
        0 <= a < j <= s.len(),
        !is_space_char(s[a]),
    ensures
        last_non_space(s, j) > a,
    decreases j,
{
    if is_space_char(s[j - 1]) {
        lemma_last_non_space_past(s, j - 1, a);
    }
}

/// Whether the body is likely binary rather than text.
pub fn is_likely_binary(body: &str) -> (r: bool)
    ensures
        r == likely_binary_spec(body@),
{
    let len = body.unicode_len();
    let blen = body.len();
    let mut i: usize = 0;
    let mut cnt: usize = 0;
    let mut has_nul = false;
    while i < len
        invariant
            len == body@.len(),
            0 <= i <= len,
            0 <= cnt <= i,
            cnt == count_binary(body@.take(i as int)),
            has_nul == exists|j: int| 0 <= j < i && body@[j] == '\0',
        decreases len - i,
    {
        let c = body.get_char(i);
        proof {
            assert(body@.take(i + 1).drop_last() =~= body@.take(i as int));
            assert(body@.take(i + 1).last() == body@[i as int]);
        }
        if c == '\0' {
            has_nul = true;
        }
        let u = c as u32;
        if u >= 128 || ((u < 32 || u == 127) && !(c == ' ' || c == '\t' || c == '\n' || c
            == '\u{C}' || c == '\r')) {
            assert(is_binary_char(body@[i as int]));
            cnt = cnt + 1;
        } else {
            assert(!is_binary_char(body@[i as int]));
        }
        i = i + 1;
    }
    proof {
        assert(body@.take(len as int) =~= body@);
    }
    if has_nul {
        return true;
    }
    if len == 0 {
        return false;
    }
    proof {
        lemma_byte_len(body);
        assert(cnt == count_binary(body@));
        assert(blen == byte_len(body@));
    }
    (10u128 * cnt as u128) > (3u128 * blen as u128)
}

fn trim_start_x(body: &str) -> (r: usize)
    ensures
        r == first_non_space(body@, 0),
        r <= body@.len(),
        r < body@.len() ==> !is_space_char(body@[r as int]),
{
    let len = body.unicode_len();
    let mut i: usize = 0;
    loop
        invariant_except_break
            len == body@.len(),
            0 <= i <= len,
            first_non_space(body@, 0) == first_non_space(body@, i as int),
        ensures
            0 <= i <= len,
            first_non_space(body@, 0) == first_non_space(body@, i as int),
            i == len || !is_space_char(body@[i as int]),
            i < len ==> first_non_space(body@, i as int) == i,
        decreases len - i,
    {
        if i >= len {
            break;
        }
        let c = body.get_char(i);
        if c == ' ' || c == '\t' || c == '\n' || c == '\u{B}' || c == '\u{C}' || c == '\r' {
            assert(is_space_char(body@[i as int]));
            i = i + 1;
        } else {
            assert(!is_space_char(body@[i as int]));
            break;
        }
    }
    i
}

fn trim_end_x(body: &str) -> (r: usize)
    ensures
        r == last_non_space(body@, body@.len() as int),
        r <= body@.len(),
        r > 0 ==> !is_space_char(body@[r - 1]),
{
    let len = body.unicode_len();
    let mut j: usize = len;
    loop
        invariant_except_break
            len == body@.len(),
            0 <= j <= len,
            last_non_space(body@, len as int) == last_non_space(body@, j as int),
        ensures
            0 <= j <= len,
            last_non_space(body@, len as int) == last_non_space(body@, j as int),
            j == 0 || !is_space_char(body@[j - 1]),
            j > 0 ==> last_non_space(body@, j as int) == j,
        decreases j,
    {
        if j == 0 {
            break;
        }
        let c = body.get_char(j - 1);
        if c == ' ' || c == '\t' || c == '\n' || c == '\u{B}' || c == '\u{C}' || c == '\r' {
            assert(is_space_char(body@[j - 1]));
            j = j - 1;
        } else {
            assert(!is_space_char(body@[j - 1]));
            break;
        }
    }
    j
}

/// Whether the body looks like structured data (JSON, XML, HTML).
pub fn is_structured_data(body: &str) -> (r: bool)
    ensures
        r == structured_data_spec(body@),
{
    let a = trim_start_x(body);
    let len = body.unicode_len();
    if a >= len {
        return true;
    }
    let b = trim_end_x(body);
    proof {
        lemma_last_non_space_past(body@, len as int, a as int);
    }
    assert(b > 0 && !is_space_char(body@[b - 1]));
    let first = body.get_char(a);
    if first == '{' || first == '[' {
        return true;
    }
    if first == '<' {
        let last = body.get_char(b - 1);
        return last == '>';
    }
    false
}

/// Scan a response body for soft-fail clues: error language despite a
/// success status, binary content, or long unstructured text. Returns a
/// description of the first clue found.
pub fn analyze_response_soft_fails(body: &str) -> (r: Option<String>)
    ensures
        match r {
            Some(m) => soft_fail_spec(body@) == Some(m@),
            None => soft_fail_spec(body@) is None,
        },
{
    if str_contains_ci(body, "error") {
        return Some("Soft fail: '".to_owned().concat("error").concat("'"));
    }
    if str_contains_ci(body, "not allowed") {
        return Some("Soft fail: '".to_owned().concat("not allowed").concat("'"));
    }
    if str_contains_ci(body, "denied") {
        return Some("Soft fail: '".to_owned().concat("denied").concat("'"));
    }
    if str_contains_ci(body, "forbidden") {
        return Some("Soft fail: '".to_owned().concat("forbidden").concat("'"));
    }
    if str_contains_ci(body, "unauthorized") {
        return Some("Soft fail: '".to_owned().concat("unauthorized").concat("'"));
    }
    if str_contains_ci(body, "permission") {
        return Some("Soft fail: '".to_owned().concat("permission").concat("'"));
    }
    if str_contains_ci(body, "access denied") {
        return Some("Soft fail: '".to_owned().concat("access denied").concat("'"));
    }
    if str_contains_ci(body, "not authorized") {
        return Some("Soft fail: '".to_owned().concat("not authorized").concat("'"));
    }
    if str_contains_ci(body, "invalid") {
        return Some("Soft fail: '".to_owned().concat("invalid").concat("'"));
    }
    if str_contains_ci(body, "failed") {
        return Some("Soft fail: '".to_owned().concat("failed").concat("'"));
    }
    if str_contains_ci(body, "rejected") {
        return Some("Soft fail: '".to_owned().concat("rejected").concat("'"));
    }
    if str_contains_ci(body, "not permitted") {
        return Some("Soft fail: '".to_owned().concat("not permitted").concat("'"));
    }

    if is_likely_binary(body) {
        return Some("Binary or non-text response".to_owned());
    }

    let blen = body.len();
    proof {
        lemma_byte_len(body);
    }
    if !is_structured_data(body) && !body.is_empty() && blen > 50 {
        return Some("Possible file or non-JSON response".to_owned());
    }

    None
}

} // verus!
