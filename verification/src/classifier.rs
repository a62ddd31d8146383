//! Parameter risk classifier: static analysis of API parameter names for
//! likelihood of being an authorization-relevant identifier. Classifies a
//! name into a type, assigns a confidence band, and scores BOLA risk.

use vstd::prelude::*;
use crate::models::ParameterLocation;
use crate::text::{
    contains_ci_seq, eq_ci_seq, ends_with_ci_seq, starts_with_ci_seq, is_ascii_digit_char,
    str_contains_ci, str_eq_ci, str_ends_with_ci, str_starts_with_ci,
};

verus! {

/// Parameter type classification.
#[derive(Debug, Clone, Copy, PartialEq, Eq, Structural)]
pub enum ParamType {
    /// User or entity identifier (high BOLA risk).
    UserId,
    /// Resource identifier (high BOLA risk).
    ResourceId,
    /// UUID format identifier.
    Uuid,
    /// Numeric ID.
    NumericId,
    /// Email address.
    Email,
    /// Date/DateTime.
    DateTime,
    /// Boolean flag.
    Boolean,
    /// Generic string.
    String,
    /// Numeric value.
    Number,
    /// Array/List.
    Array,
    /// Nested object.
    Object,
    /// Unknown type.
    Unknown,
}

/// Confidence band for a classification.
#[derive(Debug, Clone, Copy, PartialEq, Eq, PartialOrd, Ord, Structural)]
pub enum Confidence {
    VeryHigh,
    High,
    Medium,
    Low,
    VeryLow,
}

impl Confidence {
    /// Fixed representative score of the band, used only for display.
    pub fn as_score(&self) -> (r: u8)
        ensures
            r == self.score_value(),
    {
        match self {
            Confidence::VeryHigh => 95,
            Confidence::High => 80,
            Confidence::Medium => 55,
            Confidence::Low => 30,
            Confidence::VeryLow => 10,
        }
    }

    /// The representative score of each band.
    pub open spec fn score_value(&self) -> u8 {
        match self {
            Confidence::VeryHigh => 95,
            Confidence::High => 80,
            Confidence::Medium => 55,
            Confidence::Low => 30,
            Confidence::VeryLow => 10,
        }
    }
}

impl ParamType {
    /// The variant's name, as summaries print it.
    pub open spec fn label_seq(&self) -> Seq<char> {
        match self {
            ParamType::UserId => "UserId"@,
            ParamType::ResourceId => "ResourceId"@,
            ParamType::Uuid => "Uuid"@,
            ParamType::NumericId => "NumericId"@,
            ParamType::Email => "Email"@,
            ParamType::DateTime => "DateTime"@,
            ParamType::Boolean => "Boolean"@,
            ParamType::String => "String"@,
            ParamType::Number => "Number"@,
            ParamType::Array => "Array"@,
            ParamType::Object => "Object"@,
            ParamType::Unknown => "Unknown"@,
        }
    }

    /// The variant's name, for display.
    pub fn label(&self) -> (r: &'static str)
        ensures
            r@ == self.label_seq(),
    {
        match self {
            ParamType::UserId => "UserId",
            ParamType::ResourceId => "ResourceId",
            ParamType::Uuid => "Uuid",
            ParamType::NumericId => "NumericId",
            ParamType::Email => "Email",
            ParamType::DateTime => "DateTime",
            ParamType::Boolean => "Boolean",
            ParamType::String => "String",
            ParamType::Number => "Number",
            ParamType::Array => "Array",
            ParamType::Object => "Object",
            ParamType::Unknown => "Unknown",
        }
    }
}

impl Confidence {
    /// The variant's name, as summaries print it.
    pub open spec fn label_seq(&self) -> Seq<char> {
        match self {
            Confidence::VeryHigh => "VeryHigh"@,
            Confidence::High => "High"@,
            Confidence::Medium => "Medium"@,
            Confidence::Low => "Low"@,
            Confidence::VeryLow => "VeryLow"@,
        }
    }

    /// The variant's name, for display.
    pub fn label(&self) -> (r: &'static str)
        ensures
            r@ == self.label_seq(),
    {
        match self {
            Confidence::VeryHigh => "VeryHigh",
            Confidence::High => "High",
            Confidence::Medium => "Medium",
            Confidence::Low => "Low",
            Confidence::VeryLow => "VeryLow",
        }
    }
}

/// A classified parameter with its risk assessment.
#[derive(Debug, Clone)]
pub struct DetectedParameter {
    pub name: String,
    pub param_type: ParamType,
    pub confidence: Confidence,
    /// 0-100; higher means more likely to be BOLA vulnerable.
    pub bola_risk_score: u8,
    pub context: ParameterContext,
}

/// Where and how the parameter is used.
#[derive(Debug, Clone)]
pub struct ParameterContext {
    pub endpoint_path: String,
    pub http_method: String,
    pub location: ParameterLocation,
    pub is_required: bool,
    pub related_resources: Vec<String>,
}

/// Names that directly identify a user or another owning entity.
pub open spec fn is_user_id_name(s: Seq<char>) -> bool {
    ||| eq_ci_seq(s, "user_id"@)
    ||| eq_ci_seq(s, "userid"@)
    ||| eq_ci_seq(s, "uid"@)
    ||| eq_ci_seq(s, "owner_id"@)
    ||| eq_ci_seq(s, "ownerid"@)
    ||| eq_ci_seq(s, "created_by"@)
    ||| eq_ci_seq(s, "createdby"@)
    ||| eq_ci_seq(s, "author_id"@)
    ||| eq_ci_seq(s, "authorid"@)
    ||| eq_ci_seq(s, "member_id"@)
    ||| eq_ci_seq(s, "memberid"@)
}

/// Names that identify a concrete owned resource.
pub open spec fn is_resource_id_name(s: Seq<char>) -> bool {
    ||| eq_ci_seq(s, "account_id"@)
    ||| eq_ci_seq(s, "accountid"@)
    ||| eq_ci_seq(s, "order_id"@)
    ||| eq_ci_seq(s, "orderid"@)
    ||| eq_ci_seq(s, "transaction_id"@)
    ||| eq_ci_seq(s, "transactionid"@)
    ||| eq_ci_seq(s, "txn_id"@)
    ||| eq_ci_seq(s, "txnid"@)
    ||| eq_ci_seq(s, "document_id"@)
    ||| eq_ci_seq(s, "documentid"@)
    ||| eq_ci_seq(s, "doc_id"@)
    ||| eq_ci_seq(s, "docid"@)
    ||| eq_ci_seq(s, "message_id"@)
    ||| eq_ci_seq(s, "messageid"@)
    ||| eq_ci_seq(s, "msg_id"@)
    ||| eq_ci_seq(s, "msgid"@)
    ||| eq_ci_seq(s, "project_id"@)
    ||| eq_ci_seq(s, "projectid"@)
    ||| eq_ci_seq(s, "post_id"@)
    ||| eq_ci_seq(s, "postid"@)
    ||| eq_ci_seq(s, "comment_id"@)
    ||| eq_ci_seq(s, "commentid"@)
    ||| eq_ci_seq(s, "file_id"@)
    ||| eq_ci_seq(s, "fileid"@)
    ||| eq_ci_seq(s, "payment_id"@)
    ||| eq_ci_seq(s, "paymentid"@)
}

/// Exact timestamp-style names.
pub open spec fn is_date_exact_name(s: Seq<char>) -> bool {
    ||| eq_ci_seq(s, "created_at"@)
    ||| eq_ci_seq(s, "createdat"@)
    ||| eq_ci_seq(s, "updated_at"@)
    ||| eq_ci_seq(s, "updatedat"@)
    ||| eq_ci_seq(s, "deleted_at"@)
    ||| eq_ci_seq(s, "deletedat"@)
    ||| eq_ci_seq(s, "date"@)
    ||| eq_ci_seq(s, "datetime"@)
    ||| eq_ci_seq(s, "timestamp"@)
}

pub open spec fn has_ascii_digit(s: Seq<char>) -> bool {
    exists|i: int| 0 <= i < s.len() && is_ascii_digit_char(s[i])
}

/// The ordered classification cascade, first match wins.
pub open spec fn classify_spec(s: Seq<char>) -> ParamType {
    if is_user_id_name(s) {
        ParamType::UserId
    } else if is_resource_id_name(s) {
        ParamType::ResourceId
    } else if contains_ci_seq(s, "uuid"@) || contains_ci_seq(s, "guid"@) {
        ParamType::Uuid
    } else if ends_with_ci_seq(s, "id"@) {
        if contains_ci_seq(s, "num"@) || has_ascii_digit(s) {
            ParamType::NumericId
        } else {
            ParamType::ResourceId
        }
    } else if contains_ci_seq(s, "email"@) || contains_ci_seq(s, "mail"@) {
        ParamType::Email
    } else if is_date_exact_name(s) || ends_with_ci_seq(s, "date"@) || ends_with_ci_seq(s, "time"@) {
        ParamType::DateTime
    } else if starts_with_ci_seq(s, "is_"@) || starts_with_ci_seq(s, "has_"@)
        || starts_with_ci_seq(s, "can_"@) || ends_with_ci_seq(s, "_flag"@) {
        ParamType::Boolean
    } else {
        ParamType::Unknown
    }
}

fn name_has_digit(s: &str) -> (r: bool)
    ensures
        r == has_ascii_digit(s@),
{
    let len = s.unicode_len();
    let mut i: usize = 0;
    while i < len
        invariant
            len == s@.len(),
            0 <= i <= len,
            forall|j: int| 0 <= j < i ==> !is_ascii_digit_char(#[trigger] s@[j]),
        decreases len - i,
    {
        let c = s.get_char(i);
        if '0' <= c && c <= '9' {
            assert(is_ascii_digit_char(s@[i as int]));
            return true;
        }
        i = i + 1;
    }
    false
}

fn is_user_id_name_x(name: &str) -> (r: bool)
    ensures
        r == is_user_id_name(name@),
{
    str_eq_ci(name, "user_id") || str_eq_ci(name, "userid") || str_eq_ci(name, "uid")
        || str_eq_ci(name, "owner_id") || str_eq_ci(name, "ownerid")
        || str_eq_ci(name, "created_by") || str_eq_ci(name, "createdby")
        || str_eq_ci(name, "author_id") || str_eq_ci(name, "authorid")
        || str_eq_ci(name, "member_id") || str_eq_ci(name, "memberid")
}

fn is_resource_id_name_x(name: &str) -> (r: bool)
    ensures
        r == is_resource_id_name(name@),
{
    str_eq_ci(name, "account_id") || str_eq_ci(name, "accountid")
        || str_eq_ci(name, "order_id") || str_eq_ci(name, "orderid")
        || str_eq_ci(name, "transaction_id") || str_eq_ci(name, "transactionid")
        || str_eq_ci(name, "txn_id") || str_eq_ci(name, "txnid")
        || str_eq_ci(name, "document_id") || str_eq_ci(name, "documentid")
        || str_eq_ci(name, "doc_id") || str_eq_ci(name, "docid")
        || str_eq_ci(name, "message_id") || str_eq_ci(name, "messageid")
        || str_eq_ci(name, "msg_id") || str_eq_ci(name, "msgid")
        || str_eq_ci(name, "project_id") || str_eq_ci(name, "projectid")
        || str_eq_ci(name, "post_id") || str_eq_ci(name, "postid")
        || str_eq_ci(name, "comment_id") || str_eq_ci(name, "commentid")
        || str_eq_ci(name, "file_id") || str_eq_ci(name, "fileid")
        || str_eq_ci(name, "payment_id") || str_eq_ci(name, "paymentid")
}

fn is_date_exact_name_x(name: &str) -> (r: bool)
    ensures
        r == is_date_exact_name(name@),
{
    str_eq_ci(name, "created_at") || str_eq_ci(name, "createdat")
        || str_eq_ci(name, "updated_at") || str_eq_ci(name, "updatedat")
        || str_eq_ci(name, "deleted_at") || str_eq_ci(name, "deletedat")
        || str_eq_ci(name, "date") || str_eq_ci(name, "datetime")
        || str_eq_ci(name, "timestamp")
}

/// Path segments that name routing conventions, not resources.
pub open spec fn is_reserved_segment(s: Seq<char>) -> bool {
    ||| s == "api"@
    ||| s == "v1"@
    ||| s == "v2"@
    ||| s == "v3"@
    ||| s == "public"@
    ||| s == "private"@
}

/// Length of the run of lower-case letters starting at index `i`.
pub open spec fn letter_run(p: Seq<char>, i: int) -> nat
    decreases p.len() - i when i <= p.len()
{
    if i < 0 || i >= p.len() || !crate::text::is_lower_alpha_char(p[i]) {
        0
    } else {
        1 + letter_run(p, i + 1)
    }
}

/// Index of the first '}' at or after `t`; the path length when none exists.
pub open spec fn close_pos(p: Seq<char>, t: int) -> int
    decreases p.len() - t when t <= p.len()
{
    if t < 0 || t >= p.len() {
        p.len() as int
    } else if p[t] == '}' {
        t
    } else {
        close_pos(p, t + 1)
    }
}

/// A `/{name}` placeholder segment starts at index `j`.
pub open spec fn brace_at(p: Seq<char>, j: int) -> bool {
    &&& j + 1 < p.len()
    &&& p[j] == '/'
    &&& p[j + 1] == '{'
    &&& close_pos(p, j + 2) < p.len()
    &&& close_pos(p, j + 2) >= j + 3
}

/// A resource segment starts at index `i`: a slash, a non-empty run of
/// lower-case letters, and then either the end of the path or a placeholder.
pub open spec fn resource_match_at(p: Seq<char>, i: int) -> bool {
    &&& 0 <= i < p.len()
    &&& p[i] == '/'
    &&& letter_run(p, i + 1) >= 1
    &&& {
        let e = i + 1 + letter_run(p, i + 1);
        e == p.len() || brace_at(p, e)
    }
}

proof fn lemma_letter_run_bounds(p: Seq<char>, i: int)
    requires
        i <= p.len(),
    ensures
        i + letter_run(p, i) <= p.len(),
    decreases p.len() - i,
{
    if 0 <= i < p.len() && crate::text::is_lower_alpha_char(p[i]) {
        lemma_letter_run_bounds(p, i + 1);
    }
}

proof fn lemma_close_pos_bounds(p: Seq<char>, t: int)
    requires
        0 <= t <= p.len(),
    ensures
        t <= close_pos(p, t) <= p.len(),
    decreases p.len() - t,
{
    if t < p.len() && p[t] != '}' {
        lemma_close_pos_bounds(p, t + 1);
    }
}

/// The resource words captured along the path, scanning left to right and
/// continuing after each captured segment.
pub open spec fn scan_resources(p: Seq<char>, i: int) -> Seq<Seq<char>>
    decreases p.len() - i when 0 <= i via scan_resources_decreases
{
    if i >= p.len() {
        Seq::empty()
    } else if resource_match_at(p, i) {
        let e = i + 1 + letter_run(p, i + 1);
        let word = p.subrange(i + 1, e);
        let next = if e == p.len() {
            e
        } else {
            close_pos(p, e + 2) + 1
        };
        seq![word] + scan_resources(p, next)
    } else {
        scan_resources(p, i + 1)
    }
}

#[via_fn]
proof fn scan_resources_decreases(p: Seq<char>, i: int) {
    if i < p.len() && resource_match_at(p, i) {
        lemma_letter_run_bounds(p, i + 1);
        let e = i + 1 + letter_run(p, i + 1);
        if e != p.len() {
            lemma_close_pos_bounds(p, e + 2);
        }
    }
}

/// Reserved words and repeated words removed, first-seen order kept.
pub open spec fn dedup_filter(raw: Seq<Seq<char>>) -> Seq<Seq<char>>
    decreases raw.len(),
{
    if raw.len() == 0 {
        Seq::empty()
    } else {
        let pre = dedup_filter(raw.drop_last());
        if is_reserved_segment(raw.last()) || pre.contains(raw.last()) {
            pre
        } else {
            pre.push(raw.last())
        }
    }
}

/// The related resources of an endpoint path.
pub open spec fn resources_spec(p: Seq<char>) -> Seq<Seq<char>> {
    dedup_filter(scan_resources(p, 0))
}

fn letter_run_x(p: &str, j: usize) -> (r: usize)
    requires
        j <= p@.len(),
    ensures
        r == letter_run(p@, j as int),
{
    let len = p.unicode_len();
    let mut k = j;
    loop
        invariant_except_break
            j <= k <= len,
            len == p@.len(),
            letter_run(p@, j as int) == (k - j) + letter_run(p@, k as int),
        ensures
            j <= k <= len,
            letter_run(p@, j as int) == (k - j) + letter_run(p@, k as int),
            letter_run(p@, k as int) == 0,
        decreases len - k,
    {
        if k >= len {
            break;
        }
        let c = p.get_char(k);
        if 'a' <= c && c <= 'z' {
            assert(crate::text::is_lower_alpha_char(p@[k as int]));
            k = k + 1;
        } else {
            assert(!crate::text::is_lower_alpha_char(p@[k as int]));
            break;
        }
    }
    proof {
        lemma_letter_run_bounds(p@, j as int);
    }
    k - j
}

fn close_pos_x(p: &str, t: usize) -> (r: usize)
    requires
        t <= p@.len(),
    ensures
        r == close_pos(p@, t as int),
{
    let len = p.unicode_len();
    let mut k = t;
    loop
        invariant_except_break
            t <= k <= len,
            len == p@.len(),
            close_pos(p@, t as int) == close_pos(p@, k as int),
        ensures
            t <= k <= len,
            close_pos(p@, t as int) == close_pos(p@, k as int),
            k == len || p@[k as int] == '}',
            k < len ==> close_pos(p@, k as int) == k,
        decreases len - k,
    {
        if k >= len {
            break;
        }
        if p.get_char(k) == '}' {
            break;
        }
        k = k + 1;
    }
    k
}

fn vec_contains_str(v: &Vec<String>, s: &str) -> (b: bool)
    ensures
        b == crate::text::views(v@).contains(s@),
{
    let mut i: usize = 0;
    while i < v.len()
        invariant
            0 <= i <= v@.len(),
            forall|j: int| 0 <= j < i ==> v@[j]@ != s@,
        decreases v@.len() - i,
    {
        if crate::text::str_eq(v[i].as_str(), s) {
            assert(crate::text::views(v@)[i as int] == s@);
            return true;
        }
        i = i + 1;
    }
    proof {
        if crate::text::views(v@).contains(s@) {
            let w = choose|w: int| 0 <= w < v@.len() && crate::text::views(v@)[w] == s@;
            assert(v@[w]@ == s@);
        }
    }
    false
}

fn is_reserved_segment_x(s: &str) -> (b: bool)
    ensures
        b == is_reserved_segment(s@),
{
    crate::text::str_eq(s, "api") || crate::text::str_eq(s, "v1") || crate::text::str_eq(s, "v2")
        || crate::text::str_eq(s, "v3") || crate::text::str_eq(s, "public")
        || crate::text::str_eq(s, "private")
}

/// Base confidence points contributed by the classified type.
pub open spec fn type_confidence_base(t: ParamType) -> int {
    match t {
        ParamType::UserId => 40,
        ParamType::ResourceId => 35,
        ParamType::Uuid => 30,
        ParamType::NumericId => 25,
        ParamType::Email => 30,
        ParamType::DateTime => 20,
        ParamType::Boolean => 20,
        _ => 10,
    }
}

/// The parameter name mentions a resource word of the endpoint path.
pub open spec fn resource_name_boost(name: Seq<char>, path: Seq<char>) -> bool {
    exists|i: int| 0 <= i < resources_spec(path).len() && contains_ci_seq(
        name,
        resources_spec(path)[i],
    )
}

/// The name is one of the unmistakable identifier spellings.
pub open spec fn exact_id_name(name: Seq<char>) -> bool {
    eq_ci_seq(name, "id"@) || eq_ci_seq(name, "userId"@) || eq_ci_seq(name, "user_id"@)
}

/// Confidence points before banding.
pub open spec fn confidence_points(
    name: Seq<char>,
    t: ParamType,
    path: Seq<char>,
    loc: ParameterLocation,
) -> int {
    type_confidence_base(t) + (if resource_name_boost(name, path) {
        20int
    } else {
        0int
    }) + (if loc is Path {
        25int
    } else {
        0int
    }) + (if (t is UserId || t is ResourceId) && exact_id_name(name) {
        20int
    } else {
        0int
    })
}

/// Points collapsed to a confidence band.
pub open spec fn confidence_band(points: int) -> Confidence {
    if 90 <= points <= 100 {
        Confidence::VeryHigh
    } else if 70 <= points <= 89 {
        Confidence::High
    } else if 40 <= points <= 69 {
        Confidence::Medium
    } else if 20 <= points <= 39 {
        Confidence::Low
    } else {
        Confidence::VeryLow
    }
}

/// The confidence assigned to a classification.
pub open spec fn confidence_spec(
    name: Seq<char>,
    t: ParamType,
    path: Seq<char>,
    loc: ParameterLocation,
) -> Confidence {
    confidence_band(confidence_points(name, t, path, loc))
}

/// Base risk contributed by the classified type.
pub open spec fn type_risk_base(t: ParamType) -> int {
    match t {
        ParamType::UserId => 40,
        ParamType::ResourceId => 35,
        ParamType::Uuid => 30,
        ParamType::NumericId => 30,
        ParamType::Email => 15,
        _ => 5,
    }
}

/// Risk contributed by the HTTP method, compared case-insensitively.
pub open spec fn method_risk(m: Seq<char>) -> int {
    if eq_ci_seq(m, "GET"@) {
        25
    } else if eq_ci_seq(m, "DELETE"@) {
        20
    } else if eq_ci_seq(m, "PUT"@) || eq_ci_seq(m, "PATCH"@) {
        15
    } else if eq_ci_seq(m, "POST"@) {
        10
    } else {
        0
    }
}

/// The endpoint path mentions an ownership-heavy resource.
pub open spec fn high_risk_path(p: Seq<char>) -> bool {
    ||| contains_ci_seq(p, "user"@)
    ||| contains_ci_seq(p, "account"@)
    ||| contains_ci_seq(p, "profile"@)
    ||| contains_ci_seq(p, "transaction"@)
    ||| contains_ci_seq(p, "payment"@)
    ||| contains_ci_seq(p, "order"@)
}

/// BOLA risk points before clamping.
pub open spec fn risk_points(
    name: Seq<char>,
    t: ParamType,
    path: Seq<char>,
    m: Seq<char>,
    loc: ParameterLocation,
    is_required: bool,
) -> int {
    type_risk_base(t) + method_risk(m) + (if loc is Path && (eq_ci_seq(m, "GET"@) || eq_ci_seq(
        m,
        "DELETE"@,
    )) {
        20int
    } else {
        0int
    }) + (if is_required {
        10int
    } else {
        0int
    }) + (if high_risk_path(path) {
        15int
    } else {
        0int
    }) + (if eq_ci_seq(name, "id"@) && loc is Path {
        10int
    } else {
        0int
    })
}

/// The BOLA risk score: points clamped to at most 100.
pub open spec fn risk_spec(
    name: Seq<char>,
    t: ParamType,
    path: Seq<char>,
    m: Seq<char>,
    loc: ParameterLocation,
    is_required: bool,
) -> int {
    let p = risk_points(name, t, path, m, loc, is_required);
    if p > 100 {
        100
    } else {
        p
    }
}

/// Whether a character may appear in a user or resource identifier.
/// Alphanumeric is decided by the standard library's Unicode tables.
pub uninterp spec fn is_alnum_char(c: char) -> bool;

pub open spec fn is_ascii_alnum_char(c: char) -> bool {
    crate::text::is_alpha_char(c) || is_ascii_digit_char(c)
}

/// Relies on char::is_alphanumeric: true exactly for Unicode letters and
/// numbers, so on the ASCII range it coincides with ASCII letters and digits.
#[verifier::external_body]
fn char_is_alnum(c: char) -> (b: bool)
    ensures
        b == is_alnum_char(c),
        is_ascii_alnum_char(c) ==> b,
        (c as u32) < 128 && !is_ascii_alnum_char(c) ==> !b,
{
    c.is_alphanumeric()
}

/// The canonical 8-4-4-4-12 UUID shape, hex digits of either case.
pub open spec fn uuid_format(v: Seq<char>) -> bool {
    &&& v.len() == 36
    &&& v[8] == '-' && v[13] == '-' && v[18] == '-' && v[23] == '-'
    &&& forall|i: int|
        0 <= i < 36 && i != 8 && i != 13 && i != 18 && i != 23 ==> crate::text::is_hex_digit_char(
            #[trigger] v[i],
        )
}

pub open spec fn email_local_char(c: char) -> bool {
    ||| crate::text::is_alpha_char(c)
    ||| is_ascii_digit_char(c)
    ||| c == '.'
    ||| c == '_'
    ||| c == '%'
    ||| c == '+'
    ||| c == '-'
}

pub open spec fn email_domain_char(c: char) -> bool {
    crate::text::is_alpha_char(c) || is_ascii_digit_char(c) || c == '.' || c == '-'
}

/// The value splits as local@domain.tld at positions `a` (the '@') and `p`
/// (the final dot): a non-empty local part, a non-empty domain part, and a
/// letters-only top level of length at least two.
pub open spec fn email_parts_at(v: Seq<char>, a: int, p: int) -> bool {
    &&& 1 <= a
    &&& a + 2 <= p
    &&& p + 3 <= v.len()
    &&& v[a] == '@'
    &&& v[p] == '.'
    &&& forall|i: int| 0 <= i < a ==> email_local_char(#[trigger] v[i])
    &&& forall|i: int| a < i < p ==> email_domain_char(#[trigger] v[i])
    &&& forall|i: int| p < i < v.len() ==> crate::text::is_alpha_char(#[trigger] v[i])
}

/// The standard local@domain.tld pattern.
pub open spec fn email_format(v: Seq<char>) -> bool {
    exists|a: int, p: int| email_parts_at(v, a, p)
}

/// Any split satisfying `email_parts_at` must use the first '@' and the
/// last '.' of the value.
proof fn lemma_email_witness(v: Seq<char>, a2: int, p2: int, a: int, p: int)
    requires
        email_parts_at(v, a2, p2),
        0 <= a < v.len(),
        v[a] == '@',
        forall|i: int| 0 <= i < a ==> #[trigger] v[i] != '@',
        0 <= p < v.len(),
        v[p] == '.',
        forall|i: int| p < i < v.len() ==> #[trigger] v[i] != '.',
    ensures
        a2 == a,
        p2 == p,
{
    if a2 < a {
        assert(v[a2] != '@');
        assert(false);
    }
    if a2 > a {
        assert(email_local_char(v[a]));
        assert(false);
    }
    if p2 > p {
        assert(v[p2] != '.');
        assert(false);
    }
    if p2 < p {
        assert(crate::text::is_alpha_char(v[p]));
        assert(false);
    }
}

fn check_uuid(value: &str) -> (r: bool)
    ensures
        r == uuid_format(value@),
{
    let len = value.unicode_len();
    if len != 36 {
        return false;
    }
    if value.get_char(8) != '-' || value.get_char(13) != '-' || value.get_char(18) != '-'
        || value.get_char(23) != '-' {
        return false;
    }
    let mut i: usize = 0;
    while i < 36
        invariant
            value@.len() == 36,
            0 <= i <= 36,
            forall|j: int|
                0 <= j < i && j != 8 && j != 13 && j != 18 && j != 23
                    ==> crate::text::is_hex_digit_char(#[trigger] value@[j]),
        decreases 36 - i,
    {
        if i != 8 && i != 13 && i != 18 && i != 23 {
            let c = value.get_char(i);
            let hex = ('0' <= c && c <= '9') || ('a' <= c && c <= 'f') || ('A' <= c && c <= 'F');
            if !hex {
                assert(!crate::text::is_hex_digit_char(value@[i as int]));
                return false;
            }
            assert(crate::text::is_hex_digit_char(value@[i as int]));
        }
        i = i + 1;
    }
    true
}

fn email_local_char_x(c: char) -> (r: bool)
    ensures
        r == email_local_char(c),
{
    ('a' <= c && c <= 'z') || ('A' <= c && c <= 'Z') || ('0' <= c && c <= '9') || c == '.'
        || c == '_' || c == '%' || c == '+' || c == '-'
}

fn email_domain_char_x(c: char) -> (r: bool)
    ensures
        r == email_domain_char(c),
{
    ('a' <= c && c <= 'z') || ('A' <= c && c <= 'Z') || ('0' <= c && c <= '9') || c == '.'
        || c == '-'
}

fn check_email(value: &str) -> (r: bool)
    ensures
        r == email_format(value@),
{
    let ghost v = value@;
    let len = value.unicode_len();

    // Find the first '@'.
    let mut a: usize = 0;
    let mut found_at = false;
    while a < len
        invariant_except_break
            v == value@,
            len == v.len(),
            0 <= a <= len,
            !found_at,
            forall|i: int| 0 <= i < a ==> #[trigger] v[i] != '@',
        ensures
            v == value@,
            len == v.len(),
            0 <= a <= len,
            forall|i: int| 0 <= i < a ==> #[trigger] v[i] != '@',
            found_at ==> a < len && v[a as int] == '@',
            !found_at ==> a == len,
        decreases len - a,
    {
        if value.get_char(a) == '@' {
            found_at = true;
            break;
        }
        a = a + 1;
    }
    if !found_at {
        proof {
            if email_format(v) {
                let (a2, p2) = choose|a2: int, p2: int| email_parts_at(v, a2, p2);
                assert(v[a2] != '@');
            }
        }
        return false;
    }

    // Find the last '.'.
    let mut q: usize = len;
    let mut found_dot = false;
    while q > 0
        invariant_except_break
            v == value@,
            len == v.len(),
            0 <= q <= len,
            !found_dot,
            forall|i: int| q <= i < len ==> #[trigger] v[i] != '.',
        ensures
            v == value@,
            len == v.len(),
            0 <= q <= len,
            found_dot ==> q < len && v[q as int] == '.' && (forall|i: int|
                q < i < len ==> #[trigger] v[i] != '.'),
            !found_dot ==> forall|i: int| 0 <= i < len ==> #[trigger] v[i] != '.',
        decreases q,
    {
        if value.get_char(q - 1) == '.' {
            q = q - 1;
            found_dot = true;
            break;
        }
        q = q - 1;
    }
    if !found_dot {
        proof {
            if email_format(v) {
                let (a2, p2) = choose|a2: int, p2: int| email_parts_at(v, a2, p2);
                assert(v[p2] != '.');
            }
        }
        return false;
    }
    let p = q;

    if a < 1 || p < 2 || p - 2 < a || len - p < 3 {
        proof {
            if email_format(v) {
                let (a2, p2) = choose|a2: int, p2: int| email_parts_at(v, a2, p2);
                lemma_email_witness(v, a2, p2, a as int, p as int);
            }
        }
        return false;
    }

    // Local part.
    let mut i: usize = 0;
    #[verifier::loop_isolation(false)]
    while i < a
        invariant
            v == value@,
            len == v.len(),
            a < len,
            0 <= i <= a,
            forall|j: int| 0 <= j < i ==> email_local_char(#[trigger] v[j]),
        decreases a - i,
    {
        if !email_local_char_x(value.get_char(i)) {
            proof {
                if email_format(v) {
                    let (a2, p2) = choose|a2: int, p2: int| email_parts_at(v, a2, p2);
                    lemma_email_witness(v, a2, p2, a as int, p as int);
                }
            }
            return false;
        }
        i = i + 1;
    }

    // Domain part.
    let mut i: usize = a + 1;
    #[verifier::loop_isolation(false)]
    while i < p
        invariant
            v == value@,
            len == v.len(),
            p < len,
            a + 1 <= i <= p,
            forall|j: int| a < j < i ==> email_domain_char(#[trigger] v[j]),
        decreases p - i,
    {
        if !email_domain_char_x(value.get_char(i)) {
            proof {
                if email_format(v) {
                    let (a2, p2) = choose|a2: int, p2: int| email_parts_at(v, a2, p2);
                    lemma_email_witness(v, a2, p2, a as int, p as int);
                }
            }
            return false;
        }
        i = i + 1;
    }

    // Top-level part: letters only.
    let mut i: usize = p + 1;
    #[verifier::loop_isolation(false)]
    while i < len
        invariant
            v == value@,
            len == v.len(),
            p + 1 <= i <= len,
            forall|j: int| p < j < i ==> crate::text::is_alpha_char(#[trigger] v[j]),
        decreases len - i,
    {
        let c = value.get_char(i);
        if !(('a' <= c && c <= 'z') || ('A' <= c && c <= 'Z')) {
            proof {
                if email_format(v) {
                    let (a2, p2) = choose|a2: int, p2: int| email_parts_at(v, a2, p2);
                    lemma_email_witness(v, a2, p2, a as int, p as int);
                }
            }
            return false;
        }
        i = i + 1;
    }

    proof {
        assert(email_parts_at(v, a as int, p as int));
    }
    true
}

/// What counts as a well-formed value for each parameter type.
pub open spec fn valid_id_spec(v: Seq<char>, t: ParamType) -> bool {
    match t {
        ParamType::Uuid => uuid_format(v),
        ParamType::NumericId => forall|i: int|
            0 <= i < v.len() ==> is_ascii_digit_char(#[trigger] v[i]),
        ParamType::Email => email_format(v),
        ParamType::UserId | ParamType::ResourceId => v.len() > 0 && forall|i: int|
            0 <= i < v.len() ==> (is_alnum_char(#[trigger] v[i]) || v[i] == '_' || v[i] == '-'),
        _ => v.len() > 0,
    }
}

fn any_resource_in_name(name: &str, resources: &Vec<String>) -> (b: bool)
    ensures
        b == exists|i: int|
            0 <= i < resources@.len() && contains_ci_seq(name@, #[trigger] resources@[i]@),
{
    let mut i: usize = 0;
    while i < resources.len()
        invariant
            0 <= i <= resources@.len(),
            forall|j: int| 0 <= j < i ==> !contains_ci_seq(name@, #[trigger] resources@[j]@),
        decreases resources@.len() - i,
    {
        if str_contains_ci(name, resources[i].as_str()) {
            return true;
        }
        i = i + 1;
    }
    false
}

/// Sorted descending by risk score: stable insertion of `x` into `l`.
pub open spec fn insert_desc(x: DetectedParameter, l: Seq<DetectedParameter>) -> Seq<
    DetectedParameter,
>
    decreases l.len(),
{
    if l.len() == 0 {
        seq![x]
    } else if l[0].bola_risk_score > x.bola_risk_score {
        seq![l[0]] + insert_desc(x, l.drop_first())
    } else {
        seq![x] + l
    }
}

/// Stable descending sort by risk score.
pub open spec fn sort_desc_spec(s: Seq<DetectedParameter>) -> Seq<DetectedParameter>
    decreases s.len(),
{
    if s.len() == 0 {
        Seq::empty()
    } else {
        insert_desc(s[0], sort_desc_spec(s.drop_first()))
    }
}

/// Non-increasing risk scores.
pub open spec fn sorted_desc(s: Seq<DetectedParameter>) -> bool {
    forall|i: int, j: int|
        0 <= i < j < s.len() ==> s[i].bola_risk_score >= s[j].bola_risk_score
}

/// Order-preserving filter by a risk threshold.
pub open spec fn filter_by_risk(s: Seq<DetectedParameter>, min: u8) -> Seq<DetectedParameter>
    decreases s.len(),
{
    if s.len() == 0 {
        Seq::empty()
    } else {
        let pre = filter_by_risk(s.drop_last(), min);
        if s.last().bola_risk_score >= min {
            pre.push(s.last())
        } else {
            pre
        }
    }
}

proof fn lemma_insert_desc_at(x: DetectedParameter, l: Seq<DetectedParameter>, pos: int)
    requires
        0 <= pos <= l.len(),
        forall|i: int| 0 <= i < pos ==> l[i].bola_risk_score > x.bola_risk_score,
        pos < l.len() ==> l[pos as int].bola_risk_score <= x.bola_risk_score,
    ensures
        insert_desc(x, l) =~= l.take(pos) + seq![x] + l.skip(pos),
    decreases pos,
{
    if pos == 0 {
        if l.len() > 0 {
            assert(!(l[0].bola_risk_score > x.bola_risk_score));
        }
        assert(insert_desc(x, l) =~= l.take(0) + seq![x] + l.skip(0));
    } else {
        assert(l[0].bola_risk_score > x.bola_risk_score);
        lemma_insert_desc_at(x, l.drop_first(), pos - 1);
        assert(l.drop_first().take(pos - 1) =~= l.take(pos).drop_first());
        assert(l.drop_first().skip(pos - 1) =~= l.skip(pos));
        assert(insert_desc(x, l) =~= l.take(pos) + seq![x] + l.skip(pos));
    }
}

/// Everything `analyze_parameter` promises of its result, gathered in one
/// predicate for reuse in endpoint-level contracts.
pub open spec fn analyzed_matches(
    p: DetectedParameter,
    name: Seq<char>,
    path: Seq<char>,
    m: Seq<char>,
    loc: ParameterLocation,
    is_required: bool,
) -> bool {
    &&& p.name@ == name
    &&& p.param_type == classify_spec(name)
    &&& p.confidence == confidence_spec(name, classify_spec(name), path, loc)
    &&& p.bola_risk_score as int == risk_spec(name, classify_spec(name), path, m, loc, is_required)
    &&& 0 <= p.bola_risk_score <= 100
    &&& p.context.endpoint_path@ == path
    &&& p.context.http_method@ == m
    &&& p.context.location == loc
    &&& p.context.is_required == is_required
    &&& crate::text::views(p.context.related_resources@) == resources_spec(path)
}

/// Main parameter detector.
pub struct ParameterDetector;

impl ParameterDetector {
    /// Classify a parameter name, first match of the documented cascade wins.
    /// Collect the resource words of an endpoint path: each `/word` segment
    /// immediately followed by a `/{param}` placeholder or the end of the
    /// path, reserved words and duplicates removed, first-seen order kept.
    #[verifier::loop_isolation(false)]
    pub fn extract_related_resources(endpoint_path: &str) -> (r: Vec<String>)
        ensures
            crate::text::views(r@) == resources_spec(endpoint_path@),
    {
        let ghost p = endpoint_path@;
        let len = endpoint_path.unicode_len();
        let mut raw: Vec<String> = Vec::new();
        let mut i: usize = 0;
        while i < len
            invariant
                0 <= i <= len,
                scan_resources(p, 0) =~= crate::text::views(raw@) + scan_resources(p, i as int),
            decreases len - i,
        {
            let ghost before = crate::text::views(raw@);
            let c = endpoint_path.get_char(i);
            let mut next_i = i + 1;
            if c == '/' {
                let run = letter_run_x(endpoint_path, i + 1);
                proof {
                    lemma_letter_run_bounds(p, i + 1);
                }
                if run >= 1 {
                    let e = i + 1 + run;
                    if e == len {
                        let w = endpoint_path.substring_char(i + 1, e).to_owned();
                        proof {
                            assert(resource_match_at(p, i as int));
                        }
                        raw.push(w);
                        proof {
                            assert(crate::text::views(raw@) =~= before.push(w@));
                            assert(scan_resources(p, e as int) =~= Seq::<Seq<char>>::empty());
                            assert(scan_resources(p, i as int) =~= seq![w@] + scan_resources(
                                p,
                                e as int,
                            ));
                        }
                        next_i = e;
                    } else if e + 1 < len && endpoint_path.get_char(e) == '/'
                        && endpoint_path.get_char(e + 1) == '{' {
                        let m = close_pos_x(endpoint_path, e + 2);
                        proof {
                            lemma_close_pos_bounds(p, e + 2);
                        }
                        if m < len && m >= e + 3 {
                            let w = endpoint_path.substring_char(i + 1, e).to_owned();
                            proof {
                                assert(brace_at(p, e as int));
                                assert(resource_match_at(p, i as int));
                            }
                            raw.push(w);
                            proof {
                                assert(crate::text::views(raw@) =~= before.push(w@));
                                assert(scan_resources(p, i as int) =~= seq![w@] + scan_resources(
                                    p,
                                    m + 1,
                                ));
                            }
                            next_i = m + 1;
                        } else {
                            proof {
                                assert(!brace_at(p, e as int));
                                assert(!resource_match_at(p, i as int));
                            }
                        }
                    } else {
                        proof {
                            assert(!brace_at(p, e as int));
                            assert(!resource_match_at(p, i as int));
                        }
                    }
                } else {
                    proof {
                        assert(!resource_match_at(p, i as int));
                    }
                }
            } else {
                proof {
                    assert(!resource_match_at(p, i as int));
                }
            }
            proof {
                if !resource_match_at(p, i as int) {
                    assert(scan_resources(p, i as int) =~= scan_resources(p, i + 1));
                }
            }
            i = next_i;
        }
        proof {
            assert(scan_resources(p, len as int) =~= Seq::<Seq<char>>::empty());
            assert(scan_resources(p, 0) =~= crate::text::views(raw@));
        }

        let mut out: Vec<String> = Vec::new();
        let mut idx: usize = 0;
        while idx < raw.len()
            invariant
                0 <= idx <= raw@.len(),
                crate::text::views(out@) =~= dedup_filter(crate::text::views(raw@).take(idx as int)),
            decreases raw@.len() - idx,
        {
            let w = raw[idx].clone();
            let reserved = is_reserved_segment_x(w.as_str());
            let present = vec_contains_str(&out, w.as_str());
            let ghost before = crate::text::views(out@);
            if !reserved && !present {
                out.push(w);
                proof {
                    assert(crate::text::views(out@) =~= before.push(w@));
                }
            }
            proof {
                let vs = crate::text::views(raw@);
                assert(vs.take(idx + 1).drop_last() =~= vs.take(idx as int));
                assert(vs.take(idx + 1).last() == w@);
            }
            idx = idx + 1;
        }
        proof {
            assert(crate::text::views(raw@).take(raw@.len() as int) =~= crate::text::views(raw@));
        }
        out
    }

    pub fn classify_type(name: &str) -> (r: ParamType)
        ensures
            r == classify_spec(name@),
    {
        if is_user_id_name_x(name) {
            ParamType::UserId
        } else if is_resource_id_name_x(name) {
            ParamType::ResourceId
        } else if str_contains_ci(name, "uuid") || str_contains_ci(name, "guid") {
            ParamType::Uuid
        } else if str_ends_with_ci(name, "id") {
            if str_contains_ci(name, "num") || name_has_digit(name) {
                ParamType::NumericId
            } else {
                ParamType::ResourceId
            }
        } else if str_contains_ci(name, "email") || str_contains_ci(name, "mail") {
            ParamType::Email
        } else if is_date_exact_name_x(name) || str_ends_with_ci(name, "date")
            || str_ends_with_ci(name, "time") {
            ParamType::DateTime
        } else if str_starts_with_ci(name, "is_") || str_starts_with_ci(name, "has_")
            || str_starts_with_ci(name, "can_") || str_ends_with_ci(name, "_flag") {
            ParamType::Boolean
        } else {
            ParamType::Unknown
        }
    }

    /// Confidence for the classification of `name`, from its type, its
    /// relation to the endpoint path, and its location.
    pub fn calculate_confidence(
        name: &str,
        param_type: &ParamType,
        endpoint_path: &str,
        location: &ParameterLocation,
    ) -> (r: Confidence)
        ensures
            r == confidence_spec(name@, *param_type, endpoint_path@, *location),
    {
        let ghost pts = confidence_points(name@, *param_type, endpoint_path@, *location);
        let mut score: u8 = 0;
        match param_type {
            ParamType::UserId => { score = score + 40; },
            ParamType::ResourceId => { score = score + 35; },
            ParamType::Uuid => { score = score + 30; },
            ParamType::NumericId => { score = score + 25; },
            ParamType::Email => { score = score + 30; },
            ParamType::DateTime => { score = score + 20; },
            ParamType::Boolean => { score = score + 20; },
            _ => { score = score + 10; },
        }

        let resources = Self::extract_related_resources(endpoint_path);
        let boost = any_resource_in_name(name, &resources);
        proof {
            let rs = resources_spec(endpoint_path@);
            assert forall|i: int| 0 <= i < resources@.len() implies #[trigger] resources@[i]@
                == rs[i] by {
                assert(crate::text::views(resources@)[i] == rs[i]);
            }
            if boost {
                let w = choose|w: int|
                    0 <= w < resources@.len() && contains_ci_seq(name@, #[trigger] resources@[w]@);
                assert(contains_ci_seq(name@, rs[w]));
            }
            if resource_name_boost(name@, endpoint_path@) {
                let w = choose|w: int| 0 <= w < rs.len() && contains_ci_seq(name@, rs[w]);
                assert(contains_ci_seq(name@, resources@[w]@));
            }
            assert(boost == resource_name_boost(name@, endpoint_path@));
        }
        if boost {
            score = score + 20;
        }

        if matches!(location, ParameterLocation::Path) {
            score = score + 25;
        }

        match param_type {
            ParamType::UserId | ParamType::ResourceId => {
                if str_eq_ci(name, "id") || str_eq_ci(name, "userId") || str_eq_ci(
                    name,
                    "user_id",
                ) {
                    score = score + 20;
                }
            },
            _ => {},
        }

        assert(score as int == pts);
        if 90 <= score && score <= 100 {
            Confidence::VeryHigh
        } else if 70 <= score && score <= 89 {
            Confidence::High
        } else if 40 <= score && score <= 69 {
            Confidence::Medium
        } else if 20 <= score && score <= 39 {
            Confidence::Low
        } else {
            Confidence::VeryLow
        }
    }

    /// BOLA risk score for a parameter, clamped to 0..=100.
    pub fn calculate_bola_risk(
        name: &str,
        param_type: &ParamType,
        endpoint_path: &str,
        http_method: &str,
        location: &ParameterLocation,
        is_required: bool,
    ) -> (r: u8)
        ensures
            r as int == risk_spec(
                name@,
                *param_type,
                endpoint_path@,
                http_method@,
                *location,
                is_required,
            ),
            0 <= r <= 100,
    {
        let mut score: u8 = 0;

        match param_type {
            ParamType::UserId => { score = score + 40; },
            ParamType::ResourceId => { score = score + 35; },
            ParamType::Uuid => { score = score + 30; },
            ParamType::NumericId => { score = score + 30; },
            ParamType::Email => { score = score + 15; },
            _ => { score = score + 5; },
        }

        let is_get = str_eq_ci(http_method, "GET");
        let is_delete = str_eq_ci(http_method, "DELETE");
        if is_get {
            score = score + 25;
        } else if is_delete {
            score = score + 20;
        } else if str_eq_ci(http_method, "PUT") || str_eq_ci(http_method, "PATCH") {
            score = score + 15;
        } else if str_eq_ci(http_method, "POST") {
            score = score + 10;
        }

        if matches!(location, ParameterLocation::Path) && (is_get || is_delete) {
            score = score + 20;
        }

        if is_required {
            score = score + 10;
        }

        if str_contains_ci(endpoint_path, "user") || str_contains_ci(endpoint_path, "account")
            || str_contains_ci(endpoint_path, "profile")
            || str_contains_ci(endpoint_path, "transaction")
            || str_contains_ci(endpoint_path, "payment")
            || str_contains_ci(endpoint_path, "order") {
            score = score + 15;
        }

        if str_eq_ci(name, "id") && matches!(location, ParameterLocation::Path) {
            score = score + 10;
        }

        assert(score as int == risk_points(
            name@,
            *param_type,
            endpoint_path@,
            http_method@,
            *location,
            is_required,
        ));
        if score > 100 {
            100
        } else {
            score
        }
    }

    /// Analyze a parameter: classify it, band the confidence, score the
    /// risk, and collect the endpoint context.
    pub fn analyze_parameter(
        name: &str,
        endpoint_path: &str,
        http_method: &str,
        location: ParameterLocation,
        is_required: bool,
    ) -> (r: DetectedParameter)
        ensures
            r.name@ == name@,
            r.param_type == classify_spec(name@),
            r.confidence == confidence_spec(name@, classify_spec(name@), endpoint_path@, location),
            r.bola_risk_score as int == risk_spec(
                name@,
                classify_spec(name@),
                endpoint_path@,
                http_method@,
                location,
                is_required,
            ),
            0 <= r.bola_risk_score <= 100,
            r.context.endpoint_path@ == endpoint_path@,
            r.context.http_method@ == http_method@,
            r.context.location == location,
            r.context.is_required == is_required,
            crate::text::views(r.context.related_resources@) == resources_spec(endpoint_path@),
            analyzed_matches(r, name@, endpoint_path@, http_method@, location, is_required),
    {
        let param_type = Self::classify_type(name);
        let confidence = Self::calculate_confidence(name, &param_type, endpoint_path, &location);
        let bola_risk_score = Self::calculate_bola_risk(
            name,
            &param_type,
            endpoint_path,
            http_method,
            &location,
            is_required,
        );
        let related_resources = Self::extract_related_resources(endpoint_path);

        DetectedParameter {
            name: name.to_owned(),
            param_type,
            confidence,
            bola_risk_score,
            context: ParameterContext {
                endpoint_path: endpoint_path.to_owned(),
                http_method: http_method.to_owned(),
                location,
                is_required,
                related_resources,
            },
        }
    }

    /// Order parameters for testing: stable sort, highest risk score first.
    #[verifier::loop_isolation(false)]
    pub fn prioritize_parameters(params: Vec<DetectedParameter>) -> (r: Vec<DetectedParameter>)
        ensures
            r@ == sort_desc_spec(params@),
            sorted_desc(r@),
    {
        let ghost orig = params@;
        let mut rest = params;
        let mut out: Vec<DetectedParameter> = Vec::new();
        while rest.len() > 0
            invariant
                rest@.len() <= orig.len(),
                rest@ =~= orig.take(rest@.len() as int),
                out@ =~= sort_desc_spec(orig.skip(rest@.len() as int)),
                sorted_desc(out@),
            decreases rest@.len(),
        {
            let ghost n = rest@.len() as int;
            let x = rest.pop().unwrap();
            proof {
                assert(x == orig[n - 1]);
                assert(rest@ =~= orig.take(n - 1));
                let s = orig.skip(n - 1);
                assert(s[0] == orig[n - 1]);
                assert(s.drop_first() =~= orig.skip(n));
                assert(sort_desc_spec(s) == insert_desc(x, sort_desc_spec(orig.skip(n))));
            }
            let ghost pre = out@;
            let mut pos: usize = 0;
            #[verifier::loop_isolation(true)]
            while pos < out.len()
                invariant_except_break
                    0 <= pos <= out@.len(),
                    out@ == pre,
                    forall|i: int| 0 <= i < pos ==> pre[i].bola_risk_score > x.bola_risk_score,
                ensures
                    0 <= pos <= out@.len(),
                    out@ == pre,
                    forall|i: int| 0 <= i < pos ==> pre[i].bola_risk_score > x.bola_risk_score,
                    pos < pre.len() ==> pre[pos as int].bola_risk_score <= x.bola_risk_score,
                decreases out@.len() - pos,
            {
                if out[pos].bola_risk_score > x.bola_risk_score {
                    pos = pos + 1;
                } else {
                    break;
                }
            }
            out.insert(pos, x);
            proof {
                lemma_insert_desc_at(x, pre, pos as int);
                assert(out@ =~= pre.take(pos as int) + seq![x] + pre.skip(pos as int));
                assert(out@ =~= insert_desc(x, pre));
                assert forall|i: int, j: int|
                    0 <= i < j < out@.len() implies out@[i].bola_risk_score
                    >= out@[j].bola_risk_score by {
                    let pp = pos as int;
                    if i < pp && j == pp {
                        assert(out@[i] == pre[i]);
                    } else if i == pp && j > pp {
                        assert(out@[j] == pre[j - 1]);
                    } else if i < pp && j > pp {
                        assert(out@[i] == pre[i] && out@[j] == pre[j - 1]);
                        if j - 1 == pp {
                        } else {
                            assert(pre[i].bola_risk_score >= pre[j - 1].bola_risk_score);
                        }
                    } else if pp < i {
                        assert(out@[i] == pre[i - 1] && out@[j] == pre[j - 1]);
                    }
                }
            }
        }
        proof {
            assert(orig.skip(0) =~= orig);
        }
        out
    }

    /// Keep only parameters whose risk score reaches the threshold,
    /// preserving their order.
    #[verifier::loop_isolation(false)]
    pub fn filter_high_risk(params: Vec<DetectedParameter>, min_risk_score: u8) -> (r: Vec<
        DetectedParameter,
    >)
        ensures
            r@ == filter_by_risk(params@, min_risk_score),
    {
        let ghost orig = params@;
        let mut rest = params;
        let mut out: Vec<DetectedParameter> = Vec::new();
        let ghost consumed: int = 0;
        while rest.len() > 0
            invariant
                0 <= consumed <= orig.len(),
                rest@ =~= orig.skip(consumed),
                out@ =~= filter_by_risk(orig.take(consumed), min_risk_score),
            decreases rest@.len(),
        {
            let x = rest.remove(0);
            proof {
                assert(x == orig[consumed]);
                assert(rest@ =~= orig.skip(consumed + 1));
                assert(orig.take(consumed + 1).drop_last() =~= orig.take(consumed));
                assert(orig.take(consumed + 1).last() == x);
            }
            if x.bola_risk_score >= min_risk_score {
                out.push(x);
            }
            proof {
                consumed = consumed + 1;
            }
        }
        proof {
            assert(orig.take(orig.len() as int) =~= orig);
        }
        out
    }

    /// Check whether a value is plausibly formed for the given type.
    pub fn is_valid_id_format(value: &str, param_type: &ParamType) -> (r: bool)
        ensures
            r == valid_id_spec(value@, *param_type),
    {
        match param_type {
            ParamType::Uuid => check_uuid(value),
            ParamType::NumericId => {
                let len = value.unicode_len();
                let mut i: usize = 0;
                #[verifier::loop_isolation(false)]
                while i < len
                    invariant
                        len == value@.len(),
                        0 <= i <= len,
                        forall|j: int| 0 <= j < i ==> is_ascii_digit_char(#[trigger] value@[j]),
                    decreases len - i,
                {
                    let c = value.get_char(i);
                    if !('0' <= c && c <= '9') {
                        assert(!is_ascii_digit_char(value@[i as int]));
                        return false;
                    }
                    i = i + 1;
                }
                true
            },
            ParamType::Email => check_email(value),
            ParamType::UserId | ParamType::ResourceId => {
                let len = value.unicode_len();
                if len == 0 {
                    return false;
                }
                let mut i: usize = 0;
                #[verifier::loop_isolation(false)]
                while i < len
                    invariant
                        len == value@.len(),
                        0 <= i <= len,
                        forall|j: int|
                            0 <= j < i ==> (is_alnum_char(#[trigger] value@[j]) || value@[j] == '_'
                                || value@[j] == '-'),
                    decreases len - i,
                {
                    let c = value.get_char(i);
                    if !(char_is_alnum(c) || c == '_' || c == '-') {
                        assert(!(is_alnum_char(value@[i as int]) || value@[i as int] == '_'
                            || value@[i as int] == '-'));
                        return false;
                    }
                    i = i + 1;
                }
                true
            },
            _ => {
                let len = value.unicode_len();
                len > 0
            },
        }
    }
}

} // verus!
