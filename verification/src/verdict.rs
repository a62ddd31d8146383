//! Verdict engine: decides from an HTTP status code and response body
//! whether a probe exposed the victim's data. Ownership is inferred from
//! identity fields of the JSON body only, so that attacker-editable free
//! text cannot forge a match, and JSON is traversed to a bounded depth.

use vstd::prelude::*;
use crate::json::{json_of, lookup_spec, lookup_field, parse_json, JsonField, JsonValue};
use crate::text::{contains_ci_seq, contains_seq, str_contains, str_contains_ci, str_eq};

verus! {

/// Outcome of probing one endpoint with one candidate identifier.
#[derive(Debug, Clone, Copy, PartialEq, Eq, Structural)]
pub enum Verdict {
    Vulnerable,
    Secure,
    Uncertain,
}

impl Verdict {
    /// Literal used when rendering a verdict in reports.
    pub fn as_str(&self) -> (r: &'static str)
        ensures
            self is Vulnerable ==> r@ == "VULNERABLE"@,
            self is Secure ==> r@ == "SECURE"@,
            self is Uncertain ==> r@ == "UNCERTAIN"@,
    {
        match self {
            Verdict::Vulnerable => "VULNERABLE",
            Verdict::Secure => "SECURE",
            Verdict::Uncertain => "UNCERTAIN",
        }
    }
}

/// How deep the identity-field search descends into a response body.
/// Response bodies are attacker-influenced, so the traversal is bounded and
/// fails closed beyond this depth; the bound equals the parser's own
/// recursion limit, so no parsed body is ever cut short.
pub const MAX_SCAN_DEPTH: u32 = 128;

/// Weight of an identity field for ownership inference.
#[derive(Debug, Clone, Copy, PartialEq, Eq, Structural)]
pub enum FieldWeight {
    /// Direct ownership indicator.
    Critical,
    /// Authorship metadata, possibly public.
    Metadata,
}

/// Field names that directly carry resource ownership.
pub open spec fn is_critical_field(s: Seq<char>) -> bool {
    ||| s == "id"@
    ||| s == "userId"@
    ||| s == "user_id"@
    ||| s == "uid"@
    ||| s == "ownerId"@
    ||| s == "owner_id"@
    ||| s == "accountId"@
    ||| s == "account_id"@
}

/// Field names that carry authorship metadata.
pub open spec fn is_metadata_field(s: Seq<char>) -> bool {
    ||| s == "created_by"@
    ||| s == "createdBy"@
    ||| s == "updated_by"@
    ||| s == "updatedBy"@
    ||| s == "author_id"@
    ||| s == "authorId"@
    ||| s == "modified_by"@
    ||| s == "modifiedBy"@
}

/// Field names whose content a user can edit freely; the search neither
/// matches inside them nor descends into them.
pub open spec fn is_editable_field(s: Seq<char>) -> bool {
    ||| s == "firstName"@
    ||| s == "lastName"@
    ||| s == "first_name"@
    ||| s == "last_name"@
    ||| s == "name"@
    ||| s == "email"@
    ||| s == "phone"@
    ||| s == "phoneNumber"@
    ||| s == "phone_number"@
    ||| s == "address"@
    ||| s == "bio"@
    ||| s == "description"@
    ||| s == "notes"@
    ||| s == "content"@
    ||| s == "message"@
    ||| s == "text"@
    ||| s == "title"@
    ||| s == "dateOfBirth"@
    ||| s == "date_of_birth"@
}

/// Classify a field name by its weight for ownership inference.
pub fn classify_identity_field(field_name: &str) -> (r: Option<FieldWeight>)
    ensures
        r == if is_critical_field(field_name@) {
            Some(FieldWeight::Critical)
        } else if is_metadata_field(field_name@) {
            Some(FieldWeight::Metadata)
        } else {
            None::<FieldWeight>
        },
{
    if str_eq(field_name, "id") || str_eq(field_name, "userId") || str_eq(field_name, "user_id")
        || str_eq(field_name, "uid") || str_eq(field_name, "ownerId")
        || str_eq(field_name, "owner_id") || str_eq(field_name, "accountId")
        || str_eq(field_name, "account_id") {
        Some(FieldWeight::Critical)
    } else if str_eq(field_name, "created_by") || str_eq(field_name, "createdBy")
        || str_eq(field_name, "updated_by") || str_eq(field_name, "updatedBy")
        || str_eq(field_name, "author_id") || str_eq(field_name, "authorId")
        || str_eq(field_name, "modified_by") || str_eq(field_name, "modifiedBy") {
        Some(FieldWeight::Metadata)
    } else {
        None
    }
}

fn is_editable_field_x(s: &str) -> (r: bool)
    ensures
        r == is_editable_field(s@),
{
    str_eq(s, "firstName") || str_eq(s, "lastName") || str_eq(s, "first_name") || str_eq(
        s,
        "last_name",
    ) || str_eq(s, "name") || str_eq(s, "email") || str_eq(s, "phone") || str_eq(s, "phoneNumber")
        || str_eq(s, "phone_number") || str_eq(s, "address") || str_eq(s, "bio") || str_eq(
        s,
        "description",
    ) || str_eq(s, "notes") || str_eq(s, "content") || str_eq(s, "message") || str_eq(s, "text")
        || str_eq(s, "title") || str_eq(s, "dateOfBirth") || str_eq(s, "date_of_birth")
}

/// What a bounded search of a JSON tree found for one identifier.
#[derive(Debug, Clone, Copy, PartialEq, Eq, Structural)]
pub struct IdentityMatches {
    /// The identifier stood in a critical field somewhere.
    pub critical: bool,
    /// The identifier stood in some identity field, critical or metadata.
    pub any: bool,
    /// Some subtree was left unexplored because the depth bound was hit.
    pub exceeded: bool,
}

pub open spec fn no_matches() -> IdentityMatches {
    IdentityMatches { critical: false, any: false, exceeded: false }
}

pub open spec fn merge_matches(a: IdentityMatches, b: IdentityMatches) -> IdentityMatches {
    IdentityMatches {
        critical: a.critical || b.critical,
        any: a.any || b.any,
        exceeded: a.exceeded || b.exceeded,
    }
}

/// The object binds `key` to the string `id`.
pub open spec fn field_holds_id(fs: Seq<JsonField>, key: Seq<char>, id: Seq<char>) -> bool {
    match lookup_spec(fs, key) {
        Some(JsonValue::String(s)) => s@ == id,
        _ => false,
    }
}

/// Some critical field of this object holds the identifier.
pub open spec fn direct_critical_match(fs: Seq<JsonField>, id: Seq<char>) -> bool {
    ||| field_holds_id(fs, "id"@, id)
    ||| field_holds_id(fs, "userId"@, id)
    ||| field_holds_id(fs, "user_id"@, id)
    ||| field_holds_id(fs, "uid"@, id)
    ||| field_holds_id(fs, "ownerId"@, id)
    ||| field_holds_id(fs, "owner_id"@, id)
    ||| field_holds_id(fs, "accountId"@, id)
    ||| field_holds_id(fs, "account_id"@, id)
}

/// Some identity field of this object, critical or metadata, holds the
/// identifier.
pub open spec fn direct_identity_match(fs: Seq<JsonField>, id: Seq<char>) -> bool {
    ||| direct_critical_match(fs, id)
    ||| field_holds_id(fs, "created_by"@, id)
    ||| field_holds_id(fs, "createdBy"@, id)
    ||| field_holds_id(fs, "updated_by"@, id)
    ||| field_holds_id(fs, "updatedBy"@, id)
    ||| field_holds_id(fs, "author_id"@, id)
    ||| field_holds_id(fs, "authorId"@, id)
    ||| field_holds_id(fs, "modified_by"@, id)
    ||| field_holds_id(fs, "modifiedBy"@, id)
}

/// Search a JSON value for an identifier in identity fields, descending at
/// most `fuel` levels below this one; editable fields are skipped entirely.
pub open spec fn search_value(v: JsonValue, id: Seq<char>, fuel: nat) -> IdentityMatches
    decreases fuel, 1int, 0int,
{
    match v {
        JsonValue::Object(fs) => merge_matches(
            IdentityMatches {
                critical: direct_critical_match(fs@, id),
                any: direct_identity_match(fs@, id),
                exceeded: false,
            },
            search_fields(fs@, id, fuel),
        ),
        JsonValue::Array(vs) => search_elems(vs@, id, fuel),
        _ => no_matches(),
    }
}

/// Search the children of an object: every non-editable entry whose value
/// is itself an object or array is searched one level deeper.
pub open spec fn search_fields(fs: Seq<JsonField>, id: Seq<char>, fuel: nat) -> IdentityMatches
    decreases fuel, 0int, fs.len(),
{
    if fs.len() == 0 {
        no_matches()
    } else {
        let head = if !is_editable_field(fs[0].key@) && (fs[0].value is Object
            || fs[0].value is Array) {
            if fuel == 0 {
                IdentityMatches { critical: false, any: false, exceeded: true }
            } else {
                search_value(fs[0].value, id, (fuel - 1) as nat)
            }
        } else {
            no_matches()
        };
        merge_matches(head, search_fields(fs.drop_first(), id, fuel))
    }
}

/// Search the elements of an array; nested objects and arrays are searched
/// one level deeper.
pub open spec fn search_elems(vs: Seq<JsonValue>, id: Seq<char>, fuel: nat) -> IdentityMatches
    decreases fuel, 0int, vs.len(),
{
    if vs.len() == 0 {
        no_matches()
    } else {
        let head = if vs[0] is Object || vs[0] is Array {
            if fuel == 0 {
                IdentityMatches { critical: false, any: false, exceeded: true }
            } else {
                search_value(vs[0], id, (fuel - 1) as nat)
            }
        } else {
            no_matches()
        };
        merge_matches(head, search_elems(vs.drop_first(), id, fuel))
    }
}

fn field_holds_id_x(fs: &Vec<JsonField>, key: &str, id: &str) -> (b: bool)
    ensures
        b == field_holds_id(fs@, key@, id@),
{
    match lookup_field(fs, key) {
        Some(v) => match v {
            JsonValue::String(s) => str_eq(s.as_str(), id),
            _ => false,
        },
        None => false,
    }
}

fn direct_matches(fs: &Vec<JsonField>, id: &str) -> (r: IdentityMatches)
    ensures
        r.critical == direct_critical_match(fs@, id@),
        r.any == direct_identity_match(fs@, id@),
        !r.exceeded,
{
    let critical = field_holds_id_x(fs, "id", id) || field_holds_id_x(fs, "userId", id)
        || field_holds_id_x(fs, "user_id", id) || field_holds_id_x(fs, "uid", id)
        || field_holds_id_x(fs, "ownerId", id) || field_holds_id_x(fs, "owner_id", id)
        || field_holds_id_x(fs, "accountId", id) || field_holds_id_x(fs, "account_id", id);
    let any = critical || field_holds_id_x(fs, "created_by", id) || field_holds_id_x(
        fs,
        "createdBy",
        id,
    ) || field_holds_id_x(fs, "updated_by", id) || field_holds_id_x(fs, "updatedBy", id)
        || field_holds_id_x(fs, "author_id", id) || field_holds_id_x(fs, "authorId", id)
        || field_holds_id_x(fs, "modified_by", id) || field_holds_id_x(fs, "modifiedBy", id);
    IdentityMatches { critical, any, exceeded: false }
}

fn search_value_x(v: &JsonValue, id: &str, fuel: u32) -> (r: IdentityMatches)
    ensures
        r == search_value(*v, id@, fuel as nat),
    decreases fuel, 1int, 0int,
{
    match v {
        JsonValue::Object(fs) => {
            let d = direct_matches(fs, id);
            let rest = search_fields_x(fs, 0, id, fuel);
            proof {
                assert(fs@.skip(0) =~= fs@);
            }
            IdentityMatches {
                critical: d.critical || rest.critical,
                any: d.any || rest.any,
                exceeded: rest.exceeded,
            }
        },
        JsonValue::Array(vs) => {
            let r = search_elems_x(vs, 0, id, fuel);
            proof {
                assert(vs@.skip(0) =~= vs@);
            }
            r
        },
        _ => IdentityMatches { critical: false, any: false, exceeded: false },
    }
}

fn search_fields_x(fs: &Vec<JsonField>, i: usize, id: &str, fuel: u32) -> (r: IdentityMatches)
    requires
        i <= fs@.len(),
    ensures
        r == search_fields(fs@.skip(i as int), id@, fuel as nat),
    decreases fuel, 0int, fs@.len() - i,
{
    if i == fs.len() {
        proof {
            assert(fs@.skip(i as int) =~= Seq::<JsonField>::empty());
        }
        IdentityMatches { critical: false, any: false, exceeded: false }
    } else {
        proof {
            assert(fs@.skip(i as int)[0] == fs@[i as int]);
            assert(fs@.skip(i as int).drop_first() =~= fs@.skip(i + 1));
        }
        let f = &fs[i];
        let editable = is_editable_field_x(f.key.as_str());
        let nested = matches!(f.value, JsonValue::Object(_)) || matches!(
            f.value,
            JsonValue::Array(_),
        );
        let head = if !editable && nested {
            if fuel == 0 {
                IdentityMatches { critical: false, any: false, exceeded: true }
            } else {
                search_value_x(&f.value, id, fuel - 1)
            }
        } else {
            IdentityMatches { critical: false, any: false, exceeded: false }
        };
        let rest = search_fields_x(fs, i + 1, id, fuel);
        IdentityMatches {
            critical: head.critical || rest.critical,
            any: head.any || rest.any,
            exceeded: head.exceeded || rest.exceeded,
        }
    }
}

fn search_elems_x(vs: &Vec<JsonValue>, i: usize, id: &str, fuel: u32) -> (r: IdentityMatches)
    requires
        i <= vs@.len(),
    ensures
        r == search_elems(vs@.skip(i as int), id@, fuel as nat),
    decreases fuel, 0int, vs@.len() - i,
{
    if i == vs.len() {
        proof {
            assert(vs@.skip(i as int) =~= Seq::<JsonValue>::empty());
        }
        IdentityMatches { critical: false, any: false, exceeded: false }
    } else {
        proof {
            assert(vs@.skip(i as int)[0] == vs@[i as int]);
            assert(vs@.skip(i as int).drop_first() =~= vs@.skip(i + 1));
        }
        let e = &vs[i];
        let nested = matches!(e, JsonValue::Object(_)) || matches!(e, JsonValue::Array(_));
        let head = if nested {
            if fuel == 0 {
                IdentityMatches { critical: false, any: false, exceeded: true }
            } else {
                search_value_x(e, id, fuel - 1)
            }
        } else {
            IdentityMatches { critical: false, any: false, exceeded: false }
        };
        let rest = search_elems_x(vs, i + 1, id, fuel);
        IdentityMatches {
            critical: head.critical || rest.critical,
            any: head.any || rest.any,
            exceeded: head.exceeded || rest.exceeded,
        }
    }
}

/// Whether the identifier stands in a critical identity field anywhere in
/// the value, within the bounded search depth.
pub fn contains_identifier_in_identity_fields(value: &JsonValue, identifier: &str) -> (r: bool)
    ensures
        r == search_value(*value, identifier@, MAX_SCAN_DEPTH as nat).critical,
{
    let m = search_value_x(value, identifier, MAX_SCAN_DEPTH);
    m.critical
}

/// The body looks like an error payload: `success` is the boolean false,
/// or an `error` or `message` key is present at the top level.
pub open spec fn error_response_spec(v: JsonValue) -> bool {
    match v {
        JsonValue::Object(fs) => {
            ||| lookup_spec(fs@, "success"@) == Some(JsonValue::Bool(false))
            ||| lookup_spec(fs@, "error"@) is Some
            ||| lookup_spec(fs@, "message"@) is Some
        },
        _ => false,
    }
}

/// Check whether a parsed body is an error payload.
pub fn is_error_response(value: &JsonValue) -> (r: bool)
    ensures
        r == error_response_spec(*value),
{
    match value {
        JsonValue::Object(fs) => {
            let success_false = match lookup_field(fs, "success") {
                Some(v) => matches!(v, JsonValue::Bool(false)),
                None => false,
            };
            success_false || lookup_field(fs, "error").is_some() || lookup_field(
                fs,
                "message",
            ).is_some()
        },
        _ => false,
    }
}

/// Ownership by plain substring matching, the fallback for bodies that are
/// not JSON.
pub open spec fn text_ownership_spec(body: Seq<char>, attacker: Seq<char>, victim: Seq<char>) -> Verdict {
    if contains_seq(body, victim) {
        Verdict::Vulnerable
    } else if contains_seq(body, attacker) {
        Verdict::Secure
    } else {
        Verdict::Uncertain
    }
}

/// Fallback ownership analysis on a non-JSON body.
pub fn analyze_text_ownership(body: &str, attacker_id: &str, victim_id: &str) -> (r: Verdict)
    ensures
        r == text_ownership_spec(body@, attacker_id@, victim_id@),
{
    if str_contains(body, victim_id) {
        Verdict::Vulnerable
    } else if str_contains(body, attacker_id) {
        Verdict::Secure
    } else {
        Verdict::Uncertain
    }
}

/// The verdict for a parsed body: the victim's id in a critical field is
/// definitive; the attacker's id in any identity field shows proper
/// scoping; error payloads count as secure; a depth-limited search fails
/// closed to uncertain.
pub open spec fn tree_ownership_spec(t: JsonValue, attacker: Seq<char>, victim: Seq<char>) -> Verdict {
    let vf = search_value(t, victim, MAX_SCAN_DEPTH as nat);
    let af = search_value(t, attacker, MAX_SCAN_DEPTH as nat);
    if vf.critical {
        Verdict::Vulnerable
    } else if vf.exceeded {
        Verdict::Uncertain
    } else if af.any {
        Verdict::Secure
    } else if af.exceeded {
        Verdict::Uncertain
    } else if error_response_spec(t) {
        Verdict::Secure
    } else {
        Verdict::Uncertain
    }
}

/// The verdict for a 200/201 body with both identities known.
pub open spec fn ownership_spec(body: Seq<char>, attacker: Seq<char>, victim: Seq<char>) -> Verdict {
    match json_of(body) {
        Some(t) => tree_ownership_spec(t, attacker, victim),
        None => text_ownership_spec(body, attacker, victim),
    }
}

/// Decide whose data a successful response exposed.
pub fn analyze_response_ownership(body: &str, attacker_id: &str, victim_id: &str) -> (r: Verdict)
    ensures
        r == ownership_spec(body@, attacker_id@, victim_id@),
{
    match parse_json(body) {
        Some(tree) => {
            let vf = search_value_x(&tree, victim_id, MAX_SCAN_DEPTH);
            if vf.critical {
                return Verdict::Vulnerable;
            }
            if vf.exceeded {
                return Verdict::Uncertain;
            }
            let af = search_value_x(&tree, attacker_id, MAX_SCAN_DEPTH);
            if af.any {
                Verdict::Secure
            } else if af.exceeded {
                Verdict::Uncertain
            } else if is_error_response(&tree) {
                Verdict::Secure
            } else {
                Verdict::Uncertain
            }
        },
        None => analyze_text_ownership(body, attacker_id, victim_id),
    }
}

/// A 404 body that talks about authorization.
pub open spec fn auth_keyword_404(body: Seq<char>) -> bool {
    ||| contains_ci_seq(body, "unauthorized"@)
    ||| contains_ci_seq(body, "forbidden"@)
    ||| contains_ci_seq(body, "access denied"@)
    ||| contains_ci_seq(body, "not authorized"@)
    ||| contains_ci_seq(body, "permission"@)
    ||| contains_ci_seq(body, "not allowed"@)
}

/// Read authorization clues out of a 404 body: a hit means the resource is
/// hidden on purpose, anything else stays ambiguous.
pub fn analyze_404_context(body: &str) -> (r: Verdict)
    ensures
        r == if auth_keyword_404(body@) {
            Verdict::Secure
        } else {
            Verdict::Uncertain
        },
{
    if str_contains_ci(body, "unauthorized") || str_contains_ci(body, "forbidden")
        || str_contains_ci(body, "access denied") || str_contains_ci(body, "not authorized")
        || str_contains_ci(body, "permission") || str_contains_ci(body, "not allowed") {
        Verdict::Secure
    } else {
        Verdict::Uncertain
    }
}

/// The view of an optional borrowed identity.
pub open spec fn opt_view(o: Option<&str>) -> Option<Seq<char>> {
    match o {
        Some(s) => Some(s@),
        None => None,
    }
}

/// The complete decision table of the verdict engine.
pub open spec fn verdict_spec(
    status: u16,
    body: Seq<char>,
    attacker: Option<Seq<char>>,
    victim: Option<Seq<char>>,
) -> Verdict {
    if status == 401 || status == 403 || status == 400 {
        Verdict::Secure
    } else if status == 200 || status == 201 {
        match (attacker, victim) {
            (Some(a), Some(v)) => ownership_spec(body, a, v),
            _ => Verdict::Uncertain,
        }
    } else if status == 404 {
        if auth_keyword_404(body) {
            Verdict::Secure
        } else {
            Verdict::Uncertain
        }
    } else {
        Verdict::Uncertain
    }
}

/// Decide whether a response shows the probed endpoint as vulnerable,
/// secure, or uncertain. Total: malformed and adversarial bodies always
/// degrade to a concrete verdict.
pub fn decide_verdict(
    status: u16,
    body: &str,
    attacker_id: Option<&str>,
    victim_id: Option<&str>,
) -> (r: Verdict)
    ensures
        r == verdict_spec(status, body@, opt_view(attacker_id), opt_view(victim_id)),
        status == 401 || status == 403 || status == 400 ==> r == Verdict::Secure,
{
    match status {
        401 | 403 => Verdict::Secure,
        400 => Verdict::Secure,
        200 | 201 => {
            if let (Some(attacker), Some(victim)) = (attacker_id, victim_id) {
                analyze_response_ownership(body, attacker, victim)
            } else {
                Verdict::Uncertain
            }
        },
        404 => analyze_404_context(body),
        _ => Verdict::Uncertain,
    }
}

} // verus!
