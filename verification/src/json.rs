//! A plain-value model of JSON documents. Response bodies are parsed by
//! serde_json behind a small trusted boundary and converted into this
//! model, on which the verdict engine's reasoning is verified.

use vstd::prelude::*;

verus! {

/// JSON as a tree of plain values. Object entries keep their order as
/// handed over by the parser; numbers carry no payload, since the verdict
/// engine matches only string-valued identity fields.
#[derive(Debug)]
pub enum JsonValue {
    Null,
    Bool(bool),
    Number,
    String(String),
    Array(Vec<JsonValue>),
    Object(Vec<JsonField>),
}

/// One entry of a JSON object.
#[derive(Debug)]
pub struct JsonField {
    pub key: String,
    pub value: JsonValue,
}

#[verifier::external_type_specification]
#[verifier::external_body]
pub struct ExValue(serde_json::Value);

/// The tree of plain values behind a parsed serde_json value.
pub uninterp spec fn value_tree(v: serde_json::Value) -> JsonValue;

/// The JSON tree that a body text parses to, when it parses at all.
pub uninterp spec fn json_of(s: Seq<char>) -> Option<JsonValue>;

/// Relies on serde_json::from_str::<Value>: parses the text as JSON and
/// fails on malformed input; the outcome is a function of the text alone.
#[verifier::external_body]
fn parse_raw(body: &str) -> (r: Option<serde_json::Value>)
    ensures
        match r {
            Some(v) => json_of(body@) == Some(value_tree(v)),
            None => json_of(body@) is None,
        },
{
    serde_json::from_str::<serde_json::Value>(body).ok()
}

/// Relies on the shape of serde_json::Value alone: each variant is mapped
/// to the matching variant of the plain model, moving its fields.
#[verifier::external_body]
fn to_tree(v: serde_json::Value) -> (t: JsonValue)
    ensures
        t == value_tree(v),
{
    match v {
        serde_json::Value::Null => JsonValue::Null,
        serde_json::Value::Bool(b) => JsonValue::Bool(b),
        serde_json::Value::Number(_) => JsonValue::Number,
        serde_json::Value::String(s) => JsonValue::String(s),
        serde_json::Value::Array(a) => JsonValue::Array(a.into_iter().map(to_tree).collect()),
        serde_json::Value::Object(m) => JsonValue::Object(
            m.into_iter().map(|(k, x)| JsonField { key: k, value: to_tree(x) }).collect(),
        ),
    }
}

/// Parse a response body into the plain JSON model; `None` on anything
/// that is not valid JSON.
pub fn parse_json(body: &str) -> (r: Option<JsonValue>)
    ensures
        match r {
            Some(t) => json_of(body@) == Some(t),
            None => json_of(body@) is None,
        },
{
    match parse_raw(body) {
        Some(v) => Some(to_tree(v)),
        None => None,
    }
}

/// The value of the first entry with the given key, as object lookup
/// resolves duplicate keys.
pub open spec fn lookup_spec(fs: Seq<JsonField>, key: Seq<char>) -> Option<JsonValue>
    decreases fs.len(),
{
    if fs.len() == 0 {
        None
    } else if fs[0].key@ == key {
        Some(fs[0].value)
    } else {
        lookup_spec(fs.drop_first(), key)
    }
}

/// Find the first entry with the given key.
pub fn lookup_field<'a>(fs: &'a Vec<JsonField>, key: &str) -> (r: Option<&'a JsonValue>)
    ensures
        match r {
            Some(v) => lookup_spec(fs@, key@) == Some(*v),
            None => lookup_spec(fs@, key@) is None,
        },
{
    let mut i: usize = 0;
    proof {
        assert(fs@.skip(0) =~= fs@);
    }
    while i < fs.len()
        invariant
            0 <= i <= fs@.len(),
            lookup_spec(fs@, key@) == lookup_spec(fs@.skip(i as int), key@),
        decreases fs@.len() - i,
    {
        proof {
            assert(fs@.skip(i as int)[0] == fs@[i as int]);
            assert(fs@.skip(i as int).drop_first() =~= fs@.skip(i + 1));
        }
        if crate::text::str_eq(fs[i].key.as_str(), key) {
            return Some(&fs[i].value);
        }
        i = i + 1;
    }
    proof {
        assert(fs@.skip(fs@.len() as int) =~= Seq::<JsonField>::empty());
    }
    None
}

/// Depth to which JSON trees are rewritten; equals the parser's own
/// recursion limit, so no tree read from a response or request body is ever
/// cut short.
pub const MAX_JSON_DEPTH: u32 = 128;

/// The replacement for a key, if the parameter map names it.
pub open spec fn map_lookup(map: Seq<(String, String)>, key: Seq<char>) -> Option<Seq<char>>
    decreases map.len(),
{
    if map.len() == 0 {
        None
    } else if map[0].0@ == key {
        Some(map[0].1@)
    } else {
        map_lookup(map.drop_first(), key)
    }
}

/// How substitution rewrites a value: object entries whose key the map
/// names get the mapped string as their value, every other value is
/// descended into, and a subtree at the depth bound is kept unchanged.
pub open spec fn subst_rel(v: JsonValue, r: JsonValue, map: Seq<(String, String)>, fuel: nat) -> bool
    decreases fuel, 1int, 0int,
{
    match v {
        JsonValue::Object(fs) => match r {
            JsonValue::Object(gs) => subst_fields_rel(fs@, gs@, map, fuel),
            _ => false,
        },
        JsonValue::Array(vs) => match r {
            JsonValue::Array(ws) => subst_elems_rel(vs@, ws@, map, fuel),
            _ => false,
        },
        _ => r == v,
    }
}

pub open spec fn subst_fields_rel(
    fs: Seq<JsonField>,
    gs: Seq<JsonField>,
    map: Seq<(String, String)>,
    fuel: nat,
) -> bool
    decreases fuel, 0int, fs.len(),
{
    if fs.len() == 0 {
        gs.len() == 0
    } else {
        &&& gs.len() > 0
        &&& gs[0].key == fs[0].key
        &&& match map_lookup(map, fs[0].key@) {
            Some(nv) => match gs[0].value {
                JsonValue::String(s) => s@ == nv,
                _ => false,
            },
            None => if fuel == 0 {
                gs[0].value == fs[0].value
            } else {
                subst_rel(fs[0].value, gs[0].value, map, (fuel - 1) as nat)
            },
        }
        &&& subst_fields_rel(fs.drop_first(), gs.drop_first(), map, fuel)
    }
}

pub open spec fn subst_elems_rel(
    vs: Seq<JsonValue>,
    ws: Seq<JsonValue>,
    map: Seq<(String, String)>,
    fuel: nat,
) -> bool
    decreases fuel, 0int, vs.len(),
{
    if vs.len() == 0 {
        ws.len() == 0
    } else {
        &&& ws.len() > 0
        &&& (if fuel == 0 {
            ws[0] == vs[0]
        } else {
            subst_rel(vs[0], ws[0], map, (fuel - 1) as nat)
        })
        &&& subst_elems_rel(vs.drop_first(), ws.drop_first(), map, fuel)
    }
}

fn map_lookup_x<'a>(map: &'a Vec<(String, String)>, key: &str) -> (r: Option<&'a String>)
    ensures
        match r {
            Some(v) => map_lookup(map@, key@) == Some(v@),
            None => map_lookup(map@, key@) is None,
        },
{
    let mut i: usize = 0;
    proof {
        assert(map@.skip(0) =~= map@);
    }
    while i < map.len()
        invariant
            0 <= i <= map@.len(),
            map_lookup(map@, key@) == map_lookup(map@.skip(i as int), key@),
        decreases map@.len() - i,
    {
        proof {
            assert(map@.skip(i as int)[0] == map@[i as int]);
            assert(map@.skip(i as int).drop_first() =~= map@.skip(i + 1));
        }
        if crate::text::str_eq(map[i].0.as_str(), key) {
            return Some(&map[i].1);
        }
        i = i + 1;
    }
    proof {
        assert(map@.skip(map@.len() as int) =~= Seq::<(String, String)>::empty());
    }
    None
}

fn subst_value(v: JsonValue, map: &Vec<(String, String)>, fuel: u32) -> (r: JsonValue)
    ensures
        subst_rel(v, r, map@, fuel as nat),
    decreases fuel, 1int, 0int,
{
    match v {
        JsonValue::Object(fs) => JsonValue::Object(subst_fields(fs, map, fuel)),
        JsonValue::Array(vs) => JsonValue::Array(subst_elems(vs, map, fuel)),
        other => other,
    }
}

fn subst_fields(fs: Vec<JsonField>, map: &Vec<(String, String)>, fuel: u32) -> (r: Vec<JsonField>)
    ensures
        subst_fields_rel(fs@, r@, map@, fuel as nat),
    decreases fuel, 0int, fs@.len(),
{
    let ghost orig = fs@;
    let mut rest = fs;
    if rest.len() == 0 {
        let out: Vec<JsonField> = Vec::new();
        return out;
    }
    let head = rest.remove(0);
    proof {
        assert(head == orig[0]);
        assert(rest@ =~= orig.drop_first());
    }
    let new_value = match map_lookup_x(map, head.key.as_str()) {
        Some(nv) => JsonValue::String(nv.clone()),
        None => {
            if fuel == 0 {
                head.value
            } else {
                subst_value(head.value, map, fuel - 1)
            }
        },
    };
    let ghost hk = head.key;
    let mut out: Vec<JsonField> = Vec::new();
    out.push(JsonField { key: head.key, value: new_value });
    let mut tail = subst_fields(rest, map, fuel);
    let ghost tl = tail@;
    out.append(&mut tail);
    proof {
        assert(out@ =~= seq![JsonField { key: hk, value: new_value }] + tl);
        assert(out@[0].key == orig[0].key);
        assert(out@.drop_first() =~= tl);
        assert(subst_fields_rel(orig, out@, map@, fuel as nat));
    }
    out
}

fn subst_elems(vs: Vec<JsonValue>, map: &Vec<(String, String)>, fuel: u32) -> (r: Vec<JsonValue>)
    ensures
        subst_elems_rel(vs@, r@, map@, fuel as nat),
    decreases fuel, 0int, vs@.len(),
{
    let ghost orig = vs@;
    let mut rest = vs;
    if rest.len() == 0 {
        let out: Vec<JsonValue> = Vec::new();
        return out;
    }
    let head = rest.remove(0);
    proof {
        assert(head == orig[0]);
        assert(rest@ =~= orig.drop_first());
    }
    let new_value = if fuel == 0 {
        head
    } else {
        subst_value(head, map, fuel - 1)
    };
    let mut out: Vec<JsonValue> = Vec::new();
    out.push(new_value);
    let mut tail = subst_elems(rest, map, fuel);
    let ghost tl = tail@;
    out.append(&mut tail);
    proof {
        assert(out@ =~= seq![new_value] + tl);
        assert(out@.drop_first() =~= tl);
        assert(subst_elems_rel(orig, out@, map@, fuel as nat));
    }
    out
}

/// Replace, throughout a JSON body, the value of every object entry whose
/// key the parameter map names by the mapped string; used to plant
/// candidate identifiers into request bodies.
pub fn substitute_params(json: JsonValue, param_map: &Vec<(String, String)>) -> (r: JsonValue)
    ensures
        subst_rel(json, r, param_map@, MAX_JSON_DEPTH as nat),
{
    subst_value(json, param_map, MAX_JSON_DEPTH)
}

} // verus!
