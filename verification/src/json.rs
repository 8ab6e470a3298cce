//! A JSON value tree of plain values, the dotted-path lookup and the
//! Go-struct-style rendering `inspect` templates use, and a text
//! serializer. Parsing text is the JSON library's work, behind a trusted
//! wrapper.

use vstd::prelude::*;

use crate::strutil::{spec_int_str, i64_to_string, str_eq};

verus! {

broadcast use {vstd::std_specs::vec::group_vec_axioms, vstd::seq::group_seq_axioms};

/// A JSON value. Numbers carry the integer range the runtime reads and
/// writes; fields keep their order.
#[derive(Debug)]
pub enum JsonValue {
    Null,
    Bool(bool),
    Int(i64),
    Str(String),
    Arr(Vec<JsonValue>),
    Obj(Vec<(String, JsonValue)>),
}

// ============================================================================
// Object lookup and dotted paths
// ============================================================================

/// The value of the first field named `key`.
pub open spec fn spec_obj_get(fields: Seq<(String, JsonValue)>, key: Seq<char>) -> Option<
    JsonValue,
>
    decreases fields.len(),
{
    if fields.len() == 0 {
        None
    } else if fields[0].0@ == key {
        Some(fields[0].1)
    } else {
        spec_obj_get(fields.drop_first(), key)
    }
}

/// The value a dotted path reaches: each segment reads a field of an
/// object; anything else ends the walk.
pub open spec fn spec_value_at_path(root: JsonValue, path: Seq<Seq<char>>) -> Option<JsonValue>
    decreases path.len(),
{
    if path.len() == 0 {
        Some(root)
    } else {
        match root {
            JsonValue::Obj(fields) => match spec_obj_get(fields@, path[0]) {
                Some(v) => spec_value_at_path(v, path.drop_first()),
                None => None,
            },
            _ => None,
        }
    }
}

/// Look a field up in an object's fields.
pub fn obj_get<'a>(fields: &'a Vec<(String, JsonValue)>, key: &str) -> (r: Option<&'a JsonValue>)
    ensures
        match r {
            Some(v) => spec_obj_get(fields@, key@) == Some(*v),
            None => spec_obj_get(fields@, key@) is None,
        },
{
    let n = fields.len();
    proof {
        assert(fields@.skip(0) =~= fields@);
    }
    let mut i: usize = 0;
    while i < n
        invariant
            n == fields@.len(),
            i <= n,
            spec_obj_get(fields@, key@) == spec_obj_get(fields@.skip(i as int), key@),
        decreases n - i,
    {
        proof {
            let rest = fields@.skip(i as int);
            assert(rest[0] == fields@[i as int]);
            assert(rest.drop_first() =~= fields@.skip(i as int + 1));
        }
        if str_eq(fields[i].0.as_str(), key) {
            return Some(&fields[i].1);
        }
        i += 1;
    }
    proof {
        assert(fields@.skip(n as int) =~= Seq::<(String, JsonValue)>::empty());
    }
    None
}

/// Walk a dotted path through the value.
pub fn value_at_path<'a>(root: &'a JsonValue, path: &Vec<String>, from: usize) -> (r: Option<
    &'a JsonValue,
>)
    requires
        from <= path@.len(),
    ensures
        match r {
            Some(v) => spec_value_at_path(*root, crate::strutil::seq_views(path@).skip(from as int))
                == Some(*v),
            None => spec_value_at_path(
                *root,
                crate::strutil::seq_views(path@).skip(from as int),
            ) is None,
        },
    decreases path@.len() - from,
{
    let ghost segs = crate::strutil::seq_views(path@).skip(from as int);
    if from == path.len() {
        proof {
            assert(segs.len() == 0);
        }
        return Some(root);
    }
    proof {
        assert(segs[0] == path@[from as int]@);
        assert(segs.drop_first() =~= crate::strutil::seq_views(path@).skip(from as int + 1));
    }
    match root {
        JsonValue::Obj(fields) => {
            match obj_get(fields, path[from].as_str()) {
                Some(v) => value_at_path(v, path, from + 1),
                None => None,
            }
        },
        _ => None,
    }
}

// ============================================================================
// Go-struct-style rendering
// ============================================================================

/// The number of nodes in a value tree; the measure recursion over
/// values uses.
pub open spec fn spec_json_size(v: JsonValue) -> nat
    decreases v,
{
    match v {
        JsonValue::Arr(items) => 1 + spec_json_items_size(items@),
        JsonValue::Obj(fields) => 1 + spec_json_fields_size(fields@),
        _ => 1,
    }
}

/// Total size of a sequence of values.
pub open spec fn spec_json_items_size(items: Seq<JsonValue>) -> nat
    decreases items,
{
    if items.len() == 0 {
        0
    } else {
        spec_json_items_size(items.drop_last()) + spec_json_size(items.last())
    }
}

/// Total size of an object's field values.
pub open spec fn spec_json_fields_size(fields: Seq<(String, JsonValue)>) -> nat
    decreases fields,
{
    if fields.len() == 0 {
        0
    } else {
        spec_json_fields_size(fields.drop_last()) + spec_json_size(fields.last().1)
    }
}

/// Each element's size is bounded by its sequence's.
proof fn lemma_json_item_size_le(items: Seq<JsonValue>, i: int)
    requires
        0 <= i < items.len(),
    ensures
        spec_json_size(items[i]) <= spec_json_items_size(items),
    decreases items.len(),
{
    if i == items.len() - 1 {
    } else {
        assert(items.drop_last()[i] == items[i]);
        lemma_json_item_size_le(items.drop_last(), i);
    }
}

/// Each field value's size is bounded by its field list's.
proof fn lemma_json_field_size_le(fields: Seq<(String, JsonValue)>, i: int)
    requires
        0 <= i < fields.len(),
    ensures
        spec_json_size(fields[i].1) <= spec_json_fields_size(fields),
    decreases fields.len(),
{
    if i == fields.len() - 1 {
    } else {
        assert(fields.drop_last()[i] == fields[i]);
        lemma_json_field_size_le(fields.drop_last(), i);
    }
}

/// Go-struct-style rendering: `{Key1:value1 Key2:value2}` for objects,
/// `[v1 v2]` for arrays, bare scalars, nothing for null.
pub open spec fn spec_go_style(v: JsonValue) -> Seq<char>
    decreases v,
{
    match v {
        JsonValue::Null => Seq::empty(),
        JsonValue::Bool(b) => if b {
            "true"@
        } else {
            "false"@
        },
        JsonValue::Int(n) => spec_int_str(n as int),
        JsonValue::Str(s) => s@,
        JsonValue::Arr(items) => seq!['['] + spec_go_items(items@) + seq![']'],
        JsonValue::Obj(fields) => seq!['{'] + spec_go_fields(fields@) + seq!['}'],
    }
}

/// Array items rendered Go-style, joined by single spaces.
pub open spec fn spec_go_items(items: Seq<JsonValue>) -> Seq<char>
    decreases items,
{
    if items.len() == 0 {
        Seq::empty()
    } else if items.len() == 1 {
        spec_go_style(items[0])
    } else {
        spec_go_items(items.drop_last()) + seq![' '] + spec_go_style(items.last())
    }
}

/// Object fields rendered Go-style, `key:value`, joined by single spaces.
pub open spec fn spec_go_fields(fields: Seq<(String, JsonValue)>) -> Seq<char>
    decreases fields,
{
    if fields.len() == 0 {
        Seq::empty()
    } else if fields.len() == 1 {
        fields[0].0@ + seq![':'] + spec_go_style(fields[0].1)
    } else {
        spec_go_fields(fields.drop_last()) + seq![' '] + fields.last().0@ + seq![':']
            + spec_go_style(fields.last().1)
    }
}

/// Render a value in Go struct style: what a single-path template prints.
pub fn format_go_style_value(v: &JsonValue) -> (r: String)
    ensures
        r@ == spec_go_style(*v),
    decreases spec_json_size(*v),
{
    match v {
        JsonValue::Null => String::new(),
        JsonValue::Bool(b) => {
            if *b {
                String::from_str("true")
            } else {
                String::from_str("false")
            }
        },
        JsonValue::Int(n) => i64_to_string(*n),
        JsonValue::Str(s) => s.clone(),
        JsonValue::Arr(items) => {
            let mut out = String::from_str("[");
            proof {
                reveal_strlit("[");
                assert(out@ =~= seq!['[']);
                assert(out@ =~= seq!['['] + spec_go_items(items@.take(0)));
            }
            let n = items.len();
            let mut i: usize = 0;
            while i < n
                invariant
                    *v == JsonValue::Arr(*items),
                    n == items@.len(),
                    i <= n,
                    out@ == seq!['['] + spec_go_items(items@.take(i as int)),
                decreases n - i,
            {
                proof {
                    assert(items@.take(i as int + 1).drop_last() =~= items@.take(i as int));
                    assert(items@.take(i as int + 1).last() == items@[i as int]);
                    assert(items@.take(i as int + 1)[0] == items@[0]);
                    lemma_json_item_size_le(items@, i as int);
                }
                if i > 0 {
                    out.append(" ");
                    proof {
                        reveal_strlit(" ");
                        assert(" "@ =~= seq![' ']);
                    }
                }
                let piece = format_go_style_value(&items[i]);
                out.append(piece.as_str());
                proof {
                    if i == 0 {
                        assert(items@.take(1)[0] == items@[0]);
                        assert(spec_go_items(items@.take(1)) == spec_go_style(items@[0]));
                        assert(out@ =~= seq!['['] + spec_go_items(items@.take(1)));
                    } else {
                        assert(out@ =~= seq!['['] + spec_go_items(items@.take(i as int + 1)));
                    }
                }
                i += 1;
            }
            proof {
                assert(items@.take(n as int) =~= items@);
                reveal_strlit("]");
                assert("]"@ =~= seq![']']);
            }
            out.append("]");
            proof {
                assert(out@ =~= seq!['['] + spec_go_items(items@) + seq![']']);
            }
            out
        },
        JsonValue::Obj(fields) => {
            let mut out = String::from_str("{");
            proof {
                reveal_strlit("{");
                assert(out@ =~= seq!['{']);
                assert(out@ =~= seq!['{'] + spec_go_fields(fields@.take(0)));
            }
            let n = fields.len();
            let mut i: usize = 0;
            while i < n
                invariant
                    *v == JsonValue::Obj(*fields),
                    n == fields@.len(),
                    i <= n,
                    out@ == seq!['{'] + spec_go_fields(fields@.take(i as int)),
                decreases n - i,
            {
                proof {
                    assert(fields@.take(i as int + 1).drop_last() =~= fields@.take(i as int));
                    assert(fields@.take(i as int + 1).last() == fields@[i as int]);
                    assert(fields@.take(i as int + 1)[0] == fields@[0]);
                    lemma_json_field_size_le(fields@, i as int);
                }
                if i > 0 {
                    out.append(" ");
                    proof {
                        reveal_strlit(" ");
                        assert(" "@ =~= seq![' ']);
                    }
                }
                out.append(fields[i].0.as_str());
                out.append(":");
                proof {
                    reveal_strlit(":");
                    assert(":"@ =~= seq![':']);
                }
                let piece = format_go_style_value(&fields[i].1);
                out.append(piece.as_str());
                proof {
                    if i == 0 {
                        assert(fields@.take(1)[0] == fields@[0]);
                        assert(spec_go_fields(fields@.take(1)) == fields@[0].0@ + seq![':']
                            + spec_go_style(fields@[0].1));
                        assert(out@ =~= seq!['{'] + spec_go_fields(fields@.take(1)));
                    } else {
                        assert(out@ =~= seq!['{'] + spec_go_fields(fields@.take(i as int + 1)));
                    }
                }
                i += 1;
            }
            proof {
                assert(fields@.take(n as int) =~= fields@);
                reveal_strlit("}");
                assert("}"@ =~= seq!['}']);
            }
            out.append("}");
            proof {
                assert(out@ =~= seq!['{'] + spec_go_fields(fields@) + seq!['}']);
            }
            out
        },
    }
}

} // verus!

use vstd::prelude::*;

verus! {

// ============================================================================
// JSON text
// ============================================================================

/// How one character appears inside a JSON string literal: quotes,
/// backslashes and the common control characters are escaped.
pub open spec fn spec_escape_char(c: char) -> Seq<char> {
    if c == '"' {
        seq!['\\', '"']
    } else if c == '\\' {
        seq!['\\', '\\']
    } else if c == '\n' {
        seq!['\\', 'n']
    } else if c == '\r' {
        seq!['\\', 'r']
    } else if c == '\t' {
        seq!['\\', 't']
    } else {
        seq![c]
    }
}

/// A string's characters escaped for a JSON literal.
pub open spec fn spec_escape(s: Seq<char>) -> Seq<char>
    decreases s.len(),
{
    if s.len() == 0 {
        Seq::empty()
    } else {
        spec_escape(s.drop_last()) + spec_escape_char(s.last())
    }
}

/// Escape a string's characters for a JSON literal.
fn escape_json_str(s: &str) -> (r: String)
    ensures
        r@ == spec_escape(s@),
{
    let n = s.unicode_len();
    let mut out = String::new();
    proof {
        assert(s@.take(0) =~= Seq::<char>::empty());
        assert(out@ =~= spec_escape(s@.take(0)));
    }
    let mut i: usize = 0;
    while i < n
        invariant
            n == s@.len(),
            i <= n,
            out@ == spec_escape(s@.take(i as int)),
        decreases n - i,
    {
        proof {
            assert(s@.take(i as int + 1).drop_last() =~= s@.take(i as int));
            assert(s@.take(i as int + 1).last() == s@[i as int]);
        }
        let c = s.get_char(i);
        if c == '"' {
            out.append("\\\"");
            proof {
                reveal_strlit("\\\"");
                assert("\\\""@ =~= seq!['\\', '"']);
            }
        } else if c == '\\' {
            out.append("\\\\");
            proof {
                reveal_strlit("\\\\");
                assert("\\\\"@ =~= seq!['\\', '\\']);
            }
        } else if c == '\n' {
            out.append("\\n");
            proof {
                reveal_strlit("\\n");
                assert("\\n"@ =~= seq!['\\', 'n']);
            }
        } else if c == '\r' {
            out.append("\\r");
            proof {
                reveal_strlit("\\r");
                assert("\\r"@ =~= seq!['\\', 'r']);
            }
        } else if c == '\t' {
            out.append("\\t");
            proof {
                reveal_strlit("\\t");
                assert("\\t"@ =~= seq!['\\', 't']);
            }
        } else {
            out.append(s.substring_char(i, i + 1));
            proof {
                assert(s@.subrange(i as int, i as int + 1) =~= seq![s@[i as int]]);
            }
        }
        proof {
            assert(out@ =~= spec_escape(s@.take(i as int + 1)));
        }
        i += 1;
    }
    proof {
        assert(s@.take(n as int) =~= s@);
    }
    out
}

/// The JSON text of a value: compact, fields in order, strings with the
/// common escapes.
pub open spec fn spec_json_text(v: JsonValue) -> Seq<char>
    decreases v,
{
    match v {
        JsonValue::Null => "null"@,
        JsonValue::Bool(b) => if b {
            "true"@
        } else {
            "false"@
        },
        JsonValue::Int(n) => spec_int_str(n as int),
        JsonValue::Str(s) => seq!['"'] + spec_escape(s@) + seq!['"'],
        JsonValue::Arr(items) => seq!['['] + spec_json_items_text(items@) + seq![']'],
        JsonValue::Obj(fields) => seq!['{'] + spec_json_fields_text(fields@) + seq!['}'],
    }
}

/// Array items' JSON text, joined by commas.
pub open spec fn spec_json_items_text(items: Seq<JsonValue>) -> Seq<char>
    decreases items,
{
    if items.len() == 0 {
        Seq::empty()
    } else if items.len() == 1 {
        spec_json_text(items[0])
    } else {
        spec_json_items_text(items.drop_last()) + seq![','] + spec_json_text(items.last())
    }
}

/// Object fields' JSON text, `"key":value`, joined by commas.
pub open spec fn spec_json_fields_text(fields: Seq<(String, JsonValue)>) -> Seq<char>
    decreases fields,
{
    if fields.len() == 0 {
        Seq::empty()
    } else if fields.len() == 1 {
        seq!['"'] + spec_escape(fields[0].0@) + seq!['"', ':'] + spec_json_text(fields[0].1)
    } else {
        spec_json_fields_text(fields.drop_last()) + seq![','] + seq!['"'] + spec_escape(
            fields.last().0@,
        ) + seq!['"', ':'] + spec_json_text(fields.last().1)
    }
}

/// Serialize a value to JSON text.
pub fn to_json_text(v: &JsonValue) -> (r: String)
    ensures
        r@ == spec_json_text(*v),
    decreases spec_json_size(*v),
{
    match v {
        JsonValue::Null => String::from_str("null"),
        JsonValue::Bool(b) => {
            if *b {
                String::from_str("true")
            } else {
                String::from_str("false")
            }
        },
        JsonValue::Int(n) => i64_to_string(*n),
        JsonValue::Str(s) => {
            let mut out = String::from_str("\"");
            proof {
                reveal_strlit("\"");
                assert("\""@ =~= seq!['"']);
            }
            let esc = escape_json_str(s.as_str());
            out.append(esc.as_str());
            out.append("\"");
            proof {
                assert(out@ =~= seq!['"'] + spec_escape(s@) + seq!['"']);
            }
            out
        },
        JsonValue::Arr(items) => {
            let mut out = String::from_str("[");
            proof {
                reveal_strlit("[");
                assert(out@ =~= seq!['[']);
                assert(out@ =~= seq!['['] + spec_json_items_text(items@.take(0)));
            }
            let n = items.len();
            let mut i: usize = 0;
            while i < n
                invariant
                    *v == JsonValue::Arr(*items),
                    n == items@.len(),
                    i <= n,
                    out@ == seq!['['] + spec_json_items_text(items@.take(i as int)),
                decreases n - i,
            {
                proof {
                    assert(items@.take(i as int + 1).drop_last() =~= items@.take(i as int));
                    assert(items@.take(i as int + 1).last() == items@[i as int]);
                    assert(items@.take(i as int + 1)[0] == items@[0]);
                    lemma_json_item_size_le(items@, i as int);
                }
                if i > 0 {
                    out.append(",");
                    proof {
                        reveal_strlit(",");
                        assert(","@ =~= seq![',']);
                    }
                }
                let piece = to_json_text(&items[i]);
                out.append(piece.as_str());
                proof {
                    if i == 0 {
                        assert(items@.take(1)[0] == items@[0]);
                        assert(spec_json_items_text(items@.take(1)) == spec_json_text(items@[0]));
                        assert(out@ =~= seq!['['] + spec_json_items_text(items@.take(1)));
                    } else {
                        assert(out@ =~= seq!['['] + spec_json_items_text(items@.take(i as int + 1)));
                    }
                }
                i += 1;
            }
            proof {
                assert(items@.take(n as int) =~= items@);
                reveal_strlit("]");
                assert("]"@ =~= seq![']']);
            }
            out.append("]");
            proof {
                assert(out@ =~= seq!['['] + spec_json_items_text(items@) + seq![']']);
            }
            out
        },
        JsonValue::Obj(fields) => {
            let mut out = String::from_str("{");
            proof {
                reveal_strlit("{");
                assert(out@ =~= seq!['{']);
                assert(out@ =~= seq!['{'] + spec_json_fields_text(fields@.take(0)));
            }
            let n = fields.len();
            let mut i: usize = 0;
            while i < n
                invariant
                    *v == JsonValue::Obj(*fields),
                    n == fields@.len(),
                    i <= n,
                    out@ == seq!['{'] + spec_json_fields_text(fields@.take(i as int)),
                decreases n - i,
            {
                proof {
                    assert(fields@.take(i as int + 1).drop_last() =~= fields@.take(i as int));
                    assert(fields@.take(i as int + 1).last() == fields@[i as int]);
                    assert(fields@.take(i as int + 1)[0] == fields@[0]);
                    lemma_json_field_size_le(fields@, i as int);
                }
                if i > 0 {
                    out.append(",");
                    proof {
                        reveal_strlit(",");
                        assert(","@ =~= seq![',']);
                    }
                }
                out.append("\"");
                proof {
                    reveal_strlit("\"");
                    assert("\""@ =~= seq!['"']);
                }
                let key = escape_json_str(fields[i].0.as_str());
                out.append(key.as_str());
                out.append("\":");
                proof {
                    reveal_strlit("\":");
                    assert("\":"@ =~= seq!['"', ':']);
                }
                let piece = to_json_text(&fields[i].1);
                out.append(piece.as_str());
                proof {
                    if i == 0 {
                        assert(fields@.take(1)[0] == fields@[0]);
                        assert(spec_json_fields_text(fields@.take(1)) == seq!['"'] + spec_escape(
                            fields@[0].0@,
                        ) + seq!['"', ':'] + spec_json_text(fields@[0].1));
                        assert(out@ =~= seq!['{'] + spec_json_fields_text(fields@.take(1)));
                    } else {
                        assert(out@ =~= seq!['{'] + spec_json_fields_text(
                            fields@.take(i as int + 1),
                        ));
                    }
                }
                i += 1;
            }
            proof {
                assert(fields@.take(n as int) =~= fields@);
                reveal_strlit("}");
                assert("}"@ =~= seq!['}']);
            }
            out.append("}");
            proof {
                assert(out@ =~= seq!['{'] + spec_json_fields_text(fields@) + seq!['}']);
            }
            out
        },
    }
}

// ============================================================================
// Parsing (the JSON library's work)
// ============================================================================

/// The value JSON text denotes, or nothing where the text is not JSON.
/// Numbers outside the `i64` range read as null.
pub uninterp spec fn json_of(s: Seq<char>) -> Option<JsonValue>;

#[verifier::external_type_specification]
#[verifier::external_body]
pub struct ExSerdeJsonValue(serde_json::Value);

/// Relies on serde_json's `Value` variants: rebuilds the parsed tree as
/// this crate's values, one arm per variant.
#[verifier::external_body]
fn from_serde_value(v: serde_json::Value) -> JsonValue {
    match v {
        serde_json::Value::Null => JsonValue::Null,
        serde_json::Value::Bool(b) => JsonValue::Bool(b),
        serde_json::Value::Number(n) => match n.as_i64() {
            Some(i) => JsonValue::Int(i),
            None => JsonValue::Null,
        },
        serde_json::Value::String(s) => JsonValue::Str(s),
        serde_json::Value::Array(a) => JsonValue::Arr(a.into_iter().map(from_serde_value).collect()),
        serde_json::Value::Object(m) => JsonValue::Obj(
            m.into_iter().map(|kv| (kv.0, from_serde_value(kv.1))).collect(),
        ),
    }
}

/// Relies on serde_json::from_str: parses JSON text into a value tree;
/// the result depends on the text alone.
#[verifier::external_body]
pub fn parse_json_text(s: &str) -> (r: Option<JsonValue>)
    ensures
        r == json_of(s@),
{
    match serde_json::from_str::<serde_json::Value>(s) {
        Ok(v) => Some(from_serde_value(v)),
        Err(_) => None,
    }
}

} // verus!
