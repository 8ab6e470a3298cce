//! The `inspect` command's logic: reference resolution plans, the
//! presenter view of a box, template detection, single-path template
//! parsing and rendering, and the `--latest` selection.

use vstd::prelude::*;

use crate::errors::BoxliteError;
use crate::format::OutputFormat;
use crate::json::{
    format_go_style_value, spec_go_style, spec_value_at_path, value_at_path, JsonValue,
};
use crate::registry::BoxInfo;
use crate::strutil::{
    contains_str, replace_str, seq_views, spec_contains_seq, spec_replace, spec_split_char,
    spec_trim, split_char_str, strip_prefix, strip_suffix, trim,
};

verus! {

/// Arguments of `inspect`: box references, the `--latest` flag, and the
/// output format.
#[derive(Debug, Clone)]
pub struct InspectArgs {
    pub boxes: Vec<String>,
    pub latest: bool,
    pub format: String,
}

// ============================================================================
// Templates
// ============================================================================

/// A format string is treated as a template when it holds both `{{` and
/// `}}`.
pub fn looks_like_template(s: &str) -> (r: bool)
    ensures
        r == (spec_contains_seq(s@, "{{"@) && spec_contains_seq(s@, "}}"@)),
{
    contains_str(s, "{{") && contains_str(s, "}}")
}

/// A character a template path may hold.
pub open spec fn spec_path_char_ok(c: char) -> bool {
    ('a' <= c && c <= 'z') || ('A' <= c && c <= 'Z') || ('0' <= c && c <= '9') || c == '.' || c
        == '_'
}

/// The dotted path of a template of the single-path form
/// `{{ .Field.Field }}`, or nothing where the template has another shape.
pub open spec fn spec_parse_single_path_template(s: Seq<char>) -> Option<Seq<char>> {
    let t = spec_trim(s);
    if !(2 <= t.len() && t.subrange(0, 2) == "{{"@) {
        None
    } else {
        let a = spec_trim(t.subrange(2, t.len() as int));
        if !(2 <= a.len() && a.subrange(a.len() - 2, a.len() as int) == "}}"@) {
            None
        } else {
            let inner = spec_trim(a.subrange(0, a.len() - 2));
            if !(1 <= inner.len() && inner.subrange(0, 1) == "."@) {
                None
            } else {
                let path = spec_trim(inner.subrange(1, inner.len() as int));
                if path.len() == 0 || spec_contains_seq(path, "{{"@) || spec_contains_seq(
                    path,
                    "}}"@,
                ) {
                    None
                } else if forall|i: int| 0 <= i < path.len() ==> spec_path_char_ok(#[trigger] path[i]) {
                    Some(path)
                } else {
                    None
                }
            }
        }
    }
}

/// Check every character of a path.
fn path_chars_ok(s: &str) -> (r: bool)
    ensures
        r == forall|i: int| 0 <= i < s@.len() ==> spec_path_char_ok(#[trigger] s@[i]),
{
    let n = s.unicode_len();
    let mut i: usize = 0;
    while i < n
        invariant
            n == s@.len(),
            i <= n,
            forall|k: int| 0 <= k < i ==> spec_path_char_ok(#[trigger] s@[k]),
        decreases n - i,
    {
        let c = s.get_char(i);
        let ok = ('a' <= c && c <= 'z') || ('A' <= c && c <= 'Z') || ('0' <= c && c <= '9') || c
            == '.' || c == '_';
        if !ok {
            return false;
        }
        i += 1;
    }
    true
}

/// Parse a single-path template such as `{{.State}}` or
/// `{{.State.Status}}` into its dotted path.
pub fn parse_single_path_template(s: &str) -> (r: Option<String>)
    ensures
        match r {
            Some(p) => spec_parse_single_path_template(s@) == Some(p@),
            None => spec_parse_single_path_template(s@) is None,
        },
{
    proof {
        reveal_strlit("{{");
        reveal_strlit("}}");
        reveal_strlit(".");
    }
    let t = trim(s);
    let after_open = match strip_prefix(t, "{{") {
        Some(x) => x,
        None => {
            return None;
        },
    };
    let a = trim(after_open);
    let before_close = match strip_suffix(a, "}}") {
        Some(x) => x,
        None => {
            return None;
        },
    };
    let inner = trim(before_close);
    let after_dot = match strip_prefix(inner, ".") {
        Some(x) => x,
        None => {
            return None;
        },
    };
    let path = trim(after_dot);
    if path.unicode_len() == 0 || contains_str(path, "{{") || contains_str(path, "}}") {
        return None;
    }
    if path_chars_ok(path) {
        Some(String::from_str(path))
    } else {
        None
    }
}

/// Rewrite the field aliases of a template: `.ImageID` means `.Image`,
/// `.ID` means `.Id`.
pub fn normalize_inspect_format(s: &str) -> (r: String)
    ensures
        r@ == spec_replace(spec_replace(s@, ".ImageID"@, ".Image"@), ".ID"@, ".Id"@),
{
    let first = replace_str(s, ".ImageID", ".Image");
    replace_str(first.as_str(), ".ID", ".Id")
}

/// Render a single-path template over a value: the Go-struct-style
/// rendering of the value the dotted path reaches, or nothing where the
/// path misses.
pub fn render_template_path(root: &JsonValue, path_str: &str) -> (r: Option<String>)
    ensures
        ({
            let segs = spec_split_char(path_str@, '.');
            match spec_value_at_path(*root, segs) {
                Some(v) => r matches Some(out) && out@ == spec_go_style(v),
                None => r is None,
            }
        }),
{
    let segs = split_char_str(path_str, '.');
    proof {
        assert(seq_views(segs@).skip(0) =~= spec_split_char(path_str@, '.'));
    }
    match value_at_path(root, &segs, 0) {
        Some(v) => Some(format_go_style_value(v)),
        None => None,
    }
}

// ============================================================================
// Format plan
// ============================================================================

/// What `inspect` does with its `--format` argument.
#[derive(Debug, Clone)]
pub enum InspectFormatPlan {
    /// Print the presenters as a JSON array.
    Json,
    /// Print the presenters as YAML.
    Yaml,
    /// Tables are not a format `inspect` supports.
    TableRejected,
    /// Render the (alias-normalized) template per box.
    Template(String),
    /// Neither a known format nor a template: the given error stands.
    Invalid(BoxliteError),
}

/// Decide how to render `inspect` output: a known format name wins;
/// otherwise anything shaped like a template is rendered as one, with the
/// field aliases rewritten; the rest is an error.
pub fn plan_inspect_format(format_str: &str) -> (r: InspectFormatPlan)
    ensures
        crate::strutil::spec_eq_ignore_case(format_str@, "json"@) ==> r is Json,
        crate::strutil::spec_eq_ignore_case(format_str@, "yaml"@) ==> r is Yaml,
        crate::strutil::spec_eq_ignore_case(format_str@, "table"@) ==> r is TableRejected,
        (!crate::strutil::spec_eq_ignore_case(format_str@, "json"@)
            && !crate::strutil::spec_eq_ignore_case(format_str@, "yaml"@)
            && !crate::strutil::spec_eq_ignore_case(format_str@, "table"@)) ==> {
            if spec_contains_seq(format_str@, "{{"@) && spec_contains_seq(format_str@, "}}"@) {
                r matches InspectFormatPlan::Template(t) && t@ == spec_replace(
                    spec_replace(format_str@, ".ImageID"@, ".Image"@),
                    ".ID"@,
                    ".Id"@,
                )
            } else {
                r matches InspectFormatPlan::Invalid(e) && e is InvalidArgument
            }
        },
{
    match OutputFormat::from_str(format_str) {
        Ok(OutputFormat::Json) => InspectFormatPlan::Json,
        Ok(OutputFormat::Yaml) => InspectFormatPlan::Yaml,
        Ok(OutputFormat::Table) => InspectFormatPlan::TableRejected,
        Err(format_err) => {
            if looks_like_template(format_str) {
                InspectFormatPlan::Template(normalize_inspect_format(format_str))
            } else {
                InspectFormatPlan::Invalid(format_err)
            }
        },
    }
}

// ============================================================================
// Presenters
// ============================================================================

/// The mutable-state part of the presenter.
#[derive(Debug, Clone)]
pub struct InspectStatePresenter {
    pub status: String,
    pub running: bool,
    pub pid: u64,
}

/// The view of one box that `inspect` serializes.
#[derive(Debug, Clone)]
pub struct InspectPresenter {
    pub id: String,
    pub name: String,
    pub image: String,
    pub created: String,
    pub status: String,
    pub state: InspectStatePresenter,
    pub cpus: u8,
    pub memory: u64,
}

/// Relies on chrono's `DateTime::from_timestamp` and `to_rfc3339`: the
/// rendering of a timestamp depends on the timestamp alone (UTC).
#[verifier::external_body]
fn format_rfc3339(ts: i64) -> (r: String)
    requires
        crate::registry::spec_timestamp_ok(ts),
    ensures
        r@ == rfc3339_of(ts as int),
{
    match chrono::DateTime::<chrono::Utc>::from_timestamp(ts, 0) {
        Some(dt) => dt.to_rfc3339(),
        None => String::new(),
    }
}

/// The RFC 3339 rendering of a timestamp.
pub uninterp spec fn rfc3339_of(ts: int) -> Seq<char>;

/// Build the presenter of one box: a missing name shows empty, a missing
/// pid shows zero, and memory is reported in bytes.
pub fn build_inspect_presenter(info: &BoxInfo) -> (r: InspectPresenter)
    requires
        crate::registry::spec_timestamp_ok(info.created_at),
    ensures
        r.id@ == info.id@,
        r.name@ == (match info.name {
            Some(n) => n@,
            None => Seq::<char>::empty(),
        }),
        r.image@ == info.image@,
        r.created@ == rfc3339_of(info.created_at as int),
        r.status@ == info.status.spec_as_str(),
        r.state.status@ == info.status.spec_as_str(),
        r.state.running == (info.status is Running),
        r.state.pid == (match info.pid {
            Some(p) => p,
            None => 0u64,
        }),
        r.cpus == info.cpus,
        r.memory as int == info.memory_mib as int * 0x100000,
{
    let name = match &info.name {
        Some(n) => n.clone(),
        None => String::new(),
    };
    let pid = match info.pid {
        Some(p) => p,
        None => 0,
    };
    InspectPresenter {
        id: info.id.clone(),
        name,
        image: info.image.clone(),
        created: format_rfc3339(info.created_at),
        status: String::from_str(info.status.as_str()),
        state: InspectStatePresenter {
            status: String::from_str(info.status.as_str()),
            running: info.status.is_running(),
            pid,
        },
        cpus: info.cpus,
        memory: (info.memory_mib as u64) * 0x100000,
    }
}

/// The presenter as a JSON object, fields in their fixed order, as the
/// templates and the JSON output see it.
pub fn presenter_to_json(p: &InspectPresenter) -> (r: JsonValue)
    requires
        p.state.pid <= i64::MAX,
        p.memory <= i64::MAX,
    ensures
        r matches JsonValue::Obj(fields) && {
            &&& fields@.len() == 8
            &&& fields@[0].0@ == "Id"@ && (fields@[0].1 matches JsonValue::Str(s) && s@ == p.id@)
            &&& fields@[1].0@ == "Name"@ && (fields@[1].1 matches JsonValue::Str(s) && s@
                == p.name@)
            &&& fields@[2].0@ == "Image"@ && (fields@[2].1 matches JsonValue::Str(s) && s@
                == p.image@)
            &&& fields@[3].0@ == "Created"@ && (fields@[3].1 matches JsonValue::Str(s) && s@
                == p.created@)
            &&& fields@[4].0@ == "Status"@ && (fields@[4].1 matches JsonValue::Str(s) && s@
                == p.status@)
            &&& fields@[5].0@ == "State"@ && (fields@[5].1 matches JsonValue::Obj(st) && {
                &&& st@.len() == 3
                &&& st@[0].0@ == "Status"@ && (st@[0].1 matches JsonValue::Str(s) && s@
                    == p.state.status@)
                &&& st@[1].0@ == "Running"@ && st@[1].1 == JsonValue::Bool(p.state.running)
                &&& st@[2].0@ == "Pid"@ && st@[2].1 == JsonValue::Int(p.state.pid as i64)
            })
            &&& fields@[6].0@ == "Cpus"@ && fields@[6].1 == JsonValue::Int(p.cpus as i64)
            &&& fields@[7].0@ == "Memory"@ && fields@[7].1 == JsonValue::Int(p.memory as i64)
        },
{
    let mut state_fields: Vec<(String, JsonValue)> = Vec::new();
    state_fields.push((String::from_str("Status"), JsonValue::Str(p.state.status.clone())));
    state_fields.push((String::from_str("Running"), JsonValue::Bool(p.state.running)));
    state_fields.push((String::from_str("Pid"), JsonValue::Int(p.state.pid as i64)));
    let mut fields: Vec<(String, JsonValue)> = Vec::new();
    fields.push((String::from_str("Id"), JsonValue::Str(p.id.clone())));
    fields.push((String::from_str("Name"), JsonValue::Str(p.name.clone())));
    fields.push((String::from_str("Image"), JsonValue::Str(p.image.clone())));
    fields.push((String::from_str("Created"), JsonValue::Str(p.created.clone())));
    fields.push((String::from_str("Status"), JsonValue::Str(p.status.clone())));
    fields.push((String::from_str("State"), JsonValue::Obj(state_fields)));
    fields.push((String::from_str("Cpus"), JsonValue::Int(p.cpus as i64)));
    fields.push((String::from_str("Memory"), JsonValue::Int(p.memory as i64)));
    JsonValue::Obj(fields)
}

// ============================================================================
// Latest-box selection
// ============================================================================

/// The most recently created box: the first of the maxima of
/// `created_at` (concurrent creations may tie; the earlier row wins).
pub fn select_latest(infos: &Vec<BoxInfo>) -> (r: Option<usize>)
    ensures
        (r is Some) <==> infos@.len() > 0,
        r matches Some(i) ==> {
            &&& i < infos@.len()
            &&& (forall|j: int|
                0 <= j < infos@.len() ==> (#[trigger] infos@[j]).created_at <= infos@[i as int].created_at)
            &&& (forall|j: int|
                0 <= j < i ==> (#[trigger] infos@[j]).created_at < infos@[i as int].created_at)
        },
{
    let n = infos.len();
    if n == 0 {
        return None;
    }
    let mut best: usize = 0;
    let mut i: usize = 1;
    while i < n
        invariant
            n == infos@.len(),
            best < i <= n,
            forall|j: int|
                0 <= j < i ==> (#[trigger] infos@[j]).created_at <= infos@[best as int].created_at,
            forall|j: int|
                0 <= j < best ==> (#[trigger] infos@[j]).created_at < infos@[best as int].created_at,
        decreases n - i,
    {
        if infos[i].created_at > infos[best].created_at {
            best = i;
        }
        i += 1;
    }
    Some(best)
}

} // verus!
