//! One mutant from `cargo-mutants --list --json`: where it applies, what it
//! makes of the source, and what its test run says of it.
use vstd::prelude::*;
use crate::manifest::opt_view;
use crate::path::components_of;
use crate::sources::Sources;
use crate::span::{Position, span_replace, span_replaced};
use crate::text::{decimal, decimal_digits, strip_prefix, without_prefix};

verus! {

/// `serde_json::Value`, a parsed JSON document; opaque here.
#[verifier::external_type_specification]
#[verifier::external_body]
pub struct ExJsonValue(serde_json::Value);

/// Whether serde_json accepts `text` as one JSON document.
pub uninterp spec fn json_accepts(text: Seq<char>) -> bool;

/// For a text whose JSON document is an array, what each element holds (its
/// leaves, see `json_leaves`) and its compact text, in order; `None` for a
/// text that is not JSON or whose document is not an array.
pub uninterp spec fn json_array_items(text: Seq<char>) -> Option<
    Seq<(Map<Seq<Seq<char>>, JsonLeaf>, Seq<char>)>,
>;

/// For a `serde_json::Value` that is an array, what each element holds (its
/// leaves) and its compact text, in order; `None` for any other value.
pub uninterp spec fn json_items(v: serde_json::Value) -> Option<
    Seq<(Map<Seq<Seq<char>>, JsonLeaf>, Seq<char>)>,
>;

/// serde_json's message (the `Display` of its `Error`) for a text that is
/// not one JSON document: what went wrong, and at which line and column.
pub uninterp spec fn json_error_message(text: Seq<char>) -> Seq<char>;

/// `serde_json::from_str::<serde_json::Value>`: parses `text` as JSON, with
/// the error turned into its message. Whether it succeeds, the elements of
/// the document where it is an array, and the message where it fails depend
/// on the text alone.
#[verifier::external_body]
fn json_from_str(text: &str) -> (r: Result<serde_json::Value, String>)
    ensures
        r is Ok <==> json_accepts(text@),
        r matches Ok(v) ==> json_items(v) == json_array_items(text@),
        r matches Err(m) ==> m@ == json_error_message(text@),
{
    match serde_json::from_str(text) {
        Ok(v) => Ok(v),
        Err(e) => Err(e.to_string()),
    }
}

/// The elements of a `serde_json::Value::Array`, taken out of it; `None` for
/// any other value.
#[verifier::external_body]
fn json_elements(v: serde_json::Value) -> (r: Option<Vec<serde_json::Value>>)
    ensures
        r is None <==> json_items(v) is None,
        r matches Some(items) ==> json_items(v) matches Some(es) && items.len() == es.len() && (
        forall|i: int|
            0 <= i < items.len() ==> json_leaves(#[trigger] items@[i]) == es[i].0
                && json_rendering(items@[i]) == es[i].1),
{
    match v {
        serde_json::Value::Array(items) => Some(items),
        _ => None,
    }
}

/// What a JSON value holds at the end of a path of object member names: a
/// string, a number (with its value where it is an unsigned integer that fits
/// in `u64`), or something else (`true`, `false`, an array).
pub enum JsonLeaf {
    /// A JSON string.
    Text(Seq<char>),
    /// A JSON number, and its value where it is an unsigned integer that fits
    /// in `u64`.
    Number(Option<u64>),
    /// `true`, `false` or an array.
    Other,
}

/// What a `serde_json::Value` holds, by path of object member names: a
/// string, number, boolean or array at the empty path for a value that is
/// one; for an object, what each member holds, under paths that start with
/// the member's name; nothing at any path for `null` (or an empty object).
pub uninterp spec fn json_leaves(v: serde_json::Value) -> Map<Seq<Seq<char>>, JsonLeaf>;

/// The compact JSON text of a `serde_json::Value`.
pub uninterp spec fn json_rendering(v: serde_json::Value) -> Seq<char>;

/// What the member `key` of a value with leaves `m` holds: the leaves of `m`
/// under `key`, with `key` taken off their paths.
pub open spec fn member_leaves(m: Map<Seq<Seq<char>>, JsonLeaf>, key: Seq<char>) -> Map<
    Seq<Seq<char>>,
    JsonLeaf,
> {
    Map::new(|p: Seq<Seq<char>>| m.contains_key(seq![key] + p), |p: Seq<Seq<char>>| m[seq![key] + p])
}

/// The string at `path`, where there is one.
pub open spec fn text_at(m: Map<Seq<Seq<char>>, JsonLeaf>, path: Seq<Seq<char>>) -> Option<Seq<char>> {
    if m.contains_key(path) {
        match m[path] {
            JsonLeaf::Text(t) => Some(t),
            _ => None,
        }
    } else {
        None
    }
}

/// The unsigned integer at `path`, where there is one that fits in `u64`.
pub open spec fn unsigned_at(m: Map<Seq<Seq<char>>, JsonLeaf>, path: Seq<Seq<char>>) -> Option<u64> {
    if m.contains_key(path) {
        match m[path] {
            JsonLeaf::Number(n) => n,
            _ => None,
        }
    } else {
        None
    }
}

/// `<serde_json::Value as Index<&str>>::index`: the member `key` of an
/// object, or `null` where there is none (and for any value that is not an
/// object): what it holds is what `v` holds under `key`.
#[verifier::external_body]
fn json_member<'a>(v: &'a serde_json::Value, key: &str) -> (r: &'a serde_json::Value)
    ensures
        json_leaves(*r) == member_leaves(json_leaves(*v), key@),
{
    &v[key]
}

/// `serde_json::Value::as_str`: the text of a JSON string, `None` for any
/// other value.
#[verifier::external_body]
fn json_text(v: &serde_json::Value) -> (r: Option<String>)
    ensures
        opt_view(r) == text_at(json_leaves(*v), Seq::empty()),
{
    v.as_str().map(str::to_owned)
}

/// `serde_json::Value::as_u64`: a non-negative integer that fits in `u64`,
/// `None` for any other value.
#[verifier::external_body]
fn json_unsigned(v: &serde_json::Value) -> (r: Option<u64>)
    ensures
        r == unsigned_at(json_leaves(*v), Seq::empty()),
{
    v.as_u64()
}

/// `<serde_json::Value as Display>::fmt`: the compact JSON text of a value.
#[verifier::external_body]
fn json_render(v: &serde_json::Value) -> (r: String)
    ensures
        r@ == json_rendering(*v),
{
    v.to_string()
}

/// The mutants that `cargo-mutants --list --json` emitted: the elements of
/// the top-level array.
pub enum MutantList {
    /// The text is not JSON; serde_json's message.
    NotJson(String),
    /// The document is not an array.
    NotArray,
    /// The array's elements.
    Mutants(Vec<serde_json::Value>),
}

/// Parses the mutant list: `NotJson` exactly for a text that is not JSON,
/// `NotArray` for a JSON document that is not an array, and otherwise the
/// array's elements, in order.
pub fn parse_mutant_list(text: &str) -> (r: MutantList)
    ensures
        r is NotJson <==> !json_accepts(text@),
        r matches MutantList::NotJson(m) ==> m@ == json_error_message(text@),
        json_accepts(text@) ==> (r is NotArray <==> json_array_items(text@) is None),
        r matches MutantList::Mutants(items) ==> json_array_items(text@) matches Some(es)
            && items.len() == es.len() && (forall|i: int|
            0 <= i < items.len() ==> json_leaves(#[trigger] items@[i]) == es[i].0
                && json_rendering(items@[i]) == es[i].1),
{
    match json_from_str(text) {
        Err(m) => MutantList::NotJson(m),
        Ok(doc) => match json_elements(doc) {
            None => MutantList::NotArray,
            Some(items) => MutantList::Mutants(items),
        },
    }
}

/// The fields of one mutant record, as found (or not) in its JSON.
pub struct MutantFields {
    /// `file`, where it is a string.
    pub file: Option<String>,
    /// `replacement`, where it is a string.
    pub replacement: Option<String>,
    /// `span.start.line`, where it is an unsigned integer.
    pub start_line: Option<u64>,
    /// `span.start.column`, where it is an unsigned integer.
    pub start_column: Option<u64>,
    /// `span.end.line`, where it is an unsigned integer.
    pub end_line: Option<u64>,
    /// `span.end.column`, where it is an unsigned integer.
    pub end_column: Option<u64>,
    /// `function.function_name`, where it is a string.
    pub function_name: Option<String>,
    /// The record's compact JSON text, for messages.
    pub shown: String,
}

/// Reads the fields of one mutant record: the strings at `file`,
/// `replacement` and `function.function_name`, the unsigned integers at
/// `span.start.line`, `span.start.column`, `span.end.line` and
/// `span.end.column`, and the record's compact text.
pub fn mutant_fields(v: &serde_json::Value) -> (r: MutantFields)
    ensures
        opt_view(r.file) == text_at(json_leaves(*v), seq!["file"@]),
        opt_view(r.replacement) == text_at(json_leaves(*v), seq!["replacement"@]),
        r.start_line == unsigned_at(json_leaves(*v), seq!["span"@, "start"@, "line"@]),
        r.start_column == unsigned_at(json_leaves(*v), seq!["span"@, "start"@, "column"@]),
        r.end_line == unsigned_at(json_leaves(*v), seq!["span"@, "end"@, "line"@]),
        r.end_column == unsigned_at(json_leaves(*v), seq!["span"@, "end"@, "column"@]),
        opt_view(r.function_name) == text_at(
            json_leaves(*v),
            seq!["function"@, "function_name"@],
        ),
        r.shown@ == json_rendering(*v),
{
    proof {
        let e = Seq::<Seq<char>>::empty();
        assert(seq!["file"@] + e =~= seq!["file"@]);
        assert(seq!["replacement"@] + e =~= seq!["replacement"@]);
        assert(seq!["span"@] + (seq!["start"@] + (seq!["line"@] + e)) =~= seq![
            "span"@,
            "start"@,
            "line"@,
        ]);
        assert(seq!["span"@] + (seq!["start"@] + (seq!["column"@] + e)) =~= seq![
            "span"@,
            "start"@,
            "column"@,
        ]);
        assert(seq!["span"@] + (seq!["end"@] + (seq!["line"@] + e)) =~= seq![
            "span"@,
            "end"@,
            "line"@,
        ]);
        assert(seq!["span"@] + (seq!["end"@] + (seq!["column"@] + e)) =~= seq![
            "span"@,
            "end"@,
            "column"@,
        ]);
        assert(seq!["function"@] + (seq!["function_name"@] + e) =~= seq![
            "function"@,
            "function_name"@,
        ]);
    }
    let span = json_member(v, "span");
    let start = json_member(span, "start");
    let end = json_member(span, "end");
    MutantFields {
        file: json_text(json_member(v, "file")),
        replacement: json_text(json_member(v, "replacement")),
        start_line: json_unsigned(json_member(start, "line")),
        start_column: json_unsigned(json_member(start, "column")),
        end_line: json_unsigned(json_member(end, "line")),
        end_column: json_unsigned(json_member(end, "column")),
        function_name: json_text(json_member(json_member(v, "function"), "function_name")),
        shown: json_render(v),
    }
}

/// Where a mutant applies and what it puts there.
pub struct Mutant {
    /// The source it mutates, relative to the `src/` of the listed tree.
    pub file: String,
    /// The text put in place of the span.
    pub replacement: String,
    /// Where the span starts (1-based line and column).
    pub start: Position,
    /// Where the span ends, exclusive.
    pub end: Position,
    /// The mutated function's name, where the record gives one.
    pub function_name: Option<String>,
}

/// The mutant that `f` describes: its file must be under `src/`, and its
/// replacement and all four span fields must be present; each missing field
/// is reported, the first one first.
pub open spec fn locate_spec(f: MutantFields) -> Result<
    (Seq<char>, Seq<char>, (int, int), (int, int), Option<Seq<char>>),
    Seq<char>,
> {
    let file = match f.file {
        Some(t) => without_prefix(t@, "src/"@),
        None => None,
    };
    if file is None {
        Err("mutant has no `src/`-relative file field: "@ + f.shown@)
    } else if f.replacement is None {
        Err("mutant has no replacement: "@ + f.shown@)
    } else if f.start_line is None {
        Err("mutant has no span.start.line: "@ + f.shown@)
    } else if f.start_column is None {
        Err("mutant has no span.start.column: "@ + f.shown@)
    } else if f.end_line is None {
        Err("mutant has no span.end.line: "@ + f.shown@)
    } else if f.end_column is None {
        Err("mutant has no span.end.column: "@ + f.shown@)
    } else {
        Ok(
            (
                file->0,
                f.replacement->0@,
                ((f.start_line->0 as usize) as int, (f.start_column->0 as usize) as int),
                ((f.end_line->0 as usize) as int, (f.end_column->0 as usize) as int),
                match f.function_name {
                    Some(n) => Some(n@),
                    None => None,
                },
            ),
        )
    }
}

/// The mutant as plain values.
pub open spec fn mutant_view(m: Mutant) -> (
    Seq<char>,
    Seq<char>,
    (int, int),
    (int, int),
    Option<Seq<char>>,
) {
    (
        m.file@,
        m.replacement@,
        (m.start.0 as int, m.start.1 as int),
        (m.end.0 as int, m.end.1 as int),
        match m.function_name {
            Some(n) => Some(n@),
            None => None,
        },
    )
}

/// `prefix` followed by the record's text.
fn about(prefix: &str, shown: &String) -> (r: String)
    ensures
        r@ == prefix@ + shown@,
{
    let mut r = prefix.to_owned();
    r.append(shown.as_str());
    r
}

/// The mutant that the fields describe, or the message for the first field
/// missing.
pub fn locate(f: &MutantFields) -> (r: Result<Mutant, String>)
    ensures
        locate_spec(*f) == (match r {
            Ok(m) => Ok::<_, Seq<char>>(mutant_view(m)),
            Err(e) => Err(e@),
        }),
{
    let file = match &f.file {
        Some(t) => strip_prefix(t.as_str(), "src/"),
        None => None,
    };
    let file = match file {
        Some(p) => p,
        None => {
            return Err(about("mutant has no `src/`-relative file field: ", &f.shown));
        },
    };
    let replacement = match &f.replacement {
        Some(t) => t.clone(),
        None => {
            return Err(about("mutant has no replacement: ", &f.shown));
        },
    };
    let start_line = match f.start_line {
        Some(n) => n as usize,
        None => {
            return Err(about("mutant has no span.start.line: ", &f.shown));
        },
    };
    let start_column = match f.start_column {
        Some(n) => n as usize,
        None => {
            return Err(about("mutant has no span.start.column: ", &f.shown));
        },
    };
    let end_line = match f.end_line {
        Some(n) => n as usize,
        None => {
            return Err(about("mutant has no span.end.line: ", &f.shown));
        },
    };
    let end_column = match f.end_column {
        Some(n) => n as usize,
        None => {
            return Err(about("mutant has no span.end.column: ", &f.shown));
        },
    };
    let function_name = match &f.function_name {
        Some(n) => Some(n.clone()),
        None => None,
    };
    Ok(
        Mutant {
            file,
            replacement,
            start: (start_line, start_column),
            end: (end_line, end_column),
            function_name,
        },
    )
}

/// The source `m` applies to, with its span replaced; or, where the sources
/// do not include its file, the message saying so.
pub fn mutated_source(sources: &Sources, m: &Mutant) -> (r: Result<String, String>)
    requires
        sources.wf(),
    ensures
        sources.view().contains_key(components_of(m.file@)) ==> (r matches Ok(t) && t@ == span_replaced(
            sources.view()[components_of(m.file@)],
            m.start,
            m.end,
            m.replacement@,
        )),
        !sources.view().contains_key(components_of(m.file@)) ==> (r matches Err(e) && e@ == "mutant names "@
            + m.file@ + ", which is not a source of this crate"@),
{
    match sources.get(m.file.as_str()) {
        Some(text) => Ok(span_replace(text.as_str(), m.start, m.end, m.replacement.as_str())),
        None => {
            let mut e = "mutant names ".to_owned();
            e.append(m.file.as_str());
            e.append(", which is not a source of this crate");
            Err(e)
        },
    }
}

/// How a mutant fared.
pub enum Outcome {
    /// The tests failed (or timed out) with it.
    Caught,
    /// It did not compile.
    Unviable,
    /// The tests passed with it; how it is reported.
    Missed(String),
}

/// How a missed mutant is reported: where its span starts, the function it
/// mutates (`?` where unnamed) and what replaced it.
pub open spec fn missed_label(m: Mutant) -> Seq<char> {
    m.file@ + ":"@ + decimal_digits(m.start.0 as nat) + ":"@ + decimal_digits(m.start.1 as nat)
        + ": replace "@ + match m.function_name {
        Some(n) => n@,
        None => "?"@,
    } + " with "@ + m.replacement@
}

/// The label of a missed mutant.
pub fn label(m: &Mutant) -> (r: String)
    ensures
        r@ == missed_label(*m),
{
    let mut r = m.file.clone();
    r.append(":");
    r.append(decimal(m.start.0 as u64).as_str());
    r.append(":");
    r.append(decimal(m.start.1 as u64).as_str());
    r.append(": replace ");
    match &m.function_name {
        Some(n) => r.append(n.as_str()),
        None => r.append("?"),
    }
    r.append(" with ");
    r.append(m.replacement.as_str());
    r
}

/// The verdict on a mutant: unviable where the build failed; otherwise
/// missed where the tests exited with status 0, caught where they failed or
/// timed out (`exit` is `None`).
pub fn judge(m: &Mutant, built: bool, exit: Option<i32>) -> (r: Outcome)
    ensures
        !built ==> r is Unviable,
        built && exit == Some(0i32) ==> (r matches Outcome::Missed(l) && l@ == missed_label(*m)),
        built && exit != Some(0i32) ==> r is Caught,
{
    if !built {
        Outcome::Unviable
    } else if exit == Some(0i32) {
        Outcome::Missed(label(m))
    } else {
        Outcome::Caught
    }
}

} // verus!
