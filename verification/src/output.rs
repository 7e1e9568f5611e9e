//! Where a generated sound is written when no output path is given:
//! `output/<meta.category>/<meta.name>.wav`, read from the parameter file.
use vstd::prelude::*;

verus! {

/// `serde_json::Value`, a parsed JSON document.
#[verifier::external_type_specification]
#[verifier::external_body]
pub struct ExJsonValue(serde_json::Value);

/// The strings that a JSON document holds, by JSON pointer: `p` maps to `s`
/// exactly when `Value::pointer(p)` finds the string `s`.
pub uninterp spec fn json_strings(doc: serde_json::Value) -> Map<Seq<char>, Seq<char>>;

/// What `serde_json::from_slice::<Value>` reads from `json`: `None` when the
/// bytes are not one JSON document, else the strings of the document by
/// JSON pointer.
pub uninterp spec fn json_parse(json: Seq<u8>) -> Option<Map<Seq<char>, Seq<char>>>;

/// Calls `serde_json::from_slice::<serde_json::Value>`; a refusal is `None`.
/// The result is the parse named by `json_parse`.
#[verifier::external_body]
fn parse_json(json: &[u8]) -> (r: Option<serde_json::Value>)
    ensures
        r is Some <==> json_parse(json@) is Some,
        r is Some ==> json_strings(r->Some_0) == json_parse(json@)->Some_0,
{
    serde_json::from_slice::<serde_json::Value>(json).ok()
}

/// Calls `serde_json::Value::pointer` and keeps what it finds only when it is
/// a string.
#[verifier::external_body]
fn json_text_at(doc: &serde_json::Value, pointer: &str) -> (r: Option<String>)
    ensures
        r is Some <==> json_strings(*doc).contains_key(pointer@),
        r is Some ==> r->Some_0@ == json_strings(*doc)[pointer@],
{
    match doc.pointer(pointer) {
        Some(serde_json::Value::String(s)) => Some(s.clone()),
        _ => None,
    }
}

/// The place of a generated file: `root/category/file_name`.
pub struct OutputLocation {
    pub root: String,
    pub category: String,
    pub file_name: String,
}

/// The string at `pointer` in a parsed document, or `fallback`.
pub open spec fn text_or(strings: Option<Map<Seq<char>, Seq<char>>>, pointer: Seq<char>, fallback: Seq<char>) -> Seq<char> {
    match strings {
        Some(m) => if m.contains_key(pointer) { m[pointer] } else { fallback },
        None => fallback,
    }
}

/// The default place of the file generated from the parameter file `json`:
/// under `output`, in the directory named by the string `meta.category`
/// (`misc` when there is none), as `<meta.name>.wav` (`output.wav` when
/// there is no string `meta.name`). Bytes that are not JSON give
/// `output/misc/output.wav`.
pub fn default_output_location(json: &[u8]) -> (r: OutputLocation)
    ensures
        r.root@ == "output"@,
        r.category@ == text_or(json_parse(json@), "/meta/category"@, "misc"@),
        r.file_name@ == text_or(json_parse(json@), "/meta/name"@, "output"@) + ".wav"@,
        json_parse(json@) is None ==> r.category@ == "misc"@ && r.file_name@ == "output.wav"@,
        json_parse(json@) matches Some(m) ==> if m.contains_key("/meta/category"@) {
            r.category@ == m["/meta/category"@]
        } else {
            r.category@ == "misc"@
        },
        json_parse(json@) matches Some(m) ==> if m.contains_key("/meta/name"@) {
            r.file_name@ == m["/meta/name"@] + ".wav"@
        } else {
            r.file_name@ == "output.wav"@
        },
{
    let (category, mut file_name) = match parse_json(json) {
        Some(doc) => {
            let category = match json_text_at(&doc, "/meta/category") {
                Some(c) => c,
                None => String::from_str("misc"),
            };
            let name = match json_text_at(&doc, "/meta/name") {
                Some(n) => n,
                None => String::from_str("output"),
            };
            (category, name)
        },
        None => (String::from_str("misc"), String::from_str("output")),
    };
    file_name.append(".wav");
    proof {
        reveal_strlit("output");
        reveal_strlit(".wav");
        reveal_strlit("output.wav");
    }
    OutputLocation { root: String::from_str("output"), category, file_name }
}

} // verus!
