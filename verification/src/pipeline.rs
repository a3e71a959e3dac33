//! One processing cycle of the protocol: take the request file's text (or
//! its absence), apply the batch, and assemble the response. The only
//! unverified steps are the calls into serde_json that turn text into a
//! tree and back, and the wall-clock sample.

use vstd::prelude::*;

verus! {

use crate::json::{Json, JsonModel};
use crate::codec::{request_from_json, spec_request_from_json, ParseError};
use crate::command::{cmds_view, spec_label, TalonRequest};
use crate::interp::{apply_commands, spec_apply_all};
use crate::response::{build_response, TalonResponse, TalonResponseStatus, PROTOCOL_VERSION};
use crate::state::TalonEditorState;

#[verifier::external_type_specification]
#[verifier::external_body]
pub struct ExValue(serde_json::Value);

/// The tree that JSON text parses as, or nothing when the text is
/// malformed or holds a number outside the protocol's unsigned domain.
/// serde_json's parse is a function of the text alone, so the result can
/// carry a name; `text_to_json` is the one function that applies it.
pub uninterp spec fn parsed_tree_of(s: Seq<char>) -> Option<JsonModel>;

/// The indented JSON text a tree renders as. serde_json's rendering is a
/// function of the tree alone (objects are kept in sorted order), so the
/// result can carry a name; `json_to_text` is the one function that
/// applies it.
pub uninterp spec fn rendered_text_of(j: JsonModel) -> Seq<char>;

/// Converts a serde_json tree into the crate's own tree, variant by
/// variant; a number that is not an unsigned 64-bit integer has no place
/// in the protocol and yields nothing.
#[verifier::external_body]
fn json_of_value(v: &serde_json::Value) -> (r: Option<Json>) {
    match v {
        serde_json::Value::Null => Some(Json::Null),
        serde_json::Value::Bool(b) => Some(Json::Bool(*b)),
        serde_json::Value::Number(n) => n.as_u64().map(Json::UInt),
        serde_json::Value::String(s) => Some(Json::Str(s.clone())),
        serde_json::Value::Array(items) => {
            items.iter().map(json_of_value).collect::<Option<Vec<Json>>>().map(Json::Arr)
        },
        serde_json::Value::Object(map) => map
            .iter()
            .map(|(k, x)| json_of_value(x).map(|jx| (k.clone(), jx)))
            .collect::<Option<Vec<(String, Json)>>>()
            .map(Json::Obj),
    }
}

/// Converts the crate's tree into a serde_json tree, variant by variant.
#[verifier::external_body]
fn value_of_json(j: &Json) -> (r: serde_json::Value) {
    match j {
        Json::Null => serde_json::Value::Null,
        Json::Bool(b) => serde_json::Value::Bool(*b),
        Json::UInt(n) => serde_json::Value::from(*n),
        Json::Str(s) => serde_json::Value::String(s.clone()),
        Json::Arr(items) => serde_json::Value::Array(items.iter().map(value_of_json).collect()),
        Json::Obj(fields) => serde_json::Value::Object(
            fields.iter().map(|(k, v)| (k.clone(), value_of_json(v))).collect(),
        ),
    }
}

/// Parse request or response text into the crate's JSON tree. Relies on
/// serde_json::from_str::<Value>, which returns an error exactly on
/// malformed text, followed by the unverified conversion above: together
/// a function of the text alone, named `parsed_tree_of`.
#[verifier::external_body]
pub fn text_to_json(s: &str) -> (r: Option<Json>)
    ensures
        (match r {
            Some(j) => Some(j@),
            None => None::<JsonModel>,
        }) == parsed_tree_of(s@),
{
    match serde_json::from_str::<serde_json::Value>(s) {
        Ok(v) => json_of_value(&v),
        Err(_) => None,
    }
}

/// Render the crate's JSON tree as indented JSON text. Relies on
/// serde_json::to_string_pretty, which its documentation says fails only
/// when a `Serialize` impl fails or a map key is not a string — neither
/// can happen for a `Value` — after the unverified conversion above:
/// together a function of the tree alone, named `rendered_text_of`.
#[verifier::external_body]
pub fn json_to_text(j: &Json) -> (r: Option<String>)
    ensures
        r is Some,
        (match r {
            Some(t) => t@,
            None => Seq::<char>::empty(),
        }) == rendered_text_of(j@),
{
    serde_json::to_string_pretty(&value_of_json(j)).ok()
}

/// Relies on SystemTime::now and duration_since(UNIX_EPOCH): the wall
/// clock in milliseconds, saturated to 64 bits. Nothing is promised of
/// the value.
#[verifier::external_body]
pub fn now_timestamp_ms() -> u64 {
    let ms = std::time::SystemTime::now()
        .duration_since(std::time::UNIX_EPOCH)
        .map(|d| d.as_millis())
        .unwrap_or_default();
    u64::try_from(ms).unwrap_or(u64::MAX)
}

/// The directory under the home directory that holds the two protocol
/// files.
pub fn talon_dir_name() -> (s: &'static str)
    ensures
        s@ == ".codex-talon"@,
{
    ".codex-talon"
}

/// The consumer-owned request file's name.
pub fn request_file_name() -> (s: &'static str)
    ensures
        s@ == "request.json"@,
{
    "request.json"
}

/// The producer-owned response file's name.
pub fn response_file_name() -> (s: &'static str)
    ensures
        s@ == "response.json"@,
{
    "response.json"
}

/// A whitespace character: the Unicode White_Space set, exactly what
/// `str::trim` strips.
pub open spec fn is_space(c: char) -> bool {
    ('\u{0009}' <= c && c <= '\u{000D}') || c == ' ' || c == '\u{0085}' || c == '\u{00A0}' || c
        == '\u{1680}' || ('\u{2000}' <= c && c <= '\u{200A}') || c == '\u{2028}' || c == '\u{2029}'
        || c == '\u{202F}' || c == '\u{205F}' || c == '\u{3000}'
}

/// Whether one character is whitespace.
pub fn is_space_char(c: char) -> (r: bool)
    ensures
        r == is_space(c),
{
    ('\u{0009}' <= c && c <= '\u{000D}') || c == ' ' || c == '\u{0085}' || c == '\u{00A0}' || c
        == '\u{1680}' || ('\u{2000}' <= c && c <= '\u{200A}') || c == '\u{2028}' || c == '\u{2029}'
        || c == '\u{202F}' || c == '\u{205F}' || c == '\u{3000}'
}

/// Text that holds no request: nothing but whitespace.
pub open spec fn is_blank(s: Seq<char>) -> bool {
    forall|i: int| 0 <= i < s.len() ==> is_space(#[trigger] s[i])
}

/// Whether request text is blank, so that an empty file means "no
/// request" rather than a parse failure.
pub fn text_is_blank(s: &str) -> (r: bool)
    ensures
        r == is_blank(s@),
{
    let n = s.unicode_len();
    let mut i: usize = 0;
    while i < n
        invariant
            n == s@.len(),
            i <= n,
            forall|j: int| 0 <= j < i ==> is_space(#[trigger] s@[j]),
        decreases n - i,
    {
        let c = s.get_char(i);
        if !is_space_char(c) {
            return false;
        }
        i = i + 1;
    }
    true
}

/// The characters of the request text, empty when there was no file.
pub open spec fn raw_text(raw: Option<&str>) -> Seq<char> {
    match raw {
        Some(s) => s@,
        None => Seq::<char>::empty(),
    }
}

/// A response reporting a failed parse: status `Error`, the failure's
/// message, and the state exactly as it was.
fn error_response(state: &TalonEditorState, e: ParseError, timestamp_ms: u64) -> (r: TalonResponse)
    ensures
        r@.version == PROTOCOL_VERSION,
        r@.timestamp_ms == timestamp_ms,
        r@.status == TalonResponseStatus::Error,
        r@.error == Some(e.spec_message()),
        r@.state == state@,
        r@.applied.len() == 0,
{
    build_response(state.snapshot(), Vec::new(), Some(e.message()), timestamp_ms)
}

/// Apply a parsed request tree to the state and assemble the response.
/// This is where the protocol's contract lives: a document that fails the
/// schema reports `Error` with a message and leaves the state untouched;
/// a parsed batch is applied strictly in order, with one label per
/// command, and the status derives from what happened.
pub fn handle_request_json(state: &mut TalonEditorState, j: &Json, timestamp_ms: u64) -> (r:
    TalonResponse)
    ensures
        r@.version == PROTOCOL_VERSION,
        r@.timestamp_ms == timestamp_ms,
        match spec_request_from_json(j@) {
            Err(e) => {
                &&& r@.status == TalonResponseStatus::Error
                &&& r@.error == Some(e.spec_message())
                &&& final(state)@ == old(state)@
                &&& r@.state == old(state)@
                &&& r@.applied.len() == 0
            },
            Ok(cs) => {
                &&& final(state)@ == spec_apply_all(old(state)@, cs)
                &&& r@.state == final(state)@
                &&& r@.applied.len() == cs.len()
                &&& (forall|i: int|
                    0 <= i < cs.len() ==> r@.applied[i] == spec_label(#[trigger] cs[i]))
                &&& r@.error is None
                &&& r@.status == (if cs.len() == 0 {
                    TalonResponseStatus::NoRequest
                } else {
                    TalonResponseStatus::Success
                })
            },
        },
{
    match request_from_json(j) {
        Err(e) => error_response(state, e, timestamp_ms),
        Ok(req) => {
            let applied = apply_commands(state, &req.commands);
            build_response(state.snapshot(), applied, None, timestamp_ms)
        },
    }
}

/// One whole processing cycle from the request file's text. A missing or
/// blank file is "no request", never an error; malformed text or a
/// document that fails the schema is reported as `Error` in the response
/// with the state untouched; a parsed batch is applied in order.
pub fn handle_request_text(state: &mut TalonEditorState, raw: Option<&str>, timestamp_ms: u64) -> (
    r: TalonResponse)
    ensures
        r@.version == PROTOCOL_VERSION,
        r@.timestamp_ms == timestamp_ms,
        (match raw {
            None => true,
            Some(s) => is_blank(s@),
        }) ==> {
            &&& r@.status == TalonResponseStatus::NoRequest
            &&& final(state)@ == old(state)@
            &&& r@.state == old(state)@
            &&& r@.applied.len() == 0
            &&& r@.error is None
        },
        (match raw {
            None => false,
            Some(s) => !is_blank(s@) && parsed_tree_of(s@) is None,
        }) ==> {
            &&& r@.status == TalonResponseStatus::Error
            &&& r@.error == Some(ParseError::MalformedJson.spec_message())
            &&& final(state)@ == old(state)@
            &&& r@.state == old(state)@
            &&& r@.applied.len() == 0
        },
        (match raw {
            None => false,
            Some(s) => !is_blank(s@) && parsed_tree_of(s@) is Some,
        }) ==> (match spec_request_from_json(parsed_tree_of(raw_text(raw)).unwrap()) {
            Err(e) => {
                &&& r@.status == TalonResponseStatus::Error
                &&& r@.error == Some(e.spec_message())
                &&& final(state)@ == old(state)@
                &&& r@.state == old(state)@
                &&& r@.applied.len() == 0
            },
            Ok(cs) => {
                &&& final(state)@ == spec_apply_all(old(state)@, cs)
                &&& r@.state == final(state)@
                &&& r@.applied.len() == cs.len()
                &&& (forall|i: int|
                    0 <= i < cs.len() ==> r@.applied[i] == spec_label(#[trigger] cs[i]))
                &&& r@.error is None
                &&& r@.status == (if cs.len() == 0 {
                    TalonResponseStatus::NoRequest
                } else {
                    TalonResponseStatus::Success
                })
            },
        }),
{
    match raw {
        None => build_response(state.snapshot(), Vec::new(), None, timestamp_ms),
        Some(s) => {
            if text_is_blank(s) {
                build_response(state.snapshot(), Vec::new(), None, timestamp_ms)
            } else {
                match text_to_json(s) {
                    None => error_response(state, ParseError::MalformedJson, timestamp_ms),
                    Some(j) => {
                        let r = handle_request_json(state, &j, timestamp_ms);
                        proof {
                            if spec_request_from_json(j@) is Ok {
                                let cs = spec_request_from_json(j@)->Ok_0;
                                assert(final(state)@ == spec_apply_all(old(state)@, cs));
                            }
                        }
                        r
                    },
                }
            }
        },
    }
}

/// The offline protocol simulator: a pure function from an initial
/// snapshot and a parsed request to the response the live pipeline would
/// produce, the wall-clock timestamp excepted.
pub fn simulate(initial: TalonEditorState, req: &TalonRequest, timestamp_ms: u64) -> (r:
    TalonResponse)
    ensures
        r@.version == PROTOCOL_VERSION,
        r@.timestamp_ms == timestamp_ms,
        r@.state == spec_apply_all(initial@, cmds_view(req.commands@)),
        r@.applied.len() == req.commands@.len(),
        forall|i: int|
            0 <= i < req.commands@.len() ==> r@.applied[i] == spec_label(
                #[trigger] req.commands@[i]@,
            ),
        r@.error is None,
        r@.status == (if req.commands@.len() == 0 {
            TalonResponseStatus::NoRequest
        } else {
            TalonResponseStatus::Success
        }),
{
    let mut state = initial;
    let applied = apply_commands(&mut state, &req.commands);
    build_response(state, applied, None, timestamp_ms)
}

} // verus!
