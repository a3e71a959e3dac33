//! The response and snapshot halves of the wire codec: how a response is
//! laid out as a JSON tree, how a snapshot is read back from one, and the
//! round-trip law tying the two directions together.

use vstd::prelude::*;

verus! {

use crate::json::{arr_view, fields_view, get_field, lemma_json_variant_views, obj_get, Json, JsonModel};
use crate::codec::ParseError;
use crate::state::{StateModel, TalonEditorState};
use crate::response::{ResponseModel, TalonResponse, TalonResponseStatus};

/// The wire word for a status.
pub open spec fn status_str(s: TalonResponseStatus) -> Seq<char> {
    match s {
        TalonResponseStatus::Success => "ok"@,
        TalonResponseStatus::NoRequest => "no_request"@,
        TalonResponseStatus::Error => "error"@,
    }
}

/// An optional string member: present when the value is, absent otherwise.
pub open spec fn opt_field(key: Seq<char>, v: Option<Seq<char>>) -> Seq<(Seq<char>, JsonModel)> {
    match v {
        Some(s) => seq![(key, JsonModel::Str(s))],
        None => Seq::<(Seq<char>, JsonModel)>::empty(),
    }
}

/// A snapshot as the wire carries it. Optional members are omitted when
/// absent.
pub open spec fn spec_state_to_json(m: StateModel) -> JsonModel {
    JsonModel::Obj(
        seq![
            ("buffer"@, JsonModel::Str(m.buffer)),
            ("cursor"@, JsonModel::UInt(m.cursor as u64)),
            ("is_task_running"@, JsonModel::Bool(m.is_task_running)),
        ] + opt_field("task_summary"@, m.task_summary) + opt_field("session_id"@, m.session_id)
            + opt_field("cwd"@, m.cwd),
    )
}

/// The applied-label list as a JSON array of strings.
pub open spec fn applied_to_json(applied: Seq<Seq<char>>) -> Seq<JsonModel> {
    Seq::new(applied.len(), |i: int| JsonModel::Str(applied[i]))
}

/// A response as the wire carries it: `applied` is omitted when empty and
/// `error` when absent.
pub open spec fn spec_response_to_json(r: ResponseModel) -> JsonModel {
    JsonModel::Obj(
        seq![
            ("version"@, JsonModel::UInt(r.version)),
            ("status"@, JsonModel::Str(status_str(r.status))),
            ("state"@, spec_state_to_json(r.state)),
        ] + (if r.applied.len() > 0 {
            seq![("applied"@, JsonModel::Arr(applied_to_json(r.applied)))]
        } else {
            Seq::<(Seq<char>, JsonModel)>::empty()
        }) + opt_field("error"@, r.error) + seq![
            ("timestamp_ms"@, JsonModel::UInt(r.timestamp_ms)),
        ],
    )
}

/// A string member with a default: absent means empty.
pub open spec fn field_str_or_empty(fields: Seq<(Seq<char>, JsonModel)>, key: Seq<char>) -> Result<
    Seq<char>,
    ParseError,
> {
    match obj_get(fields, key) {
        None => Ok(Seq::<char>::empty()),
        Some(JsonModel::Str(s)) => Ok(s),
        Some(_) => Err(ParseError::InvalidField),
    }
}

/// An unsigned member with a default: absent means zero.
pub open spec fn field_u64_or_zero(fields: Seq<(Seq<char>, JsonModel)>, key: Seq<char>) -> Result<
    u64,
    ParseError,
> {
    match obj_get(fields, key) {
        None => Ok(0u64),
        Some(JsonModel::UInt(d)) => Ok(d),
        Some(_) => Err(ParseError::InvalidField),
    }
}

/// A boolean member with a default: absent means false.
pub open spec fn field_bool_or_false(
    fields: Seq<(Seq<char>, JsonModel)>,
    key: Seq<char>,
) -> Result<bool, ParseError> {
    match obj_get(fields, key) {
        None => Ok(false),
        Some(JsonModel::Bool(b)) => Ok(b),
        Some(_) => Err(ParseError::InvalidField),
    }
}

/// An optional string member: absent or null means none.
pub open spec fn field_opt_str(fields: Seq<(Seq<char>, JsonModel)>, key: Seq<char>) -> Result<
    Option<Seq<char>>,
    ParseError,
> {
    match obj_get(fields, key) {
        None => Ok(Option::<Seq<char>>::None),
        Some(JsonModel::Null) => Ok(Option::<Seq<char>>::None),
        Some(JsonModel::Str(s)) => Ok(Some(s)),
        Some(_) => Err(ParseError::InvalidField),
    }
}

/// A snapshot from a JSON value. Every member has a default, so an
/// externally supplied state file may omit any of them; the cursor is read
/// raw and must be clamped by the caller before use.
pub open spec fn spec_state_from_json(jv: JsonModel) -> Result<StateModel, ParseError> {
    match jv {
        JsonModel::Obj(fields) => match field_str_or_empty(fields, "buffer"@) {
            Err(e) => Err(e),
            Ok(buffer) => match field_u64_or_zero(fields, "cursor"@) {
                Err(e) => Err(e),
                Ok(cursor) => if cursor > usize::MAX as u64 {
                    Err(ParseError::InvalidField)
                } else {
                    match field_bool_or_false(fields, "is_task_running"@) {
                        Err(e) => Err(e),
                        Ok(is_task_running) => match field_opt_str(fields, "task_summary"@) {
                            Err(e) => Err(e),
                            Ok(task_summary) => match field_opt_str(fields, "session_id"@) {
                                Err(e) => Err(e),
                                Ok(session_id) => match field_opt_str(fields, "cwd"@) {
                                    Err(e) => Err(e),
                                    Ok(cwd) => Ok(StateModel {
                                        buffer,
                                        cursor: cursor as usize,
                                        is_task_running,
                                        task_summary,
                                        session_id,
                                        cwd,
                                    }),
                                },
                            },
                        },
                    }
                },
            },
        },
        _ => Err(ParseError::RootNotObject),
    }
}

/// The applied-label list back from a JSON array: every element must be a
/// string.
pub open spec fn spec_applied_from_json(items: Seq<JsonModel>) -> Result<
    Seq<Seq<char>>,
    ParseError,
> {
    if forall|i: int| 0 <= i < items.len() ==> (#[trigger] items[i]) is Str {
        Ok(Seq::new(items.len(), |i: int| items[i]->Str_0))
    } else {
        Err(ParseError::InvalidField)
    }
}

/// The `applied` member of a response: absent means no labels.
pub open spec fn spec_applied_member(fields: Seq<(Seq<char>, JsonModel)>) -> Result<
    Seq<Seq<char>>,
    ParseError,
> {
    match obj_get(fields, "applied"@) {
        None => Ok(Seq::<Seq<char>>::empty()),
        Some(JsonModel::Arr(items)) => spec_applied_from_json(items),
        Some(_) => Err(ParseError::InvalidField),
    }
}

/// A status back from its wire word.
pub open spec fn spec_status_from_str(s: Seq<char>) -> Result<TalonResponseStatus, ParseError> {
    if s == "ok"@ {
        Ok(TalonResponseStatus::Success)
    } else if s == "no_request"@ {
        Ok(TalonResponseStatus::NoRequest)
    } else if s == "error"@ {
        Ok(TalonResponseStatus::Error)
    } else {
        Err(ParseError::InvalidField)
    }
}

/// A response back from a JSON tree: the reading side of the wire schema.
pub open spec fn spec_response_from_json(jv: JsonModel) -> Result<ResponseModel, ParseError> {
    match jv {
        JsonModel::Obj(fields) => match obj_get(fields, "version"@) {
            Some(JsonModel::UInt(version)) => match obj_get(fields, "status"@) {
                Some(JsonModel::Str(sw)) => match spec_status_from_str(sw) {
                    Err(e) => Err(e),
                    Ok(status) => match obj_get(fields, "state"@) {
                        Some(sv) => match spec_state_from_json(sv) {
                            Err(e) => Err(e),
                            Ok(state) => match spec_applied_member(fields) {
                                Err(e) => Err(e),
                                Ok(applied) => match field_opt_str(fields, "error"@) {
                                    Err(e) => Err(e),
                                    Ok(error) => match obj_get(fields, "timestamp_ms"@) {
                                        Some(JsonModel::UInt(timestamp_ms)) => Ok(ResponseModel {
                                            version,
                                            status,
                                            state,
                                            applied,
                                            error,
                                            timestamp_ms,
                                        }),
                                        _ => Err(ParseError::InvalidField),
                                    },
                                },
                            },
                        },
                        None => Err(ParseError::InvalidField),
                    },
                },
                _ => Err(ParseError::InvalidField),
            },
            _ => Err(ParseError::InvalidField),
        },
        _ => Err(ParseError::RootNotObject),
    }
}

/// A string member with a default, executable side.
fn get_str_or_empty(fields: &Vec<(String, Json)>, key: &str) -> (r: Result<String, ParseError>)
    ensures
        match r {
            Ok(s) => field_str_or_empty(fields_view(fields), key@) == Ok::<Seq<char>, ParseError>(
                s@,
            ),
            Err(e) => field_str_or_empty(fields_view(fields), key@) == Err::<Seq<char>, ParseError>(
                e,
            ),
        },
{
    match get_field(fields, key) {
        None => Ok(String::new()),
        Some(v) => match v {
            Json::Str(s) => Ok(s.clone()),
            _ => Err(ParseError::InvalidField),
        },
    }
}

/// An unsigned member with a default, executable side.
fn get_u64_or_zero(fields: &Vec<(String, Json)>, key: &str) -> (r: Result<u64, ParseError>)
    ensures
        match r {
            Ok(d) => field_u64_or_zero(fields_view(fields), key@) == Ok::<u64, ParseError>(d),
            Err(e) => field_u64_or_zero(fields_view(fields), key@) == Err::<u64, ParseError>(e),
        },
{
    match get_field(fields, key) {
        None => Ok(0u64),
        Some(v) => match v {
            Json::UInt(d) => Ok(*d),
            _ => Err(ParseError::InvalidField),
        },
    }
}

/// A boolean member with a default, executable side.
fn get_bool_or_false(fields: &Vec<(String, Json)>, key: &str) -> (r: Result<bool, ParseError>)
    ensures
        match r {
            Ok(b) => field_bool_or_false(fields_view(fields), key@) == Ok::<bool, ParseError>(b),
            Err(e) => field_bool_or_false(fields_view(fields), key@) == Err::<bool, ParseError>(e),
        },
{
    match get_field(fields, key) {
        None => Ok(false),
        Some(v) => match v {
            Json::Bool(b) => Ok(*b),
            _ => Err(ParseError::InvalidField),
        },
    }
}

/// An optional string member, executable side.
fn get_opt_str(fields: &Vec<(String, Json)>, key: &str) -> (r: Result<Option<String>, ParseError>)
    ensures
        match r {
            Ok(os) => field_opt_str(fields_view(fields), key@) == Ok::<
                Option<Seq<char>>,
                ParseError,
            >(os.deep_view()),
            Err(e) => field_opt_str(fields_view(fields), key@) == Err::<
                Option<Seq<char>>,
                ParseError,
            >(e),
        },
{
    match get_field(fields, key) {
        None => Ok(None),
        Some(v) => match v {
            Json::Null => Ok(None),
            Json::Str(s) => Ok(Some(s.clone())),
            _ => Err(ParseError::InvalidField),
        },
    }
}

/// A snapshot from a JSON value, exactly as `spec_state_from_json` says.
/// The cursor comes back raw; callers clamp it before use.
pub fn state_from_json(j: &Json) -> (r: Result<TalonEditorState, ParseError>)
    ensures
        match r {
            Ok(st) => spec_state_from_json(j@) == Ok::<StateModel, ParseError>(st@),
            Err(e) => spec_state_from_json(j@) == Err::<StateModel, ParseError>(e),
        },
{
    proof {
        lemma_json_variant_views(j);
    }
    match j {
        Json::Obj(fields) => {
            let buffer = match get_str_or_empty(fields, "buffer") {
                Ok(b) => b,
                Err(e) => {
                    return Err(e);
                },
            };
            let cursor64 = match get_u64_or_zero(fields, "cursor") {
                Ok(c) => c,
                Err(e) => {
                    return Err(e);
                },
            };
            if cursor64 > usize::MAX as u64 {
                return Err(ParseError::InvalidField);
            }
            let cursor = cursor64 as usize;
            let is_task_running = match get_bool_or_false(fields, "is_task_running") {
                Ok(b) => b,
                Err(e) => {
                    return Err(e);
                },
            };
            let task_summary = match get_opt_str(fields, "task_summary") {
                Ok(v) => v,
                Err(e) => {
                    return Err(e);
                },
            };
            let session_id = match get_opt_str(fields, "session_id") {
                Ok(v) => v,
                Err(e) => {
                    return Err(e);
                },
            };
            let cwd = match get_opt_str(fields, "cwd") {
                Ok(v) => v,
                Err(e) => {
                    return Err(e);
                },
            };
            Ok(TalonEditorState { buffer, cursor, is_task_running, task_summary, session_id, cwd })
        },
        _ => Err(ParseError::RootNotObject),
    }
}

/// The wire word for a status, executable side.
pub fn status_to_string(s: &TalonResponseStatus) -> (r: String)
    ensures
        r@ == status_str(*s),
{
    match s {
        TalonResponseStatus::Success => "ok".to_owned(),
        TalonResponseStatus::NoRequest => "no_request".to_owned(),
        TalonResponseStatus::Error => "error".to_owned(),
    }
}

/// Append an optional string member to an object under construction.
fn push_opt_str(fields: &mut Vec<(String, Json)>, key: &str, v: &Option<String>)
    ensures
        fields_view(final(fields)) =~= fields_view(old(fields)) + opt_field(key@, v.deep_view()),
{
    match v {
        Some(s) => {
            let ghost before = fields_view(fields);
            fields.push((key.to_owned(), Json::Str(s.clone())));
            proof {
                assert(fields_view(fields) =~= before + seq![(key@, JsonModel::Str(s@))]);
            }
        },
        None => {
            proof {
                assert(fields_view(fields) =~= fields_view(fields) + opt_field(
                    key@,
                    v.deep_view(),
                ));
            }
        },
    }
}

/// A snapshot as a JSON tree, exactly as `spec_state_to_json` says.
pub fn state_to_json(st: &TalonEditorState) -> (j: Json)
    ensures
        j@ == spec_state_to_json(st@),
{
    let mut fields: Vec<(String, Json)> = Vec::new();
    fields.push(("buffer".to_owned(), Json::Str(st.buffer.clone())));
    fields.push(("cursor".to_owned(), Json::UInt(st.cursor as u64)));
    fields.push(("is_task_running".to_owned(), Json::Bool(st.is_task_running)));
    proof {
        assert(fields_view(&fields) =~= seq![
            ("buffer"@, JsonModel::Str(st.buffer@)),
            ("cursor"@, JsonModel::UInt(st.cursor as u64)),
            ("is_task_running"@, JsonModel::Bool(st.is_task_running)),
        ]);
    }
    push_opt_str(&mut fields, "task_summary", &st.task_summary);
    push_opt_str(&mut fields, "session_id", &st.session_id);
    push_opt_str(&mut fields, "cwd", &st.cwd);
    let j = Json::Obj(fields);
    proof {
        lemma_json_variant_views(&j);
        assert(j@ == spec_state_to_json(st@));
    }
    j
}

/// A response as a JSON tree, exactly as `spec_response_to_json` says.
pub fn response_to_json(r: &TalonResponse) -> (j: Json)
    ensures
        j@ == spec_response_to_json(r@),
{
    let mut fields: Vec<(String, Json)> = Vec::new();
    fields.push(("version".to_owned(), Json::UInt(r.version)));
    fields.push(("status".to_owned(), Json::Str(status_to_string(&r.status))));
    fields.push(("state".to_owned(), state_to_json(&r.state)));
    proof {
        assert(fields_view(&fields) =~= seq![
            ("version"@, JsonModel::UInt(r.version)),
            ("status"@, JsonModel::Str(status_str(r.status))),
            ("state"@, spec_state_to_json(r.state@)),
        ]);
    }
    let ghost base = fields_view(&fields);
    if r.applied.len() > 0 {
        let mut items: Vec<Json> = Vec::new();
        let n = r.applied.len();
        let mut i: usize = 0;
        while i < n
            invariant
                n == r.applied@.len(),
                i <= n,
                items@.len() == i,
                forall|k: int| 0 <= k < i ==> items@[k]@ == JsonModel::Str(r.applied@[k]@),
            decreases n - i,
        {
            items.push(Json::Str(r.applied[i].clone()));
            i = i + 1;
        }
        proof {
            assert(arr_view(&items) =~= applied_to_json(r.applied.deep_view()));
        }
        let ghost items_snap = arr_view(&items);
        let ghost before = fields_view(&fields);
        fields.push(("applied".to_owned(), Json::Arr(items)));
        proof {
            assert(fields_view(&fields) =~= before + seq![
                ("applied"@, JsonModel::Arr(items_snap)),
            ]);
        }
    } else {
        proof {
            assert(fields_view(&fields) =~= base + Seq::<(Seq<char>, JsonModel)>::empty());
        }
    }
    push_opt_str(&mut fields, "error", &r.error);
    let ghost with_error = fields_view(&fields);
    fields.push(("timestamp_ms".to_owned(), Json::UInt(r.timestamp_ms)));
    proof {
        assert(fields_view(&fields) =~= with_error + seq![
            ("timestamp_ms"@, JsonModel::UInt(r.timestamp_ms)),
        ]);
    }
    let j = Json::Obj(fields);
    proof {
        lemma_json_variant_views(&j);
        assert(j@ == spec_response_to_json(r@));
    }
    j
}

/// The six snapshot member names are pairwise distinct.
proof fn lemma_state_keys_distinct()
    ensures
        "buffer"@ != "cursor"@,
        "buffer"@ != "is_task_running"@,
        "buffer"@ != "task_summary"@,
        "buffer"@ != "session_id"@,
        "buffer"@ != "cwd"@,
        "cursor"@ != "is_task_running"@,
        "cursor"@ != "task_summary"@,
        "cursor"@ != "session_id"@,
        "cursor"@ != "cwd"@,
        "is_task_running"@ != "task_summary"@,
        "is_task_running"@ != "session_id"@,
        "is_task_running"@ != "cwd"@,
        "task_summary"@ != "session_id"@,
        "task_summary"@ != "cwd"@,
        "session_id"@ != "cwd"@,
{
    reveal_strlit("buffer");
    reveal_strlit("cursor");
    reveal_strlit("is_task_running");
    reveal_strlit("task_summary");
    reveal_strlit("session_id");
    reveal_strlit("cwd");
    assert("buffer"@.len() == 6);
    assert("cursor"@.len() == 6);
    assert("is_task_running"@.len() == 15);
    assert("task_summary"@.len() == 12);
    assert("session_id"@.len() == 10);
    assert("cwd"@.len() == 3);
    assert("buffer"@[0] == 'b');
    assert("cursor"@[0] == 'c');
}

/// The six response member names are pairwise distinct.
proof fn lemma_response_keys_distinct()
    ensures
        "version"@ != "status"@,
        "version"@ != "state"@,
        "version"@ != "applied"@,
        "version"@ != "error"@,
        "version"@ != "timestamp_ms"@,
        "status"@ != "state"@,
        "status"@ != "applied"@,
        "status"@ != "error"@,
        "status"@ != "timestamp_ms"@,
        "state"@ != "applied"@,
        "state"@ != "error"@,
        "state"@ != "timestamp_ms"@,
        "applied"@ != "error"@,
        "applied"@ != "timestamp_ms"@,
        "error"@ != "timestamp_ms"@,
{
    reveal_strlit("version");
    reveal_strlit("status");
    reveal_strlit("state");
    reveal_strlit("applied");
    reveal_strlit("error");
    reveal_strlit("timestamp_ms");
    assert("version"@.len() == 7);
    assert("status"@.len() == 6);
    assert("state"@.len() == 5);
    assert("applied"@.len() == 7);
    assert("error"@.len() == 5);
    assert("timestamp_ms"@.len() == 12);
    assert("version"@[0] == 'v');
    assert("applied"@[0] == 'a');
    assert("state"@[0] == 's');
    assert("error"@[0] == 'e');
}

/// The three status words are pairwise distinct.
proof fn lemma_status_words_distinct()
    ensures
        "ok"@ != "no_request"@,
        "ok"@ != "error"@,
        "no_request"@ != "error"@,
{
    reveal_strlit("ok");
    reveal_strlit("no_request");
    reveal_strlit("error");
    assert("ok"@.len() == 2);
    assert("no_request"@.len() == 10);
    assert("error"@.len() == 5);
}

/// Lookup in an optional member segment.
proof fn lemma_obj_get_opt(key0: Seq<char>, v: Option<Seq<char>>, key: Seq<char>)
    ensures
        match v {
            Some(s) => obj_get(opt_field(key0, v), key) == (if key0 == key {
                Some(JsonModel::Str(s))
            } else {
                None::<JsonModel>
            }),
            None => obj_get(opt_field(key0, v), key) is None,
        },
{
    match v {
        Some(s) => {
            crate::json::lemma_obj_get_single((key0, JsonModel::Str(s)), key);
        },
        None => {},
    }
}

/// Every lookup in a serialized snapshot, resolved.
#[verifier::rlimit(50)]
proof fn lemma_state_tree_lookup(m: StateModel, k: Seq<char>)
    ensures
        spec_state_to_json(m) matches JsonModel::Obj(t) && obj_get(t, k) == (if k == "buffer"@ {
            Some(JsonModel::Str(m.buffer))
        } else if k == "cursor"@ {
            Some(JsonModel::UInt(m.cursor as u64))
        } else if k == "is_task_running"@ {
            Some(JsonModel::Bool(m.is_task_running))
        } else if k == "task_summary"@ {
            match m.task_summary {
                Some(s) => Some(JsonModel::Str(s)),
                None => None,
            }
        } else if k == "session_id"@ {
            match m.session_id {
                Some(s) => Some(JsonModel::Str(s)),
                None => None,
            }
        } else if k == "cwd"@ {
            match m.cwd {
                Some(s) => Some(JsonModel::Str(s)),
                None => None,
            }
        } else {
            None
        }),
{
    lemma_state_keys_distinct();
    let b0 = ("buffer"@, JsonModel::Str(m.buffer));
    let b1 = ("cursor"@, JsonModel::UInt(m.cursor as u64));
    let b2 = ("is_task_running"@, JsonModel::Bool(m.is_task_running));
    let base = seq![b0, b1, b2];
    let ts = opt_field("task_summary"@, m.task_summary);
    let si = opt_field("session_id"@, m.session_id);
    let cw = opt_field("cwd"@, m.cwd);
    assert(base =~= seq![b0] + (seq![b1] + seq![b2]));
    crate::json::lemma_obj_get_concat(base + ts + si, cw, k);
    crate::json::lemma_obj_get_concat(base + ts, si, k);
    crate::json::lemma_obj_get_concat(base, ts, k);
    crate::json::lemma_obj_get_concat(seq![b0], seq![b1] + seq![b2], k);
    crate::json::lemma_obj_get_concat(seq![b1], seq![b2], k);
    crate::json::lemma_obj_get_single(b0, k);
    crate::json::lemma_obj_get_single(b1, k);
    crate::json::lemma_obj_get_single(b2, k);
    lemma_obj_get_opt("task_summary"@, m.task_summary, k);
    lemma_obj_get_opt("session_id"@, m.session_id, k);
    lemma_obj_get_opt("cwd"@, m.cwd, k);
    let t = base + ts + si + cw;
    assert(spec_state_to_json(m) == JsonModel::Obj(t));
    if k == "buffer"@ {
        assert(obj_get(t, k) == Some(JsonModel::Str(m.buffer)));
    } else if k == "cursor"@ {
        assert(obj_get(t, k) == Some(JsonModel::UInt(m.cursor as u64)));
    } else if k == "is_task_running"@ {
        assert(obj_get(t, k) == Some(JsonModel::Bool(m.is_task_running)));
    } else if k == "task_summary"@ {
        assert(obj_get(t, k) == (match m.task_summary {
            Some(s) => Some(JsonModel::Str(s)),
            None => None,
        }));
    } else if k == "session_id"@ {
        assert(obj_get(t, k) == (match m.session_id {
            Some(s) => Some(JsonModel::Str(s)),
            None => None,
        }));
    } else if k == "cwd"@ {
        assert(obj_get(t, k) == (match m.cwd {
            Some(s) => Some(JsonModel::Str(s)),
            None => None,
        }));
    } else {
        assert(obj_get(t, k) is None);
    }
}

/// Law: a snapshot written to JSON reads back unchanged, member for
/// member.
#[verifier::rlimit(50)]
pub proof fn lemma_state_round_trip(m: StateModel)
    ensures
        spec_state_from_json(spec_state_to_json(m)) == Ok::<StateModel, ParseError>(m),
{
    lemma_state_keys_distinct();
    lemma_state_tree_lookup(m, "buffer"@);
    lemma_state_tree_lookup(m, "cursor"@);
    lemma_state_tree_lookup(m, "is_task_running"@);
    lemma_state_tree_lookup(m, "task_summary"@);
    lemma_state_tree_lookup(m, "session_id"@);
    lemma_state_tree_lookup(m, "cwd"@);
    let t = spec_state_to_json(m)->Obj_0;
    assert(field_str_or_empty(t, "buffer"@) == Ok::<Seq<char>, ParseError>(m.buffer));
    assert(field_u64_or_zero(t, "cursor"@) == Ok::<u64, ParseError>(m.cursor as u64));
    assert((m.cursor as u64) as usize == m.cursor);
    assert(spec_state_from_json(spec_state_to_json(m)) matches Ok(m2) && m2 =~= m);
}

/// Every lookup in a serialized response, resolved.
#[verifier::rlimit(50)]
proof fn lemma_response_tree_lookup(r: ResponseModel, k: Seq<char>)
    ensures
        spec_response_to_json(r) matches JsonModel::Obj(t) && obj_get(t, k) == (if k
            == "version"@ {
            Some(JsonModel::UInt(r.version))
        } else if k == "status"@ {
            Some(JsonModel::Str(status_str(r.status)))
        } else if k == "state"@ {
            Some(spec_state_to_json(r.state))
        } else if k == "applied"@ {
            if r.applied.len() > 0 {
                Some(JsonModel::Arr(applied_to_json(r.applied)))
            } else {
                None
            }
        } else if k == "error"@ {
            match r.error {
                Some(s) => Some(JsonModel::Str(s)),
                None => None,
            }
        } else if k == "timestamp_ms"@ {
            Some(JsonModel::UInt(r.timestamp_ms))
        } else {
            None
        }),
{
    lemma_response_keys_distinct();
    let p0 = ("version"@, JsonModel::UInt(r.version));
    let p1 = ("status"@, JsonModel::Str(status_str(r.status)));
    let p2 = ("state"@, spec_state_to_json(r.state));
    let p3 = ("timestamp_ms"@, JsonModel::UInt(r.timestamp_ms));
    let s3 = seq![p0, p1, p2];
    let a = if r.applied.len() > 0 {
        seq![("applied"@, JsonModel::Arr(applied_to_json(r.applied)))]
    } else {
        Seq::<(Seq<char>, JsonModel)>::empty()
    };
    let e = opt_field("error"@, r.error);
    assert(s3 =~= seq![p0] + (seq![p1] + seq![p2]));
    crate::json::lemma_obj_get_concat(s3 + a + e, seq![p3], k);
    crate::json::lemma_obj_get_concat(s3 + a, e, k);
    crate::json::lemma_obj_get_concat(s3, a, k);
    crate::json::lemma_obj_get_concat(seq![p0], seq![p1] + seq![p2], k);
    crate::json::lemma_obj_get_concat(seq![p1], seq![p2], k);
    crate::json::lemma_obj_get_single(p0, k);
    crate::json::lemma_obj_get_single(p1, k);
    crate::json::lemma_obj_get_single(p2, k);
    crate::json::lemma_obj_get_single(p3, k);
    if r.applied.len() > 0 {
        crate::json::lemma_obj_get_single(
            ("applied"@, JsonModel::Arr(applied_to_json(r.applied))),
            k,
        );
    }
    lemma_obj_get_opt("error"@, r.error, k);
    let t = s3 + a + e + seq![p3];
    assert(spec_response_to_json(r) == JsonModel::Obj(t));
    if k == "version"@ {
        assert(obj_get(t, k) == Some(JsonModel::UInt(r.version)));
    } else if k == "status"@ {
        assert(obj_get(t, k) == Some(JsonModel::Str(status_str(r.status))));
    } else if k == "state"@ {
        assert(obj_get(t, k) == Some(spec_state_to_json(r.state)));
    } else if k == "applied"@ {
        if r.applied.len() > 0 {
            assert(obj_get(t, k) == Some(JsonModel::Arr(applied_to_json(r.applied))));
        } else {
            assert(obj_get(t, k) is None);
        }
    } else if k == "error"@ {
        assert(obj_get(t, k) == (match r.error {
            Some(s) => Some(JsonModel::Str(s)),
            None => None,
        }));
    } else if k == "timestamp_ms"@ {
        assert(obj_get(t, k) == Some(JsonModel::UInt(r.timestamp_ms)));
    } else {
        assert(obj_get(t, k) is None);
    }
}

/// Law: a response written to JSON reads back unchanged, member for
/// member, the timestamp included. Serializing and then parsing a response
/// loses nothing.
#[verifier::rlimit(50)]
pub proof fn lemma_response_round_trip(r: ResponseModel)
    ensures
        spec_response_from_json(spec_response_to_json(r)) == Ok::<ResponseModel, ParseError>(r),
{
    lemma_response_keys_distinct();
    lemma_status_words_distinct();
    lemma_response_tree_lookup(r, "version"@);
    lemma_response_tree_lookup(r, "status"@);
    lemma_response_tree_lookup(r, "state"@);
    lemma_response_tree_lookup(r, "applied"@);
    lemma_response_tree_lookup(r, "error"@);
    lemma_response_tree_lookup(r, "timestamp_ms"@);
    let t = spec_response_to_json(r)->Obj_0;
    assert(spec_status_from_str(status_str(r.status)) == Ok::<TalonResponseStatus, ParseError>(
        r.status,
    ));
    lemma_state_round_trip(r.state);
    if r.applied.len() > 0 {
        let items = applied_to_json(r.applied);
        assert(forall|i: int| 0 <= i < items.len() ==> (#[trigger] items[i]) is Str);
        assert(spec_applied_member(t) matches Ok(back) && back =~= r.applied);
    } else {
        assert(spec_applied_member(t) matches Ok(back) && back =~= r.applied);
    }
    assert(spec_response_from_json(spec_response_to_json(r)) matches Ok(r2) && r2 =~= r);
}

} // verus!
