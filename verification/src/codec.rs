//! Wire codec for the protocol: how requests and responses are read from
//! and written to JSON trees, and why a parsed value means what it does.

use vstd::prelude::*;

verus! {

use crate::json::{
    arr_view, fields_view, get_field, lemma_json_variant_views, obj_get, str_eq, Json, JsonModel,
};
use crate::command::{cmds_view, CommandModel, TalonCommand, TalonRequest};

/// Why a request document was rejected. Malformed JSON text is caught
/// before a tree exists; the remaining variants describe a well-formed tree
/// that does not match the request schema.
#[derive(Clone, Copy, PartialEq, Eq, Structural, Debug)]
pub enum ParseError {
    MalformedJson,
    RootNotObject,
    CommandsNotArray,
    CommandNotObject,
    MissingCommandTag,
    UnknownCommandTag,
    InvalidField,
}

impl ParseError {
    /// The descriptive message a response carries for this failure.
    pub open spec fn spec_message(self) -> Seq<char> {
        match self {
            ParseError::MalformedJson => "failed to parse request JSON"@,
            ParseError::RootNotObject => "request must be a JSON object"@,
            ParseError::CommandsNotArray => "commands must be an array"@,
            ParseError::CommandNotObject => "each command must be a JSON object"@,
            ParseError::MissingCommandTag => "command is missing its type tag"@,
            ParseError::UnknownCommandTag => "unknown command type"@,
            ParseError::InvalidField => "invalid or missing command field"@,
        }
    }

    /// The descriptive message a response carries for this failure.
    pub fn message(&self) -> (m: String)
        ensures
            m@ == self.spec_message(),
    {
        match self {
            ParseError::MalformedJson => "failed to parse request JSON".to_owned(),
            ParseError::RootNotObject => "request must be a JSON object".to_owned(),
            ParseError::CommandsNotArray => "commands must be an array".to_owned(),
            ParseError::CommandNotObject => "each command must be a JSON object".to_owned(),
            ParseError::MissingCommandTag => "command is missing its type tag".to_owned(),
            ParseError::UnknownCommandTag => "unknown command type".to_owned(),
            ParseError::InvalidField => "invalid or missing command field".to_owned(),
        }
    }
}

/// A `set_buffer` command from an object's fields: `text` is required, a
/// missing or null `cursor` means "place the cursor at the end".
pub open spec fn spec_set_buffer_from_fields(fields: Seq<(Seq<char>, JsonModel)>) -> Result<
    CommandModel,
    ParseError,
> {
    match obj_get(fields, "text"@) {
        Some(JsonModel::Str(t)) => match obj_get(fields, "cursor"@) {
            None => Ok(CommandModel::SetBuffer { text: t, cursor: None }),
            Some(JsonModel::Null) => Ok(CommandModel::SetBuffer { text: t, cursor: None }),
            Some(JsonModel::UInt(d)) => Ok(CommandModel::SetBuffer { text: t, cursor: Some(d) }),
            Some(_) => Err(ParseError::InvalidField),
        },
        _ => Err(ParseError::InvalidField),
    }
}

/// A `set_cursor` command: `cursor` is required and must be an unsigned
/// number.
pub open spec fn spec_set_cursor_from_fields(fields: Seq<(Seq<char>, JsonModel)>) -> Result<
    CommandModel,
    ParseError,
> {
    match obj_get(fields, "cursor"@) {
        Some(JsonModel::UInt(d)) => Ok(CommandModel::SetCursor { cursor: d }),
        _ => Err(ParseError::InvalidField),
    }
}

/// A `notify` command: `message` is required.
pub open spec fn spec_notify_from_fields(fields: Seq<(Seq<char>, JsonModel)>) -> Result<
    CommandModel,
    ParseError,
> {
    match obj_get(fields, "message"@) {
        Some(JsonModel::Str(m)) => Ok(CommandModel::Notify { message: m }),
        _ => Err(ParseError::InvalidField),
    }
}

/// An `edit_previous_message` command: a missing `steps_back` defaults to
/// zero.
pub open spec fn spec_edit_previous_from_fields(fields: Seq<(Seq<char>, JsonModel)>) -> Result<
    CommandModel,
    ParseError,
> {
    match obj_get(fields, "steps_back"@) {
        None => Ok(CommandModel::EditPreviousMessage { steps_back: 0 }),
        Some(JsonModel::UInt(d)) => Ok(CommandModel::EditPreviousMessage { steps_back: d }),
        Some(_) => Err(ParseError::InvalidField),
    }
}

/// Dispatch on a command's `type` tag. An unrecognized tag is a parse
/// failure, never silently skipped.
pub open spec fn spec_tagged_command(
    fields: Seq<(Seq<char>, JsonModel)>,
    tag: Seq<char>,
) -> Result<CommandModel, ParseError> {
    if tag == "set_buffer"@ {
        spec_set_buffer_from_fields(fields)
    } else if tag == "set_cursor"@ {
        spec_set_cursor_from_fields(fields)
    } else if tag == "get_state"@ {
        Ok(CommandModel::GetState)
    } else if tag == "notify"@ {
        spec_notify_from_fields(fields)
    } else if tag == "edit_previous_message"@ {
        spec_edit_previous_from_fields(fields)
    } else if tag == "history_previous"@ {
        Ok(CommandModel::HistoryPrevious)
    } else if tag == "history_next"@ {
        Ok(CommandModel::HistoryNext)
    } else {
        Err(ParseError::UnknownCommandTag)
    }
}

/// One command from a JSON value: an object with a string `type` tag.
pub open spec fn spec_command_from_json(jv: JsonModel) -> Result<CommandModel, ParseError> {
    match jv {
        JsonModel::Obj(fields) => match obj_get(fields, "type"@) {
            Some(JsonModel::Str(tag)) => spec_tagged_command(fields, tag),
            Some(_) => Err(ParseError::InvalidField),
            None => Err(ParseError::MissingCommandTag),
        },
        _ => Err(ParseError::CommandNotObject),
    }
}

/// A command list, front to back; the first failure wins.
pub open spec fn spec_commands_from_json(items: Seq<JsonModel>) -> Result<
    Seq<CommandModel>,
    ParseError,
>
    decreases items.len(),
{
    if items.len() == 0 {
        Ok(Seq::<CommandModel>::empty())
    } else {
        match spec_command_from_json(items[0]) {
            Ok(c) => match spec_commands_from_json(items.drop_first()) {
                Ok(rest) => Ok(seq![c] + rest),
                Err(e) => Err(e),
            },
            Err(e) => Err(e),
        }
    }
}

/// A whole request document: an object whose `commands` member, if present,
/// is an array of commands. A missing `commands` member means an empty
/// batch.
pub open spec fn spec_request_from_json(jv: JsonModel) -> Result<Seq<CommandModel>, ParseError> {
    match jv {
        JsonModel::Obj(fields) => match obj_get(fields, "commands"@) {
            None => Ok(Seq::<CommandModel>::empty()),
            Some(JsonModel::Arr(items)) => spec_commands_from_json(items),
            Some(_) => Err(ParseError::CommandsNotArray),
        },
        _ => Err(ParseError::RootNotObject),
    }
}

/// A command as the wire carries it: a tagged object. An absent cursor is
/// omitted, mirroring how the reading side defaults it.
pub open spec fn spec_command_to_json(c: CommandModel) -> JsonModel {
    match c {
        CommandModel::SetBuffer { text, cursor } => JsonModel::Obj(
            seq![
                ("type"@, JsonModel::Str("set_buffer"@)),
                ("text"@, JsonModel::Str(text)),
            ] + (match cursor {
                Some(d) => seq![("cursor"@, JsonModel::UInt(d))],
                None => Seq::<(Seq<char>, JsonModel)>::empty(),
            }),
        ),
        CommandModel::SetCursor { cursor } => JsonModel::Obj(
            seq![
                ("type"@, JsonModel::Str("set_cursor"@)),
                ("cursor"@, JsonModel::UInt(cursor)),
            ],
        ),
        CommandModel::GetState => JsonModel::Obj(
            seq![("type"@, JsonModel::Str("get_state"@))],
        ),
        CommandModel::Notify { message } => JsonModel::Obj(
            seq![
                ("type"@, JsonModel::Str("notify"@)),
                ("message"@, JsonModel::Str(message)),
            ],
        ),
        CommandModel::EditPreviousMessage { steps_back } => JsonModel::Obj(
            seq![
                ("type"@, JsonModel::Str("edit_previous_message"@)),
                ("steps_back"@, JsonModel::UInt(steps_back)),
            ],
        ),
        CommandModel::HistoryPrevious => JsonModel::Obj(
            seq![("type"@, JsonModel::Str("history_previous"@))],
        ),
        CommandModel::HistoryNext => JsonModel::Obj(
            seq![("type"@, JsonModel::Str("history_next"@))],
        ),
    }
}

/// A request as the wire carries it: the batch under `commands`.
pub open spec fn spec_request_to_json(cs: Seq<CommandModel>) -> JsonModel {
    JsonModel::Obj(
        seq![
            ("commands"@, JsonModel::Arr(Seq::new(cs.len(), |i: int| spec_command_to_json(cs[i])))),
        ],
    )
}

/// One command as a JSON value, exactly as `spec_command_to_json` says.
pub fn command_to_json(c: &TalonCommand) -> (j: Json)
    ensures
        j@ == spec_command_to_json(c@),
{
    let mut fields: Vec<(String, Json)> = Vec::new();
    match c {
        TalonCommand::SetBuffer { text, cursor } => {
            fields.push(("type".to_owned(), Json::Str("set_buffer".to_owned())));
            fields.push(("text".to_owned(), Json::Str(text.clone())));
            match cursor {
                Some(d) => fields.push(("cursor".to_owned(), Json::UInt(*d))),
                None => {},
            }
        },
        TalonCommand::SetCursor { cursor } => {
            fields.push(("type".to_owned(), Json::Str("set_cursor".to_owned())));
            fields.push(("cursor".to_owned(), Json::UInt(*cursor)));
        },
        TalonCommand::GetState => {
            fields.push(("type".to_owned(), Json::Str("get_state".to_owned())));
        },
        TalonCommand::Notify { message } => {
            fields.push(("type".to_owned(), Json::Str("notify".to_owned())));
            fields.push(("message".to_owned(), Json::Str(message.clone())));
        },
        TalonCommand::EditPreviousMessage { steps_back } => {
            fields.push(("type".to_owned(), Json::Str("edit_previous_message".to_owned())));
            fields.push(("steps_back".to_owned(), Json::UInt(*steps_back)));
        },
        TalonCommand::HistoryPrevious => {
            fields.push(("type".to_owned(), Json::Str("history_previous".to_owned())));
        },
        TalonCommand::HistoryNext => {
            fields.push(("type".to_owned(), Json::Str("history_next".to_owned())));
        },
    }
    let j = Json::Obj(fields);
    proof {
        lemma_json_variant_views(&j);
        assert(j@->Obj_0 =~= spec_command_to_json(c@)->Obj_0);
    }
    j
}

/// A whole request as a JSON tree, exactly as `spec_request_to_json`
/// says. This is the sender's side of the wire contract.
pub fn request_to_json(req: &TalonRequest) -> (j: Json)
    ensures
        j@ == spec_request_to_json(cmds_view(req.commands@)),
{
    let mut items: Vec<Json> = Vec::new();
    let n = req.commands.len();
    let mut i: usize = 0;
    while i < n
        invariant
            n == req.commands@.len(),
            i <= n,
            items@.len() == i,
            forall|k: int|
                0 <= k < i ==> items@[k]@ == spec_command_to_json(#[trigger] req.commands@[k]@),
        decreases n - i,
    {
        items.push(command_to_json(&req.commands[i]));
        i = i + 1;
    }
    let mut fields: Vec<(String, Json)> = Vec::new();
    let ghost items_view = arr_view(&items);
    fields.push(("commands".to_owned(), Json::Arr(items)));
    let j = Json::Obj(fields);
    proof {
        lemma_json_variant_views(&j);
        let cs = cmds_view(req.commands@);
        assert(items_view =~= Seq::new(cs.len(), |k: int| spec_command_to_json(cs[k])));
        assert(j@->Obj_0 =~= spec_request_to_json(cs)->Obj_0);
    }
    j
}

/// The seven command tags are pairwise distinct wire words.
proof fn lemma_tag_words_distinct()
    ensures
        "set_cursor"@ != "set_buffer"@,
        "get_state"@ != "set_buffer"@,
        "get_state"@ != "set_cursor"@,
        "notify"@ != "set_buffer"@,
        "notify"@ != "set_cursor"@,
        "notify"@ != "get_state"@,
        "edit_previous_message"@ != "set_buffer"@,
        "edit_previous_message"@ != "set_cursor"@,
        "edit_previous_message"@ != "get_state"@,
        "edit_previous_message"@ != "notify"@,
        "history_previous"@ != "set_buffer"@,
        "history_previous"@ != "set_cursor"@,
        "history_previous"@ != "get_state"@,
        "history_previous"@ != "notify"@,
        "history_previous"@ != "edit_previous_message"@,
        "history_next"@ != "set_buffer"@,
        "history_next"@ != "set_cursor"@,
        "history_next"@ != "get_state"@,
        "history_next"@ != "notify"@,
        "history_next"@ != "edit_previous_message"@,
        "history_next"@ != "history_previous"@,
{
    reveal_strlit("set_buffer");
    reveal_strlit("set_cursor");
    reveal_strlit("get_state");
    reveal_strlit("notify");
    reveal_strlit("edit_previous_message");
    reveal_strlit("history_previous");
    reveal_strlit("history_next");
    assert("set_buffer"@.len() == 10);
    assert("set_cursor"@.len() == 10);
    assert("get_state"@.len() == 9);
    assert("notify"@.len() == 6);
    assert("edit_previous_message"@.len() == 21);
    assert("history_previous"@.len() == 16);
    assert("history_next"@.len() == 12);
    assert("set_buffer"@[4] == 'b');
    assert("set_cursor"@[4] == 'c');
}

/// The member names a command object can hold are pairwise distinct.
proof fn lemma_command_keys_distinct()
    ensures
        "type"@ != "text"@,
        "type"@ != "cursor"@,
        "type"@ != "message"@,
        "type"@ != "steps_back"@,
        "text"@ != "cursor"@,
{
    reveal_strlit("type");
    reveal_strlit("text");
    reveal_strlit("cursor");
    reveal_strlit("message");
    reveal_strlit("steps_back");
    assert("type"@.len() == 4);
    assert("text"@.len() == 4);
    assert("cursor"@.len() == 6);
    assert("message"@.len() == 7);
    assert("steps_back"@.len() == 10);
    assert("type"@[1] == 'y');
    assert("text"@[1] == 'e');
}

/// A serialized command reads back as itself.
#[verifier::rlimit(50)]
proof fn lemma_command_round_trip(c: CommandModel)
    ensures
        spec_command_from_json(spec_command_to_json(c)) == Ok::<CommandModel, ParseError>(c),
{
    lemma_tag_words_distinct();
    lemma_command_keys_distinct();
    let t = spec_command_to_json(c)->Obj_0;
    match c {
        CommandModel::SetBuffer { text, cursor } => {
            let p0 = ("type"@, JsonModel::Str("set_buffer"@));
            let p1 = ("text"@, JsonModel::Str(text));
            let base = seq![p0, p1];
            let cseg = match cursor {
                Some(d) => seq![("cursor"@, JsonModel::UInt(d))],
                None => Seq::<(Seq<char>, JsonModel)>::empty(),
            };
            assert(base =~= seq![p0] + seq![p1]);
            assert(t == base + cseg);
            crate::json::lemma_obj_get_concat(base, cseg, "type"@);
            crate::json::lemma_obj_get_concat(base, cseg, "text"@);
            crate::json::lemma_obj_get_concat(base, cseg, "cursor"@);
            crate::json::lemma_obj_get_concat(seq![p0], seq![p1], "type"@);
            crate::json::lemma_obj_get_concat(seq![p0], seq![p1], "text"@);
            crate::json::lemma_obj_get_concat(seq![p0], seq![p1], "cursor"@);
            crate::json::lemma_obj_get_single(p0, "type"@);
            crate::json::lemma_obj_get_single(p0, "text"@);
            crate::json::lemma_obj_get_single(p0, "cursor"@);
            crate::json::lemma_obj_get_single(p1, "type"@);
            crate::json::lemma_obj_get_single(p1, "text"@);
            crate::json::lemma_obj_get_single(p1, "cursor"@);
            match cursor {
                Some(d) => {
                    crate::json::lemma_obj_get_single(
                        ("cursor"@, JsonModel::UInt(d)),
                        "cursor"@,
                    );
                },
                None => {},
            }
            assert(obj_get(t, "type"@) == Some(JsonModel::Str("set_buffer"@)));
        },
        CommandModel::SetCursor { cursor } => {
            let p0 = ("type"@, JsonModel::Str("set_cursor"@));
            let p1 = ("cursor"@, JsonModel::UInt(cursor));
            assert(t =~= seq![p0] + seq![p1]);
            crate::json::lemma_obj_get_concat(seq![p0], seq![p1], "type"@);
            crate::json::lemma_obj_get_concat(seq![p0], seq![p1], "cursor"@);
            crate::json::lemma_obj_get_single(p0, "type"@);
            crate::json::lemma_obj_get_single(p0, "cursor"@);
            crate::json::lemma_obj_get_single(p1, "type"@);
            crate::json::lemma_obj_get_single(p1, "cursor"@);
        },
        CommandModel::GetState => {
            crate::json::lemma_obj_get_single(
                ("type"@, JsonModel::Str("get_state"@)),
                "type"@,
            );
        },
        CommandModel::Notify { message } => {
            let p0 = ("type"@, JsonModel::Str("notify"@));
            let p1 = ("message"@, JsonModel::Str(message));
            assert(t =~= seq![p0] + seq![p1]);
            crate::json::lemma_obj_get_concat(seq![p0], seq![p1], "type"@);
            crate::json::lemma_obj_get_concat(seq![p0], seq![p1], "message"@);
            crate::json::lemma_obj_get_single(p0, "type"@);
            crate::json::lemma_obj_get_single(p0, "message"@);
            crate::json::lemma_obj_get_single(p1, "type"@);
            crate::json::lemma_obj_get_single(p1, "message"@);
        },
        CommandModel::EditPreviousMessage { steps_back } => {
            let p0 = ("type"@, JsonModel::Str("edit_previous_message"@));
            let p1 = ("steps_back"@, JsonModel::UInt(steps_back));
            assert(t =~= seq![p0] + seq![p1]);
            crate::json::lemma_obj_get_concat(seq![p0], seq![p1], "type"@);
            crate::json::lemma_obj_get_concat(seq![p0], seq![p1], "steps_back"@);
            crate::json::lemma_obj_get_single(p0, "type"@);
            crate::json::lemma_obj_get_single(p0, "steps_back"@);
            crate::json::lemma_obj_get_single(p1, "type"@);
            crate::json::lemma_obj_get_single(p1, "steps_back"@);
        },
        CommandModel::HistoryPrevious => {
            crate::json::lemma_obj_get_single(
                ("type"@, JsonModel::Str("history_previous"@)),
                "type"@,
            );
        },
        CommandModel::HistoryNext => {
            crate::json::lemma_obj_get_single(
                ("type"@, JsonModel::Str("history_next"@)),
                "type"@,
            );
        },
    }
}

/// A serialized batch reads back as itself, command for command.
proof fn lemma_commands_round_trip(cs: Seq<CommandModel>)
    ensures
        spec_commands_from_json(Seq::new(cs.len(), |i: int| spec_command_to_json(cs[i]))) == Ok::<
            Seq<CommandModel>,
            ParseError,
        >(cs),
    decreases cs.len(),
{
    let items = Seq::new(cs.len(), |i: int| spec_command_to_json(cs[i]));
    if cs.len() == 0 {
        assert(cs =~= Seq::<CommandModel>::empty());
    } else {
        lemma_command_round_trip(cs[0]);
        let rest = cs.drop_first();
        lemma_commands_round_trip(rest);
        assert(items.drop_first() =~= Seq::new(rest.len(), |i: int| spec_command_to_json(rest[i])));
        assert(seq![cs[0]] + rest =~= cs);
    }
}

/// Law: a request written by the sender reads back as the same batch — the
/// sender's and the reader's halves of the wire contract agree.
pub proof fn lemma_request_round_trip(cs: Seq<CommandModel>)
    ensures
        spec_request_from_json(spec_request_to_json(cs)) == Ok::<Seq<CommandModel>, ParseError>(cs),
{
    reveal_strlit("commands");
    let items = Seq::new(cs.len(), |i: int| spec_command_to_json(cs[i]));
    crate::json::lemma_obj_get_single(("commands"@, JsonModel::Arr(items)), "commands"@);
    lemma_commands_round_trip(cs);
}

/// Parse the `set_buffer` payload out of a command object.
fn set_buffer_from_fields(fields: &Vec<(String, Json)>) -> (r: Result<TalonCommand, ParseError>)
    ensures
        match r {
            Ok(c) => spec_set_buffer_from_fields(fields_view(fields)) == Ok::<CommandModel, ParseError>(c@),
            Err(e) => spec_set_buffer_from_fields(fields_view(fields)) == Err::<CommandModel, ParseError>(e),
        },
{
    let text: String = match get_field(fields, "text") {
        Some(v) => match v {
            Json::Str(s) => s.clone(),
            _ => {
                return Err(ParseError::InvalidField);
            },
        },
        None => {
            return Err(ParseError::InvalidField);
        },
    };
    let cursor: Option<u64> = match get_field(fields, "cursor") {
        None => None,
        Some(v) => match v {
            Json::Null => None,
            Json::UInt(d) => Some(*d),
            _ => {
                return Err(ParseError::InvalidField);
            },
        },
    };
    Ok(TalonCommand::SetBuffer { text, cursor })
}

/// Parse the `set_cursor` payload out of a command object.
fn set_cursor_from_fields(fields: &Vec<(String, Json)>) -> (r: Result<TalonCommand, ParseError>)
    ensures
        match r {
            Ok(c) => spec_set_cursor_from_fields(fields_view(fields)) == Ok::<CommandModel, ParseError>(c@),
            Err(e) => spec_set_cursor_from_fields(fields_view(fields)) == Err::<CommandModel, ParseError>(e),
        },
{
    match get_field(fields, "cursor") {
        Some(v) => match v {
            Json::UInt(d) => Ok(TalonCommand::SetCursor { cursor: *d }),
            _ => Err(ParseError::InvalidField),
        },
        None => Err(ParseError::InvalidField),
    }
}

/// Parse the `notify` payload out of a command object.
fn notify_from_fields(fields: &Vec<(String, Json)>) -> (r: Result<TalonCommand, ParseError>)
    ensures
        match r {
            Ok(c) => spec_notify_from_fields(fields_view(fields)) == Ok::<CommandModel, ParseError>(c@),
            Err(e) => spec_notify_from_fields(fields_view(fields)) == Err::<CommandModel, ParseError>(e),
        },
{
    match get_field(fields, "message") {
        Some(v) => match v {
            Json::Str(m) => Ok(TalonCommand::Notify { message: m.clone() }),
            _ => Err(ParseError::InvalidField),
        },
        None => Err(ParseError::InvalidField),
    }
}

/// Parse the `edit_previous_message` payload out of a command object.
fn edit_previous_from_fields(fields: &Vec<(String, Json)>) -> (r: Result<
    TalonCommand,
    ParseError,
>)
    ensures
        match r {
            Ok(c) => spec_edit_previous_from_fields(fields_view(fields)) == Ok::<CommandModel, ParseError>(c@),
            Err(e) => spec_edit_previous_from_fields(fields_view(fields)) == Err::<CommandModel, ParseError>(e),
        },
{
    match get_field(fields, "steps_back") {
        None => Ok(TalonCommand::EditPreviousMessage { steps_back: 0 }),
        Some(v) => match v {
            Json::UInt(d) => Ok(TalonCommand::EditPreviousMessage { steps_back: *d }),
            _ => Err(ParseError::InvalidField),
        },
    }
}

/// One command from a JSON value, exactly as `spec_command_from_json` says.
pub fn command_from_json(j: &Json) -> (r: Result<TalonCommand, ParseError>)
    ensures
        match r {
            Ok(c) => spec_command_from_json(j@) == Ok::<CommandModel, ParseError>(c@),
            Err(e) => spec_command_from_json(j@) == Err::<CommandModel, ParseError>(e),
        },
{
    proof {
        lemma_json_variant_views(j);
    }
    match j {
        Json::Obj(fields) => {
            match get_field(fields, "type") {
                Some(tv) => match tv {
                    Json::Str(tag) => {
                        if str_eq(tag.as_str(), "set_buffer") {
                            set_buffer_from_fields(fields)
                        } else if str_eq(tag.as_str(), "set_cursor") {
                            set_cursor_from_fields(fields)
                        } else if str_eq(tag.as_str(), "get_state") {
                            Ok(TalonCommand::GetState)
                        } else if str_eq(tag.as_str(), "notify") {
                            notify_from_fields(fields)
                        } else if str_eq(tag.as_str(), "edit_previous_message") {
                            edit_previous_from_fields(fields)
                        } else if str_eq(tag.as_str(), "history_previous") {
                            Ok(TalonCommand::HistoryPrevious)
                        } else if str_eq(tag.as_str(), "history_next") {
                            Ok(TalonCommand::HistoryNext)
                        } else {
                            Err(ParseError::UnknownCommandTag)
                        }
                    },
                    _ => Err(ParseError::InvalidField),
                },
                None => Err(ParseError::MissingCommandTag),
            }
        },
        _ => Err(ParseError::CommandNotObject),
    }
}

/// A whole request from a JSON tree, exactly as `spec_request_from_json`
/// says.
pub fn request_from_json(j: &Json) -> (r: Result<TalonRequest, ParseError>)
    ensures
        match r {
            Ok(req) => spec_request_from_json(j@) == Ok::<Seq<CommandModel>, ParseError>(cmds_view(req.commands@)),
            Err(e) => spec_request_from_json(j@) == Err::<Seq<CommandModel>, ParseError>(e),
        },
{
    proof {
        lemma_json_variant_views(j);
    }
    match j {
        Json::Obj(fields) => {
            match get_field(fields, "commands") {
                None => {
                    let req = TalonRequest { commands: Vec::new() };
                    proof {
                        assert(cmds_view(req.commands@) =~= Seq::<CommandModel>::empty());
                    }
                    Ok(req)
                },
                Some(cv) => {
                    proof {
                        lemma_json_variant_views(cv);
                    }
                    match cv {
                        Json::Arr(items) => commands_from_json(items),
                        _ => Err(ParseError::CommandsNotArray),
                    }
                },
            }
        },
        _ => Err(ParseError::RootNotObject),
    }
}

/// The command list of a request, front to back; the first failure wins.
fn commands_from_json(items: &Vec<Json>) -> (r: Result<TalonRequest, ParseError>)
    ensures
        match r {
            Ok(req) => spec_commands_from_json(arr_view(items)) == Ok::<Seq<CommandModel>, ParseError>(cmds_view(req.commands@)),
            Err(e) => spec_commands_from_json(arr_view(items)) == Err::<Seq<CommandModel>, ParseError>(e),
        },
{
    let ghost iv = arr_view(items);
    let mut acc: Vec<TalonCommand> = Vec::new();
    let n = items.len();
    let mut i: usize = 0;
    proof {
        assert(iv.skip(0) =~= iv);
        assert(cmds_view(acc@) =~= Seq::<CommandModel>::empty());
    }
    while i < n
        invariant
            n == items@.len(),
            i <= n,
            iv == arr_view(items),
            cmds_view(acc@).len() == i,
            match spec_commands_from_json(iv.skip(i as int)) {
                Ok(rest) => spec_commands_from_json(iv) == Ok::<Seq<CommandModel>, ParseError>(cmds_view(acc@) + rest),
                Err(e) => spec_commands_from_json(iv) == Err::<Seq<CommandModel>, ParseError>(e),
            },
        decreases n - i,
    {
        proof {
            assert(iv.skip(i as int)[0] == iv[i as int]);
            assert(iv.skip(i as int).drop_first() =~= iv.skip(i as int + 1));
            assert(iv[i as int] == items[i as int]@);
        }
        match command_from_json(&items[i]) {
            Err(e) => {
                return Err(e);
            },
            Ok(cmd) => {
                let ghost acc_before = acc@;
                acc.push(cmd);
                proof {
                    assert(cmds_view(acc@) =~= cmds_view(acc_before).push(cmd@));
                    if spec_commands_from_json(iv.skip(i as int + 1)) is Ok {
                        let rest = spec_commands_from_json(iv.skip(i as int + 1))->Ok_0;
                        assert(cmds_view(acc_before) + (seq![cmd@] + rest) =~= cmds_view(acc@)
                            + rest);
                    }
                }
            },
        }
        i = i + 1;
    }
    proof {
        assert(iv.skip(n as int) =~= Seq::<JsonModel>::empty());
        assert(cmds_view(acc@) + Seq::<CommandModel>::empty() =~= cmds_view(acc@));
    }
    Ok(TalonRequest { commands: acc })
}

} // verus!
