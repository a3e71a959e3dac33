//! The closed set of Talon commands, the request that carries them, and the
//! applied-effect label recorded for each processed command.

use vstd::prelude::*;

verus! {

/// One command of the wire contract. Cursor positions arrive as unsigned
/// JSON numbers; out-of-range values are absorbed by clamping, never
/// rejected.
#[allow(inconsistent_fields)]
#[derive(Debug)]
pub enum TalonCommand {
    /// Replace the whole composer buffer; optionally move the cursor.
    SetBuffer { text: String, cursor: Option<u64> },
    /// Move the cursor to an absolute byte offset, clamped to the buffer.
    SetCursor { cursor: u64 },
    /// No mutation; asks for a snapshot of the current state.
    GetState,
    /// No mutation; the message is forwarded to a presentation layer.
    Notify { message: String },
    /// No mutation here; signals history navigation to the enclosing editor.
    EditPreviousMessage { steps_back: u64 },
    /// No mutation here; signals history navigation to the enclosing editor.
    HistoryPrevious,
    /// No mutation here; signals history navigation to the enclosing editor.
    HistoryNext,
}

/// Mathematical model of one command.
#[verifier::ext_equal]
#[allow(inconsistent_fields)]
pub ghost enum CommandModel {
    SetBuffer { text: Seq<char>, cursor: Option<u64> },
    SetCursor { cursor: u64 },
    GetState,
    Notify { message: Seq<char> },
    EditPreviousMessage { steps_back: u64 },
    HistoryPrevious,
    HistoryNext,
}

impl View for TalonCommand {
    type V = CommandModel;

    open spec fn view(&self) -> CommandModel {
        match self {
            TalonCommand::SetBuffer { text, cursor } => CommandModel::SetBuffer {
                text: text@,
                cursor: *cursor,
            },
            TalonCommand::SetCursor { cursor } => CommandModel::SetCursor { cursor: *cursor },
            TalonCommand::GetState => CommandModel::GetState,
            TalonCommand::Notify { message } => CommandModel::Notify { message: message@ },
            TalonCommand::EditPreviousMessage { steps_back } => CommandModel::EditPreviousMessage {
                steps_back: *steps_back,
            },
            TalonCommand::HistoryPrevious => CommandModel::HistoryPrevious,
            TalonCommand::HistoryNext => CommandModel::HistoryNext,
        }
    }
}

/// The view of a command sequence, command by command.
pub open spec fn cmds_view(cs: Seq<TalonCommand>) -> Seq<CommandModel> {
    Seq::new(cs.len(), |i: int| cs[i]@)
}

/// An ordered batch of commands: insertion order is execution order.
#[derive(Debug)]
pub struct TalonRequest {
    pub commands: Vec<TalonCommand>,
}

/// The applied-effect label of a command.
pub open spec fn spec_label(c: CommandModel) -> Seq<char> {
    match c {
        CommandModel::SetBuffer { .. } => "set_buffer"@,
        CommandModel::SetCursor { .. } => "set_cursor"@,
        CommandModel::GetState => "get_state"@,
        CommandModel::Notify { .. } => "notify"@,
        CommandModel::EditPreviousMessage { .. } => "edit_previous_message"@,
        CommandModel::HistoryPrevious => "history_previous"@,
        CommandModel::HistoryNext => "history_next"@,
    }
}

/// The applied-effect label of a command, as recorded in a response.
pub fn label_of(c: &TalonCommand) -> (label: String)
    ensures
        label@ == spec_label(c@),
{
    match c {
        TalonCommand::SetBuffer { .. } => "set_buffer".to_owned(),
        TalonCommand::SetCursor { .. } => "set_cursor".to_owned(),
        TalonCommand::GetState => "get_state".to_owned(),
        TalonCommand::Notify { .. } => "notify".to_owned(),
        TalonCommand::EditPreviousMessage { .. } => "edit_previous_message".to_owned(),
        TalonCommand::HistoryPrevious => "history_previous".to_owned(),
        TalonCommand::HistoryNext => "history_next".to_owned(),
    }
}

} // verus!
