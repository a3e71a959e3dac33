//! The command interpreter: applies a batch of commands to an editor
//! snapshot strictly in input order, recording one applied-effect label per
//! command.

use vstd::prelude::*;

verus! {

use crate::state::{
    buf_len, clamp, spec_clamp_state, state_wf, StateModel, TalonEditorState, clamp_cursor,
};
use crate::command::{cmds_view, spec_label, CommandModel, TalonCommand, label_of};

/// A desired cursor position from the wire, clamped to a buffer length.
pub open spec fn clamp_u64(desired: u64, len: usize) -> usize {
    if desired <= len as u64 {
        desired as usize
    } else {
        len
    }
}

/// The effect of one command on a snapshot. Commands that do not touch the
/// buffer or cursor still re-clamp the cursor defensively, since the
/// starting snapshot may come from an externally editable file.
pub open spec fn spec_apply(m: StateModel, c: CommandModel) -> StateModel {
    match c {
        CommandModel::SetBuffer { text, cursor } => {
            let len = buf_len(text);
            let desired = match cursor {
                Some(d) => d,
                None => len as u64,
            };
            StateModel { buffer: text, cursor: clamp_u64(desired, len), ..m }
        },
        CommandModel::SetCursor { cursor } => (StateModel {
            cursor: clamp_u64(cursor, buf_len(m.buffer)),
            ..m
        }),
        _ => spec_clamp_state(m),
    }
}

/// The effect of a command sequence, applied front to back.
pub open spec fn spec_apply_all(m: StateModel, cs: Seq<CommandModel>) -> StateModel
    decreases cs.len(),
{
    if cs.len() == 0 {
        m
    } else {
        spec_apply_all(spec_apply(m, cs[0]), cs.drop_first())
    }
}

/// Appending one command to a batch applies it to the batch's result.
pub proof fn lemma_apply_all_push(m: StateModel, cs: Seq<CommandModel>, c: CommandModel)
    ensures
        spec_apply_all(m, cs.push(c)) == spec_apply(spec_apply_all(m, cs), c),
    decreases cs.len(),
{
    reveal_with_fuel(spec_apply_all, 3);
    assert(cs.push(c)[0] == if cs.len() == 0 { c } else { cs[0] });
    if cs.len() == 0 {
        assert(cs.push(c).drop_first() =~= Seq::<CommandModel>::empty());
        assert(spec_apply_all(m, cs.push(c)) == spec_apply_all(
            spec_apply(m, c),
            Seq::<CommandModel>::empty(),
        ));
    } else {
        assert(cs.push(c).drop_first() =~= cs.drop_first().push(c));
        lemma_apply_all_push(spec_apply(m, cs[0]), cs.drop_first(), c);
        assert(spec_apply_all(m, cs.push(c)) == spec_apply_all(
            spec_apply(m, cs[0]),
            cs.drop_first().push(c),
        ));
    }
}

/// Every command leaves the cursor within the buffer, whatever snapshot it
/// started from.
pub proof fn lemma_apply_wf(m: StateModel, c: CommandModel)
    ensures
        state_wf(spec_apply(m, c)),
{
}

/// Law: every snapshot the interpreter produces satisfies the cursor
/// invariant — after a non-empty batch unconditionally, and after any batch
/// when the starting snapshot already satisfied it.
pub proof fn lemma_interpreter_cursor_invariant(m: StateModel, cs: Seq<CommandModel>)
    ensures
        cs.len() > 0 ==> state_wf(spec_apply_all(m, cs)),
        state_wf(m) ==> state_wf(spec_apply_all(m, cs)),
    decreases cs.len(),
{
    if cs.len() > 0 {
        lemma_apply_wf(m, cs[0]);
        lemma_interpreter_cursor_invariant(spec_apply(m, cs[0]), cs.drop_first());
    }
}

/// Law: an empty command list leaves any snapshot unchanged.
pub proof fn lemma_empty_batch_is_identity(m: StateModel)
    ensures
        spec_apply_all(m, Seq::<CommandModel>::empty()) == m,
{
}

/// Apply one command to the snapshot and return its applied-effect label.
pub fn apply_command(state: &mut TalonEditorState, cmd: &TalonCommand) -> (label: String)
    ensures
        final(state)@ =~= spec_apply(old(state)@, cmd@),
        label@ == spec_label(cmd@),
{
    match cmd {
        TalonCommand::SetBuffer { text, cursor } => {
            let new_buf = text.clone();
            let len = new_buf.as_str().as_bytes().len();
            let new_cursor: usize = match cursor {
                Some(d) => {
                    if *d <= len as u64 {
                        *d as usize
                    } else {
                        len
                    }
                },
                None => len,
            };
            state.buffer = new_buf;
            state.cursor = new_cursor;
        },
        TalonCommand::SetCursor { cursor } => {
            let len = state.buffer_len();
            state.cursor = if *cursor <= len as u64 {
                *cursor as usize
            } else {
                len
            };
        },
        _ => {
            clamp_cursor(state);
        },
    }
    label_of(cmd)
}

/// Apply a batch of commands strictly in input order. The applied-effect
/// labels come back one per command, in the same order as the commands.
pub fn apply_commands(state: &mut TalonEditorState, commands: &Vec<TalonCommand>) -> (applied: Vec<
    String,
>)
    ensures
        final(state)@ =~= spec_apply_all(old(state)@, cmds_view(commands@)),
        applied@.len() == commands@.len(),
        forall|i: int|
            0 <= i < commands@.len() ==> applied@[i]@ == spec_label(#[trigger] commands@[i]@),
{
    let mut applied: Vec<String> = Vec::new();
    let n = commands.len();
    let mut i: usize = 0;
    while i < n
        invariant
            n == commands@.len(),
            i <= n,
            state@ =~= spec_apply_all(old(state)@, cmds_view(commands@).take(i as int)),
            applied@.len() == i,
            forall|j: int|
                0 <= j < i ==> applied@[j]@ == spec_label(#[trigger] commands@[j]@),
        decreases n - i,
    {
        let cmd = &commands[i];
        let label = apply_command(state, cmd);
        applied.push(label);
        proof {
            let cv = cmds_view(commands@);
            lemma_apply_all_push(old(state)@, cv.take(i as int), cv[i as int]);
            assert(cv.take(i + 1 as int) =~= cv.take(i as int).push(cv[i as int]));
        }
        i = i + 1;
    }
    proof {
        assert(cmds_view(commands@).take(n as int) =~= cmds_view(commands@));
    }
    applied
}

} // verus!
