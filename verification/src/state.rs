//! The editor snapshot that Talon commands act upon, together with its
//! mathematical model and the cursor-clamping invariant.

use vstd::prelude::*;

verus! {

use vstd::utf8::encode_utf8;

/// Byte length of the UTF-8 encoding of a character sequence: exactly what
/// `str::len` returns for a string whose characters are `s`.
pub open spec fn buf_len(s: Seq<char>) -> usize {
    encode_utf8(s).len() as usize
}

/// Mathematical model of one editor snapshot.
#[verifier::ext_equal]
pub ghost struct StateModel {
    pub buffer: Seq<char>,
    pub cursor: usize,
    pub is_task_running: bool,
    pub task_summary: Option<Seq<char>>,
    pub session_id: Option<Seq<char>>,
    pub cwd: Option<Seq<char>>,
}

/// The authoritative editor snapshot: composer text, a byte-offset cursor
/// into it, the task flag, and pass-through metadata.
pub struct TalonEditorState {
    pub buffer: String,
    pub cursor: usize,
    pub is_task_running: bool,
    pub task_summary: Option<String>,
    pub session_id: Option<String>,
    pub cwd: Option<String>,
}

impl View for TalonEditorState {
    type V = StateModel;

    open spec fn view(&self) -> StateModel {
        StateModel {
            buffer: self.buffer@,
            cursor: self.cursor,
            is_task_running: self.is_task_running,
            task_summary: self.task_summary.deep_view(),
            session_id: self.session_id.deep_view(),
            cwd: self.cwd.deep_view(),
        }
    }
}

/// Cursor invariant: the cursor is a byte offset no greater than the byte
/// length of the buffer.
pub open spec fn state_wf(m: StateModel) -> bool {
    m.cursor <= buf_len(m.buffer)
}

/// The smaller of a desired cursor position and the buffer's byte length.
pub open spec fn clamp(desired: usize, len: usize) -> usize {
    if desired <= len {
        desired
    } else {
        len
    }
}

/// `m` with its cursor clamped to the buffer's byte length.
pub open spec fn spec_clamp_state(m: StateModel) -> StateModel {
    StateModel { cursor: clamp(m.cursor, buf_len(m.buffer)), ..m }
}

/// A copy of an optional string, equal under the view.
fn clone_opt_string(o: &Option<String>) -> (r: Option<String>)
    ensures
        r.deep_view() == o.deep_view(),
{
    match o {
        Some(s) => Some(s.clone()),
        None => None,
    }
}

impl TalonEditorState {
    /// The byte length of the buffer.
    pub fn buffer_len(&self) -> (n: usize)
        ensures
            n == buf_len(self.buffer@),
    {
        self.buffer.as_str().as_bytes().len()
    }

    /// An owned copy of the snapshot, equal under the model.
    pub fn snapshot(&self) -> (s: Self)
        ensures
            s@ == self@,
    {
        let s = TalonEditorState {
            buffer: self.buffer.clone(),
            cursor: self.cursor,
            is_task_running: self.is_task_running,
            task_summary: clone_opt_string(&self.task_summary),
            session_id: clone_opt_string(&self.session_id),
            cwd: clone_opt_string(&self.cwd),
        };
        proof {
            assert(s@ =~= self@);
        }
        s
    }
}

/// Force the cursor invariant on a snapshot, as must happen right after a
/// snapshot is loaded from an externally editable file.
pub fn clamp_cursor(state: &mut TalonEditorState)
    ensures
        final(state)@ =~= spec_clamp_state(old(state)@),
        state_wf(final(state)@),
{
    let len = state.buffer_len();
    if state.cursor > len {
        state.cursor = len;
    }
}

impl Default for TalonEditorState {
    /// An empty buffer with the cursor at the start and no task or metadata.
    fn default() -> (s: Self)
        ensures
            s@ =~= (StateModel {
                buffer: Seq::<char>::empty(),
                cursor: 0,
                is_task_running: false,
                task_summary: None,
                session_id: None,
                cwd: None,
            }),
            state_wf(s@),
    {
        TalonEditorState {
            buffer: String::new(),
            cursor: 0,
            is_task_running: false,
            task_summary: None,
            session_id: None,
            cwd: None,
        }
    }
}

} // verus!
