//! What the handlers of the events work on.

use vstd::prelude::*;
use crate::readline::completer::Completer;
use crate::readline::editor::{Editor, EditorState};
use crate::readline::history::{History, HistoryState};
use crate::readline::terminal::Winsize;

verus! {

/// What the keys for the history do.
#[derive(Debug, Clone, Copy, PartialEq, Eq, Structural)]
pub enum Mode {
    /// They walk through the history.
    Normal,
    /// They move the highlight of the completion overlay.
    Completion,
}

/// What a context holds, as mathematical values. The completer is not part
/// of it.
pub struct ContextState {
    pub editor: EditorState,
    pub history: HistoryState,
    pub mode: Mode,
}

impl ContextState {
    /// The cursor stands in the line, the overlay can be drawn for every
    /// highlight, no candidate is highlighted outside a completion, and the
    /// walk through the history stands on a stored line.
    pub open spec fn wf(self) -> bool {
        &&& self.editor.wf()
        &&& self.editor.settled()
        &&& !self.editor.completing ==> self.editor.index == 0
        &&& self.history.wf()
    }
}

/// The editor, the history and the completer of one reader.
pub struct Context<C: Completer> {
    pub editor: Editor,
    pub history: History,
    pub mode: Mode,
    pub completer: C,
}

impl<C: Completer> View for Context<C> {
    type V = ContextState;

    open spec fn view(&self) -> ContextState {
        ContextState { editor: self.editor@, history: self.history@, mode: self.mode }
    }
}

impl<C: Completer> Context<C> {
    /// A context with an empty line behind the prompt `"> "`, an empty
    /// history and the completer `comp`, for a terminal of the size `win_size`.
    pub fn new(comp: C, win_size: Winsize) -> (con: Self)
        ensures
            con@ == (ContextState {
                editor: EditorState::fresh(seq!['>', ' '], win_size),
                history: HistoryState::empty(),
                mode: Mode::Normal,
            }),
            con.completer == comp,
            con@.wf(),
    {
        proof {
            reveal_strlit("> ");
        }
        assert("> "@ =~= seq!['>', ' ']);
        Self {
            editor: Editor::new(String::from_str("> "), win_size),
            history: History::new(),
            mode: Mode::Normal,
            completer: comp,
        }
    }
}

} // verus!
