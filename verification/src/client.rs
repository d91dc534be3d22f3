//! The per-view channel to the remote engine, modelled as data: each
//! method queues the editing request it stands for, and the process edge
//! outside the library drains the queue and puts the requests on the wire.
//! Requests whose result the session must wait for (copy, cut, save) are
//! returned as values instead of queued.

use vstd::prelude::*;

verus! {

/// How a find step changes the selection.
#[derive(Clone, Copy, Debug, PartialEq, Eq, Structural)]
pub enum ModifySelection {
    NoModify,
    Replace,
    Add,
    AddRemoveCurrent,
}

/// One fire-and-forget editing or navigation request for a view.
#[derive(Clone, Debug, PartialEq)]
pub enum EditOp {
    Insert(char),
    Scroll(u64, u64),
    GotoLine(u64),
    Paste(String),
    Undo,
    Redo,
    Find { term: Vec<char>, case_sensitive: bool, regex: bool, whole_words: bool },
    FindNext { wrap_around: bool, allow_same: bool, modify_selection: ModifySelection },
    FindPrev { wrap_around: bool, allow_same: bool, modify_selection: ModifySelection },
    FindAll,
    HighlightFind(bool),
    Down,
    Up,
    Right,
    Left,
    PageDown,
    PageUp,
    LineStart,
    LineEnd,
    Delete,
    Backspace,
    LineEndSel,
    CollapseSelections,
    DownSel,
    UpSel,
    LeftSel,
    RightSel,
    PageUpSel,
    PageDownSel,
    LineStartSel,
    Click(u64, u64),
    Drag(u64, u64),
}

/// A session-level request: either a fire-and-forget edit for a view, or
/// one of the requests whose result the session waits for.
#[derive(Clone, Debug, PartialEq)]
pub enum CoreRequest {
    Edit(u64, EditOp),
    Copy(u64),
    Cut(u64),
    Save(u64, String),
    SetTheme(String),
    NewView(Option<String>),
}

/// The request queue of one view: everything the view asks of the engine,
/// in order.
#[derive(Clone, Debug)]
pub struct Client {
    pub view_id: u64,
    pub ops: Vec<EditOp>,
}

impl Client {
    pub fn new(view_id: u64) -> (c: Client)
        ensures
            c.view_id == view_id,
            c.ops@ == Seq::<EditOp>::empty(),
    {
        Client { view_id, ops: Vec::new() }
    }

    pub fn insert(&mut self, chr: char)
        ensures
            final(self).view_id == old(self).view_id,
            final(self).ops@ == old(self).ops@.push(EditOp::Insert(chr)),
    {
        self.ops.push(EditOp::Insert(chr));
    }

    /// Tell the engine which line range to keep pushing.
    pub fn scroll(&mut self, start: u64, end: u64)
        ensures
            final(self).view_id == old(self).view_id,
            final(self).ops@ == old(self).ops@.push(EditOp::Scroll(start, end)),
    {
        self.ops.push(EditOp::Scroll(start, end));
    }

    pub fn select_line_end(&mut self)
        ensures
            final(self).view_id == old(self).view_id,
            final(self).ops@ == old(self).ops@.push(EditOp::LineEndSel),
    {
        self.ops.push(EditOp::LineEndSel);
    }

    /// Select the whole current line: jump to its start, then select to
    /// its end.
    pub fn select_line(&mut self)
        ensures
            final(self).view_id == old(self).view_id,
            final(self).ops@ == old(self).ops@.push(EditOp::LineStart).push(EditOp::LineEndSel),
    {
        self.ops.push(EditOp::LineStart);
        self.ops.push(EditOp::LineEndSel);
    }

    /// Delete the whole current line: select it, then delete the
    /// selection.
    pub fn delete_line(&mut self)
        ensures
            final(self).view_id == old(self).view_id,
            final(self).ops@ == old(self).ops@.push(EditOp::LineStart).push(
                EditOp::LineEndSel,
            ).push(EditOp::Delete),
    {
        self.ops.push(EditOp::LineStart);
        self.ops.push(EditOp::LineEndSel);
        self.ops.push(EditOp::Delete);
    }

    pub fn goto_line(&mut self, line: u64)
        ensures
            final(self).view_id == old(self).view_id,
            final(self).ops@ == old(self).ops@.push(EditOp::GotoLine(line)),
    {
        self.ops.push(EditOp::GotoLine(line));
    }

    /// The copy request, whose clipboard value the caller waits for.
    pub fn copy(&self) -> (r: CoreRequest)
        ensures
            r == CoreRequest::Copy(self.view_id),
    {
        CoreRequest::Copy(self.view_id)
    }

    pub fn paste(&mut self, buffer: &String)
        ensures
            final(self).view_id == old(self).view_id,
            final(self).ops@ == old(self).ops@.push(EditOp::Paste(*buffer)),
    {
        self.ops.push(EditOp::Paste(clone_string(buffer)));
    }

    /// The cut request, whose clipboard value the caller waits for.
    pub fn cut(&self) -> (r: CoreRequest)
        ensures
            r == CoreRequest::Cut(self.view_id),
    {
        CoreRequest::Cut(self.view_id)
    }

    pub fn undo(&mut self)
        ensures
            final(self).view_id == old(self).view_id,
            final(self).ops@ == old(self).ops@.push(EditOp::Undo),
    {
        self.ops.push(EditOp::Undo);
    }

    pub fn redo(&mut self)
        ensures
            final(self).view_id == old(self).view_id,
            final(self).ops@ == old(self).ops@.push(EditOp::Redo),
    {
        self.ops.push(EditOp::Redo);
    }

    pub fn find(&mut self, search_term: Vec<char>, case_sensitive: bool, regex: bool, whole_words: bool)
        ensures
            final(self).view_id == old(self).view_id,
            final(self).ops@ == old(self).ops@.push(
                EditOp::Find {
                    term: search_term,
                    case_sensitive,
                    regex,
                    whole_words,
                },
            ),
    {
        self.ops.push(EditOp::Find { term: search_term, case_sensitive, regex, whole_words });
    }

    pub fn find_next(&mut self, wrap_around: bool, allow_same: bool, modify_selection: ModifySelection)
        ensures
            final(self).view_id == old(self).view_id,
            final(self).ops@ == old(self).ops@.push(
                EditOp::FindNext { wrap_around, allow_same, modify_selection },
            ),
    {
        self.ops.push(EditOp::FindNext { wrap_around, allow_same, modify_selection });
    }

    pub fn find_prev(&mut self, wrap_around: bool, allow_same: bool, modify_selection: ModifySelection)
        ensures
            final(self).view_id == old(self).view_id,
            final(self).ops@ == old(self).ops@.push(
                EditOp::FindPrev { wrap_around, allow_same, modify_selection },
            ),
    {
        self.ops.push(EditOp::FindPrev { wrap_around, allow_same, modify_selection });
    }

    pub fn find_all(&mut self)
        ensures
            final(self).view_id == old(self).view_id,
            final(self).ops@ == old(self).ops@.push(EditOp::FindAll),
    {
        self.ops.push(EditOp::FindAll);
    }

    pub fn highlight_find(&mut self, visible: bool)
        ensures
            final(self).view_id == old(self).view_id,
            final(self).ops@ == old(self).ops@.push(EditOp::HighlightFind(visible)),
    {
        self.ops.push(EditOp::HighlightFind(visible));
    }

    pub fn down(&mut self)
        ensures
            final(self).view_id == old(self).view_id,
            final(self).ops@ == old(self).ops@.push(EditOp::Down),
    {
        self.ops.push(EditOp::Down);
    }

    pub fn up(&mut self)
        ensures
            final(self).view_id == old(self).view_id,
            final(self).ops@ == old(self).ops@.push(EditOp::Up),
    {
        self.ops.push(EditOp::Up);
    }

    pub fn right(&mut self)
        ensures
            final(self).view_id == old(self).view_id,
            final(self).ops@ == old(self).ops@.push(EditOp::Right),
    {
        self.ops.push(EditOp::Right);
    }

    pub fn left(&mut self)
        ensures
            final(self).view_id == old(self).view_id,
            final(self).ops@ == old(self).ops@.push(EditOp::Left),
    {
        self.ops.push(EditOp::Left);
    }

    pub fn page_down(&mut self)
        ensures
            final(self).view_id == old(self).view_id,
            final(self).ops@ == old(self).ops@.push(EditOp::PageDown),
    {
        self.ops.push(EditOp::PageDown);
    }

    pub fn page_up(&mut self)
        ensures
            final(self).view_id == old(self).view_id,
            final(self).ops@ == old(self).ops@.push(EditOp::PageUp),
    {
        self.ops.push(EditOp::PageUp);
    }

    pub fn home(&mut self)
        ensures
            final(self).view_id == old(self).view_id,
            final(self).ops@ == old(self).ops@.push(EditOp::LineStart),
    {
        self.ops.push(EditOp::LineStart);
    }

    pub fn end(&mut self)
        ensures
            final(self).view_id == old(self).view_id,
            final(self).ops@ == old(self).ops@.push(EditOp::LineEnd),
    {
        self.ops.push(EditOp::LineEnd);
    }

    pub fn delete(&mut self)
        ensures
            final(self).view_id == old(self).view_id,
            final(self).ops@ == old(self).ops@.push(EditOp::Delete),
    {
        self.ops.push(EditOp::Delete);
    }

    pub fn backspace(&mut self)
        ensures
            final(self).view_id == old(self).view_id,
            final(self).ops@ == old(self).ops@.push(EditOp::Backspace),
    {
        self.ops.push(EditOp::Backspace);
    }

    pub fn collapse_selections(&mut self)
        ensures
            final(self).view_id == old(self).view_id,
            final(self).ops@ == old(self).ops@.push(EditOp::CollapseSelections),
    {
        self.ops.push(EditOp::CollapseSelections);
    }

    /// The save request for the given path, whose outcome the caller
    /// waits for.
    pub fn save(&self, file: &String) -> (r: CoreRequest)
        ensures
            r == CoreRequest::Save(self.view_id, *file),
    {
        CoreRequest::Save(self.view_id, clone_string(file))
    }

    pub fn click(&mut self, line: u64, column: u64)
        ensures
            final(self).view_id == old(self).view_id,
            final(self).ops@ == old(self).ops@.push(EditOp::Click(line, column)),
    {
        self.ops.push(EditOp::Click(line, column));
    }

    pub fn drag(&mut self, line: u64, column: u64)
        ensures
            final(self).view_id == old(self).view_id,
            final(self).ops@ == old(self).ops@.push(EditOp::Drag(line, column)),
    {
        self.ops.push(EditOp::Drag(line, column));
    }

    /// Hand the queued requests out, leaving the queue empty.
    pub fn take_ops(&mut self) -> (r: Vec<EditOp>)
        ensures
            final(self).view_id == old(self).view_id,
            final(self).ops@ == Seq::<EditOp>::empty(),
            r@ == old(self).ops@,
    {
        let mut out: Vec<EditOp> = Vec::new();
        core::mem::swap(&mut out, &mut self.ops);
        out
    }
}

/// A copy of a string with the same characters.
pub fn clone_string(s: &String) -> (r: String)
    ensures
        r == *s,
{
    let r = s.clone();
    proof {
        assert(r@ == s@);
    }
    r
}

} // verus!
