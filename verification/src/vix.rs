//! The top-level session: the modal input router that owns the current
//! mode, the prompt, and the editor, and turns terminal events into engine
//! requests.

use vstd::prelude::*;
use crate::client::{CoreRequest, EditOp, ModifySelection};
use crate::command_prompt::{
    spec_prompt_step,
    Command,
    CommandPrompt,
    ParseCommandError,
    PromptFrame,
};
use crate::editor::{
    spec_current_view_ops,
    spec_editor_eq,
    spec_handled_input,
    spec_id_index,
    spec_queued_if_current,
    spec_same_but_requests,
    spec_same_but_views,
    spec_save_effect,
    Editor,
};
use crate::line_cache::Update;
use crate::style::Style;
use crate::tty::{Event, Key, TtyEvent};
use crate::view::Frame;

verus! {

/// An engine notification, pushed whenever the engine pleases: a content
/// delta, a cursor move, or a style definition.
#[derive(Clone, Debug)]
pub enum CoreEvent {
    Update(Update),
    ScrollTo(ScrollTo),
    SetStyle(Style),
}

/// An engine notification that moves a view's cursor.
#[derive(Clone, Copy, Debug, PartialEq, Eq, Structural)]
pub struct ScrollTo {
    pub line: u64,
    pub column: u64,
    pub view_id: u64,
}

/// The session-wide input mode. Exactly one is active; `Vix` is the hub
/// every other mode returns to.
#[derive(Clone, Debug, PartialEq)]
pub enum Mode {
    Vix,
    Error(String),
    Command,
    Search,
    Insert,
    Visual(bool),
}

/// What one render tick draws: only the prompt line while a prompt is
/// open, else the current view's frame (if any) with the mode name, under
/// an optional error overlay.
#[derive(Debug)]
pub enum Screen {
    Prompt(PromptFrame, u16),
    Session(Option<Frame>, Option<(u16, String)>),
}

/// The top-level session state: the editor, the active mode, the open
/// prompt if any, the terminal size, the shutdown flag, and the previous
/// event (for the two-stroke delete-line).
#[derive(Debug)]
pub struct Vix {
    pub editor: Editor,
    pub mode: Mode,
    pub prompt: Option<CommandPrompt>,
    pub tty_size: (u16, u16),
    pub shutdown: bool,
    pub last_event: Event,
}

/// What dispatching a finalized command does: the mode returns to the
/// hub; quit and a saving quit shut the session down, cancel closes the
/// prompt, and the rest turn into editor work.
pub open spec fn spec_handle_cmd(v0: Vix, v1: Vix, cmd: Command) -> bool {
    &&& v1.mode == Mode::Vix
    &&& v1.tty_size == v0.tty_size
    &&& v1.last_event == v0.last_event
    &&& match cmd {
        Command::Quit => v1.shutdown == true && v1.prompt == v0.prompt && spec_editor_eq(
            v0.editor,
            v1.editor,
        ),
        Command::Cancel => v1.prompt is None && v1.shutdown == v0.shutdown && spec_editor_eq(
            v0.editor,
            v1.editor,
        ),
        Command::Save(view, do_exit) => v1.prompt == v0.prompt && v1.shutdown == (v0.shutdown
            || do_exit) && spec_save_effect(v0.editor, v1.editor, view),
        Command::Open(file) => {
            &&& v1.prompt == v0.prompt
            &&& v1.shutdown == v0.shutdown
            &&& v1.editor.pending_open_requests@ == v0.editor.pending_open_requests@.push(file)
            &&& v1.editor.requests@ == v0.editor.requests@.push(CoreRequest::NewView(file))
            &&& v1.editor.clipboard == v0.editor.clipboard
            &&& v1.editor.delayed_events@ == v0.editor.delayed_events@
            &&& v1.editor.view_ids@ == v0.editor.view_ids@
            &&& v1.editor.views@ == v0.editor.views@
            &&& v1.editor.current_view == v0.editor.current_view
            &&& v1.editor.size == v0.editor.size
            &&& v1.editor.styles@ == v0.editor.styles@
        },
        Command::SetTheme(theme) => {
            &&& v1.prompt == v0.prompt
            &&& v1.shutdown == v0.shutdown
            &&& spec_same_but_requests(v0.editor, v1.editor)
            &&& v1.editor.requests@ == v0.editor.requests@.push(CoreRequest::SetTheme(theme))
        },
        Command::Search(term) => {
            &&& v1.prompt == v0.prompt
            &&& v1.shutdown == v0.shutdown
            &&& spec_same_but_views(v0.editor, v1.editor)
            &&& spec_current_view_ops(
                v0.editor,
                v1.editor,
                seq![
                    EditOp::Find {
                        term: term,
                        case_sensitive: true,
                        regex: false,
                        whole_words: false,
                    },
                    EditOp::FindAll,
                    EditOp::HighlightFind(true),
                ],
            )
        },
        Command::GotoLine(line) => {
            &&& v1.prompt == v0.prompt
            &&& v1.shutdown == v0.shutdown
            &&& spec_same_but_views(v0.editor, v1.editor)
            &&& spec_current_view_ops(
                v0.editor,
                v1.editor,
                seq![
                    EditOp::GotoLine(
                        if line == 0 {
                            0u64
                        } else {
                            (line - 1) as u64
                        },
                    ),
                ],
            )
        },
    }
}

impl Vix {
    pub open spec fn wf(&self) -> bool {
        &&& self.editor.wf()
        &&& match self.prompt {
            Some(p) => p.wf(),
            None => true,
        }
    }

    /// A fresh session: hub mode, no prompt, nothing open.
    pub fn new() -> (v: Vix)
        ensures
            v.mode == Mode::Vix,
            v.prompt is None,
            v.tty_size == (0u16, 0u16),
            v.shutdown == false,
            v.last_event == Event::Unsupported,
            v.editor.view_ids@ == Seq::<u64>::empty(),
            v.editor.views@.len() == 0,
            v.editor.pending_open_requests@.len() == 0,
            v.editor.delayed_events@.len() == 0,
            v.editor.requests@.len() == 0,
            v.editor.current_view == 0,
            v.editor.clipboard@ == Seq::<char>::empty(),
            v.wf(),
    {
        Vix {
            editor: Editor::new(),
            mode: Mode::Vix,
            prompt: None,
            tty_size: (0, 0),
            shutdown: false,
            last_event: Event::Unsupported,
        }
    }

    /// Remember the new terminal size and resize the active view.
    pub fn handle_resize(&mut self, size: (u16, u16))
        requires
            old(self).wf(),
        ensures
            final(self).wf(),
            final(self).tty_size == size,
            final(self).mode == old(self).mode,
            final(self).prompt == old(self).prompt,
            final(self).shutdown == old(self).shutdown,
            final(self).last_event == old(self).last_event,
            final(self).editor.size == size,
    {
        self.tty_size = size;
        self.editor.handle_resize(size);
    }

    /// Mark the session for termination.
    fn exit(&mut self)
        ensures
            final(self).shutdown == true,
            final(self).mode == old(self).mode,
            final(self).prompt == old(self).prompt,
            final(self).tty_size == old(self).tty_size,
            final(self).last_event == old(self).last_event,
            spec_editor_eq(old(self).editor, final(self).editor),
    {
        self.shutdown = true;
    }

    /// Dispatch a finalized command.
    pub fn handle_cmd(&mut self, cmd: Command)
        requires
            old(self).wf(),
        ensures
            final(self).wf(),
            spec_handle_cmd(*old(self), *final(self), cmd),
    {
        self.mode = Mode::Vix;
        match cmd {
            Command::Quit => {
                self.exit();
            },
            Command::Cancel => {
                self.prompt = None;
            },
            Command::Save(view, do_exit) => {
                self.editor.save(view);
                if do_exit {
                    self.exit();
                }
            },
            Command::Open(file) => {
                self.editor.open(file);
            },
            Command::SetTheme(theme) => {
                self.editor.set_theme(theme);
            },
            Command::Search(search) => {
                let ghost e0 = self.editor;
                let ghost f_op = EditOp::Find {
                    term: search,
                    case_sensitive: true,
                    regex: false,
                    whole_words: false,
                };
                self.editor.find(search, true, false, false);
                let ghost e1 = self.editor;
                self.editor.find_all();
                let ghost e2 = self.editor;
                self.editor.highlight_find(true);
                proof {
                    let e3 = self.editor;
                    let idx = spec_id_index(e0.view_ids@, e0.current_view);
                    assert(spec_id_index(e1.view_ids@, e1.current_view) == idx);
                    assert(spec_id_index(e2.view_ids@, e2.current_view) == idx);
                    crate::editor::lemma_id_index_props(e0.view_ids@, e0.current_view);
                    if idx >= 0 {
                        assert(idx < e0.views@.len());
                        let x1 = e1.views@[idx];
                        let x2 = e2.views@[idx];
                        let x3 = e3.views@[idx];
                        assert(e1.views@ == e0.views@.update(idx, x1));
                        assert(e2.views@ == e1.views@.update(idx, x2));
                        assert(e3.views@ == e2.views@.update(idx, x3));
                        assert(e1.views@[idx] == x1);
                        assert(x1.client.ops@ == e0.views@[idx].client.ops@ + seq![f_op]);
                        assert(x2.client.ops@ == x1.client.ops@ + seq![EditOp::FindAll]);
                        assert(x3.client.ops@ == x2.client.ops@ + seq![
                            EditOp::HighlightFind(true),
                        ]);
                        assert(e3.views@.len() == e0.views@.len());
                        assert forall|j: int| 0 <= j < e3.views@.len() implies e3.views@[j]
                            == e0.views@.update(idx, x3)[j] by {
                            if j != idx {
                                assert(e3.views@[j] == e2.views@.update(idx, x3)[j]);
                                assert(e2.views@.update(idx, x3)[j] == e2.views@[j]);
                                assert(e2.views@[j] == e1.views@.update(idx, x2)[j]);
                                assert(e1.views@.update(idx, x2)[j] == e1.views@[j]);
                                assert(e1.views@[j] == e0.views@.update(idx, x1)[j]);
                                assert(e0.views@.update(idx, x1)[j] == e0.views@[j]);
                            }
                        }
                        assert(e3.views@ =~= e0.views@.update(idx, x3));
                        assert(x3.client.ops@ =~= e0.views@[idx].client.ops@ + seq![
                            f_op,
                            EditOp::FindAll,
                            EditOp::HighlightFind(true),
                        ]);
                    } else {
                        assert(e1.views@ == e0.views@);
                        assert(e2.views@ == e1.views@);
                        assert(e3.views@ == e2.views@);
                        assert(e3.views@ == e0.views@);
                    }
                }
            },
            Command::GotoLine(line) => {
                let line0: u64 = if line == 0 {
                    0
                } else {
                    (line - 1) as u64
                };
                self.editor.goto_line(line0);
            },
        }
    }
}


/// Requests joined the session queue exactly when the current view
/// exists; nothing else changed.
pub open spec fn spec_queued_ops_if_current(e0: Editor, e1: Editor, reqs: Seq<CoreRequest>) -> bool {
    &&& spec_same_but_requests(e0, e1)
    &&& e1.requests@ == if spec_id_index(e0.view_ids@, e0.current_view) >= 0 {
        e0.requests@ + reqs
    } else {
        e0.requests@
    }
}

/// Two request-queue effects on the session compose into one.
proof fn lemma_compose_queued(e0: Editor, e1: Editor, e2: Editor, r1: CoreRequest, r2: CoreRequest)
    requires
        spec_queued_if_current(e0, e1, r1),
        spec_queued_if_current(e1, e2, r2),
    ensures
        spec_queued_ops_if_current(e0, e2, seq![r1, r2]),
{
    if spec_id_index(e0.view_ids@, e0.current_view) >= 0 {
        assert(e2.requests@ =~= e0.requests@ + seq![r1, r2]);
    }
}

/// Two per-view request effects on the current view compose into one.
proof fn lemma_compose_view_ops(e0: Editor, e1: Editor, e2: Editor, s1: Seq<EditOp>, s2: Seq<EditOp>)
    requires
        spec_same_but_views(e0, e1),
        spec_same_but_views(e1, e2),
        spec_current_view_ops(e0, e1, s1),
        spec_current_view_ops(e1, e2, s2),
        e0.view_ids@.len() == e0.views@.len(),
    ensures
        spec_same_but_views(e0, e2),
        spec_current_view_ops(e0, e2, s1 + s2),
{
    let idx = spec_id_index(e0.view_ids@, e0.current_view);
    crate::editor::lemma_id_index_props(e0.view_ids@, e0.current_view);
    assert(spec_id_index(e1.view_ids@, e1.current_view) == idx);
    if idx >= 0 {
        assert(idx < e0.views@.len());
        let x1 = e1.views@[idx];
        let x2 = e2.views@[idx];
        assert(e1.views@ == e0.views@.update(idx, x1));
        assert(e2.views@ == e1.views@.update(idx, x2));
        assert(e2.views@.len() == e0.views@.len());
        assert forall|j: int| 0 <= j < e2.views@.len() implies e2.views@[j] == e0.views@.update(
            idx,
            x2,
        )[j] by {
            if j != idx {
                assert(e2.views@[j] == e1.views@.update(idx, x2)[j]);
                assert(e1.views@.update(idx, x2)[j] == e1.views@[j]);
                assert(e1.views@[j] == e0.views@.update(idx, x1)[j]);
                assert(e0.views@.update(idx, x1)[j] == e0.views@[j]);
            }
        }
        assert(e2.views@ =~= e0.views@.update(idx, x2));
        assert(x2.client.ops@ =~= e0.views@[idx].client.ops@ + (s1 + s2));
    } else {
        assert(e1.views@ == e0.views@);
        assert(e2.views@ == e1.views@);
    }
}

/// Nothing of the whole session state changed.
pub open spec fn spec_vix_same(v0: Vix, v1: Vix) -> bool {
    &&& v1.mode == v0.mode
    &&& v1.prompt == v0.prompt
    &&& v1.tty_size == v0.tty_size
    &&& v1.shutdown == v0.shutdown
    &&& v1.last_event == v0.last_event
    &&& spec_editor_eq(v0.editor, v1.editor)
}

/// What feeding one event to the open prompt does (terminal size and the
/// remembered last event are not constrained here; the caller owns them):
/// with no prompt open nothing happens; an edit keeps the prompt; a
/// finalized command is dispatched with the prompt closed; a parse failure
/// closes the prompt and surfaces an error mode.
pub open spec fn spec_prompt_dispatch(v0: Vix, v1: Vix, ev: Event) -> bool {
    match v0.prompt {
        None => {
            &&& v1.mode == v0.mode
            &&& v1.prompt == v0.prompt
            &&& v1.shutdown == v0.shutdown
            &&& spec_editor_eq(v0.editor, v1.editor)
        },
        Some(p0) => exists|p1: CommandPrompt, r: Result<Option<Command>, ParseCommandError>|
            {
                &&& #[trigger] spec_prompt_step(p0, p1, ev, r)
                &&& match r {
                    Ok(None) => {
                        &&& v1.prompt matches Some(q) && q.chars@ == p1.chars@ && q.index
                            == p1.index && q.input_type == p1.input_type && q.prefix == p1.prefix
                        &&& v1.mode == v0.mode
                        &&& v1.shutdown == v0.shutdown
                        &&& spec_editor_eq(v0.editor, v1.editor)
                    },
                    Ok(Some(cmd)) => {
                        &&& v1.mode == Mode::Vix
                        &&& spec_handle_cmd_core(v0, v1, cmd)
                    },
                    Err(_) => {
                        &&& v1.prompt is None
                        &&& v1.mode matches Mode::Error(_)
                        &&& v1.shutdown == v0.shutdown
                        &&& spec_editor_eq(v0.editor, v1.editor)
                    },
                }
            },
    }
}

/// The command dispatch effect without the mode, size and last-event
/// clauses, for reuse where the prompt was already closed and those fields
/// are owned by the caller.
pub open spec fn spec_handle_cmd_core(v0: Vix, v1: Vix, cmd: Command) -> bool {
    match cmd {
        Command::Quit => v1.shutdown == true && v1.prompt is None && spec_editor_eq(
            v0.editor,
            v1.editor,
        ),
        Command::Cancel => v1.prompt is None && v1.shutdown == v0.shutdown && spec_editor_eq(
            v0.editor,
            v1.editor,
        ),
        Command::Save(view, do_exit) => v1.prompt is None && v1.shutdown == (v0.shutdown
            || do_exit) && spec_save_effect(v0.editor, v1.editor, view),
        Command::Open(file) => {
            &&& v1.prompt is None
            &&& v1.shutdown == v0.shutdown
            &&& v1.editor.pending_open_requests@ == v0.editor.pending_open_requests@.push(file)
            &&& v1.editor.requests@ == v0.editor.requests@.push(CoreRequest::NewView(file))
            &&& v1.editor.clipboard == v0.editor.clipboard
            &&& v1.editor.delayed_events@ == v0.editor.delayed_events@
            &&& v1.editor.view_ids@ == v0.editor.view_ids@
            &&& v1.editor.views@ == v0.editor.views@
            &&& v1.editor.current_view == v0.editor.current_view
            &&& v1.editor.size == v0.editor.size
            &&& v1.editor.styles@ == v0.editor.styles@
        },
        Command::SetTheme(theme) => {
            &&& v1.prompt is None
            &&& v1.shutdown == v0.shutdown
            &&& spec_same_but_requests(v0.editor, v1.editor)
            &&& v1.editor.requests@ == v0.editor.requests@.push(CoreRequest::SetTheme(theme))
        },
        Command::Search(term) => {
            &&& v1.prompt is None
            &&& v1.shutdown == v0.shutdown
            &&& spec_same_but_views(v0.editor, v1.editor)
            &&& spec_current_view_ops(
                v0.editor,
                v1.editor,
                seq![
                    EditOp::Find {
                        term: term,
                        case_sensitive: true,
                        regex: false,
                        whole_words: false,
                    },
                    EditOp::FindAll,
                    EditOp::HighlightFind(true),
                ],
            )
        },
        Command::GotoLine(line) => {
            &&& v1.prompt is None
            &&& v1.shutdown == v0.shutdown
            &&& spec_same_but_views(v0.editor, v1.editor)
            &&& spec_current_view_ops(
                v0.editor,
                v1.editor,
                seq![
                    EditOp::GotoLine(
                        if line == 0 {
                            0u64
                        } else {
                            (line - 1) as u64
                        },
                    ),
                ],
            )
        },
    }
}

/// The arms of the visual mode: navigation extends the selection (in the
/// line-wise variant, vertical moves also re-extend to line end), `i`
/// drops to insert, and paste, copy and cut act on the selection then
/// return to the hub.
pub open spec fn spec_visual_step(v0: Vix, v1: Vix, line_mode: bool, k: Key) -> bool {
    &&& v1.prompt == v0.prompt
    &&& match k {
        Key::Char(c) => if c == 'i' {
            v1.mode == Mode::Insert && v1.shutdown == v0.shutdown && spec_editor_eq(
                v0.editor,
                v1.editor,
            )
        } else if c == 'p' {
            &&& v1.mode == Mode::Vix
            &&& v1.shutdown == v0.shutdown
            &&& spec_same_but_views(v0.editor, v1.editor)
            &&& spec_current_view_ops(
                v0.editor,
                v1.editor,
                seq![EditOp::Paste(v0.editor.clipboard)],
            )
        } else if c == 'y' {
            &&& v1.mode == Mode::Vix
            &&& v1.shutdown == v0.shutdown
            &&& spec_queued_if_current(
                v0.editor,
                v1.editor,
                CoreRequest::Copy(v0.editor.current_view),
            )
        } else if c == 'd' {
            &&& v1.mode == Mode::Vix
            &&& v1.shutdown == v0.shutdown
            &&& spec_queued_if_current(
                v0.editor,
                v1.editor,
                CoreRequest::Cut(v0.editor.current_view),
            )
        } else if c == 'j' {
            v1.mode == v0.mode && v1.shutdown == v0.shutdown && spec_visual_vertical(
                v0.editor,
                v1.editor,
                line_mode,
                EditOp::DownSel,
            )
        } else if c == 'k' {
            v1.mode == v0.mode && v1.shutdown == v0.shutdown && spec_visual_vertical(
                v0.editor,
                v1.editor,
                line_mode,
                EditOp::UpSel,
            )
        } else if c == 'l' {
            v1.mode == v0.mode && v1.shutdown == v0.shutdown && spec_queued_if_current(
                v0.editor,
                v1.editor,
                CoreRequest::Edit(v0.editor.current_view, EditOp::RightSel),
            )
        } else {
            v1.mode == v0.mode && v1.shutdown == v0.shutdown && spec_editor_eq(
                v0.editor,
                v1.editor,
            )
        },
        Key::Left => v1.mode == v0.mode && v1.shutdown == v0.shutdown && if !line_mode {
            spec_queued_if_current(
                v0.editor,
                v1.editor,
                CoreRequest::Edit(v0.editor.current_view, EditOp::LeftSel),
            )
        } else {
            spec_editor_eq(v0.editor, v1.editor)
        },
        Key::Right => v1.mode == v0.mode && v1.shutdown == v0.shutdown && if !line_mode {
            spec_queued_if_current(
                v0.editor,
                v1.editor,
                CoreRequest::Edit(v0.editor.current_view, EditOp::RightSel),
            )
        } else {
            spec_editor_eq(v0.editor, v1.editor)
        },
        Key::Down => v1.mode == v0.mode && v1.shutdown == v0.shutdown && spec_visual_vertical(
            v0.editor,
            v1.editor,
            line_mode,
            EditOp::DownSel,
        ),
        Key::Up => v1.mode == v0.mode && v1.shutdown == v0.shutdown && spec_visual_vertical(
            v0.editor,
            v1.editor,
            line_mode,
            EditOp::UpSel,
        ),
        Key::PageUp => v1.mode == v0.mode && v1.shutdown == v0.shutdown && spec_visual_vertical(
            v0.editor,
            v1.editor,
            line_mode,
            EditOp::PageUpSel,
        ),
        Key::PageDown => v1.mode == v0.mode && v1.shutdown == v0.shutdown && spec_visual_vertical(
            v0.editor,
            v1.editor,
            line_mode,
            EditOp::PageDownSel,
        ),
        Key::Home => v1.mode == v0.mode && v1.shutdown == v0.shutdown && spec_queued_if_current(
            v0.editor,
            v1.editor,
            CoreRequest::Edit(v0.editor.current_view, EditOp::LineStartSel),
        ),
        Key::End => v1.mode == v0.mode && v1.shutdown == v0.shutdown && spec_queued_if_current(
            v0.editor,
            v1.editor,
            CoreRequest::Edit(v0.editor.current_view, EditOp::LineEndSel),
        ),
        _ => v1.mode == v0.mode && v1.shutdown == v0.shutdown && spec_editor_eq(
            v0.editor,
            v1.editor,
        ),
    }
}

/// A vertical selection move: the move itself and, line-wise, the
/// re-extension to the end of the line.
pub open spec fn spec_visual_vertical(e0: Editor, e1: Editor, line_mode: bool, op: EditOp) -> bool {
    if line_mode {
        spec_queued_ops_if_current(
            e0,
            e1,
            seq![
                CoreRequest::Edit(e0.current_view, op),
                CoreRequest::Edit(e0.current_view, EditOp::LineEndSel),
            ],
        )
    } else {
        spec_queued_if_current(e0, e1, CoreRequest::Edit(e0.current_view, op))
    }
}

/// The arms of the hub mode.
pub open spec fn spec_hub_step(v0: Vix, v1: Vix, k: Key, ev: Event) -> bool {
    match k {
        Key::Char(c) => if c == 'j' {
            spec_unchanged_modes(v0, v1) && spec_queued_if_current(
                v0.editor,
                v1.editor,
                CoreRequest::Edit(v0.editor.current_view, EditOp::Down),
            )
        } else if c == 'k' {
            spec_unchanged_modes(v0, v1) && spec_queued_if_current(
                v0.editor,
                v1.editor,
                CoreRequest::Edit(v0.editor.current_view, EditOp::Up),
            )
        } else if c == 'l' {
            spec_unchanged_modes(v0, v1) && spec_queued_if_current(
                v0.editor,
                v1.editor,
                CoreRequest::Edit(v0.editor.current_view, EditOp::Right),
            )
        } else if c == ':' {
            &&& v1.mode == Mode::Command
            &&& v1.shutdown == v0.shutdown
            &&& v1.prompt matches Some(p) && p.chars@ == Seq::<char>::empty() && p.index == 0
                && p.input_type == crate::command_prompt::InputType::Command && p.prefix@
                == "(exec):"@
            &&& spec_editor_eq(v0.editor, v1.editor)
        } else if c == 'i' {
            v1.mode == Mode::Insert && v1.prompt == v0.prompt && v1.shutdown == v0.shutdown
                && spec_editor_eq(v0.editor, v1.editor)
        } else if c == '/' {
            &&& v1.mode == Mode::Search
            &&& v1.shutdown == v0.shutdown
            &&& v1.prompt matches Some(p) && p.chars@ == Seq::<char>::empty() && p.index == 0
                && p.input_type == crate::command_prompt::InputType::Search && p.prefix@
                == "(search):"@
            &&& spec_editor_eq(v0.editor, v1.editor)
        } else if c == 'v' {
            v1.mode == Mode::Visual(false) && v1.prompt == v0.prompt && v1.shutdown == v0.shutdown
                && spec_editor_eq(v0.editor, v1.editor)
        } else if c == 'V' {
            &&& v1.mode == Mode::Visual(true)
            &&& v1.prompt == v0.prompt
            &&& v1.shutdown == v0.shutdown
            &&& spec_same_but_views(v0.editor, v1.editor)
            &&& spec_current_view_ops(
                v0.editor,
                v1.editor,
                seq![EditOp::LineStart, EditOp::LineEndSel],
            )
        } else if c == 'p' {
            &&& spec_unchanged_modes(v0, v1)
            &&& spec_same_but_views(v0.editor, v1.editor)
            &&& spec_current_view_ops(
                v0.editor,
                v1.editor,
                seq![EditOp::Paste(v0.editor.clipboard)],
            )
        } else if c == 'y' {
            spec_unchanged_modes(v0, v1) && spec_queued_if_current(
                v0.editor,
                v1.editor,
                CoreRequest::Copy(v0.editor.current_view),
            )
        } else if c == 'u' {
            &&& spec_unchanged_modes(v0, v1)
            &&& spec_same_but_views(v0.editor, v1.editor)
            &&& spec_current_view_ops(v0.editor, v1.editor, seq![EditOp::Undo])
        } else if c == 'r' {
            &&& spec_unchanged_modes(v0, v1)
            &&& spec_same_but_views(v0.editor, v1.editor)
            &&& spec_current_view_ops(v0.editor, v1.editor, seq![EditOp::Redo])
        } else if c == 'd' {
            &&& spec_unchanged_modes(v0, v1)
            &&& if v0.last_event == Event::Key(Key::Char('d')) {
                spec_same_but_views(v0.editor, v1.editor) && spec_current_view_ops(
                    v0.editor,
                    v1.editor,
                    seq![EditOp::LineStart, EditOp::LineEndSel, EditOp::Delete],
                )
            } else {
                spec_editor_eq(v0.editor, v1.editor)
            }
        } else if c == 'n' {
            &&& spec_unchanged_modes(v0, v1)
            &&& spec_same_but_views(v0.editor, v1.editor)
            &&& spec_current_view_ops(
                v0.editor,
                v1.editor,
                seq![
                    EditOp::FindNext {
                        wrap_around: true,
                        allow_same: false,
                        modify_selection: ModifySelection::NoModify,
                    },
                    EditOp::HighlightFind(true),
                ],
            )
        } else if c == 'N' {
            &&& spec_unchanged_modes(v0, v1)
            &&& spec_same_but_views(v0.editor, v1.editor)
            &&& spec_current_view_ops(
                v0.editor,
                v1.editor,
                seq![
                    EditOp::FindPrev {
                        wrap_around: true,
                        allow_same: false,
                        modify_selection: ModifySelection::NoModify,
                    },
                    EditOp::HighlightFind(true),
                ],
            )
        } else {
            spec_unchanged_modes(v0, v1) && spec_editor_eq(v0.editor, v1.editor)
        },
        Key::Delete | Key::Left | Key::Right | Key::Up | Key::Down | Key::Home | Key::End
            | Key::PageUp | Key::PageDown => spec_unchanged_modes(v0, v1) && spec_handled_input(
            v0.editor,
            v1.editor,
            ev,
        ),
        _ => spec_unchanged_modes(v0, v1) && spec_editor_eq(v0.editor, v1.editor),
    }
}

/// Mode, prompt and shutdown are untouched.
pub open spec fn spec_unchanged_modes(v0: Vix, v1: Vix) -> bool {
    v1.mode == v0.mode && v1.prompt == v0.prompt && v1.shutdown == v0.shutdown
}

/// How one terminal input steps the whole session: the keyboard interrupt
/// always shuts down, escape always returns to the hub, and any other key
/// goes through the active mode's arms; non-key events go to the view, or
/// to the prompt while one is open. The event is remembered.
pub open spec fn spec_vix_input_step(v0: Vix, v1: Vix, ev: Event) -> bool {
    &&& v1.last_event == ev
    &&& v1.tty_size == v0.tty_size
    &&& if ev == Event::Key(Key::Ctrl('c')) {
        v1.shutdown == true && v1.mode == v0.mode && v1.prompt == v0.prompt && spec_editor_eq(
            v0.editor,
            v1.editor,
        )
    } else if ev == Event::Key(Key::Esc) {
        v1.mode == Mode::Vix && v1.shutdown == v0.shutdown && v1.prompt is None
            && spec_editor_eq(v0.editor, v1.editor)
    } else {
        match ev {
            Event::Key(k) => match v0.mode {
                Mode::Error(_) => v1.mode == Mode::Vix && v1.prompt == v0.prompt && v1.shutdown
                    == v0.shutdown && spec_editor_eq(v0.editor, v1.editor),
                Mode::Visual(lm) => spec_visual_step(v0, v1, lm, k),
                Mode::Vix => spec_hub_step(v0, v1, k, ev),
                Mode::Command => spec_prompt_dispatch(v0, v1, ev),
                Mode::Search => spec_prompt_dispatch(v0, v1, ev),
                Mode::Insert => spec_unchanged_modes(v0, v1) && spec_handled_input(
                    v0.editor,
                    v1.editor,
                    ev,
                ),
            },
            _ => if v0.prompt is None {
                spec_unchanged_modes(v0, v1) && spec_handled_input(v0.editor, v1.editor, ev)
            } else {
                spec_prompt_dispatch(v0, v1, ev)
            },
        }
    }
}


/// The name shown for a mode on the status line.
pub open spec fn spec_mode_name(m: Mode, s: Seq<char>) -> bool {
    match m {
        Mode::Vix => s == "vix"@,
        Mode::Insert => s == "insert"@,
        Mode::Visual(lm) => if lm {
            s == "visual line"@
        } else {
            s == "visual"@
        },
        _ => s == ""@,
    }
}

/// A copy of a mode value.
pub fn clone_mode(m: &Mode) -> (r: Mode)
    ensures
        r == *m,
{
    match m {
        Mode::Vix => Mode::Vix,
        Mode::Error(s) => Mode::Error(crate::client::clone_string(s)),
        Mode::Command => Mode::Command,
        Mode::Search => Mode::Search,
        Mode::Insert => Mode::Insert,
        Mode::Visual(b) => Mode::Visual(*b),
    }
}

impl Vix {
    /// Feed one event to the open prompt, dispatching what it finalizes.
    pub fn handle_command_prompt(&mut self, event: &Event)
        requires
            old(self).wf(),
        ensures
            final(self).wf(),
            final(self).tty_size == old(self).tty_size,
            final(self).last_event == old(self).last_event,
            spec_prompt_dispatch(*old(self), *final(self), *event),
    {
        if self.prompt.is_some() {
            let mut prompt = self.prompt.take().unwrap();
            let ghost p0 = prompt;
            let result = prompt.handle_input(event);
            let ghost p1 = prompt;
            let ghost r = result;
            proof {
                assert(spec_prompt_step(p0, p1, *event, r));
            }
            match result {
                Ok(None) => {
                    self.prompt = Some(prompt);
                },
                Ok(Some(cmd)) => {
                    self.handle_cmd(cmd);
                    self.mode = Mode::Vix;
                },
                Err(_err) => {
                    self.mode = Mode::Error(String::from_str("failed to parse command"));
                },
            }
        }
    }

    /// Route one terminal input through the modal grammar.
    #[verifier::rlimit(100)]
    pub fn handle_input(&mut self, event: Event)
        requires
            old(self).wf(),
        ensures
            final(self).wf(),
            spec_vix_input_step(*old(self), *final(self), event),
    {
        match event {
            Event::Key(Key::Ctrl('c')) => {
                self.exit();
            },
            Event::Key(Key::Esc) => {
                self.mode = Mode::Vix;
                self.prompt = None;
            },
            Event::Key(key) => {
                let mode = clone_mode(&self.mode);
                match mode {
                    Mode::Error(_msg) => {
                        self.mode = Mode::Vix;
                    },
                    Mode::Visual(line_mode) => match key {
                        Key::Char('i') => {
                            self.mode = Mode::Insert;
                        },
                        Key::Char('p') => {
                            self.editor.paste();
                            self.mode = Mode::Vix;
                        },
                        Key::Char('y') => {
                            self.editor.copy();
                            self.mode = Mode::Vix;
                        },
                        Key::Char('d') => {
                            self.editor.cut();
                            self.mode = Mode::Vix;
                        },
                        Key::Left => {
                            if !line_mode {
                                self.editor.select_left();
                            }
                        },
                        Key::Right => {
                            if !line_mode {
                                self.editor.select_right();
                            }
                        },
                        Key::Down | Key::Char('j') => {
                            let ghost e0 = self.editor;
                            self.editor.select_down();
                            let ghost e1 = self.editor;
                            if line_mode {
                                self.editor.select_line_end();
                                proof {
                                    lemma_compose_queued(
                                        e0,
                                        e1,
                                        self.editor,
                                        CoreRequest::Edit(e0.current_view, EditOp::DownSel),
                                        CoreRequest::Edit(e0.current_view, EditOp::LineEndSel),
                                    );
                                }
                            }
                        },
                        Key::Up | Key::Char('k') => {
                            let ghost e0 = self.editor;
                            self.editor.select_up();
                            let ghost e1 = self.editor;
                            if line_mode {
                                self.editor.select_line_end();
                                proof {
                                    lemma_compose_queued(
                                        e0,
                                        e1,
                                        self.editor,
                                        CoreRequest::Edit(e0.current_view, EditOp::UpSel),
                                        CoreRequest::Edit(e0.current_view, EditOp::LineEndSel),
                                    );
                                }
                            }
                        },
                        Key::PageUp => {
                            let ghost e0 = self.editor;
                            self.editor.select_page_up();
                            let ghost e1 = self.editor;
                            if line_mode {
                                self.editor.select_line_end();
                                proof {
                                    lemma_compose_queued(
                                        e0,
                                        e1,
                                        self.editor,
                                        CoreRequest::Edit(e0.current_view, EditOp::PageUpSel),
                                        CoreRequest::Edit(e0.current_view, EditOp::LineEndSel),
                                    );
                                }
                            }
                        },
                        Key::PageDown => {
                            let ghost e0 = self.editor;
                            self.editor.select_page_down();
                            let ghost e1 = self.editor;
                            if line_mode {
                                self.editor.select_line_end();
                                proof {
                                    lemma_compose_queued(
                                        e0,
                                        e1,
                                        self.editor,
                                        CoreRequest::Edit(e0.current_view, EditOp::PageDownSel),
                                        CoreRequest::Edit(e0.current_view, EditOp::LineEndSel),
                                    );
                                }
                            }
                        },
                        Key::Home => {
                            self.editor.select_home();
                        },
                        Key::End => {
                            self.editor.select_end();
                        },
                        Key::Char('l') => {
                            self.editor.select_right();
                        },
                        _ => {},
                    },
                    Mode::Vix => match key {
                        Key::Delete | Key::Left | Key::Right | Key::Up | Key::Down | Key::Home
                            | Key::End | Key::PageUp | Key::PageDown => {
                            self.editor.handle_input(event);
                        },
                        Key::Char('j') => {
                            self.editor.down();
                        },
                        Key::Char('k') => {
                            self.editor.up();
                        },
                        Key::Char('l') => {
                            self.editor.right();
                        },
                        Key::Char(':') => {
                            self.mode = Mode::Command;
                            self.prompt = Some(CommandPrompt::execute());
                        },
                        Key::Char('i') => {
                            self.mode = Mode::Insert;
                        },
                        Key::Char('/') => {
                            self.mode = Mode::Search;
                            self.prompt = Some(CommandPrompt::search());
                        },
                        Key::Char('v') => {
                            self.mode = Mode::Visual(false);
                        },
                        Key::Char('V') => {
                            self.editor.select_line();
                            self.mode = Mode::Visual(true);
                        },
                        Key::Char('p') => {
                            self.editor.paste();
                        },
                        Key::Char('y') => {
                            self.editor.copy();
                        },
                        Key::Char('u') => {
                            self.editor.undo();
                        },
                        Key::Char('r') => {
                            self.editor.redo();
                        },
                        Key::Char('d') => {
                            if self.last_event == Event::Key(Key::Char('d')) {
                                self.editor.delete_line();
                            }
                        },
                        Key::Char('n') => {
                            let ghost e0 = self.editor;
                            self.editor.find_next(true, false, ModifySelection::NoModify);
                            let ghost e1 = self.editor;
                            self.editor.highlight_find(true);
                            proof {
                                lemma_compose_view_ops(
                                    e0,
                                    e1,
                                    self.editor,
                                    seq![
                                        EditOp::FindNext {
                                            wrap_around: true,
                                            allow_same: false,
                                            modify_selection: ModifySelection::NoModify,
                                        },
                                    ],
                                    seq![EditOp::HighlightFind(true)],
                                );
                                assert(seq![
                                    EditOp::FindNext {
                                        wrap_around: true,
                                        allow_same: false,
                                        modify_selection: ModifySelection::NoModify,
                                    },
                                ] + seq![EditOp::HighlightFind(true)] =~= seq![
                                    EditOp::FindNext {
                                        wrap_around: true,
                                        allow_same: false,
                                        modify_selection: ModifySelection::NoModify,
                                    },
                                    EditOp::HighlightFind(true),
                                ]);
                            }
                        },
                        Key::Char('N') => {
                            let ghost e0 = self.editor;
                            self.editor.find_prev(true, false, ModifySelection::NoModify);
                            let ghost e1 = self.editor;
                            self.editor.highlight_find(true);
                            proof {
                                lemma_compose_view_ops(
                                    e0,
                                    e1,
                                    self.editor,
                                    seq![
                                        EditOp::FindPrev {
                                            wrap_around: true,
                                            allow_same: false,
                                            modify_selection: ModifySelection::NoModify,
                                        },
                                    ],
                                    seq![EditOp::HighlightFind(true)],
                                );
                                assert(seq![
                                    EditOp::FindPrev {
                                        wrap_around: true,
                                        allow_same: false,
                                        modify_selection: ModifySelection::NoModify,
                                    },
                                ] + seq![EditOp::HighlightFind(true)] =~= seq![
                                    EditOp::FindPrev {
                                        wrap_around: true,
                                        allow_same: false,
                                        modify_selection: ModifySelection::NoModify,
                                    },
                                    EditOp::HighlightFind(true),
                                ]);
                            }
                        },
                        _ => {},
                    },
                    Mode::Command => {
                        self.handle_command_prompt(&event);
                    },
                    Mode::Insert => {
                        self.editor.handle_input(event);
                    },
                    Mode::Search => {
                        self.handle_command_prompt(&event);
                    },
                }
            },
            _ => {
                if self.prompt.is_none() {
                    self.editor.handle_input(event);
                } else {
                    self.handle_command_prompt(&event);
                }
            },
        }
        self.last_event = event;
    }

    /// Feed one terminal event into the session: a size sample resizes,
    /// an input event goes through the modal grammar.
    pub fn handle_tty_event(&mut self, ev: TtyEvent)
        requires
            old(self).wf(),
        ensures
            final(self).wf(),
            match ev {
                TtyEvent::Resize(w, h) => {
                    &&& final(self).tty_size == (w, h)
                    &&& final(self).mode == old(self).mode
                    &&& final(self).prompt == old(self).prompt
                    &&& final(self).shutdown == old(self).shutdown
                    &&& final(self).last_event == old(self).last_event
                    &&& final(self).editor.size == (w, h)
                },
                TtyEvent::Input(input) => spec_vix_input_step(*old(self), *final(self), input),
            },
    {
        match ev {
            TtyEvent::Resize(w, h) => self.handle_resize((w, h)),
            TtyEvent::Input(input) => self.handle_input(input),
        }
    }

    /// The mode name shown on the status line.
    pub fn state_text(&self) -> (r: &'static str)
        ensures
            match self.mode {
                Mode::Vix => r@ == "vix"@,
                Mode::Insert => r@ == "insert"@,
                Mode::Visual(lm) => if lm {
                    r@ == "visual line"@
                } else {
                    r@ == "visual"@
                },
                _ => r@ == ""@,
            },
    {
        match &self.mode {
            Mode::Vix => "vix",
            Mode::Insert => "insert",
            Mode::Visual(line_mode) => if *line_mode {
                "visual line"
            } else {
                "visual"
            },
            _ => "",
        }
    }

    /// One render tick: only the prompt line while a prompt is open, else
    /// the current view's frame with the mode name and, in the error
    /// mode, the error overlay.
    pub fn render(&mut self) -> (r: Screen)
        requires
            old(self).wf(),
        ensures
            final(self).wf(),
            final(self).mode == old(self).mode,
            final(self).prompt == old(self).prompt,
            final(self).tty_size == old(self).tty_size,
            final(self).shutdown == old(self).shutdown,
            final(self).last_event == old(self).last_event,
            match old(self).prompt {
                Some(p) => {
                    &&& spec_editor_eq(old(self).editor, final(self).editor)
                    &&& r matches Screen::Prompt(f, row) && f.prefix == p.prefix && f.chars@
                        == p.chars@ && row == old(self).tty_size.1 && f.cursor_col == if p.prefix@.len()
                        + p.index + 1 > 65535 {
                        65535u16
                    } else {
                        (p.prefix@.len() + p.index + 1) as u16
                    }
                },
                None => {
                    &&& r matches Screen::Session(f, ov) && {
                        &&& (f matches Some(fr) ==> crate::editor::spec_render_effect(
                            old(self).editor,
                            final(self).editor,
                            f,
                            fr.status.state,
                        ) && spec_mode_name(old(self).mode, fr.status.state@))
                        &&& (f is None ==> crate::editor::spec_render_effect(
                            old(self).editor,
                            final(self).editor,
                            None::<Frame>,
                            "",
                        ))
                        &&& match old(self).mode {
                            Mode::Error(msg) => {
                                let idx = spec_id_index(
                                    old(self).editor.view_ids@,
                                    old(self).editor.current_view,
                                );
                                &&& (idx == -1 ==> ov is None)
                                &&& (idx != -1 ==> (ov matches Some(e) && e.1 == msg && e.0
                                    == crate::view::spec_wrap16(
                                    final(self).editor.views@[idx].window.size + 1,
                                )))
                            },
                            _ => ov is None,
                        }
                    }
                },
            },
    {
        if self.prompt.is_some() {
            let f = match &self.prompt {
                Some(p) => p.render(),
                None => CommandPrompt::execute().render(),
            };
            Screen::Prompt(f, self.tty_size.1)
        } else {
            let state = self.state_text();
            let frame = self.editor.render(state);
            let overlay: Option<(u16, String)> = match &self.mode {
                Mode::Error(msg) => {
                    let m = crate::client::clone_string(msg);
                    self.editor.render_error(&m)
                },
                _ => None,
            };
            Screen::Session(frame, overlay)
        }
    }
}

} // verus!
