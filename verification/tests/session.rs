//! The session coordinator and the modal input router.

use vix::client::{CoreRequest, EditOp};
use vix::editor::Editor;
use vix::line_cache::{Line, Operation, OperationKind, Update};
use vix::tty::{Event, Key, MouseButton, MouseEvent, TtyEvent};
use vix::vix::{CoreEvent, Mode, ScrollTo, Vix};

fn chars(s: &str) -> Vec<char> {
    s.chars().collect()
}

fn plain_line(s: &str) -> Line {
    Line { text: chars(s), styles: Vec::new() }
}

fn insert_update(view_id: u64, texts: &[&str]) -> Update {
    let lines = texts.iter().map(|t| plain_line(t)).collect::<Vec<Line>>();
    Update {
        rev: None,
        operations: vec![Operation {
            operation_type: OperationKind::Insert,
            nb_lines: lines.len() as u64,
            lines,
        }],
        pristine: true,
        view_id,
    }
}

/// An editor with one open view under the given id.
fn editor_with_view(id: u64, file: Option<&str>) -> Editor {
    let mut e = Editor::new();
    e.handle_resize((80, 24));
    e.open(file.map(|f| f.to_string()));
    e.open_resolved(0, id);
    e
}

#[test]
fn update_for_unknown_view_is_buffered_and_replayed_in_order() {
    let mut e = Editor::new();
    e.handle_resize((80, 24));
    // a content update and a cursor move arrive before view 7 exists
    e.dispatch_core_event(CoreEvent::Update(insert_update(7, &["one", "two", "three"])));
    e.dispatch_core_event(CoreEvent::ScrollTo(ScrollTo { line: 2, column: 1, view_id: 7 }));
    assert_eq!(e.delayed_events.len(), 2);
    assert_eq!(e.view_ids.len(), 0);
    // the view is promoted, then the buffer is replayed
    e.open(None);
    e.open_resolved(0, 7);
    e.process_delayed_events();
    assert_eq!(e.delayed_events.len(), 0);
    let i = e.find_view(7).unwrap();
    // the update landed first (cache filled), the cursor move second:
    // applied in arrival order, nothing lost or duplicated
    assert_eq!(e.views[i].cache.lines().len(), 3);
    assert_eq!(e.views[i].cursor.line, 2);
    assert_eq!(e.views[i].cursor.column, 1);
}

#[test]
fn update_for_still_unknown_view_is_buffered_again() {
    let mut e = Editor::new();
    e.dispatch_core_event(CoreEvent::Update(insert_update(9, &["x"])));
    assert_eq!(e.delayed_events.len(), 1);
    e.process_delayed_events();
    // the view still does not exist: the event is buffered again, once
    assert_eq!(e.delayed_events.len(), 1);
}

#[test]
fn last_completed_open_wins() {
    let mut e = Editor::new();
    e.open(Some("a.txt".to_string()));
    e.open(Some("b.txt".to_string()));
    e.open_resolved(0, 1);
    assert_eq!(e.current_view, 1);
    // the second open resolves later and takes over
    e.open_resolved(0, 2);
    assert_eq!(e.current_view, 2);
    assert_eq!(e.pending_open_requests.len(), 0);
    assert_eq!(e.view_ids.len(), 2);
}

#[test]
fn update_then_render_stays_in_bounds() {
    // shifting before/after counts between updates never makes the
    // renderer reach outside the cached lines
    let mut e = editor_with_view(3, None);
    e.dispatch_core_event(CoreEvent::Update(insert_update(3, &["a", "b"])));
    let frame = e.render("vix").unwrap();
    assert_eq!(frame.rows.len(), 24);
    let mut update = insert_update(3, &["only"]);
    update.operations.insert(0, Operation {
        operation_type: OperationKind::Invalidate,
        nb_lines: 100,
        lines: Vec::new(),
    });
    e.dispatch_core_event(CoreEvent::Update(update));
    e.dispatch_core_event(CoreEvent::ScrollTo(ScrollTo { line: 100, column: 0, view_id: 3 }));
    let frame = e.render("vix").unwrap();
    // one cached line, the rest padding
    assert_eq!(frame.rows.iter().filter(|r| r.line_no.is_some()).count(), 1);
    assert_eq!(frame.rows.len(), 24);
}

#[test]
fn click_on_leading_tab_resolves_expanded_column() {
    let mut e = editor_with_view(4, None);
    e.dispatch_core_event(CoreEvent::Update(insert_update(4, &["\tabc"])));
    let i = e.find_view(4).unwrap();
    // horizontal offset 2 lands inside the expanded tab: document column 1,
    // not raw offset 2
    let (line, column) = e.views[i].get_click_location(0, 2);
    assert_eq!((line, column), (0, 1));
    // the same offset on a plain line is taken literally
    let mut e2 = editor_with_view(5, None);
    e2.dispatch_core_event(CoreEvent::Update(insert_update(5, &["abc"])));
    let j = e2.find_view(5).unwrap();
    let (line, column) = e2.views[j].get_click_location(0, 2);
    assert_eq!((line, column), (0, 2));
}

#[test]
fn mouse_press_queues_resolved_click() {
    let mut v = Vix::new();
    v.handle_tty_event(TtyEvent::Resize(80, 24));
    v.editor.open(None);
    v.editor.open_resolved(0, 6);
    v.editor.dispatch_core_event(CoreEvent::Update(insert_update(6, &["\tabc"])));
    // terminal reports 1-based (column, row): column 3, row 1
    v.handle_input(Event::Mouse(MouseEvent::Press(MouseButton::Left, 3, 1)));
    let i = v.editor.find_view(6).unwrap();
    let last = v.editor.views[i].client.ops.last().unwrap();
    assert_eq!(*last, EditOp::Click(0, 1));
}

#[test]
fn goto_line_is_one_based_for_users() {
    let mut v = Vix::new();
    v.editor = editor_with_view(1, None);
    v.handle_cmd(vix::command_prompt::Command::GotoLine(5));
    let i = v.editor.find_view(1).unwrap();
    assert_eq!(*v.editor.views[i].client.ops.last().unwrap(), EditOp::GotoLine(4));
    v.handle_cmd(vix::command_prompt::Command::GotoLine(0));
    assert_eq!(*v.editor.views[i].client.ops.last().unwrap(), EditOp::GotoLine(0));
}

#[test]
fn modes_follow_the_grammar() {
    let mut v = Vix::new();
    assert_eq!(v.mode, Mode::Vix);
    v.handle_input(Event::Key(Key::Char('i')));
    assert_eq!(v.mode, Mode::Insert);
    v.handle_input(Event::Key(Key::Esc));
    assert_eq!(v.mode, Mode::Vix);
    v.handle_input(Event::Key(Key::Char('v')));
    assert_eq!(v.mode, Mode::Visual(false));
    v.handle_input(Event::Key(Key::Esc));
    v.handle_input(Event::Key(Key::Char(':')));
    assert_eq!(v.mode, Mode::Command);
    assert!(v.prompt.is_some());
    // escape returns to the hub and cancels the open prompt
    v.handle_input(Event::Key(Key::Esc));
    assert_eq!(v.mode, Mode::Vix);
    assert!(v.prompt.is_none());
}

#[test]
fn quit_command_shuts_down() {
    let mut v = Vix::new();
    v.handle_input(Event::Key(Key::Char(':')));
    v.handle_input(Event::Key(Key::Char('q')));
    assert!(!v.shutdown);
    v.handle_input(Event::Key(Key::Char('\n')));
    assert!(v.shutdown);
    assert_eq!(v.mode, Mode::Vix);
}

#[test]
fn unknown_command_surfaces_error_mode() {
    let mut v = Vix::new();
    v.handle_input(Event::Key(Key::Char(':')));
    for c in "zzz".chars() {
        v.handle_input(Event::Key(Key::Char(c)));
    }
    v.handle_input(Event::Key(Key::Char('\n')));
    assert!(matches!(v.mode, Mode::Error(_)));
    // the next key dismisses the error
    v.handle_input(Event::Key(Key::Char('x')));
    assert_eq!(v.mode, Mode::Vix);
}

#[test]
fn keyboard_interrupt_always_terminates() {
    let mut v = Vix::new();
    v.handle_input(Event::Key(Key::Char('i')));
    v.handle_input(Event::Key(Key::Ctrl('c')));
    assert!(v.shutdown);
}

#[test]
fn double_d_deletes_the_line() {
    let mut v = Vix::new();
    v.editor = editor_with_view(2, None);
    v.handle_input(Event::Key(Key::Char('d')));
    let i = v.editor.find_view(2).unwrap();
    let before = v.editor.views[i].client.ops.len();
    v.handle_input(Event::Key(Key::Char('d')));
    let ops = &v.editor.views[i].client.ops;
    assert_eq!(&ops[before..], &[EditOp::LineStart, EditOp::LineEndSel, EditOp::Delete]);
}

#[test]
fn search_prompt_queues_find_chain() {
    let mut v = Vix::new();
    v.editor = editor_with_view(2, None);
    v.handle_input(Event::Key(Key::Char('/')));
    assert_eq!(v.mode, Mode::Search);
    for c in "foo".chars() {
        v.handle_input(Event::Key(Key::Char(c)));
    }
    v.handle_input(Event::Key(Key::Char('\n')));
    assert_eq!(v.mode, Mode::Vix);
    let i = v.editor.find_view(2).unwrap();
    let ops = &v.editor.views[i].client.ops;
    let n = ops.len();
    assert_eq!(
        ops[n - 3],
        EditOp::Find {
            term: chars("foo"),
            case_sensitive: true,
            regex: false,
            whole_words: false
        }
    );
    assert_eq!(ops[n - 2], EditOp::FindAll);
    assert_eq!(ops[n - 1], EditOp::HighlightFind(true));
}

#[test]
fn write_quit_saves_then_exits() {
    let mut v = Vix::new();
    v.editor = editor_with_view(2, Some("notes.txt"));
    v.handle_input(Event::Key(Key::Char(':')));
    v.handle_input(Event::Key(Key::Char('w')));
    v.handle_input(Event::Key(Key::Char('q')));
    v.handle_input(Event::Key(Key::Char('\n')));
    assert!(v.shutdown);
    assert_eq!(
        *v.editor.requests.last().unwrap(),
        CoreRequest::Save(2, "notes.txt".to_string())
    );
}

#[test]
fn copy_then_paste_round_trip() {
    let mut e = editor_with_view(2, None);
    e.copy();
    assert_eq!(*e.requests.last().unwrap(), CoreRequest::Copy(2));
    // the process edge answers with the clipboard value
    e.apply_copy_result(Some("snippet".to_string()));
    e.paste();
    let i = e.find_view(2).unwrap();
    assert_eq!(
        *e.views[i].client.ops.last().unwrap(),
        EditOp::Paste("snippet".to_string())
    );
    // a copy that brought nothing back empties the clipboard
    e.apply_copy_result(None);
    assert_eq!(e.clipboard, "");
}

#[test]
fn visual_line_mode_extends_to_line_end() {
    let mut v = Vix::new();
    v.editor = editor_with_view(2, None);
    v.handle_input(Event::Key(Key::Char('V')));
    assert_eq!(v.mode, Mode::Visual(true));
    let before = v.editor.requests.len();
    v.handle_input(Event::Key(Key::Down));
    assert_eq!(
        &v.editor.requests[before..],
        &[
            CoreRequest::Edit(2, EditOp::DownSel),
            CoreRequest::Edit(2, EditOp::LineEndSel),
        ]
    );
}

#[test]
fn resize_propagates_and_requests_scroll() {
    let mut e = editor_with_view(2, None);
    let i = e.find_view(2).unwrap();
    let before = e.views[i].client.ops.len();
    e.handle_resize((100, 30));
    assert_eq!(e.size, (100, 30));
    assert_eq!(e.views[i].window.size, 30);
    assert_eq!(*e.views[i].client.ops.last().unwrap(), EditOp::Scroll(0, 30));
    assert_eq!(e.views[i].client.ops.len(), before + 1);
}

#[test]
fn status_line_is_one_based() {
    let mut e = editor_with_view(2, Some("f.txt"));
    e.dispatch_core_event(CoreEvent::Update(insert_update(2, &["a", "b", "c"])));
    e.dispatch_core_event(CoreEvent::ScrollTo(ScrollTo { line: 1, column: 2, view_id: 2 }));
    let frame = e.render("vix").unwrap();
    assert_eq!(frame.status.state, "vix");
    assert_eq!(frame.status.file, Some("f.txt".to_string()));
    assert_eq!(frame.status.line, 2);
    assert_eq!(frame.status.column, 3);
}

#[test]
fn style_definitions_merge_last_write_wins() {
    let mut e = Editor::new();
    let mut st = vix::style::Style::default();
    st.id = 4;
    st.italic = Some(true);
    e.dispatch_core_event(CoreEvent::SetStyle(st));
    let mut st2 = vix::style::Style::default();
    st2.id = 4;
    st2.underline = Some(true);
    e.dispatch_core_event(CoreEvent::SetStyle(st2));
    let got = e.styles.get(&4).unwrap();
    assert_eq!(got.underline, Some(true));
    assert_eq!(got.italic, None);
}

#[test]
fn empty_cache_renders_padding_and_home_cursor() {
    let mut e = editor_with_view(8, None);
    let frame = e.render("vix").unwrap();
    // nothing cached: every row is padding, and the cursor rests at the
    // top left corner
    assert!(frame.rows.iter().all(|r| r.line_no.is_none()));
    assert_eq!(frame.rows.len(), 24);
    let pos = frame.cursor.unwrap();
    assert_eq!((pos.x, pos.y), (1, 1));
}

#[test]
fn click_outside_cached_lines_passes_through() {
    let mut e = editor_with_view(9, None);
    e.dispatch_core_event(CoreEvent::Update(insert_update(9, &["a"])));
    let i = e.find_view(9).unwrap();
    assert_eq!(e.views[i].get_click_location(5, 7), (5, 7));
}

#[test]
fn invalid_counts_saturate_instead_of_overflowing() {
    let mut e = editor_with_view(10, None);
    let huge = Operation {
        operation_type: OperationKind::Invalidate,
        nb_lines: u64::MAX,
        lines: Vec::new(),
    };
    let again = Operation {
        operation_type: OperationKind::Invalidate,
        nb_lines: u64::MAX,
        lines: Vec::new(),
    };
    e.dispatch_core_event(CoreEvent::Update(Update {
        rev: None,
        operations: vec![huge, again],
        pristine: true,
        view_id: 10,
    }));
    let i = e.find_view(10).unwrap();
    assert_eq!(e.views[i].cache.before(), u64::MAX);
    assert_eq!(e.views[i].cache.height(), u64::MAX);
}

#[test]
fn cursor_screen_position_accounts_for_tabs_and_gutter() {
    let mut e = editor_with_view(11, None);
    e.dispatch_core_event(CoreEvent::Update(insert_update(11, &["\tab"])));
    e.dispatch_core_event(CoreEvent::ScrollTo(ScrollTo { line: 0, column: 2, view_id: 11 }));
    let frame = e.render("vix").unwrap();
    // height 1: gutter is 1 + 1 digits = 2; the first two characters (a
    // tab and 'a') span columns 0..5, so the cursor sits at 2 + 5 + 1
    let pos = frame.cursor.unwrap();
    assert_eq!((pos.x, pos.y), (8, 1));
}

#[test]
fn visual_plain_mode_extends_horizontally() {
    let mut v = Vix::new();
    v.editor = editor_with_view(12, None);
    v.handle_input(Event::Key(Key::Char('v')));
    let before = v.editor.requests.len();
    v.handle_input(Event::Key(Key::Left));
    v.handle_input(Event::Key(Key::Right));
    assert_eq!(
        &v.editor.requests[before..],
        &[
            CoreRequest::Edit(12, EditOp::LeftSel),
            CoreRequest::Edit(12, EditOp::RightSel),
        ]
    );
    // paste in visual mode returns to the hub
    v.handle_input(Event::Key(Key::Char('p')));
    assert_eq!(v.mode, Mode::Vix);
}

#[test]
fn insert_mode_forwards_characters_to_the_view() {
    let mut v = Vix::new();
    v.editor = editor_with_view(13, None);
    v.handle_input(Event::Key(Key::Char('i')));
    v.handle_input(Event::Key(Key::Char('x')));
    let i = v.editor.find_view(13).unwrap();
    assert_eq!(*v.editor.views[i].client.ops.last().unwrap(), EditOp::Insert('x'));
}
