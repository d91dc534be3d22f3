//! The windower, the command parser, and the prompt editor.

use vix::command_prompt::{parse_u16, Command, CommandPrompt, ParseCommandError};
use vix::tty::{Event, Key};
use vix::view::Cursor;
use vix::window::Window;

fn chars(s: &str) -> Vec<char> {
    s.chars().collect()
}

#[test]
fn window_new_is_empty() {
    let w = Window::new();
    assert_eq!(w.start(), 0);
    assert_eq!(w.size(), 0);
    assert_eq!(w.end(), 0);
}

#[test]
fn window_follows_cursor_down() {
    let mut w = Window::new();
    w.resize(3);
    w.set_cursor(&Cursor { line: 10, column: 0 });
    // the cursor becomes the last visible row
    assert_eq!(w.start(), 8);
    assert_eq!(w.end(), 11);
}

#[test]
fn window_follows_cursor_up() {
    let mut w = Window::new();
    w.resize(3);
    w.set_cursor(&Cursor { line: 10, column: 0 });
    w.set_cursor(&Cursor { line: 2, column: 0 });
    assert_eq!(w.start(), 2);
}

#[test]
fn window_cursor_at_boundaries_stays() {
    let mut w = Window::new();
    w.resize(3);
    w.set_cursor(&Cursor { line: 10, column: 0 });
    assert_eq!(w.start(), 8);
    // exactly at start: no move
    w.set_cursor(&Cursor { line: 8, column: 0 });
    assert_eq!(w.start(), 8);
    // exactly at start + size - 1: still inside, no move
    w.set_cursor(&Cursor { line: 10, column: 0 });
    assert_eq!(w.start(), 8);
    // one past the end: move
    w.set_cursor(&Cursor { line: 11, column: 0 });
    assert_eq!(w.start(), 9);
}

#[test]
fn window_update_clamps_to_cache() {
    let mut w = Window::new();
    w.resize(5);
    w.set_cursor(&Cursor { line: 20, column: 0 });
    assert_eq!(w.start(), 16);
    // only 10 cached lines: the window may not start past 10 - 5
    w.update(7, 10);
    assert_eq!(w.start(), 5);
    // a cursor above the clamped window pulls the start up to it
    w.update(4, 10);
    assert_eq!(w.start(), 4);
    // shorter than the viewport: start pinned to 0
    w.update(1, 3);
    assert_eq!(w.start(), 0);
}

#[test]
fn window_update_is_idempotent() {
    let mut w = Window::new();
    w.resize(4);
    w.set_cursor(&Cursor { line: 9, column: 0 });
    w.update(9, 30);
    let once = (w.start(), w.size());
    w.update(9, 30);
    assert_eq!((w.start(), w.size()), once);
}

#[test]
fn parse_goto_line_five() {
    let r = Command::from_str(&chars("5"));
    assert_eq!(r, Ok(Some(Command::GotoLine(5))));
}

#[test]
fn parse_goto_line_zero() {
    let r = Command::from_str(&chars("0"));
    assert_eq!(r, Ok(Some(Command::GotoLine(0))));
}

#[test]
fn parse_write() {
    assert_eq!(Command::from_str(&chars("w")), Ok(Some(Command::Save(None, false))));
    assert_eq!(Command::from_str(&chars("write")), Ok(Some(Command::Save(None, false))));
}

#[test]
fn parse_write_quit() {
    assert_eq!(Command::from_str(&chars("wq")), Ok(Some(Command::Save(None, true))));
}

#[test]
fn parse_quit() {
    assert_eq!(Command::from_str(&chars("q")), Ok(Some(Command::Quit)));
    assert_eq!(Command::from_str(&chars("quit")), Ok(Some(Command::Quit)));
}

#[test]
fn parse_unknown_command() {
    let r = Command::from_str(&chars("zzz"));
    assert_eq!(r, Err(ParseCommandError::UnknownCommand(chars("zzz"))));
}

#[test]
fn parse_numbers() {
    assert_eq!(parse_u16(&chars("+5")), Some(5));
    assert_eq!(parse_u16(&chars("65535")), Some(65535));
    assert_eq!(parse_u16(&chars("65536")), None);
    assert_eq!(parse_u16(&chars("007")), Some(7));
    assert_eq!(parse_u16(&chars("")), None);
    assert_eq!(parse_u16(&chars("+")), None);
    assert_eq!(parse_u16(&chars("1a")), None);
}

#[test]
fn prompt_editing_sequence() {
    // insert "abc" (index 3), move left twice (index 1), forward-delete
    // once: the character at the index is removed, leaving "ac" with the
    // index still at 1
    let mut p = CommandPrompt::execute();
    for c in "abc".chars() {
        let r = p.handle_input(&Event::Key(Key::Char(c)));
        assert_eq!(r, Ok(None));
    }
    p.handle_input(&Event::Key(Key::Left)).unwrap();
    p.handle_input(&Event::Key(Key::Left)).unwrap();
    p.handle_input(&Event::Key(Key::Delete)).unwrap();
    assert_eq!(p.chars, chars("ac"));
    assert_eq!(p.index, 1);
}

#[test]
fn prompt_backspace_on_empty_cancels() {
    let mut p = CommandPrompt::execute();
    let r = p.handle_input(&Event::Key(Key::Backspace));
    assert_eq!(r, Ok(Some(Command::Cancel)));
    assert_eq!(p.index, 0);
}

#[test]
fn prompt_backspace_removes_before_index() {
    let mut p = CommandPrompt::search();
    for c in "ab".chars() {
        p.handle_input(&Event::Key(Key::Char(c))).unwrap();
    }
    p.handle_input(&Event::Key(Key::Backspace)).unwrap();
    assert_eq!(p.chars, chars("a"));
    assert_eq!(p.index, 1);
}

#[test]
fn prompt_finalizes_search() {
    let mut p = CommandPrompt::search();
    for c in "term".chars() {
        p.handle_input(&Event::Key(Key::Char(c))).unwrap();
    }
    let r = p.handle_input(&Event::Key(Key::Char('\n')));
    assert_eq!(r, Ok(Some(Command::Search(chars("term")))));
}

#[test]
fn prompt_finalizes_command() {
    let mut p = CommandPrompt::execute();
    for c in "12".chars() {
        p.handle_input(&Event::Key(Key::Char(c))).unwrap();
    }
    let r = p.handle_input(&Event::Key(Key::Char('\n')));
    assert_eq!(r, Ok(Some(Command::GotoLine(12))));
}

#[test]
fn prompt_render_positions_cursor() {
    let mut p = CommandPrompt::execute();
    for c in "ab".chars() {
        p.handle_input(&Event::Key(Key::Char(c))).unwrap();
    }
    let f = p.render();
    assert_eq!(f.prefix, "(exec):");
    assert_eq!(f.chars, chars("ab"));
    // prefix (7 chars) + index (2) + 1
    assert_eq!(f.cursor_col, 10);
}
