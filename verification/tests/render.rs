//! The line cache merge, the render pipeline, and the style sequences.

use std::collections::HashMap;
use vix::client::Client;
use vix::line_cache::{Line, LineCache, Operation, OperationKind, StyleDef, Update};
use vix::modal;
use vix::style::{reset_style, set_style, Style};
use vix::view::{count_digits, escape_text, View};

fn chars(s: &str) -> Vec<char> {
    s.chars().collect()
}

fn plain_line(s: &str) -> Line {
    Line { text: chars(s), styles: Vec::new() }
}

fn ins(lines: Vec<Line>) -> Operation {
    Operation { operation_type: OperationKind::Insert, nb_lines: lines.len() as u64, lines }
}

fn op(kind: OperationKind, n: u64) -> Operation {
    Operation { operation_type: kind, nb_lines: n, lines: Vec::new() }
}

fn update_of(view_id: u64, operations: Vec<Operation>) -> Update {
    Update { rev: None, operations, pristine: true, view_id }
}

#[test]
fn cache_edit_replaces_span() {
    // five lines; copy one, insert two fresh, skip two, copy the last two
    let mut cache = LineCache {
        invalid_before: 0,
        lines: vec![
            plain_line("line1"),
            plain_line("line2"),
            plain_line("line3"),
            plain_line("line4"),
            plain_line("line5"),
        ],
        invalid_after: 0,
    };
    cache.update(update_of(1, vec![
        op(OperationKind::Copy, 1),
        ins(vec![plain_line("new_line2"), plain_line("new_line3")]),
        op(OperationKind::Skip, 2),
        op(OperationKind::Copy, 2),
    ]));
    let texts: Vec<String> = cache.lines().iter().map(|l| l.text.iter().collect()).collect();
    assert_eq!(texts, vec!["line1", "new_line2", "new_line3", "line4", "line5"]);
    assert_eq!(cache.before(), 0);
    assert_eq!(cache.after(), 0);
}

#[test]
fn cache_invalidate_counts() {
    let mut cache = LineCache::default();
    cache.update(update_of(1, vec![
        op(OperationKind::Invalidate, 5),
        ins(vec![plain_line("a"), plain_line("b")]),
        op(OperationKind::Invalidate, 3),
    ]));
    assert_eq!(cache.before(), 5);
    assert_eq!(cache.lines().len(), 2);
    assert_eq!(cache.after(), 3);
    assert_eq!(cache.height(), 10);
}

#[test]
fn cache_insert_trims_trailing_newline() {
    let mut cache = LineCache::default();
    cache.update(update_of(1, vec![ins(vec![plain_line("hello\n")])]));
    let text: String = cache.lines()[0].text.iter().collect();
    assert_eq!(text, "hello");
}

#[test]
fn cache_update_restyles_in_place() {
    let mut cache = LineCache::default();
    cache.update(update_of(1, vec![ins(vec![plain_line("keep me")])]));
    let styled = Line {
        text: chars("ignored"),
        styles: vec![StyleDef { offset: 0, length: 4, style_id: 2 }],
    };
    cache.update(update_of(1, vec![Operation {
        operation_type: OperationKind::Update,
        nb_lines: 1,
        lines: vec![styled],
    }]));
    let text: String = cache.lines()[0].text.iter().collect();
    assert_eq!(text, "keep me");
    assert_eq!(cache.lines()[0].styles.len(), 1);
    assert_eq!(cache.lines()[0].styles[0].style_id, 2);
}

#[test]
fn escape_caret_notation() {
    let out = escape_text(4, &chars("\u{1}"));
    assert_eq!(out, chars("^A"));
    let out = escape_text(4, &chars("\u{7f}"));
    assert_eq!(out, chars("^?"));
}

#[test]
fn escape_tab_expansion() {
    // 'a' at column 0, tab fills to column 4, then 'b'
    let out = escape_text(4, &chars("a\tb"));
    assert_eq!(out, chars("a   b"));
    // a tab at a tab stop fills a whole stop
    let out = escape_text(4, &chars("\tx"));
    assert_eq!(out, chars("    x"));
}

#[test]
fn set_style_formats_colors() {
    let st = Style {
        id: 1,
        fg_color: Some(0x00ff_8000),
        bg_color: None,
        weight: None,
        italic: None,
        underline: None,
    };
    let on: String = set_style(&st).iter().collect();
    assert_eq!(on, "\u{1b}[38;2;255;128;0m");
    let off: String = reset_style(&st).iter().collect();
    assert_eq!(off, "\u{1b}[39m");
}

#[test]
fn set_style_id_zero_inverts() {
    let st = Style::default();
    let on: String = set_style(&st).iter().collect();
    assert_eq!(on, "\u{1b}[7m");
    let off: String = reset_style(&st).iter().collect();
    assert_eq!(off, "\u{1b}[27m");
}

fn style_of(id: u64) -> Style {
    Style {
        id,
        fg_color: Some(0x00112233),
        bg_color: None,
        weight: None,
        italic: None,
        underline: None,
    }
}

#[test]
fn styled_line_round_trip_length() {
    // annotations [(offset 0, len 3, style 1), (offset 0, len 2, style 2)]:
    // stripping the inserted sequences must leave the original text length
    let mut styles: HashMap<u64, Style> = HashMap::new();
    styles.insert(1, style_of(1));
    styles.insert(2, style_of(2));
    let line = Line {
        text: chars("hello"),
        styles: vec![
            StyleDef { offset: 0, length: 3, style_id: 1 },
            StyleDef { offset: 0, length: 2, style_id: 2 },
        ],
    };
    let v = View::new(Client::new(1), None);
    let out = v.escape_control_and_add_styles(&styles, &line);
    let inserted: usize = set_style(&style_of(1)).len() + reset_style(&style_of(1)).len()
        + set_style(&style_of(2)).len() + reset_style(&style_of(2)).len();
    assert_eq!(out.len(), "hello".len() + inserted);
    // and the original characters survive, in order, once the sequences
    // are stripped
    let stripped: Vec<char> = strip_sequences(&out);
    assert_eq!(stripped, chars("hello"));
}

#[test]
fn styled_line_round_trip_other_order() {
    // the same annotations handed over in the opposite order still lose
    // nothing
    let mut styles: HashMap<u64, Style> = HashMap::new();
    styles.insert(1, style_of(1));
    styles.insert(2, style_of(2));
    let line = Line {
        text: chars("hello"),
        styles: vec![
            StyleDef { offset: 0, length: 2, style_id: 2 },
            StyleDef { offset: 0, length: 3, style_id: 1 },
        ],
    };
    let v = View::new(Client::new(1), None);
    let out = v.escape_control_and_add_styles(&styles, &line);
    let inserted: usize = set_style(&style_of(1)).len() + reset_style(&style_of(1)).len()
        + set_style(&style_of(2)).len() + reset_style(&style_of(2)).len();
    assert_eq!(out.len(), "hello".len() + inserted);
    assert_eq!(strip_sequences(&out), chars("hello"));
}

#[test]
fn unknown_style_is_skipped_not_fatal() {
    let styles: HashMap<u64, Style> = HashMap::new();
    let line = Line {
        text: chars("plain"),
        styles: vec![StyleDef { offset: 0, length: 3, style_id: 9 }],
    };
    let v = View::new(Client::new(1), None);
    let out = v.escape_control_and_add_styles(&styles, &line);
    assert_eq!(out, chars("plain"));
}

/// Remove every control sequence (from an escape to its final letter).
fn strip_sequences(text: &[char]) -> Vec<char> {
    let mut out = Vec::new();
    let mut in_seq = false;
    for &c in text {
        if in_seq {
            if c.is_ascii_alphabetic() {
                in_seq = false;
            }
        } else if c == '\u{1b}' {
            in_seq = true;
        } else {
            out.push(c);
        }
    }
    out
}

#[test]
fn digits_of_line_counts() {
    assert_eq!(count_digits(0), 1);
    assert_eq!(count_digits(9), 1);
    assert_eq!(count_digits(10), 2);
    assert_eq!(count_digits(12345), 5);
    assert_eq!(count_digits(u64::MAX), 20);
}

#[test]
fn dialog_bar_and_line() {
    let b: String = modal::bar(2).iter().collect();
    assert_eq!(b, "+------+\n");
    let l: String = modal::line(&chars("hi"), 3).iter().collect();
    assert_eq!(l, "|  hi     |\n");
}

#[test]
fn dialog_splits_message_lines() {
    let lines = modal::split_lines(&chars("a\nbc\n"));
    assert_eq!(lines.len(), 3);
    assert_eq!(lines[0], chars("a"));
    assert_eq!(lines[1], chars("bc"));
    assert_eq!(lines[2], chars(""));
}

#[test]
fn error_dialog_frames_message() {
    let out = modal::error_dialog(&chars("open"), &chars("could not open file"), 40);
    let s: String = out.iter().collect();
    assert!(s.starts_with("\u{1b}[m\u{1b}[?25l"));
    assert!(s.contains("Error: open"));
    assert!(s.contains("could not open file"));
    assert!(s.ends_with("\u{1b}[m"));
}
