//! The command/search mini-buffer: an editable single-line text buffer
//! with an insertion index, and the parser that turns a finalized buffer
//! into a typed command.

use vstd::prelude::*;
use crate::tty::{Event, Key};

verus! {

/// A finalized mini-buffer action.
#[derive(Debug, Clone, PartialEq)]
pub enum Command {
    Search(Vec<char>),
    Cancel,
    Quit,
    Save(Option<u64>, bool),
    GotoLine(u16),
    Open(Option<String>),
    SetTheme(String),
}

/// Why a finalized buffer failed to parse.
#[derive(Debug, Clone, PartialEq)]
pub enum ParseCommandError {
    UnknownCommand(Vec<char>),
}

/// Which grammar the buffer finalizes under.
#[derive(Clone, Copy, Debug, PartialEq, Eq, Structural)]
pub enum InputType {
    Command,
    Search,
}

/// The editable prompt line: its text, the insertion index into that text,
/// the grammar it finalizes under, and the prefix shown before the text.
#[derive(Debug, Clone)]
pub struct CommandPrompt {
    pub chars: Vec<char>,
    pub index: usize,
    pub input_type: InputType,
    pub prefix: &'static str,
}

/// What the prompt renders to: the prefix and text to draw and the 1-based
/// screen column the terminal cursor belongs at.
#[derive(Debug, Clone)]
pub struct PromptFrame {
    pub prefix: &'static str,
    pub chars: Vec<char>,
    pub cursor_col: u16,
}

pub open spec fn spec_is_digit(c: char) -> bool {
    '0' <= c && c <= '9'
}

pub open spec fn spec_digit_value(c: char) -> int {
    c as int - '0' as int
}

/// Numeric value of a digit string, most significant digit first.
pub open spec fn spec_digits_value(s: Seq<char>) -> int
    decreases s.len(),
{
    if s.len() == 0 {
        0
    } else {
        spec_digits_value(s.drop_last()) * 10 + spec_digit_value(s.last())
    }
}

/// The digits of a numeral, with one optional leading `+` sign stripped.
pub open spec fn spec_numeral_digits(s: Seq<char>) -> Seq<char> {
    if s.len() > 0 && s[0] == '+' {
        s.subrange(1, s.len() as int)
    } else {
        s
    }
}

/// Whether `s` is a numeral a 16-bit unsigned parse accepts: an optional
/// leading `+`, then one or more digits, with a value of at most 65535.
pub open spec fn spec_is_u16_numeral(s: Seq<char>) -> bool {
    let d = spec_numeral_digits(s);
    &&& d.len() > 0
    &&& forall|i: int| 0 <= i < d.len() ==> spec_is_digit(#[trigger] d[i])
    &&& spec_digits_value(d) <= 65535
}

pub open spec fn spec_u16_value(s: Seq<char>) -> u16 {
    spec_digits_value(spec_numeral_digits(s)) as u16
}

pub open spec fn spec_word_write() -> Seq<char> {
    seq!['w', 'r', 'i', 't', 'e']
}

pub open spec fn spec_word_quit() -> Seq<char> {
    seq!['q', 'u', 'i', 't']
}

/// The result a finalized command buffer `s` parses to.
pub open spec fn spec_parse_ok(s: Seq<char>, r: Result<Option<Command>, ParseCommandError>) -> bool {
    if spec_is_u16_numeral(s) {
        r == Ok::<Option<Command>, ParseCommandError>(Some(Command::GotoLine(spec_u16_value(s))))
    } else if s == seq!['w'] || s == spec_word_write() {
        r == Ok::<Option<Command>, ParseCommandError>(Some(Command::Save(None::<u64>, false)))
    } else if s == seq!['q'] || s == spec_word_quit() {
        r == Ok::<Option<Command>, ParseCommandError>(Some(Command::Quit))
    } else if s == seq!['w', 'q'] {
        r == Ok::<Option<Command>, ParseCommandError>(Some(Command::Save(None::<u64>, true)))
    } else {
        r matches Err(ParseCommandError::UnknownCommand(t)) && t@ == s
    }
}

/// What finalizing the buffer returns: under the search grammar, a search
/// for the buffer's text; under the command grammar, the parse of it.
pub open spec fn spec_finalize_ok(p: CommandPrompt, r: Result<Option<Command>, ParseCommandError>) -> bool {
    match p.input_type {
        InputType::Search => r matches Ok(Some(Command::Search(t))) && t@ == p.chars@,
        InputType::Command => spec_parse_ok(p.chars@, r),
    }
}

impl Command {
    /// Parse a finalized command buffer: a numeral goes to its line, `w`
    /// and `write` save, `q` and `quit` quit, `wq` saves then quits, and
    /// anything else is unknown.
    pub fn from_str(s: &Vec<char>) -> (r: Result<Option<Command>, ParseCommandError>)
        ensures
            spec_parse_ok(s@, r),
    {
        if let Some(n) = parse_u16(s) {
            return Ok(Some(Command::GotoLine(n)));
        }
        if s.len() == 1 && s[0] == 'w' {
            proof { assert(s@ =~= seq!['w']); }
            return Ok(Some(Command::Save(None, false)));
        }
        if s.len() == 5 && s[0] == 'w' && s[1] == 'r' && s[2] == 'i' && s[3] == 't' && s[4] == 'e' {
            proof { assert(s@ =~= spec_word_write()); }
            return Ok(Some(Command::Save(None, false)));
        }
        if s.len() == 1 && s[0] == 'q' {
            proof { assert(s@ =~= seq!['q']); }
            return Ok(Some(Command::Quit));
        }
        if s.len() == 4 && s[0] == 'q' && s[1] == 'u' && s[2] == 'i' && s[3] == 't' {
            proof { assert(s@ =~= spec_word_quit()); }
            return Ok(Some(Command::Quit));
        }
        if s.len() == 2 && s[0] == 'w' && s[1] == 'q' {
            proof { assert(s@ =~= seq!['w', 'q']); }
            return Ok(Some(Command::Save(None, true)));
        }
        proof {
            assert(s@ != seq!['w']) by {
                if s@ == seq!['w'] {
                    assert(s@.len() == 1 && s@[0] == 'w');
                }
            }
            assert(s@ != spec_word_write()) by {
                if s@ == spec_word_write() {
                    assert(s@.len() == 5 && s@[0] == 'w' && s@[1] == 'r' && s@[2] == 'i'
                        && s@[3] == 't' && s@[4] == 'e');
                }
            }
            assert(s@ != seq!['q']) by {
                if s@ == seq!['q'] {
                    assert(s@.len() == 1 && s@[0] == 'q');
                }
            }
            assert(s@ != spec_word_quit()) by {
                if s@ == spec_word_quit() {
                    assert(s@.len() == 4 && s@[0] == 'q' && s@[1] == 'u' && s@[2] == 'i'
                        && s@[3] == 't');
                }
            }
            assert(s@ != seq!['w', 'q']) by {
                if s@ == seq!['w', 'q'] {
                    assert(s@.len() == 2 && s@[0] == 'w' && s@[1] == 'q');
                }
            }
        }
        Err(ParseCommandError::UnknownCommand(s.clone()))
    }
}

/// How one input event steps the prompt from `p0` to `p1` with result `r`:
/// enter finalizes, backspace deletes before the index (cancelling when the
/// buffer is empty), delete removes at the index, left and right move the
/// index clamped to the buffer, any other character is inserted at the
/// index, and everything else is ignored.
pub open spec fn spec_prompt_step(
    p0: CommandPrompt,
    p1: CommandPrompt,
    input: Event,
    r: Result<Option<Command>, ParseCommandError>,
) -> bool {
    &&& p1.input_type == p0.input_type
    &&& p1.prefix == p0.prefix
    &&& match input {
        Event::Key(k) => match k {
            Key::Char(c) => if c == '\n' {
                p1.chars@ == p0.chars@ && p1.index == p0.index && spec_finalize_ok(p0, r)
            } else {
                &&& p1.chars@ == p0.chars@.insert(p0.index as int, c)
                &&& p1.index == p0.index + 1
                &&& r == Ok::<Option<Command>, ParseCommandError>(None)
            },
            Key::Backspace => {
                &&& if p0.chars@.len() == 0 {
                    p1.chars@ == p0.chars@ && p1.index == p0.index && r == Ok::<
                        Option<Command>,
                        ParseCommandError,
                    >(Some(Command::Cancel))
                } else if p0.index > 0 {
                    &&& p1.chars@ == p0.chars@.remove(p0.index - 1)
                    &&& p1.index == p0.index - 1
                    &&& r == Ok::<Option<Command>, ParseCommandError>(None)
                } else {
                    p1.chars@ == p0.chars@ && p1.index == p0.index && r == Ok::<
                        Option<Command>,
                        ParseCommandError,
                    >(None)
                }
            },
            Key::Delete => {
                &&& if p0.index < p0.chars@.len() {
                    p1.chars@ == p0.chars@.remove(p0.index as int)
                } else {
                    p1.chars@ == p0.chars@
                }
                &&& p1.index == p0.index
                &&& r == Ok::<Option<Command>, ParseCommandError>(None)
            },
            Key::Left => {
                &&& p1.chars@ == p0.chars@
                &&& p1.index == if p0.index > 0 {
                    (p0.index - 1) as usize
                } else {
                    0usize
                }
                &&& r == Ok::<Option<Command>, ParseCommandError>(None)
            },
            Key::Right => {
                &&& p1.chars@ == p0.chars@
                &&& p1.index == if p0.index < p0.chars@.len() {
                    (p0.index + 1) as usize
                } else {
                    p0.index
                }
                &&& r == Ok::<Option<Command>, ParseCommandError>(None)
            },
            _ => p1.chars@ == p0.chars@ && p1.index == p0.index && r == Ok::<
                Option<Command>,
                ParseCommandError,
            >(None),
        },
        _ => p1.chars@ == p0.chars@ && p1.index == p0.index && r == Ok::<
            Option<Command>,
            ParseCommandError,
        >(None),
    }
}

impl CommandPrompt {
    /// The insertion index never leaves the buffer.
    pub open spec fn wf(&self) -> bool {
        self.index <= self.chars@.len()
    }

    /// A fresh prompt under the search grammar.
    pub fn search() -> (p: CommandPrompt)
        ensures
            p.chars@ == Seq::<char>::empty(),
            p.index == 0,
            p.input_type == InputType::Search,
            p.prefix@ == "(search):"@,
            p.wf(),
    {
        CommandPrompt {
            chars: Vec::new(),
            index: 0,
            input_type: InputType::Search,
            prefix: "(search):",
        }
    }

    /// A fresh prompt under the command grammar.
    pub fn execute() -> (p: CommandPrompt)
        ensures
            p.chars@ == Seq::<char>::empty(),
            p.index == 0,
            p.input_type == InputType::Command,
            p.prefix@ == "(exec):"@,
            p.wf(),
    {
        CommandPrompt {
            chars: Vec::new(),
            index: 0,
            input_type: InputType::Command,
            prefix: "(exec):",
        }
    }

    /// Route one input event to the edit it stands for.
    pub fn handle_input(&mut self, input: &Event) -> (r: Result<
        Option<Command>,
        ParseCommandError,
    >)
        requires
            old(self).wf(),
        ensures
            final(self).wf(),
            spec_prompt_step(*old(self), *final(self), *input, r),
    {
        match input {
            Event::Key(Key::Char(c)) => {
                if *c == '\n' {
                    self.finalize()
                } else {
                    Ok(self.new_key(*c))
                }
            },
            Event::Key(Key::Backspace) => Ok(self.back()),
            Event::Key(Key::Delete) => Ok(self.delete()),
            Event::Key(Key::Left) => Ok(self.left()),
            Event::Key(Key::Right) => Ok(self.right()),
            _ => Ok(None),
        }
    }

    /// Move the index one left, stopping at the start.
    pub fn left(&mut self) -> (r: Option<Command>)
        requires
            old(self).wf(),
        ensures
            final(self).wf(),
            final(self).chars@ == old(self).chars@,
            final(self).input_type == old(self).input_type,
            final(self).prefix == old(self).prefix,
            final(self).index == if old(self).index > 0 {
                (old(self).index - 1) as usize
            } else {
                0usize
            },
            r is None,
    {
        if self.index > 0 {
            self.index = self.index - 1;
        }
        None
    }

    /// Move the index one right, stopping at the end of the buffer.
    pub fn right(&mut self) -> (r: Option<Command>)
        requires
            old(self).wf(),
        ensures
            final(self).wf(),
            final(self).chars@ == old(self).chars@,
            final(self).input_type == old(self).input_type,
            final(self).prefix == old(self).prefix,
            final(self).index == if old(self).index < old(self).chars@.len() {
                (old(self).index + 1) as usize
            } else {
                old(self).index
            },
            r is None,
    {
        if self.index < self.chars.len() {
            self.index = self.index + 1;
        }
        None
    }

    /// Forward delete: remove the character at the index, if any.
    pub fn delete(&mut self) -> (r: Option<Command>)
        requires
            old(self).wf(),
        ensures
            final(self).wf(),
            final(self).input_type == old(self).input_type,
            final(self).prefix == old(self).prefix,
            final(self).index == old(self).index,
            final(self).chars@ == if old(self).index < old(self).chars@.len() {
                old(self).chars@.remove(old(self).index as int)
            } else {
                old(self).chars@
            },
            r is None,
    {
        if self.index < self.chars.len() {
            self.chars.remove(self.index);
        }
        None
    }

    /// Backspace: on an empty buffer the prompt is cancelled; otherwise the
    /// character before the index is removed. With the index already at the
    /// start of a non-empty buffer there is nothing before it to remove and
    /// the buffer is kept.
    pub fn back(&mut self) -> (r: Option<Command>)
        requires
            old(self).wf(),
        ensures
            final(self).wf(),
            final(self).input_type == old(self).input_type,
            final(self).prefix == old(self).prefix,
            if old(self).chars@.len() == 0 {
                &&& final(self).chars@ == old(self).chars@
                &&& final(self).index == old(self).index
                &&& r == Some(Command::Cancel)
            } else if old(self).index > 0 {
                &&& final(self).chars@ == old(self).chars@.remove(old(self).index - 1)
                &&& final(self).index == old(self).index - 1
                &&& r is None
            } else {
                &&& final(self).chars@ == old(self).chars@
                &&& final(self).index == old(self).index
                &&& r is None
            },
    {
        if self.chars.is_empty() {
            Some(Command::Cancel)
        } else if self.index > 0 {
            self.index = self.index - 1;
            self.chars.remove(self.index);
            None
        } else {
            None
        }
    }

    /// Insert a character at the index and move the index past it.
    pub fn new_key(&mut self, chr: char) -> (r: Option<Command>)
        requires
            old(self).wf(),
        ensures
            final(self).wf(),
            final(self).input_type == old(self).input_type,
            final(self).prefix == old(self).prefix,
            final(self).chars@ == old(self).chars@.insert(old(self).index as int, chr),
            final(self).index == old(self).index + 1,
            r is None,
    {
        self.chars.insert(self.index, chr);
        proof {
            vstd::std_specs::vec::axiom_spec_len(&self.chars);
        }
        self.index = self.index + 1;
        None
    }

    /// Finalize the buffer under the prompt's grammar.
    pub fn finalize(&self) -> (r: Result<Option<Command>, ParseCommandError>)
        ensures
            spec_finalize_ok(*self, r),
    {
        match self.input_type {
            InputType::Command => Command::from_str(&self.chars),
            InputType::Search => Ok(Some(Command::Search(clone_chars(&self.chars)))),
        }
    }

    /// What to draw for the prompt: prefix, buffer, and the screen column
    /// of the insertion point (one past the prefix and the text before the
    /// index, clamped to the terminal's coordinate range).
    pub fn render(&self) -> (f: PromptFrame)
        ensures
            f.prefix == self.prefix,
            f.chars@ == self.chars@,
            f.cursor_col == if self.prefix@.len() + self.index + 1 > 65535 {
                65535u16
            } else {
                (self.prefix@.len() + self.index + 1) as u16
            },
    {
        let plen = self.prefix.unicode_len();
        let total: u128 = plen as u128 + self.index as u128 + 1;
        let cursor_col: u16 = if total > 65535 {
            65535
        } else {
            total as u16
        };
        PromptFrame { prefix: self.prefix, chars: clone_chars(&self.chars), cursor_col }
    }
}

/// An element-wise copy of a character buffer.
pub fn clone_chars(v: &Vec<char>) -> (r: Vec<char>)
    ensures
        r@ == v@,
{
    let mut r: Vec<char> = Vec::new();
    let mut i: usize = 0;
    while i < v.len()
        invariant
            i <= v@.len(),
            r@ == v@.subrange(0, i as int),
        decreases v@.len() - i,
    {
        r.push(v[i]);
        proof {
            assert(r@ =~= v@.subrange(0, i + 1 as int));
        }
        i = i + 1;
    }
    proof {
        assert(r@ =~= v@);
    }
    r
}

/// Parse an unsigned 16-bit numeral: an optional leading `+`, then one or
/// more digits; `None` on anything else or on a value above 65535.
pub fn parse_u16(s: &Vec<char>) -> (r: Option<u16>)
    ensures
        match r {
            Some(n) => spec_is_u16_numeral(s@) && n == spec_u16_value(s@),
            None => !spec_is_u16_numeral(s@),
        },
{
    let ghost d: Seq<char> = spec_numeral_digits(s@);
    let start: usize = if s.len() > 0 && s[0] == '+' {
        1
    } else {
        0
    };
    proof {
        assert(d =~= s@.subrange(start as int, s@.len() as int));
    }
    if s.len() == start {
        return None;
    }
    let mut acc: u32 = 0;
    let mut i: usize = start;
    while i < s.len()
        invariant
            start <= i <= s@.len(),
            d == spec_numeral_digits(s@),
            d == s@.subrange(start as int, s@.len() as int),
            forall|j: int| start <= j < i ==> spec_is_digit(#[trigger] s@[j]),
            spec_digits_value(s@.subrange(start as int, i as int)) <= 65535 ==> acc
                == spec_digits_value(s@.subrange(start as int, i as int)),
            spec_digits_value(s@.subrange(start as int, i as int)) > 65535 ==> acc > 65535,
            acc <= 665359,
        decreases s@.len() - i,
    {
        let c = s[i];
        if c < '0' || c > '9' {
            proof {
                let j: int = i as int - start as int;
                assert(d[j] == s@[i as int]);
                assert(!spec_is_digit(d[j]));
                assert(!spec_is_u16_numeral(s@));
            }
            return None;
        }
        let digit: u32 = c as u32 - 48;
        assert(digit <= 9) by {
            assert('0' as u32 == 48 && '9' as u32 == 57);
        }
        if acc > 65535 {
            acc = 66000;
        } else {
            acc = acc * 10 + digit;
        }
        proof {
            let pre = s@.subrange(start as int, i as int);
            let cur = s@.subrange(start as int, i + 1 as int);
            assert(cur.drop_last() =~= pre);
            assert(cur.last() == s@[i as int]);
            assert(spec_digit_value(s@[i as int]) == digit);
            if spec_digits_value(pre) > 65535 {
                assert(spec_digits_value(cur) == spec_digits_value(pre) * 10 + digit);
                assert(spec_digits_value(cur) > 65535);
            }
        }
        i = i + 1;
    }
    proof {
        assert(s@.subrange(start as int, i as int) =~= d);
        assert(forall|j: int| 0 <= j < d.len() ==> spec_is_digit(#[trigger] d[j]));
    }
    if acc <= 65535 {
        Some(acc as u16)
    } else {
        None
    }
}

} // verus!
