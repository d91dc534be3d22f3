//! The boxed error dialog: plain text framed by bars, a highlighted
//! header, and positioning sequences that center the box on the screen.

use vstd::prelude::*;

verus! {

pub open spec fn spec_repeat(c: char, n: int) -> Seq<char> {
    Seq::new(n as nat, |i: int| c)
}

/// The position of the first newline, or the length when there is none.
pub open spec fn spec_first_nl(s: Seq<char>) -> nat
    decreases s.len(),
{
    if s.len() == 0 {
        0
    } else if s[0] == '\n' {
        0
    } else {
        1 + spec_first_nl(s.drop_first())
    }
}

/// The first newline is at the first position holding one.
pub proof fn lemma_first_nl_at(s: Seq<char>, k: int)
    requires
        0 <= k < s.len(),
        s[k] == '\n',
        forall|j: int| 0 <= j < k ==> s[j] != '\n',
    ensures
        spec_first_nl(s) == k,
    decreases k,
{
    if k > 0 {
        assert(s[0] != '\n');
        assert forall|j: int| 0 <= j < k - 1 implies s.drop_first()[j] != '\n' by {
            assert(s.drop_first()[j] == s[j + 1]);
        }
        assert(s.drop_first()[k - 1] == s[k]);
        lemma_first_nl_at(s.drop_first(), k - 1);
    }
}

/// A text that holds a newline holds it no later than its end.
pub proof fn lemma_first_nl_bound(s: Seq<char>)
    requires
        s.contains('\n'),
    ensures
        spec_first_nl(s) < s.len(),
    decreases s.len(),
{
    if s.len() > 0 && s[0] != '\n' {
        let k = choose|k: int| 0 <= k < s.len() && s[k] == '\n';
        assert(s.drop_first()[k - 1] == '\n');
        assert(s.drop_first().contains('\n'));
        lemma_first_nl_bound(s.drop_first());
    }
}

/// Split a text at newlines; a trailing newline yields a final empty
/// line, and an empty text is one empty line.
pub open spec fn spec_split_lines(s: Seq<char>) -> Seq<Seq<char>>
    decreases s.len(),
    via spec_split_lines_dec
{
    if !s.contains('\n') {
        seq![s]
    } else {
        let i = spec_first_nl(s) as int;
        seq![s.take(i)] + spec_split_lines(s.skip(i + 1))
    }
}

#[via_fn]
proof fn spec_split_lines_dec(s: Seq<char>) {
    if s.contains('\n') {
        lemma_first_nl_bound(s);
    }
}

/// The length of the longest of the lines.
pub open spec fn spec_max_len(lines: Seq<Seq<char>>) -> int
    decreases lines.len(),
{
    if lines.len() == 0 {
        0
    } else {
        let rest = spec_max_len(lines.drop_first());
        if lines[0].len() >= rest {
            lines[0].len() as int
        } else {
            rest
        }
    }
}

/// A horizontal bar of the dialog frame.
pub open spec fn spec_bar(len: int) -> Seq<char> {
    seq!['+'] + spec_repeat('-', len + 4) + seq!['+', '\n']
}

/// One framed content line, with the given number of fill spaces.
pub open spec fn spec_line(txt: Seq<char>, fill: int) -> Seq<char> {
    seq!['|', ' ', ' '] + txt + spec_repeat(' ', fill) + seq![' ', ' ', '|', '\n']
}

pub open spec fn spec_bold_on() -> Seq<char> {
    seq!['\u{1b}', '[', '1', 'm']
}

pub open spec fn spec_sgr_reset() -> Seq<char> {
    seq!['\u{1b}', '[', 'm']
}

pub open spec fn spec_underline_on() -> Seq<char> {
    seq!['\u{1b}', '[', '4', 'm']
}

/// The 256-color background and foreground of the dialog: a dark red
/// behind black text.
pub open spec fn spec_dialog_bg() -> Seq<char> {
    seq!['\u{1b}', '[', '4', '8', ';', '5', ';', '1', '9', '6', 'm']
}

pub open spec fn spec_dialog_fg() -> Seq<char> {
    seq!['\u{1b}', '[', '3', '8', ';', '5', ';', '1', '6', 'm']
}

pub open spec fn spec_hide_cursor() -> Seq<char> {
    seq!['\u{1b}', '[', '?', '2', '5', 'l']
}

/// The highlighted header line of the dialog.
pub open spec fn spec_hdr(h: Seq<char>, fill: int) -> Seq<char> {
    seq!['|'] + spec_bold_on() + spec_underline_on() + h + spec_sgr_reset() + spec_dialog_bg()
        + spec_dialog_fg() + seq![' '] + spec_repeat(' ', fill) + seq![' ', ' ', ' ', '|', '\n']
}

/// Append `n` copies of a character.
fn push_repeat(v: &mut Vec<char>, c: char, n: usize)
    ensures
        final(v)@ == old(v)@ + spec_repeat(c, n as int),
{
    let mut i: usize = 0;
    while i < n
        invariant
            i <= n,
            v@ == old(v)@ + spec_repeat(c, i as int),
        decreases n - i,
    {
        v.push(c);
        proof {
            assert(v@ =~= old(v)@ + spec_repeat(c, i + 1 as int));
        }
        i = i + 1;
    }
    proof {
        assert(v@ =~= old(v)@ + spec_repeat(c, n as int));
    }
}

/// Append another character run.
fn push_all(v: &mut Vec<char>, s: &Vec<char>)
    ensures
        final(v)@ == old(v)@ + s@,
{
    let mut i: usize = 0;
    while i < s.len()
        invariant
            i <= s@.len(),
            v@ == old(v)@ + s@.take(i as int),
        decreases s@.len() - i,
    {
        v.push(s[i]);
        proof {
            assert(v@ =~= old(v)@ + s@.take(i + 1 as int));
        }
        i = i + 1;
    }
    proof {
        assert(s@.take(i as int) =~= s@);
    }
}

/// A horizontal bar of the dialog frame.
pub fn bar(len: usize) -> (r: Vec<char>)
    requires
        len + 4 <= usize::MAX,
    ensures
        r@ == spec_bar(len as int),
{
    let mut v: Vec<char> = Vec::new();
    v.push('+');
    push_repeat(&mut v, '-', len + 4);
    v.push('+');
    v.push('\n');
    proof {
        assert(v@ =~= spec_bar(len as int));
    }
    v
}

/// One framed content line, with the given number of fill spaces.
pub fn line(txt: &Vec<char>, fill: usize) -> (r: Vec<char>)
    ensures
        r@ == spec_line(txt@, fill as int),
{
    let mut v: Vec<char> = Vec::new();
    v.push('|');
    v.push(' ');
    v.push(' ');
    push_all(&mut v, txt);
    push_repeat(&mut v, ' ', fill);
    v.push(' ');
    v.push(' ');
    v.push('|');
    v.push('\n');
    proof {
        assert(v@ =~= spec_line(txt@, fill as int));
    }
    v
}

/// The highlighted header line of the dialog.
fn hdr(h: &Vec<char>, fill: usize) -> (r: Vec<char>)
    ensures
        r@ == spec_hdr(h@, fill as int),
{
    let mut v: Vec<char> = Vec::new();
    v.push('|');
    v.push('\u{1b}');
    v.push('[');
    v.push('1');
    v.push('m');
    v.push('\u{1b}');
    v.push('[');
    v.push('4');
    v.push('m');
    push_all(&mut v, h);
    v.push('\u{1b}');
    v.push('[');
    v.push('m');
    push_all_bg_fg(&mut v);
    v.push(' ');
    push_repeat(&mut v, ' ', fill);
    v.push(' ');
    v.push(' ');
    v.push(' ');
    v.push('|');
    v.push('\n');
    proof {
        assert(v@ =~= spec_hdr(h@, fill as int));
    }
    v
}

/// Append the dialog's background and foreground color sequences.
fn push_all_bg_fg(v: &mut Vec<char>)
    ensures
        final(v)@ == old(v)@ + spec_dialog_bg() + spec_dialog_fg(),
{
    v.push('\u{1b}');
    v.push('[');
    v.push('4');
    v.push('8');
    v.push(';');
    v.push('5');
    v.push(';');
    v.push('1');
    v.push('9');
    v.push('6');
    v.push('m');
    v.push('\u{1b}');
    v.push('[');
    v.push('3');
    v.push('8');
    v.push(';');
    v.push('5');
    v.push(';');
    v.push('1');
    v.push('6');
    v.push('m');
    proof {
        assert(v@ =~= old(v)@ + spec_dialog_bg() + spec_dialog_fg());
    }
}

/// Split a text at newlines.
pub fn split_lines(s: &Vec<char>) -> (r: Vec<Vec<char>>)
    ensures
        Seq::new(r@.len(), |i: int| r@[i]@) == spec_split_lines(s@),
{
    let ghost whole = s@;
    let mut r: Vec<Vec<char>> = Vec::new();
    let mut cur: Vec<char> = Vec::new();
    let mut i: usize = 0;
    proof {
        assert(whole.skip(0) =~= whole);
    }
    while i < s.len()
        invariant
            i <= s@.len(),
            whole == s@,
            spec_split_lines(whole) == Seq::new(r@.len(), |j: int| r@[j]@) + spec_split_lines(
                cur@ + whole.skip(i as int),
            ),
            !cur@.contains('\n'),
        decreases s@.len() - i,
    {
        let c = s[i];
        let ghost rv = Seq::new(r@.len(), |j: int| r@[j]@);
        let ghost rem = cur@ + whole.skip(i as int);
        proof {
            assert(whole.skip(i as int)[0] == c);
            assert(whole.skip(i as int).drop_first() =~= whole.skip(i + 1 as int));
        }
        if c == '\n' {
            proof {
                assert(rem.contains('\n')) by {
                    assert(rem[cur@.len() as int] == '\n');
                }
                assert(spec_first_nl(rem) == cur@.len()) by {
                    assert forall|j: int| 0 <= j < cur@.len() implies rem[j] != '\n' by {
                        assert(rem[j] == cur@[j]);
                        if rem[j] == '\n' {
                            assert(cur@.contains('\n')) by {
                                assert(cur@[j] == '\n');
                            }
                        }
                    }
                    lemma_first_nl_at(rem, cur@.len() as int);
                }
                assert(rem.take(cur@.len() as int) =~= cur@);
                assert(rem.skip(cur@.len() as int + 1) =~= whole.skip(i + 1 as int));
            }
            let done = cur;
            cur = Vec::new();
            r.push(done);
            proof {
                assert(Seq::new(r@.len(), |j: int| r@[j]@) =~= rv.push(done@));
                assert(cur@ + whole.skip(i + 1 as int) =~= whole.skip(i + 1 as int));
                assert(spec_split_lines(rem) =~= seq![done@] + spec_split_lines(
                    whole.skip(i + 1 as int),
                ));
                assert(rv + spec_split_lines(rem) =~= rv.push(done@) + spec_split_lines(
                    whole.skip(i + 1 as int),
                ));
            }
        } else {
            cur.push(c);
            proof {
                assert(cur@ + whole.skip(i + 1 as int) =~= rem);
                assert(!cur@.contains('\n')) by {
                    if cur@.contains('\n') {
                        let k = choose|k: int| 0 <= k < cur@.len() && cur@[k] == '\n';
                        if k < cur@.len() - 1 {
                            assert(cur@.drop_last()[k] == '\n');
                            assert(cur@.drop_last().contains('\n'));
                        }
                    }
                }
            }
        }
        i = i + 1;
    }
    proof {
        assert(whole.skip(i as int) =~= Seq::<char>::empty());
        assert(cur@ + whole.skip(i as int) =~= cur@);
        assert(spec_split_lines(cur@) =~= seq![cur@]);
    }
    r.push(cur);
    proof {
        assert(Seq::new(r@.len(), |j: int| r@[j]@) =~= spec_split_lines(whole));
    }
    r
}

/// The decimal digits of a terminal coordinate, most significant first.
pub open spec fn spec_dec_u16(n: int) -> Seq<char> {
    if n < 10 {
        seq![crate::style::spec_digit_char(n)]
    } else if n < 100 {
        seq![crate::style::spec_digit_char(n / 10), crate::style::spec_digit_char(n % 10)]
    } else if n < 1000 {
        seq![
            crate::style::spec_digit_char(n / 100),
            crate::style::spec_digit_char((n / 10) % 10),
            crate::style::spec_digit_char(n % 10),
        ]
    } else if n < 10000 {
        seq![
            crate::style::spec_digit_char(n / 1000),
            crate::style::spec_digit_char((n / 100) % 10),
            crate::style::spec_digit_char((n / 10) % 10),
            crate::style::spec_digit_char(n % 10),
        ]
    } else {
        seq![
            crate::style::spec_digit_char(n / 10000),
            crate::style::spec_digit_char((n / 1000) % 10),
            crate::style::spec_digit_char((n / 100) % 10),
            crate::style::spec_digit_char((n / 10) % 10),
            crate::style::spec_digit_char(n % 10),
        ]
    }
}

/// The control sequence that puts the terminal cursor at a 1-based
/// (column, row) position.
pub open spec fn spec_goto(x: u16, y: u16) -> Seq<char> {
    seq!['\u{1b}', '['] + spec_dec_u16(y as int) + seq![';'] + spec_dec_u16(x as int) + seq!['H']
}

/// One decimal digit as a character.
fn digit_char16(d: u16) -> (c: char)
    requires
        d <= 9,
    ensures
        c == crate::style::spec_digit_char(d as int),
{
    match d {
        0 => '0',
        1 => '1',
        2 => '2',
        3 => '3',
        4 => '4',
        5 => '5',
        6 => '6',
        7 => '7',
        8 => '8',
        _ => '9',
    }
}

/// Append the decimal digits of a terminal coordinate.
fn append_dec16(v: &mut Vec<char>, n: u16)
    ensures
        final(v)@ == old(v)@ + spec_dec_u16(n as int),
{
    if n < 10 {
        v.push(digit_char16(n));
    } else if n < 100 {
        v.push(digit_char16(n / 10));
        v.push(digit_char16(n % 10));
    } else if n < 1000 {
        v.push(digit_char16(n / 100));
        v.push(digit_char16((n / 10) % 10));
        v.push(digit_char16(n % 10));
    } else if n < 10000 {
        v.push(digit_char16(n / 1000));
        v.push(digit_char16((n / 100) % 10));
        v.push(digit_char16((n / 10) % 10));
        v.push(digit_char16(n % 10));
    } else {
        v.push(digit_char16(n / 10000));
        v.push(digit_char16((n / 1000) % 10));
        v.push(digit_char16((n / 100) % 10));
        v.push(digit_char16((n / 10) % 10));
        v.push(digit_char16(n % 10));
    }
    proof {
        assert(v@ =~= old(v)@ + spec_dec_u16(n as int));
    }
}

/// Append a cursor-positioning sequence.
fn append_goto(v: &mut Vec<char>, x: u16, y: u16)
    ensures
        final(v)@ == old(v)@ + spec_goto(x, y),
{
    v.push('\u{1b}');
    v.push('[');
    append_dec16(v, y);
    v.push(';');
    append_dec16(v, x);
    v.push('H');
    proof {
        assert(v@ =~= old(v)@ + spec_goto(x, y));
    }
}

/// The header text of the dialog: `Error: ` and the title.
pub open spec fn spec_err_text(title: Seq<char>) -> Seq<char> {
    seq!['E', 'r', 'r', 'o', 'r', ':', ' '] + title
}

/// The framed rows of the dialog: a bar, the header, the message lines
/// each padded to the longest, and a closing bar.
pub open spec fn spec_dialog_rows(title: Seq<char>, lines: Seq<Seq<char>>, len: int) -> Seq<
    Seq<char>,
> {
    seq![spec_bar(len), spec_hdr(spec_err_text(title), len - 7 - title.len())] + Seq::new(
        lines.len(),
        |i: int| spec_line(lines[i], len - lines[i].len()),
    ) + seq![spec_bar(len)]
}

/// The screen text of the dialog's rows, row `i` on: each row is placed
/// at the left edge on its own screen line, painted in the dialog colors,
/// and followed by a jump to the resting position.
pub open spec fn spec_dialog_body(
    rows: Seq<Seq<char>>,
    left: u16,
    back_x: u16,
    back_y: u16,
    y: u16,
    i: int,
) -> Seq<char>
    decreases rows.len() - i,
{
    if i < 0 || i >= rows.len() {
        Seq::empty()
    } else {
        spec_goto(left, y) + spec_dialog_bg() + spec_dialog_fg() + rows[i] + spec_goto(
            back_x,
            back_y,
        ) + seq!['\n'] + spec_dialog_body(
            rows,
            left,
            back_x,
            back_y,
            crate::view::spec_wrap16(y + 1),
            i + 1,
        )
    }
}

/// The whole dialog: the cursor hidden, then every framed row placed on
/// screen.
pub open spec fn spec_dialog(title: Seq<char>, msg: Seq<char>, win_size: u16) -> Seq<char> {
    let lines = spec_split_lines(msg);
    let len = spec_max_len(lines) + 6;
    let height = lines.len() + 3;
    let rows = spec_dialog_rows(title, lines, len);
    let top = (win_size / 2 - height / 2 + 1) as u16;
    let left = (40 - len / 2) as u16;
    let back_x = (40 - len / 2 + len) as u16;
    let back_y = (win_size / 2 - height / 2 + 1 - height / 2) as u16;
    spec_hide_cursor() + spec_dialog_body(rows, left, back_x, back_y, top, 0)
}

/// A boxed, centered error dialog around a multi-line message.
pub fn dialog(title: &Vec<char>, msg: &Vec<char>, win_size: u16) -> (r: Vec<char>)
    requires
        spec_max_len(spec_split_lines(msg@)) + 6 <= 79,
        7 + title@.len() <= spec_max_len(spec_split_lines(msg@)) + 6,
        spec_split_lines(msg@).len() + 3 <= win_size / 2,
    ensures
        r@ == spec_dialog(title@, msg@, win_size),
{
    let ghost lv_spec = spec_split_lines(msg@);
    let lines = split_lines(msg);
    let ghost lv = Seq::new(lines@.len(), |i: int| lines@[i]@);
    proof {
        assert(lv == lv_spec);
    }
    let mut max: usize = 0;
    let mut i: usize = 0;
    proof {
        assert(lv.skip(0) =~= lv);
    }
    while i < lines.len()
        invariant
            i <= lines@.len(),
            lv == Seq::new(lines@.len(), |j: int| lines@[j]@),
            spec_max_len(lv) == if max >= spec_max_len(lv.skip(i as int)) {
                max as int
            } else {
                spec_max_len(lv.skip(i as int))
            },
            max <= spec_max_len(lv),
        decreases lines@.len() - i,
    {
        let ghost rem = lv.skip(i as int);
        proof {
            assert(rem[0] == lines@[i as int]@);
            assert(rem.drop_first() =~= lv.skip(i + 1 as int));
        }
        if lines[i].len() > max {
            max = lines[i].len();
        }
        i = i + 1;
    }
    proof {
        assert(lv.skip(i as int) =~= Seq::<Seq<char>>::empty());
        assert(max == spec_max_len(lv));
        assert(max <= 73);
    }
    let len: u16 = max as u16 + 6;
    let height: usize = lines.len() + 3;
    let top: u16 = win_size / 2 - (height / 2) as u16 + 1;
    let left: u16 = 40 - len / 2;
    let back_x: u16 = left + len;
    let back_y: u16 = top - (height / 2) as u16;

    let mut err_text: Vec<char> = Vec::new();
    err_text.push('E');
    err_text.push('r');
    err_text.push('r');
    err_text.push('o');
    err_text.push('r');
    err_text.push(':');
    err_text.push(' ');
    push_all(&mut err_text, title);
    proof {
        assert(err_text@ =~= spec_err_text(title@));
    }

    let ghost rows = spec_dialog_rows(title@, lv, len as int);
    let mut row_vec: Vec<Vec<char>> = Vec::new();
    row_vec.push(bar(max + 6));
    row_vec.push(hdr(&err_text, (max + 6) - 7 - title.len()));
    proof {
        assert(row_vec@[0]@ == spec_bar(len as int));
        assert(row_vec@[1]@ == spec_hdr(spec_err_text(title@), len - 7 - title@.len()));
    }
    let mut k: usize = 0;
    while k < lines.len()
        invariant
            k <= lines@.len(),
            lv == Seq::new(lines@.len(), |j: int| lines@[j]@),
            max == spec_max_len(lv),
            max <= 73,
            len == max + 6,
            rows == spec_dialog_rows(title@, lv, len as int),
            row_vec@.len() == k + 2,
            forall|j: int| 0 <= j < k + 2 ==> (#[trigger] row_vec@[j])@ == rows[j],
        decreases lines@.len() - k,
    {
        proof {
            assert(lines@[k as int]@ == lv[k as int]);
            assert(lv[k as int].len() <= spec_max_len(lv)) by {
                lemma_max_len_ge(lv, k as int);
            }
        }
        let fill: usize = (max + 6) - lines[k].len();
        let row = line(&lines[k], fill);
        row_vec.push(row);
        proof {
            assert(row_vec@[k + 2 as int]@ == rows[k + 2 as int]);
        }
        k = k + 1;
    }
    row_vec.push(bar(max + 6));
    proof {
        assert(row_vec@[row_vec@.len() - 1]@ == spec_bar(len as int));
        assert(row_vec@.len() == rows.len());
        assert(forall|j: int|
            0 <= j < row_vec@.len() ==> (#[trigger] row_vec@[j])@ == rows[j]);
    }

    let mut res: Vec<char> = Vec::new();
    res.push('\u{1b}');
    res.push('[');
    res.push('?');
    res.push('2');
    res.push('5');
    res.push('l');
    proof {
        assert(res@ =~= spec_hide_cursor());
    }
    let mut y: u16 = top;
    let mut ri: usize = 0;
    while ri < row_vec.len()
        invariant
            ri <= row_vec@.len(),
            row_vec@.len() == rows.len(),
            forall|j: int| 0 <= j < row_vec@.len() ==> (#[trigger] row_vec@[j])@ == rows[j],
            spec_hide_cursor() + spec_dialog_body(rows, left, back_x, back_y, top, 0) == res@
                + spec_dialog_body(rows, left, back_x, back_y, y, ri as int),
        decreases row_vec@.len() - ri,
    {
        let ghost pre = res@;
        let ghost y0 = y;
        append_goto(&mut res, left, y);
        push_all_bg_fg(&mut res);
        push_all(&mut res, &row_vec[ri]);
        append_goto(&mut res, back_x, back_y);
        res.push('\n');
        y = y.wrapping_add(1);
        proof {
            assert(res@ =~= pre + (spec_goto(left, y0) + spec_dialog_bg() + spec_dialog_fg()
                + rows[ri as int] + spec_goto(back_x, back_y) + seq!['\n']));
        }
        ri = ri + 1;
    }
    proof {
        assert(spec_dialog_body(rows, left, back_x, back_y, y, ri as int) =~= Seq::<
            char,
        >::empty());
        assert(res@ =~= spec_dialog(title@, msg@, win_size));
    }
    res
}

/// Every line is at most the longest.
proof fn lemma_max_len_ge(lines: Seq<Seq<char>>, i: int)
    requires
        0 <= i < lines.len(),
    ensures
        lines[i].len() <= spec_max_len(lines),
    decreases i,
{
    if i > 0 {
        lemma_max_len_ge(lines.drop_first(), i - 1);
        assert(lines.drop_first()[i - 1] == lines[i]);
    }
}

/// The full error overlay: colors reset, the dialog, colors reset again.
pub fn error_dialog(title: &Vec<char>, msg: &Vec<char>, win_size: u16) -> (r: Vec<char>)
    requires
        spec_max_len(spec_split_lines(msg@)) + 6 <= 79,
        7 + title@.len() <= spec_max_len(spec_split_lines(msg@)) + 6,
        spec_split_lines(msg@).len() + 3 <= win_size / 2,
    ensures
        r@ == spec_sgr_reset() + spec_dialog(title@, msg@, win_size) + spec_sgr_reset(),
{
    let mut r: Vec<char> = Vec::new();
    r.push('\u{1b}');
    r.push('[');
    r.push('m');
    let d = dialog(title, msg, win_size);
    push_all(&mut r, &d);
    r.push('\u{1b}');
    r.push('[');
    r.push('m');
    proof {
        assert(r@ =~= spec_sgr_reset() + spec_dialog(title@, msg@, win_size) + spec_sgr_reset());
    }
    r
}

} // verus!
