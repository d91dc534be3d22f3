//! A document view: the cache, cursor and window of one open document,
//! and the pipeline that renders the visible window into display-ready
//! rows. Text is transformed character by character: control characters
//! become two-character caret notation, tabs expand to the next tab stop,
//! everything else is shown as it is; style annotations are resolved to
//! absolute offsets and spliced into the rendered text back to front.

use vstd::prelude::*;
use vstd::view::View as _;
use std::collections::HashMap;
use crate::client::{Client, CoreRequest, EditOp, ModifySelection};
use crate::line_cache::{CacheView, Line, LineCache, LineView, StyleDef, Update};
use crate::style::{spec_reset_style, spec_set_style, reset_style, set_style, Style};
use crate::window::{spec_follow_cursor, spec_update, Window};
use crate::tty::{Event, Key, MouseButton, MouseEvent};

verus! {

broadcast use vstd::std_specs::hash::group_hash_axioms;

/// Absolute position of the cursor in the document, in (line, column)
/// coordinates. It is set only from engine notifications, never inferred
/// locally.
#[derive(Clone, Copy, Debug, PartialEq, Eq, Structural)]
pub struct Cursor {
    pub line: u64,
    pub column: u64,
}

impl Cursor {
    pub fn origin() -> (c: Cursor)
        ensures
            c.line == 0,
            c.column == 0,
    {
        Cursor { line: 0, column: 0 }
    }
}

/// Addition of two display positions, wrapping at the width of the
/// terminal coordinate type. Either summand is at most 65535, so at most
/// one wrap happens.
pub open spec fn spec_wrap16(x: int) -> u16 {
    if x > 65535 {
        (x - 65536) as u16
    } else {
        x as u16
    }
}

/// A character the renderer shows in caret notation.
pub open spec fn spec_is_control(c: char) -> bool {
    ('\u{0}' <= c && c <= '\u{8}') || ('\u{a}' <= c && c <= '\u{1f}') || c == '\u{7f}'
}

/// The letter of a control character's caret notation: the character's
/// code with its sixth bit flipped.
pub open spec fn spec_caret(c: char) -> char {
    if c == '\u{7f}' {
        '?'
    } else {
        ((c as int) + 0x40) as char
    }
}

/// How many columns a tab starting at `pos` fills: up to the next multiple
/// of the tab width.
pub open spec fn spec_tab_fill(tab: u16, pos: u16) -> u16 {
    if tab == 0 {
        0
    } else {
        (tab - pos % tab) as u16
    }
}

/// How many columns a character occupies when drawn at `pos`.
pub open spec fn spec_char_width(tab: u16, pos: u16, c: char) -> u16 {
    if spec_is_control(c) {
        2
    } else if c == '\t' {
        spec_tab_fill(tab, pos)
    } else {
        1
    }
}

pub open spec fn spec_spaces(n: int) -> Seq<char> {
    Seq::new(n as nat, |i: int| ' ')
}

/// The rendered form of a line's text, drawn from display position `pos`:
/// caret notation for control characters, spaces to the next tab stop for
/// tabs, every other character itself.
pub open spec fn spec_escape(tab: u16, pos: u16, s: Seq<char>) -> Seq<char>
    decreases s.len(),
{
    if s.len() == 0 {
        Seq::empty()
    } else {
        let c = s[0];
        let w = spec_char_width(tab, pos, c);
        let rest = spec_escape(tab, spec_wrap16(pos + w), s.drop_first());
        if spec_is_control(c) {
            seq!['^', spec_caret(c)] + rest
        } else if c == '\t' {
            spec_spaces(w as int) + rest
        } else {
            seq![c] + rest
        }
    }
}

/// The display position reached after drawing the first `k` characters of
/// `s` from position `pos`.
pub open spec fn spec_column_after(tab: u16, s: Seq<char>, k: int, pos: u16) -> u16
    decreases s.len(),
{
    if k <= 0 || s.len() == 0 {
        pos
    } else {
        spec_column_after(
            tab,
            s.drop_first(),
            k - 1,
            spec_wrap16(pos + spec_char_width(tab, pos, s[0])),
        )
    }
}

/// The number of decimal digits of a line count.
pub open spec fn spec_digit_count(n: u64) -> int {
    if n < 10 {
        1
    } else if n < 100 {
        2
    } else if n < 1000 {
        3
    } else if n < 10000 {
        4
    } else if n < 100000 {
        5
    } else if n < 1000000 {
        6
    } else if n < 10000000 {
        7
    } else if n < 100000000 {
        8
    } else if n < 1000000000 {
        9
    } else if n < 10000000000 {
        10
    } else if n < 100000000000 {
        11
    } else if n < 1000000000000 {
        12
    } else if n < 10000000000000 {
        13
    } else if n < 100000000000000 {
        14
    } else if n < 1000000000000000 {
        15
    } else if n < 10000000000000000 {
        16
    } else if n < 100000000000000000 {
        17
    } else if n < 1000000000000000000 {
        18
    } else if n < 10000000000000000000 {
        19
    } else {
        20
    }
}

/// An offset clamped to the range of in-buffer positions.
pub open spec fn spec_clamp_offset(x: int) -> int {
    if x < 0 {
        0
    } else if x > usize::MAX {
        usize::MAX as int
    } else {
        x
    }
}

/// The (offset, control sequence) insertions a line's style annotations
/// resolve to, in annotation order: each annotation starts at the previous
/// annotation's end plus its own (possibly negative) offset and contributes
/// an entering and a leaving insertion; an annotation whose style id is not
/// in the table is skipped, though it still moves the running end.
pub open spec fn spec_style_pairs(
    m: Map<u64, Style>,
    defs: Seq<StyleDef>,
    prev_end: int,
) -> Seq<(int, Seq<char>)>
    decreases defs.len(),
{
    if defs.len() == 0 {
        Seq::empty()
    } else {
        let d = defs[0];
        let start = spec_clamp_offset(prev_end + d.offset);
        let end = spec_clamp_offset(start + d.length);
        let rest = spec_style_pairs(m, defs.drop_first(), end);
        if m.contains_key(d.style_id) {
            seq![
                (start, spec_set_style(m[d.style_id])),
                (end, spec_reset_style(m[d.style_id])),
            ] + rest
        } else {
            rest
        }
    }
}

/// Stable insertion of a pair into a run sorted ascending by offset: it
/// lands after every pair with an offset at most its own.
pub open spec fn spec_insert_sorted(sorted: Seq<(int, Seq<char>)>, x: (int, Seq<char>)) -> Seq<
    (int, Seq<char>),
>
    decreases sorted.len(),
{
    if sorted.len() == 0 {
        seq![x]
    } else if sorted.last().0 <= x.0 {
        sorted.push(x)
    } else {
        spec_insert_sorted(sorted.drop_last(), x).push(sorted.last())
    }
}

/// Stable sort of the pairs, ascending by offset.
pub open spec fn spec_sort_pairs(s: Seq<(int, Seq<char>)>) -> Seq<(int, Seq<char>)>
    decreases s.len(),
{
    if s.len() == 0 {
        Seq::empty()
    } else {
        spec_insert_sorted(spec_sort_pairs(s.drop_last()), s.last())
    }
}

/// One insertion spliced into the rendered text: at its offset, or at the
/// end when the offset lies past the text.
pub open spec fn spec_splice_one(t: Seq<char>, o: int, s: Seq<char>) -> Seq<char> {
    if o >= t.len() {
        t + s
    } else {
        t.take(o) + s + t.skip(o)
    }
}

/// All insertions spliced in, in the order given.
pub open spec fn spec_splice(t: Seq<char>, pairs: Seq<(int, Seq<char>)>) -> Seq<char>
    decreases pairs.len(),
{
    if pairs.len() == 0 {
        t
    } else {
        spec_splice(spec_splice_one(t, pairs[0].0, pairs[0].1), pairs.drop_first())
    }
}

/// The fully rendered form of one line: its escaped text with the style
/// insertions spliced in descending offset order, so that earlier splices
/// do not move the offsets of later ones.
pub open spec fn spec_line_rendered(m: Map<u64, Style>, l: LineView, tab: u16) -> Seq<char> {
    let t = spec_escape(tab, 0, l.text);
    if l.styles.len() == 0 {
        t
    } else {
        spec_splice(t, spec_sort_pairs(spec_style_pairs(m, l.styles, 0)).reverse())
    }
}

/// The sum of the lengths of a run of insertions.
pub open spec fn spec_pairs_len(pairs: Seq<(int, Seq<char>)>) -> int
    decreases pairs.len(),
{
    if pairs.len() == 0 {
        0
    } else {
        pairs[0].1.len() + spec_pairs_len(pairs.drop_first())
    }
}

/// Splicing never loses or duplicates text: the spliced line is exactly as
/// long as the plain text plus everything inserted, so stripping the
/// inserted sequences again leaves a text of the original length. This
/// holds for every insertion order, overlapping annotations included.
pub proof fn lemma_splice_preserves_length(t: Seq<char>, pairs: Seq<(int, Seq<char>)>)
    requires
        forall|i: int| 0 <= i < pairs.len() ==> (#[trigger] pairs[i]).0 >= 0,
    ensures
        spec_splice(t, pairs).len() == t.len() + spec_pairs_len(pairs),
    decreases pairs.len(),
{
    if pairs.len() > 0 {
        let t1 = spec_splice_one(t, pairs[0].0, pairs[0].1);
        assert(t1.len() == t.len() + pairs[0].1.len());
        assert(forall|i: int|
            0 <= i < pairs.drop_first().len() ==> (#[trigger] pairs.drop_first()[i]).0 >= 0);
        lemma_splice_preserves_length(t1, pairs.drop_first());
    }
}

/// The number of decimal digits of a line count.
pub fn count_digits(n: u64) -> (r: u16)
    ensures
        r == spec_digit_count(n),
        1 <= r <= 20,
{
    let ghost n0 = n;
    let mut n = n;
    let mut r: u16 = 1;
    while n >= 10
        invariant
            1 <= r <= 20,
            r + spec_digit_count(n) == 1 + spec_digit_count(n0),
            spec_digit_count(n0) <= 20,
        decreases n,
    {
        n = n / 10;
        r = r + 1;
    }
    r
}

/// Whether the renderer shows this character in caret notation.
pub fn is_control(c: char) -> (r: bool)
    ensures
        r == spec_is_control(c),
{
    ('\u{0}' <= c && c <= '\u{8}') || ('\u{a}' <= c && c <= '\u{1f}') || c == '\u{7f}'
}

/// The letter of a control character's caret notation.
pub fn caret_char(c: char) -> (r: char)
    requires
        spec_is_control(c),
    ensures
        r == spec_caret(c),
{
    if c == '\u{7f}' {
        '?'
    } else {
        let code: u32 = c as u32;
        (code + 0x40) as u8 as char
    }
}

/// The rendered form of a line's text: caret notation for control
/// characters, spaces to the next tab stop for tabs, every other character
/// itself.
pub fn escape_text(tab: u16, text: &Vec<char>) -> (r: Vec<char>)
    requires
        tab > 0,
    ensures
        r@ == spec_escape(tab, 0, text@),
{
    let mut out: Vec<char> = Vec::new();
    let mut pos: u16 = 0;
    let mut i: usize = 0;
    proof {
        assert(text@.skip(0) =~= text@);
        assert(out@ + spec_escape(tab, pos, text@) =~= spec_escape(tab, 0, text@));
    }
    while i < text.len()
        invariant
            tab > 0,
            i <= text@.len(),
            spec_escape(tab, 0, text@) == out@ + spec_escape(tab, pos, text@.skip(i as int)),
        decreases text@.len() - i,
    {
        let c = text[i];
        let ghost rem = text@.skip(i as int);
        let ghost pre = out@;
        let ghost pos0 = pos;
        proof {
            assert(rem[0] == c);
            assert(rem.drop_first() =~= text@.skip(i + 1 as int));
        }
        if is_control(c) {
            out.push('^');
            out.push(caret_char(c));
            pos = pos.wrapping_add(2);
            proof {
                assert(out@ =~= pre + seq!['^', spec_caret(c)]);
            }
        } else if c == '\t' {
            let fill: u16 = tab - pos % tab;
            let mut j: u16 = 0;
            while j < fill
                invariant
                    j <= fill,
                    out@ == pre + spec_spaces(j as int),
                decreases fill - j,
            {
                out.push(' ');
                proof {
                    assert(out@ =~= pre + spec_spaces(j + 1 as int));
                }
                j = j + 1;
            }
            pos = pos.wrapping_add(fill);
        } else {
            out.push(c);
            pos = pos.wrapping_add(1);
            proof {
                assert(out@ =~= pre + seq![c]);
            }
        }
        proof {
            let w = spec_char_width(tab, pos0, c);
            assert(pos == spec_wrap16(pos0 + w));
            assert(out@ + spec_escape(tab, pos, text@.skip(i + 1 as int)) =~= pre + spec_escape(
                tab,
                pos0,
                rem,
            ));
        }
        i = i + 1;
    }
    proof {
        assert(text@.skip(i as int) =~= Seq::<char>::empty());
        assert(out@ =~= out@ + spec_escape(tab, pos, text@.skip(i as int)));
    }
    out
}

/// The views of resolved style insertions.
pub open spec fn spec_pair_views(s: Seq<(usize, Vec<char>)>) -> Seq<(int, Seq<char>)> {
    Seq::new(s.len(), |i: int| (s[i].0 as int, s[i].1@))
}

/// An insertion offset clamped to the range of in-buffer positions.
fn clamp_offset(x: i128) -> (r: usize)
    requires
        -0x8000_0000_0000_0000_0000_0000 <= x <= 0x8000_0000_0000_0000_0000_0000,
    ensures
        r == spec_clamp_offset(x as int),
{
    if x < 0 {
        0
    } else if x > usize::MAX as i128 {
        usize::MAX
    } else {
        x as usize
    }
}

/// Resolve a line's style annotations against the style table, in
/// annotation order, to (offset, control sequence) insertions.
pub fn resolve_style_pairs(styles: &HashMap<u64, Style>, defs: &Vec<StyleDef>) -> (r: Vec<
    (usize, Vec<char>),
>)
    ensures
        spec_pair_views(r@) == spec_style_pairs(styles@, defs@, 0),
{
    let mut r: Vec<(usize, Vec<char>)> = Vec::new();
    let mut prev_end: usize = 0;
    let mut i: usize = 0;
    proof {
        assert(spec_pair_views(r@) =~= Seq::<(int, Seq<char>)>::empty());
        assert(defs@.skip(0) =~= defs@);
    }
    while i < defs.len()
        invariant
            i <= defs@.len(),
            spec_style_pairs(styles@, defs@, 0) == spec_pair_views(r@) + spec_style_pairs(
                styles@,
                defs@.skip(i as int),
                prev_end as int,
            ),
        decreases defs@.len() - i,
    {
        let d = defs[i];
        let ghost rem = defs@.skip(i as int);
        let ghost pre = spec_pair_views(r@);
        let ghost prev0 = prev_end;
        proof {
            assert(rem[0] == d);
            assert(rem.drop_first() =~= defs@.skip(i + 1 as int));
        }
        let start: usize = clamp_offset(prev_end as i128 + d.offset as i128);
        let end: usize = clamp_offset(start as i128 + d.length as i128);
        prev_end = end;
        match styles.get(&d.style_id) {
            Some(st) => {
                let enter = set_style(st);
                let leave = reset_style(st);
                r.push((start, enter));
                r.push((end, leave));
                proof {
                    assert(styles@.contains_key(d.style_id) && styles@[d.style_id] == *st);
                    assert(spec_pair_views(r@) =~= pre + seq![
                        (start as int, spec_set_style(*st)),
                        (end as int, spec_reset_style(*st)),
                    ]);
                }
            },
            None => {
                proof {
                    assert(!styles@.contains_key(d.style_id));
                }
            },
        }
        proof {
            assert(spec_pair_views(r@) + spec_style_pairs(
                styles@,
                defs@.skip(i + 1 as int),
                prev_end as int,
            ) =~= pre + spec_style_pairs(styles@, rem, prev0 as int));
        }
        i = i + 1;
    }
    proof {
        assert(defs@.skip(i as int) =~= Seq::<StyleDef>::empty());
        assert(spec_pair_views(r@) =~= spec_pair_views(r@) + spec_style_pairs(
            styles@,
            defs@.skip(i as int),
            prev_end as int,
        ));
    }
    r
}

/// Stable insertion into a run sorted ascending by offset.
fn insert_sorted_pair(sorted: Vec<(usize, Vec<char>)>, x: (usize, Vec<char>)) -> (r: Vec<
    (usize, Vec<char>),
>)
    ensures
        spec_pair_views(r@) == spec_insert_sorted(spec_pair_views(sorted@), (x.0 as int, x.1@)),
    decreases sorted@.len(),
{
    let mut sorted = sorted;
    let ghost sv = spec_pair_views(sorted@);
    if sorted.len() == 0 {
        sorted.push(x);
        proof {
            assert(spec_pair_views(sorted@) =~= seq![(x.0 as int, x.1@)]);
        }
        sorted
    } else {
        let last_off = sorted[sorted.len() - 1].0;
        proof {
            assert(sv.last() == (sorted@.last().0 as int, sorted@.last().1@));
        }
        if last_off <= x.0 {
            sorted.push(x);
            proof {
                assert(spec_pair_views(sorted@) =~= sv.push((x.0 as int, x.1@)));
            }
            sorted
        } else {
            let popped = sorted.pop().unwrap();
            let ghost sv_dropped = spec_pair_views(sorted@);
            proof {
                assert(sv_dropped =~= sv.drop_last());
                assert((popped.0 as int, popped.1@) == sv.last());
            }
            let mut r = insert_sorted_pair(sorted, x);
            let ghost rv = spec_pair_views(r@);
            r.push(popped);
            proof {
                assert(spec_pair_views(r@) =~= rv.push(sv.last()));
            }
            r
        }
    }
}

/// Stable sort of the insertions, ascending by offset.
fn sort_pairs(v: Vec<(usize, Vec<char>)>) -> (r: Vec<(usize, Vec<char>)>)
    ensures
        spec_pair_views(r@) == spec_sort_pairs(spec_pair_views(v@)),
    decreases v@.len(),
{
    let mut v = v;
    let ghost vv = spec_pair_views(v@);
    if v.len() == 0 {
        proof {
            assert(spec_pair_views(v@) =~= Seq::<(int, Seq<char>)>::empty());
        }
        v
    } else {
        let x = v.pop().unwrap();
        proof {
            assert(spec_pair_views(v@) =~= vv.drop_last());
            assert((x.0 as int, x.1@) == vv.last());
        }
        let sorted = sort_pairs(v);
        insert_sorted_pair(sorted, x)
    }
}

/// The insertions in reverse order.
fn reverse_pairs(v: Vec<(usize, Vec<char>)>) -> (r: Vec<(usize, Vec<char>)>)
    ensures
        spec_pair_views(r@) == spec_pair_views(v@).reverse(),
{
    let ghost vv = spec_pair_views(v@);
    let mut v = v;
    let mut r: Vec<(usize, Vec<char>)> = Vec::new();
    while v.len() > 0
        invariant
            r@.len() + v@.len() == vv.len(),
            spec_pair_views(v@) == vv.take(v@.len() as int),
            forall|j: int|
                0 <= j < r@.len() ==> spec_pair_views(r@)[j] == vv[vv.len() - 1 - j],
        decreases v@.len(),
    {
        let ghost pre_r = spec_pair_views(r@);
        let ghost pre_v = spec_pair_views(v@);
        let x = v.pop().unwrap();
        proof {
            assert(spec_pair_views(v@) =~= pre_v.drop_last());
            assert((x.0 as int, x.1@) == pre_v.last());
            assert(pre_v.last() == vv[v@.len() as int]);
        }
        r.push(x);
        proof {
            assert(spec_pair_views(v@) =~= vv.take(v@.len() as int));
            assert forall|j: int| 0 <= j < r@.len() implies spec_pair_views(r@)[j] == vv[vv.len()
                - 1 - j] by {
                if j < r@.len() - 1 {
                    assert(spec_pair_views(r@)[j] == pre_r[j]);
                }
            }
        }
    }
    proof {
        assert(spec_pair_views(r@) =~= vv.reverse());
    }
    r
}

/// Splice one insertion into the text at its offset (or at the end when
/// the offset lies past the text).
fn splice_one(text: &Vec<char>, off: usize, s: &Vec<char>) -> (r: Vec<char>)
    ensures
        r@ == spec_splice_one(text@, off as int, s@),
{
    if off >= text.len() {
        let mut r = crate::command_prompt::clone_chars(text);
        let mut j: usize = 0;
        while j < s.len()
            invariant
                j <= s@.len(),
                r@ == text@ + s@.take(j as int),
            decreases s@.len() - j,
        {
            r.push(s[j]);
            proof {
                assert(r@ =~= text@ + s@.take(j + 1 as int));
            }
            j = j + 1;
        }
        proof {
            assert(r@ =~= text@ + s@);
        }
        r
    } else {
        let mut r: Vec<char> = Vec::new();
        let mut j: usize = 0;
        proof {
            assert(r@ =~= text@.take(0));
        }
        while j < off
            invariant
                j <= off < text@.len(),
                r@ == text@.take(j as int),
            decreases off - j,
        {
            r.push(text[j]);
            proof {
                assert(r@ =~= text@.take(j + 1 as int));
            }
            j = j + 1;
        }
        let mut k: usize = 0;
        while k < s.len()
            invariant
                k <= s@.len(),
                off < text@.len(),
                r@ == text@.take(off as int) + s@.take(k as int),
            decreases s@.len() - k,
        {
            r.push(s[k]);
            proof {
                assert(r@ =~= text@.take(off as int) + s@.take(k + 1 as int));
            }
            k = k + 1;
        }
        proof {
            assert(s@.take(s@.len() as int) =~= s@);
        }
        let mut j2: usize = off;
        while j2 < text.len()
            invariant
                off <= j2 <= text@.len(),
                r@ == text@.take(off as int) + s@ + text@.subrange(off as int, j2 as int),
            decreases text@.len() - j2,
        {
            r.push(text[j2]);
            proof {
                assert(r@ =~= text@.take(off as int) + s@ + text@.subrange(
                    off as int,
                    j2 + 1 as int,
                ));
            }
            j2 = j2 + 1;
        }
        proof {
            assert(text@.subrange(off as int, text@.len() as int) =~= text@.skip(off as int));
            assert(r@ =~= text@.take(off as int) + s@ + text@.skip(off as int));
        }
        r
    }
}

/// Splice all insertions into the text, in the order given.
fn splice_all(text: Vec<char>, pairs: &Vec<(usize, Vec<char>)>) -> (r: Vec<char>)
    ensures
        r@ == spec_splice(text@, spec_pair_views(pairs@)),
{
    let ghost pv = spec_pair_views(pairs@);
    let ghost t0 = text@;
    let mut text = text;
    let mut i: usize = 0;
    proof {
        assert(pv.skip(0) =~= pv);
    }
    while i < pairs.len()
        invariant
            i <= pairs@.len(),
            pv == spec_pair_views(pairs@),
            spec_splice(t0, pv) == spec_splice(text@, pv.skip(i as int)),
        decreases pairs@.len() - i,
    {
        let ghost rem = pv.skip(i as int);
        let ghost t_pre = text@;
        proof {
            assert(rem[0] == (pairs@[i as int].0 as int, pairs@[i as int].1@));
            assert(rem.drop_first() =~= pv.skip(i + 1 as int));
        }
        text = splice_one(&text, pairs[i].0, &pairs[i].1);
        proof {
            assert(spec_splice(t_pre, rem) == spec_splice(text@, pv.skip(i + 1 as int)));
        }
        i = i + 1;
    }
    proof {
        assert(pv.skip(i as int) =~= Seq::<(int, Seq<char>)>::empty());
    }
    text
}


/// One display-ready row: the absolute 0-based line number of a content
/// row (shown 1-based), or nothing for a padding row past the cached
/// content, and the row's rendered text.
#[derive(Clone, Debug)]
pub struct RenderRow {
    pub line_no: Option<u64>,
    pub text: Vec<char>,
}

/// The mathematical value of a row.
pub ghost struct RowView {
    pub line_no: Option<u64>,
    pub text: Seq<char>,
}

impl vstd::prelude::View for RenderRow {
    type V = RowView;

    open spec fn view(&self) -> RowView {
        RowView { line_no: self.line_no, text: self.text@ }
    }
}

pub open spec fn spec_row_views(s: Seq<RenderRow>) -> Seq<RowView> {
    Seq::new(s.len(), |i: int| s[i]@)
}

/// The status line: the mode name, the file shown, and the 1-based cursor
/// coordinates.
#[derive(Clone, Debug)]
pub struct StatusLine {
    pub state: &'static str,
    pub file: Option<String>,
    pub line: u64,
    pub column: u64,
}

/// A 1-based terminal position for the cursor.
#[derive(Clone, Copy, Debug, PartialEq, Eq, Structural)]
pub struct CursorPos {
    pub x: u16,
    pub y: u16,
}

/// Everything one render tick of a view produces.
#[derive(Clone, Debug)]
pub struct Frame {
    pub rows: Vec<RenderRow>,
    pub gutter_size: u16,
    pub status: StatusLine,
    pub cursor: Option<CursorPos>,
}

/// Pushing a row whose view is the next element of `m` extends the viewed
/// prefix by one.
proof fn lemma_rows_push_take(prev: Seq<RenderRow>, x: RenderRow, base: Seq<RowView>, m: Seq<RowView>, i: int)
    requires
        0 <= i < m.len(),
        spec_row_views(prev) == base + m.take(i),
        x@ == m[i],
    ensures
        spec_row_views(prev.push(x)) =~= base + m.take(i + 1),
{
    assert(spec_row_views(prev).len() == prev.len());
    assert(prev.len() == base.len() + i);
    let lhs = spec_row_views(prev.push(x));
    let rhs = base + m.take(i + 1);
    assert forall|j: int| 0 <= j < lhs.len() implies lhs[j] == rhs[j] by {
        if j < prev.len() {
            assert(lhs[j] == prev.push(x)[j]@);
            assert(prev.push(x)[j] == prev[j]);
            assert(spec_row_views(prev)[j] == prev[j]@);
            assert((base + m.take(i))[j] == spec_row_views(prev)[j]);
            if j >= base.len() {
                assert(m.take(i)[j - base.len()] == m[j - base.len()]);
                assert(m.take(i + 1)[j - base.len()] == m[j - base.len()]);
            }
        } else {
            assert(j == prev.len());
            assert(lhs[j] == x@);
            assert(m.take(i + 1)[i] == m[i]);
        }
    }
}

/// The absolute line number shown on the `i`-th visible row.
pub open spec fn spec_row_no(c: CacheView, w: Window, i: int) -> u64 {
    crate::line_cache::spec_sat_add(crate::line_cache::spec_sat_add(c.before, w.start), i as u64)
}

/// How many content rows the window shows of the cache.
pub open spec fn spec_visible_count(c: CacheView, w: Window) -> int {
    let total = c.lines.len() as int;
    let start = w.start as int;
    if start >= total {
        0
    } else if total - start < w.size as int {
        total - start
    } else {
        w.size as int
    }
}

/// How many padding rows follow them: one for each viewport row past the
/// whole cached content.
pub open spec fn spec_padding_count(c: CacheView, w: Window) -> int {
    if (w.size as int) > c.lines.len() as int {
        w.size as int - c.lines.len() as int
    } else {
        0
    }
}

/// Rendering reads only cached lines: however the cache's counts and
/// window moved, every content row comes from a line index strictly below
/// the cached line count, and rows past the content are padding. So a
/// cache merge followed by a render never touches a line index at or past
/// the cached count.
pub proof fn lemma_render_rows_in_bounds(c: CacheView, w: Window, m: Map<u64, Style>, tab: u16)
    ensures
        0 <= spec_visible_count(c, w),
        spec_visible_count(c, w) > 0 ==> w.start + spec_visible_count(c, w) <= c.lines.len(),
        spec_render_rows(c, w, m, tab).len() == spec_visible_count(c, w) + spec_padding_count(
            c,
            w,
        ),
{
}

/// The rows one render tick shows: the cached lines the window reaches,
/// each rendered and numbered, then padding rows for viewport rows past
/// the cached content.
pub open spec fn spec_render_rows(c: CacheView, w: Window, m: Map<u64, Style>, tab: u16) -> Seq<
    RowView,
> {
    let content = Seq::new(
        spec_visible_count(c, w) as nat,
        |i: int|
            RowView {
                line_no: Some(spec_row_no(c, w, i)),
                text: spec_line_rendered(m, c.lines[w.start + i], tab),
            },
    );
    let padding = Seq::new(
        spec_padding_count(c, w) as nat,
        |i: int| RowView { line_no: None::<u64>, text: Seq::empty() },
    );
    content + padding
}

/// Where the terminal cursor belongs: the top left corner over an empty
/// cache; nowhere when the cursor'''s line is before the cache, not cached,
/// or above the window; otherwise its window row and its display column
/// after the gutter.
pub open spec fn spec_cursor_pos(c: CacheView, w: Window, cur: Cursor, gutter: u16, tab: u16) -> Option<CursorPos> {
    if c.lines.len() == 0 {
        Some(CursorPos { x: 1, y: 1 })
    } else if cur.line < c.before {
        None
    } else {
        let li = cur.line - c.before;
        if li >= c.lines.len() {
            None
        } else if li < w.start {
            None
        } else {
            let lp = li - w.start;
            let col = spec_column_after(tab, c.lines[li as int].text, cur.column as int, 0);
            Some(
                CursorPos {
                    x: spec_wrap16(spec_wrap16(gutter + col) + 1),
                    y: spec_wrap16((lp % 0x10000) + 1),
                },
            )
        }
    }
}

/// The document column a horizontal screen offset `y` resolves to on a
/// line, walking rendered character widths from `idx`: one past the first
/// character whose drawn end reaches `y`, or one past the line'''s last
/// character when the line ends first.
pub open spec fn spec_click_col(tab: u16, t: Seq<char>, pos: u16, idx: int, y: u64) -> u64
    decreases t.len() - idx,
{
    if idx < 0 || idx >= t.len() {
        crate::line_cache::spec_sat_add(t.len() as u64, 1)
    } else {
        let np = spec_wrap16(pos + spec_char_width(tab, pos, t[idx]));
        if np as u64 >= y {
            (idx + 1) as u64
        } else {
            spec_click_col(tab, t, np, idx + 1, y)
        }
    }
}

/// A 1-based screen coordinate turned 0-based, as 64-bit arithmetic turns
/// it: a zero wraps around.
pub open spec fn spec_dec1(v: u16) -> u64 {
    if v == 0 {
        u64::MAX
    } else {
        (v - 1) as u64
    }
}

/// The absolute document location a click at visible row `x`, horizontal
/// offset `y` resolves to: the row'''s absolute line number and, within a
/// cached line, column 0 at offset 0 or the column its rendered widths
/// reach; a click outside the cached lines is passed through unresolved.
pub open spec fn spec_click_location(c: CacheView, w: Window, tab: u16, x: u64, y: u64) -> (
    u64,
    u64,
) {
    let lineno = crate::line_cache::spec_sat_add(crate::line_cache::spec_sat_add(x, c.before), w.start);
    if x < c.lines.len() {
        if y == 0 {
            (lineno, 0)
        } else {
            (lineno, spec_click_col(tab, c.lines[x as int].text, 0, 0, y))
        }
    } else {
        (x, y)
    }
}

/// The requests one terminal event maps to: characters insert, named keys
/// navigate or delete, a left press resolves to a click, the wheel moves,
/// a hold resolves to a drag, and everything else is dropped.
pub open spec fn spec_input_ops(c: CacheView, w: Window, tab: u16, ev: Event) -> Seq<EditOp> {
    match ev {
        Event::Key(k) => match k {
            Key::Char(ch) => seq![EditOp::Insert(ch)],
            Key::Backspace => seq![EditOp::Backspace],
            Key::Delete => seq![EditOp::Delete],
            Key::Left => seq![EditOp::Left],
            Key::Right => seq![EditOp::Right],
            Key::Up => seq![EditOp::Up],
            Key::Down => seq![EditOp::Down],
            Key::Home => seq![EditOp::LineStart],
            Key::End => seq![EditOp::LineEnd],
            Key::PageUp => seq![EditOp::PageUp],
            Key::PageDown => seq![EditOp::PageDown],
            _ => Seq::empty(),
        },
        Event::Mouse(me) => match me {
            MouseEvent::Press(btn, col, row) => match btn {
                MouseButton::Left => {
                    let loc = spec_click_location(c, w, tab, spec_dec1(row), spec_dec1(col));
                    seq![EditOp::Click(loc.0, loc.1)]
                },
                MouseButton::WheelUp => seq![EditOp::Up],
                MouseButton::WheelDown => seq![EditOp::Down],
                _ => Seq::empty(),
            },
            MouseEvent::Release(_, _) => Seq::empty(),
            MouseEvent::Hold(col, row) => {
                let loc = spec_click_location(c, w, tab, spec_dec1(row), spec_dec1(col));
                seq![EditOp::Drag(loc.0, loc.1)]
            },
        },
        Event::Unsupported => Seq::empty(),
    }
}

/// The window after the per-tick recompute: unchanged when the cursor
/// stands before the cache (the inconsistency is logged upstream and the
/// step skipped), else recomputed against the cursor'''s cache-relative
/// line.
pub open spec fn spec_windowed(win: Window, cur: Cursor, c: CacheView) -> Window {
    if cur.line < c.before {
        win
    } else {
        Window {
            start: spec_update(win, (cur.line - c.before) as u64, c.lines.len() as u64),
            size: win.size,
        }
    }
}

/// The total height the cache knows of.
pub open spec fn spec_cache_height(c: CacheView) -> u64 {
    crate::line_cache::spec_sat_add(
        crate::line_cache::spec_sat_add(c.before, c.lines.len() as u64),
        c.after,
    )
}

/// The gutter after the recompute: one more than the digits of the known
/// document height, untouched when the recompute was skipped.
pub open spec fn spec_guttered(gutter: u16, cur: Cursor, c: CacheView) -> u16 {
    if cur.line < c.before {
        gutter
    } else {
        (1 + spec_digit_count(spec_cache_height(c))) as u16
    }
}

/// One open document as this session sees it: its cache, cursor, window,
/// optional file path, and the queue of requests it sends the engine.
#[derive(Clone, Debug)]
pub struct View {
    pub cache: LineCache,
    pub cursor: Cursor,
    pub window: Window,
    pub file: Option<String>,
    pub client: Client,
    pub gutter_size: u16,
    pub tab_width: u16,
}

impl View {
    /// The tab width is always positive, so tab stops exist.
    pub open spec fn wf(&self) -> bool {
        self.tab_width > 0
    }

    pub fn new(client: Client, file: Option<String>) -> (v: View)
        ensures
            v.client == client,
            v.file == file,
            v.cache@.before == 0,
            v.cache@.after == 0,
            v.cache@.lines.len() == 0,
            v.cursor.line == 0 && v.cursor.column == 0,
            v.window.start == 0 && v.window.size == 0,
            v.gutter_size == 0,
            v.tab_width == 4,
            v.wf(),
    {
        View {
            client,
            cache: LineCache::default(),
            cursor: Cursor::origin(),
            window: Window::new(),
            file,
            gutter_size: 0,
            tab_width: 4,
        }
    }

    /// Merge an engine content delta into the cache.
    pub fn update_cache(&mut self, update: Update)
        ensures
            final(self).cache@ == crate::line_cache::spec_cache_update(
                old(self).cache@,
                update.ops(),
            ),
            final(self).cursor == old(self).cursor,
            final(self).window == old(self).window,
            final(self).file == old(self).file,
            final(self).client == old(self).client,
            final(self).gutter_size == old(self).gutter_size,
            final(self).tab_width == old(self).tab_width,
    {
        self.cache.update(update);
    }

    /// Take the cursor where an engine notification put it and let the
    /// window follow it.
    pub fn set_cursor(&mut self, line: u64, column: u64)
        ensures
            final(self).cursor.line == line,
            final(self).cursor.column == column,
            final(self).window.size == old(self).window.size,
            final(self).window.start == spec_follow_cursor(old(self).window, line),
            final(self).cache == old(self).cache,
            final(self).file == old(self).file,
            final(self).client == old(self).client,
            final(self).gutter_size == old(self).gutter_size,
            final(self).tab_width == old(self).tab_width,
    {
        self.cursor = Cursor { line, column };
        let cursor = self.cursor;
        self.window.set_cursor(&cursor);
    }

    /// Recompute the window and the gutter against the cache, skipping the
    /// recompute when the cursor stands before the cache.
    pub fn update_window(&mut self)
        ensures
            final(self).window == spec_windowed(old(self).window, old(self).cursor, old(self).cache@),
            final(self).gutter_size == spec_guttered(
                old(self).gutter_size,
                old(self).cursor,
                old(self).cache@,
            ),
            final(self).cache == old(self).cache,
            final(self).cursor == old(self).cursor,
            final(self).file == old(self).file,
            final(self).client == old(self).client,
            final(self).tab_width == old(self).tab_width,
    {
        if self.cursor.line < self.cache.before() {
            return ;
        }
        let cursor_line = self.cursor.line - self.cache.before();
        let nb_lines = self.cache.lines().len() as u64;
        self.gutter_size = 1 + count_digits(self.cache.height());
        self.window.update(cursor_line, nb_lines);
    }

    /// Change the viewport height, recompute the window, and ask the
    /// engine to keep pushing the line range the window now covers.
    pub fn resize(&mut self, height: u16)
        ensures
            ({
                let w1 = Window { start: old(self).window.start, size: height };
                let w2 = spec_windowed(w1, old(self).cursor, old(self).cache@);
                let a = crate::line_cache::spec_sat_add(old(self).cache@.before, w2.start);
                let b = crate::line_cache::spec_sat_add(
                    old(self).cache@.after,
                    crate::line_cache::spec_sat_add(w2.start, w2.size as u64),
                );
                &&& final(self).window == w2
                &&& final(self).gutter_size == spec_guttered(
                    old(self).gutter_size,
                    old(self).cursor,
                    old(self).cache@,
                )
                &&& final(self).client.view_id == old(self).client.view_id
                &&& final(self).client.ops@ == old(self).client.ops@.push(EditOp::Scroll(a, b))
            }),
            final(self).cache == old(self).cache,
            final(self).cursor == old(self).cursor,
            final(self).file == old(self).file,
            final(self).tab_width == old(self).tab_width,
    {
        self.window.resize(height);
        self.update_window();
        let a = crate::line_cache::sat_add_u64(self.cache.before(), self.window.start());
        let b = crate::line_cache::sat_add_u64(
            self.cache.after(),
            crate::line_cache::sat_add_u64(self.window.start(), self.window.size() as u64),
        );
        self.client.scroll(a, b);
    }

    pub fn collapse_selections(&mut self)
        ensures
            spec_only_ops_changed(*old(self), *final(self)),
            final(self).client.ops@ == old(self).client.ops@.push(EditOp::CollapseSelections),
    {
        self.client.collapse_selections();
    }

    pub fn select_line(&mut self)
        ensures
            spec_only_ops_changed(*old(self), *final(self)),
            final(self).client.ops@ == old(self).client.ops@.push(EditOp::LineStart).push(
                EditOp::LineEndSel,
            ),
    {
        self.client.select_line();
    }

    pub fn select_line_end(&mut self)
        ensures
            spec_only_ops_changed(*old(self), *final(self)),
            final(self).client.ops@ == old(self).client.ops@.push(EditOp::LineEndSel),
    {
        self.client.select_line_end();
    }

    pub fn delete_line(&mut self)
        ensures
            spec_only_ops_changed(*old(self), *final(self)),
            final(self).client.ops@ == old(self).client.ops@.push(EditOp::LineStart).push(
                EditOp::LineEndSel,
            ).push(EditOp::Delete),
    {
        self.client.delete_line();
    }

    pub fn goto_line(&mut self, line: u64)
        ensures
            spec_only_ops_changed(*old(self), *final(self)),
            final(self).client.ops@ == old(self).client.ops@.push(EditOp::GotoLine(line)),
    {
        self.client.goto_line(line);
    }

    /// The copy request, whose clipboard value the session waits for.
    pub fn copy(&self) -> (r: CoreRequest)
        ensures
            r == CoreRequest::Copy(self.client.view_id),
    {
        self.client.copy()
    }

    pub fn paste(&mut self, buffer: &String)
        ensures
            spec_only_ops_changed(*old(self), *final(self)),
            final(self).client.ops@ == old(self).client.ops@.push(EditOp::Paste(*buffer)),
    {
        self.client.paste(buffer);
    }

    /// The cut request, whose clipboard value the session waits for.
    pub fn cut(&self) -> (r: CoreRequest)
        ensures
            r == CoreRequest::Cut(self.client.view_id),
    {
        self.client.cut()
    }

    pub fn undo(&mut self)
        ensures
            spec_only_ops_changed(*old(self), *final(self)),
            final(self).client.ops@ == old(self).client.ops@.push(EditOp::Undo),
    {
        self.client.undo();
    }

    pub fn redo(&mut self)
        ensures
            spec_only_ops_changed(*old(self), *final(self)),
            final(self).client.ops@ == old(self).client.ops@.push(EditOp::Redo),
    {
        self.client.redo();
    }

    pub fn find(&mut self, search_term: Vec<char>, case_sensitive: bool, regex: bool, whole_words: bool)
        ensures
            spec_only_ops_changed(*old(self), *final(self)),
            final(self).client.ops@ == old(self).client.ops@.push(
                EditOp::Find { term: search_term, case_sensitive, regex, whole_words },
            ),
    {
        self.client.find(search_term, case_sensitive, regex, whole_words);
    }

    pub fn find_next(&mut self, wrap_around: bool, allow_same: bool, modify_selection: ModifySelection)
        ensures
            spec_only_ops_changed(*old(self), *final(self)),
            final(self).client.ops@ == old(self).client.ops@.push(
                EditOp::FindNext { wrap_around, allow_same, modify_selection },
            ),
    {
        self.client.find_next(wrap_around, allow_same, modify_selection);
    }

    pub fn find_prev(&mut self, wrap_around: bool, allow_same: bool, modify_selection: ModifySelection)
        ensures
            spec_only_ops_changed(*old(self), *final(self)),
            final(self).client.ops@ == old(self).client.ops@.push(
                EditOp::FindPrev { wrap_around, allow_same, modify_selection },
            ),
    {
        self.client.find_prev(wrap_around, allow_same, modify_selection);
    }

    pub fn find_all(&mut self)
        ensures
            spec_only_ops_changed(*old(self), *final(self)),
            final(self).client.ops@ == old(self).client.ops@.push(EditOp::FindAll),
    {
        self.client.find_all();
    }

    pub fn highlight_find(&mut self, visible: bool)
        ensures
            spec_only_ops_changed(*old(self), *final(self)),
            final(self).client.ops@ == old(self).client.ops@.push(EditOp::HighlightFind(visible)),
    {
        self.client.highlight_find(visible);
    }

    /// The save request for the view'''s file, whose outcome the session
    /// waits for; a view on no file has nothing to save into.
    pub fn save(&self) -> (r: Option<CoreRequest>)
        ensures
            match self.file {
                Some(f) => r == Some(CoreRequest::Save(self.client.view_id, f)),
                None => r is None,
            },
    {
        match &self.file {
            Some(f) => Some(self.client.save(f)),
            None => None,
        }
    }

    /// How many columns a tab starting at `position` fills.
    pub fn tab_width_at_position(&self, position: u16) -> (r: u16)
        requires
            self.wf(),
        ensures
            r == spec_tab_fill(self.tab_width, position),
    {
        self.tab_width - position % self.tab_width
    }

    /// How many columns a character occupies when drawn at `position`.
    pub fn translate_char_width(&self, position: u16, c: char) -> (r: u16)
        requires
            self.wf(),
        ensures
            r == spec_char_width(self.tab_width, position, c),
    {
        if is_control(c) {
            2
        } else if c == '\t' {
            self.tab_width_at_position(position)
        } else {
            1
        }
    }

    /// The style insertions of one line, resolved against the style table
    /// and ordered by descending offset so that splicing front to back
    /// never moves an offset still to be used.
    pub fn get_style_sequences(&self, styles: &HashMap<u64, Style>, line: &Line) -> (r: Vec<
        (usize, Vec<char>),
    >)
        ensures
            spec_pair_views(r@) == spec_sort_pairs(
                spec_style_pairs(styles@, line.styles@, 0),
            ).reverse(),
    {
        let resolved = resolve_style_pairs(styles, &line.styles);
        let sorted = sort_pairs(resolved);
        reverse_pairs(sorted)
    }

    /// The fully rendered form of one line: its escaped text with the
    /// style insertions spliced in.
    pub fn escape_control_and_add_styles(&self, styles: &HashMap<u64, Style>, line: &Line) -> (r:
        Vec<char>)
        requires
            self.wf(),
        ensures
            r@ == spec_line_rendered(styles@, line@, self.tab_width),
    {
        let text = escape_text(self.tab_width, &line.text);
        if line.styles.len() == 0 {
            return text;
        }
        let pairs = self.get_style_sequences(styles, line);
        splice_all(text, &pairs)
    }

    /// The rows of one render tick.
    pub fn render_lines(&self, styles: &HashMap<u64, Style>) -> (r: Vec<RenderRow>)
        requires
            self.wf(),
        ensures
            spec_row_views(r@) == spec_render_rows(self.cache@, self.window, styles@, self.tab_width),
    {
        let ghost c = self.cache@;
        let ghost w = self.window;
        let ghost all = spec_render_rows(c, w, styles@, self.tab_width);
        let ghost content = Seq::new(
            spec_visible_count(c, w) as nat,
            |i: int|
                RowView {
                    line_no: Some(spec_row_no(c, w, i)),
                    text: spec_line_rendered(styles@, c.lines[w.start + i], self.tab_width),
                },
        );
        let mut rows: Vec<RenderRow> = Vec::new();
        let total: usize = self.cache.lines().len();
        let vc: usize = if self.window.start() >= total as u64 {
            0
        } else if (total as u64 - self.window.start()) < self.window.size() as u64 {
            total - self.window.start() as usize
        } else {
            self.window.size() as usize
        };
        proof {
            assert(vc == spec_visible_count(c, w));
            assert(spec_row_views(rows@) =~= Seq::<RowView>::empty() + content.take(0));
        }
        let mut line_no: u64 = crate::line_cache::sat_add_u64(
            self.cache.before(),
            self.window.start(),
        );
        let mut i: usize = 0;
        while i < vc
            invariant
                self.wf(),
                i <= vc,
                vc == spec_visible_count(c, w),
                c == self.cache@,
                w == self.window,
                content == Seq::new(
                    spec_visible_count(c, w) as nat,
                    |j: int|
                        RowView {
                            line_no: Some(spec_row_no(c, w, j)),
                            text: spec_line_rendered(styles@, c.lines[w.start + j], self.tab_width),
                        },
                ),
                total == c.lines.len(),
                total <= usize::MAX,
                vc > 0 ==> w.start as int + vc <= total,
                line_no == spec_row_no(c, w, i as int),
                spec_row_views(rows@) == Seq::<RowView>::empty() + content.take(i as int),
            decreases vc - i,
        {
            proof {
                assert(w.start < c.lines.len());
            }
            let idx: usize = self.window.start() as usize + i;
            proof {
                assert(idx == w.start + i);
                assert(crate::line_cache::spec_line_views(self.cache.lines@)[idx as int]
                    == self.cache.lines@[idx as int]@);
            }
            let text = self.escape_control_and_add_styles(styles, &self.cache.lines()[idx]);
            let row = RenderRow { line_no: Some(line_no), text };
            let ghost prev = rows@;
            proof {
                assert(row@ == content[i as int]);
            }
            rows.push(row);
            proof {
                lemma_rows_push_take(prev, row, Seq::<RowView>::empty(), content, i as int);
            }
            line_no = crate::line_cache::sat_add_u64(line_no, 1);
            proof {
                assert(line_no == spec_row_no(c, w, i + 1));
            }
            i = i + 1;
        }
        proof {
            assert(content.take(vc as int) =~= content);
            assert(spec_row_views(rows@) =~= content);
        }
        let ghost padding = Seq::new(
            spec_padding_count(c, w) as nat,
            |i: int| RowView { line_no: None::<u64>, text: Seq::empty() },
        );
        let pc: usize = if self.window.size() as usize > total {
            self.window.size() as usize - total
        } else {
            0
        };
        proof {
            assert(pc == spec_padding_count(c, w));
            assert(spec_row_views(rows@) =~= content + padding.take(0));
        }
        let mut k: usize = 0;
        while k < pc
            invariant
                k <= pc,
                pc == spec_padding_count(c, w),
                content == Seq::new(
                    spec_visible_count(c, w) as nat,
                    |j: int|
                        RowView {
                            line_no: Some(spec_row_no(c, w, j)),
                            text: spec_line_rendered(styles@, c.lines[w.start + j], self.tab_width),
                        },
                ),
                padding == Seq::new(
                    spec_padding_count(c, w) as nat,
                    |j: int| RowView { line_no: None::<u64>, text: Seq::empty() },
                ),
                spec_row_views(rows@) == content + padding.take(k as int),
            decreases pc - k,
        {
            let row = RenderRow { line_no: None, text: Vec::new() };
            let ghost prev = rows@;
            proof {
                assert(row@ == padding[k as int]);
            }
            rows.push(row);
            proof {
                lemma_rows_push_take(prev, row, content, padding, k as int);
            }
            k = k + 1;
        }
        proof {
            assert(padding.take(pc as int) =~= padding);
            assert(spec_row_views(rows@) =~= all);
        }
        rows
    }

    /// The status line: the mode name, the file shown, and the 1-based
    /// cursor coordinates.
    pub fn render_status(&self, state: &'static str) -> (r: StatusLine)
        ensures
            r.state == state,
            r.file == self.file,
            r.line == crate::line_cache::spec_sat_add(self.cursor.line, 1),
            r.column == crate::line_cache::spec_sat_add(self.cursor.column, 1),
    {
        StatusLine {
            state,
            file: match &self.file {
                Some(f) => Some(crate::client::clone_string(f)),
                None => None,
            },
            line: crate::line_cache::sat_add_u64(self.cursor.line, 1),
            column: crate::line_cache::sat_add_u64(self.cursor.column, 1),
        }
    }

    /// Where the terminal cursor belongs this tick, if it can be shown.
    pub fn render_cursor(&self) -> (r: Option<CursorPos>)
        requires
            self.wf(),
        ensures
            r == spec_cursor_pos(self.cache@, self.window, self.cursor, self.gutter_size, self.tab_width),
    {
        if self.cache.is_empty() {
            return Some(CursorPos { x: 1, y: 1 });
        }
        if self.cursor.line < self.cache.before() {
            return None;
        }
        let line_idx = self.cursor.line - self.cache.before();
        if line_idx >= self.cache.lines().len() as u64 {
            return None;
        }
        if line_idx < self.window.start() {
            return None;
        }
        let line_pos = line_idx - self.window.start();
        let line = &self.cache.lines()[line_idx as usize];
        proof {
            assert(crate::line_cache::spec_line_views(self.cache.lines@)[line_idx as int]
                == self.cache.lines@[line_idx as int]@);
        }
        let col = self.column_for(&line.text, self.cursor.column);
        let x = self.gutter_size.wrapping_add(col).wrapping_add(1);
        let y = ((line_pos % 65536) as u16).wrapping_add(1);
        Some(CursorPos { x, y })
    }

    /// The display column reached after the first `k` characters of a
    /// line's text.
    pub fn column_for(&self, text: &Vec<char>, k: u64) -> (r: u16)
        requires
            self.wf(),
        ensures
            r == spec_column_after(self.tab_width, text@, k as int, 0),
    {
        let ghost tab = self.tab_width;
        let mut pos: u16 = 0;
        let mut i: usize = 0;
        proof {
            assert(text@.skip(0) =~= text@);
        }
        while i < text.len() && (i as u64) < k
            invariant
                self.wf(),
                tab == self.tab_width,
                i <= text@.len(),
                i as u64 <= k,
                spec_column_after(tab, text@, k as int, 0) == spec_column_after(
                    tab,
                    text@.skip(i as int),
                    k - i,
                    pos,
                ),
            decreases text@.len() - i,
        {
            let ghost rem = text@.skip(i as int);
            proof {
                assert(rem[0] == text@[i as int]);
                assert(rem.drop_first() =~= text@.skip(i + 1 as int));
            }
            let w = self.translate_char_width(pos, text[i]);
            pos = pos.wrapping_add(w);
            i = i + 1;
        }
        proof {
            if i < text@.len() {
                assert(i as u64 == k);
            } else {
                assert(text@.skip(i as int).len() == 0);
            }
        }
        pos
    }

    /// One full render tick: recompute the window, then produce the rows,
    /// the status line and the cursor position.
    pub fn render(&mut self, styles: &HashMap<u64, Style>, state: &'static str) -> (r: Frame)
        requires
            old(self).wf(),
        ensures
            final(self).window == spec_windowed(old(self).window, old(self).cursor, old(self).cache@),
            final(self).gutter_size == spec_guttered(
                old(self).gutter_size,
                old(self).cursor,
                old(self).cache@,
            ),
            final(self).cache == old(self).cache,
            final(self).cursor == old(self).cursor,
            final(self).file == old(self).file,
            final(self).client == old(self).client,
            final(self).tab_width == old(self).tab_width,
            spec_row_views(r.rows@) == spec_render_rows(
                final(self).cache@,
                final(self).window,
                styles@,
                final(self).tab_width,
            ),
            r.gutter_size == final(self).gutter_size,
            r.status.state == state,
            r.status.file == final(self).file,
            r.status.line == crate::line_cache::spec_sat_add(final(self).cursor.line, 1),
            r.status.column == crate::line_cache::spec_sat_add(final(self).cursor.column, 1),
            r.cursor == spec_cursor_pos(
                final(self).cache@,
                final(self).window,
                final(self).cursor,
                final(self).gutter_size,
                final(self).tab_width,
            ),
    {
        self.update_window();
        let rows = self.render_lines(styles);
        let status = self.render_status(state);
        let cursor = self.render_cursor();
        Frame { rows, gutter_size: self.gutter_size, status, cursor }
    }

    /// The bottom row an error message overlays.
    pub fn render_error(&self, msg: &String) -> (r: (u16, String))
        ensures
            r.0 == spec_wrap16(self.window.size + 1),
            r.1 == *msg,
    {
        (self.window.size().wrapping_add(1), crate::client::clone_string(msg))
    }

    /// The absolute document location a click at visible row `x`,
    /// horizontal offset `y` resolves to.
    pub fn get_click_location(&self, x: u64, y: u64) -> (r: (u64, u64))
        requires
            self.wf(),
        ensures
            r == spec_click_location(self.cache@, self.window, self.tab_width, x, y),
    {
        let lineno = crate::line_cache::sat_add_u64(
            crate::line_cache::sat_add_u64(x, self.cache.before()),
            self.window.start(),
        );
        if x < self.cache.lines().len() as u64 {
            proof {
                assert(crate::line_cache::spec_line_views(self.cache.lines@)[x as int]
                    == self.cache.lines@[x as int]@);
            }
            let line = &self.cache.lines()[x as usize];
            if y == 0 {
                return (lineno, 0);
            }
            let ghost tab = self.tab_width;
            let ghost t = line.text@;
            let mut text_len: u16 = 0;
            let mut idx: usize = 0;
            proof {
                assert(lineno == crate::line_cache::spec_sat_add(
                    crate::line_cache::spec_sat_add(x, self.cache@.before),
                    self.window.start,
                ));
            }
            while idx < line.text.len()
                invariant
                    self.wf(),
                    tab == self.tab_width,
                    idx <= t.len(),
                    t == line.text@,
                    y >= 1,
                    lineno == crate::line_cache::spec_sat_add(
                        crate::line_cache::spec_sat_add(x, self.cache@.before),
                        self.window.start,
                    ),
                    x < self.cache@.lines.len(),
                    t == self.cache@.lines[x as int].text,
                    spec_click_col(tab, t, 0, 0, y) == spec_click_col(tab, t, text_len, idx as int, y),
                decreases t.len() - idx,
            {
                let ghost tl0 = text_len;
                let w = self.translate_char_width(text_len, line.text[idx]);
                text_len = text_len.wrapping_add(w);
                proof {
                    assert(text_len == spec_wrap16(tl0 + spec_char_width(tab, tl0, t[idx as int])));
                }
                if text_len as u64 >= y {
                    return (lineno, idx as u64 + 1);
                }
                idx = idx + 1;
            }
            (lineno, crate::line_cache::sat_add_u64(line.text.len() as u64, 1))
        } else {
            (x, y)
        }
    }

    /// Resolve a click and forward it.
    pub fn click(&mut self, x: u64, y: u64)
        requires
            old(self).wf(),
        ensures
            spec_only_ops_changed(*old(self), *final(self)),
            ({
                let loc = spec_click_location(old(self).cache@, old(self).window, old(self).tab_width, x, y);
                final(self).client.ops@ == old(self).client.ops@.push(EditOp::Click(loc.0, loc.1))
            }),
    {
        let loc = self.get_click_location(x, y);
        self.client.click(loc.0, loc.1);
    }

    /// Resolve a drag and forward it.
    pub fn drag(&mut self, x: u64, y: u64)
        requires
            old(self).wf(),
        ensures
            spec_only_ops_changed(*old(self), *final(self)),
            ({
                let loc = spec_click_location(old(self).cache@, old(self).window, old(self).tab_width, x, y);
                final(self).client.ops@ == old(self).client.ops@.push(EditOp::Drag(loc.0, loc.1))
            }),
    {
        let loc = self.get_click_location(x, y);
        self.client.drag(loc.0, loc.1);
    }

    /// Map one terminal event straight to engine requests, with no local
    /// text mutation.
    pub fn handle_input(&mut self, event: Event)
        requires
            old(self).wf(),
        ensures
            spec_only_ops_changed(*old(self), *final(self)),
            final(self).client.ops@ == old(self).client.ops@ + spec_input_ops(
                old(self).cache@,
                old(self).window,
                old(self).tab_width,
                event,
            ),
    {
        let ghost pre = self.client.ops@;
        match event {
            Event::Key(key) => match key {
                Key::Char(c) => self.client.insert(c),
                Key::Backspace => self.client.backspace(),
                Key::Delete => self.client.delete(),
                Key::Left => self.client.left(),
                Key::Right => self.client.right(),
                Key::Up => self.client.up(),
                Key::Down => self.client.down(),
                Key::Home => self.client.home(),
                Key::End => self.client.end(),
                Key::PageUp => self.client.page_up(),
                Key::PageDown => self.client.page_down(),
                _ => {},
            },
            Event::Mouse(mouse_event) => match mouse_event {
                MouseEvent::Press(press_event, col, row) => match press_event {
                    MouseButton::Left => self.click(dec1(row), dec1(col)),
                    MouseButton::WheelUp => self.client.up(),
                    MouseButton::WheelDown => self.client.down(),
                    _ => {},
                },
                MouseEvent::Release(_, _) => {},
                MouseEvent::Hold(col, row) => self.drag(dec1(row), dec1(col)),
            },
            Event::Unsupported => {},
        }
        proof {
            assert(self.client.ops@ =~= pre + spec_input_ops(
                old(self).cache@,
                old(self).window,
                old(self).tab_width,
                event,
            ));
        }
    }
}

/// A 1-based screen coordinate turned 0-based in 64-bit arithmetic.
pub fn dec1(v: u16) -> (r: u64)
    ensures
        r == spec_dec1(v),
{
    (v as u64).wrapping_sub(1)
}


/// Everything of a view except its request queue is unchanged, and the
/// queue belongs to the same engine view.
pub open spec fn spec_only_ops_changed(v0: View, v1: View) -> bool {
    &&& v1.cache == v0.cache
    &&& v1.cursor == v0.cursor
    &&& v1.window == v0.window
    &&& v1.file == v0.file
    &&& v1.gutter_size == v0.gutter_size
    &&& v1.tab_width == v0.tab_width
    &&& v1.client.view_id == v0.client.view_id
}

} // verus!
