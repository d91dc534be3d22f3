//! The sparse local copy of a document: a run of cached lines together
//! with counts of the lines known to exist before and after the run, and
//! the merge of engine content deltas into it. A delta is a program of
//! operations (copy, skip, invalidate, insert, update) that is run against
//! the old cache to produce the new one.

use vstd::prelude::*;

verus! {

/// One style annotation of a line: an offset from the end of the previous
/// annotation (possibly negative), a length in characters, and the id of
/// the style to apply.
#[derive(Clone, Copy, Debug)]
pub struct StyleDef {
    pub offset: i64,
    pub length: u64,
    pub style_id: u64,
}

/// One cached line: its text and its style annotations.
#[derive(Clone, Debug)]
pub struct Line {
    pub text: Vec<char>,
    pub styles: Vec<StyleDef>,
}

/// The mathematical value of a line.
pub ghost struct LineView {
    pub text: Seq<char>,
    pub styles: Seq<StyleDef>,
}

impl View for Line {
    type V = LineView;

    open spec fn view(&self) -> LineView {
        LineView { text: self.text@, styles: self.styles@ }
    }
}

/// What one delta operation does.
#[derive(Clone, Copy, Debug, PartialEq, Eq, Structural)]
pub enum OperationKind {
    Copy,
    Skip,
    Invalidate,
    Insert,
    Update,
}

/// One operation of a content delta.
#[derive(Clone, Debug)]
pub struct Operation {
    pub operation_type: OperationKind,
    pub nb_lines: u64,
    pub lines: Vec<Line>,
}

/// The mathematical value of an operation.
pub ghost struct OperationView {
    pub operation_type: OperationKind,
    pub nb_lines: u64,
    pub lines: Seq<LineView>,
}

impl View for Operation {
    type V = OperationView;

    open spec fn view(&self) -> OperationView {
        OperationView {
            operation_type: self.operation_type,
            nb_lines: self.nb_lines,
            lines: Seq::new(self.lines@.len(), |i: int| self.lines@[i]@),
        }
    }
}

/// A content delta pushed by the engine for one view.
#[derive(Clone, Debug)]
pub struct Update {
    pub rev: Option<u64>,
    pub operations: Vec<Operation>,
    pub pristine: bool,
    pub view_id: u64,
}

impl Update {
    /// The mathematical value of the delta's program.
    pub open spec fn ops(&self) -> Seq<OperationView> {
        Seq::new(self.operations@.len(), |i: int| self.operations@[i]@)
    }
}

/// The cached window of a document's lines, with the counts of lines known
/// to exist before and after it.
#[derive(Clone, Debug)]
pub struct LineCache {
    pub invalid_before: u64,
    pub lines: Vec<Line>,
    pub invalid_after: u64,
}

/// The mathematical value of a cache.
pub ghost struct CacheView {
    pub before: u64,
    pub lines: Seq<LineView>,
    pub after: u64,
}

impl View for LineCache {
    type V = CacheView;

    open spec fn view(&self) -> CacheView {
        CacheView {
            before: self.invalid_before,
            lines: Seq::new(self.lines@.len(), |i: int| self.lines@[i]@),
            after: self.invalid_after,
        }
    }
}

/// Addition of line counts, pinned to the top of the type's range: counts
/// come off the wire and are never allowed to abort the merge.
pub open spec fn spec_sat_add(a: u64, b: u64) -> u64 {
    if a + b > u64::MAX {
        u64::MAX
    } else {
        (a + b) as u64
    }
}

pub open spec fn spec_min(a: u64, b: u64) -> u64 {
    if a < b {
        a
    } else {
        b
    }
}

/// A line with a trailing newline trimmed off its text.
pub open spec fn spec_trim_line(l: LineView) -> LineView {
    if l.text.len() > 0 && l.text.last() == '\n' {
        LineView { text: l.text.drop_last(), styles: l.styles }
    } else {
        l
    }
}

pub open spec fn spec_trim_lines(s: Seq<LineView>) -> Seq<LineView> {
    Seq::new(s.len(), |i: int| spec_trim_line(s[i]))
}

/// Copy `nb` lines from the front of the old cache to the back of the new
/// one: first invalid-before lines, then cached lines, then invalid-after
/// lines, each bucket for as many of `nb` as it holds. A count that runs
/// past what the old cache still has copies what is there and no more.
pub open spec fn spec_apply_copy(o: CacheView, n: CacheView, nb: u64) -> (CacheView, CacheView) {
    if o.before >= nb {
        (
            CacheView { before: (o.before - nb) as u64, ..o },
            CacheView { before: spec_sat_add(n.before, nb), ..n },
        )
    } else {
        let nb1 = (nb - o.before) as u64;
        let n1 = CacheView { before: spec_sat_add(n.before, o.before), ..n };
        let o1 = CacheView { before: 0, ..o };
        let k = spec_min(nb1, o1.lines.len() as u64);
        let n2 = CacheView { lines: n1.lines + o1.lines.take(k as int), ..n1 };
        let o2 = CacheView { lines: o1.lines.skip(k as int), ..o1 };
        let nb2 = (nb1 - k) as u64;
        if nb2 == 0 {
            (o2, n2)
        } else {
            let moved = spec_min(o2.after, nb2);
            (
                CacheView { after: (o2.after - moved) as u64, ..o2 },
                CacheView { after: spec_sat_add(n2.after, moved), ..n2 },
            )
        }
    }
}

/// Drop `nb` lines from the front of the old cache, bucket by bucket as in
/// the copy, without putting anything into the new cache.
pub open spec fn spec_apply_skip(o: CacheView, nb: u64) -> CacheView {
    if o.before > nb {
        CacheView { before: (o.before - nb) as u64, ..o }
    } else {
        let nb1 = (nb - o.before) as u64;
        let o1 = CacheView { before: 0, ..o };
        if nb1 < o1.lines.len() {
            CacheView { lines: o1.lines.skip(nb1 as int), ..o1 }
        } else {
            let nb2 = (nb1 - o1.lines.len()) as u64;
            let o2 = CacheView { lines: Seq::empty(), ..o1 };
            let moved = spec_min(o2.after, nb2);
            CacheView { after: (o2.after - moved) as u64, ..o2 }
        }
    }
}

/// Mark `nb` lines invalid in the new cache: before its lines while it has
/// none yet, after them once it does.
pub open spec fn spec_apply_invalidate(n: CacheView, nb: u64) -> CacheView {
    if n.lines.len() == 0 {
        CacheView { before: spec_sat_add(n.before, nb), ..n }
    } else {
        CacheView { after: spec_sat_add(n.after, nb), ..n }
    }
}

/// Append fresh lines to the new cache, trimming each line's trailing
/// newline.
pub open spec fn spec_apply_insert(n: CacheView, lines: Seq<LineView>) -> CacheView {
    CacheView { lines: n.lines + spec_trim_lines(lines), ..n }
}

/// Re-style `nb` lines from the front of the old cache: each keeps its
/// text and takes the styles of its partner among the operation's lines;
/// lines past the operation's last partner are dropped. A count that runs
/// past the cached lines re-styles what is there and no more.
pub open spec fn spec_apply_update(o: CacheView, n: CacheView, nb: u64, lines: Seq<LineView>) -> (
    CacheView,
    CacheView,
) {
    let nb1 = spec_min(nb, o.lines.len() as u64);
    let kp = spec_min(nb1, lines.len() as u64);
    let merged = Seq::new(
        kp as nat,
        |i: int| LineView { text: o.lines[i].text, styles: lines[i].styles },
    );
    (
        CacheView { lines: o.lines.skip(nb1 as int), ..o },
        CacheView { lines: n.lines + merged, ..n },
    )
}

/// Run one operation against the old and new cache.
pub open spec fn spec_apply_op(o: CacheView, n: CacheView, op: OperationView) -> (
    CacheView,
    CacheView,
) {
    match op.operation_type {
        OperationKind::Copy => spec_apply_copy(o, n, op.nb_lines),
        OperationKind::Skip => (spec_apply_skip(o, op.nb_lines), n),
        OperationKind::Invalidate => (o, spec_apply_invalidate(n, op.nb_lines)),
        OperationKind::Insert => (o, spec_apply_insert(n, op.lines)),
        OperationKind::Update => spec_apply_update(o, n, op.nb_lines, op.lines),
    }
}

/// Run a whole program of operations.
pub open spec fn spec_apply_ops(o: CacheView, n: CacheView, ops: Seq<OperationView>) -> (
    CacheView,
    CacheView,
)
    decreases ops.len(),
{
    if ops.len() == 0 {
        (o, n)
    } else {
        let (o1, n1) = spec_apply_op(o, n, ops[0]);
        spec_apply_ops(o1, n1, ops.drop_first())
    }
}

pub open spec fn spec_empty_cache() -> CacheView {
    CacheView { before: 0, lines: Seq::empty(), after: 0 }
}

/// The cache a delta program turns the old cache into.
pub open spec fn spec_cache_update(c: CacheView, ops: Seq<OperationView>) -> CacheView {
    spec_apply_ops(c, spec_empty_cache(), ops).1
}

/// The views of a run of operations.
pub open spec fn spec_views_of_ops(v: Seq<Operation>) -> Seq<OperationView> {
    Seq::new(v.len(), |i: int| v[i]@)
}

/// Addition pinned to the top of the range instead of overflowing.
pub fn sat_add_u64(a: u64, b: u64) -> (r: u64)
    ensures
        r == spec_sat_add(a, b),
{
    if a > u64::MAX - b {
        u64::MAX
    } else {
        a + b
    }
}

/// Move the first `k` lines of `src` to the back of `dst`, in order.
fn move_front(src: &mut Vec<Line>, dst: &mut Vec<Line>, k: usize)
    requires
        k <= old(src)@.len(),
    ensures
        final(src)@ == old(src)@.skip(k as int),
        final(dst)@ == old(dst)@ + old(src)@.take(k as int),
{
    let mut i: usize = 0;
    while i < k
        invariant
            i <= k <= old(src)@.len(),
            src@ == old(src)@.skip(i as int),
            dst@ == old(dst)@ + old(src)@.take(i as int),
        decreases k - i,
    {
        let l = src.remove(0);
        proof {
            assert(l == old(src)@[i as int]);
            assert(src@ =~= old(src)@.skip(i + 1 as int));
        }
        dst.push(l);
        proof {
            assert(dst@ =~= old(dst)@ + old(src)@.take(i + 1 as int));
        }
        i = i + 1;
    }
    proof {
        assert(src@ =~= old(src)@.skip(k as int));
        assert(dst@ =~= old(dst)@ + old(src)@.take(k as int));
    }
}

/// Drop the first `k` lines of `v`.
fn drop_front(v: &mut Vec<Line>, k: usize)
    requires
        k <= old(v)@.len(),
    ensures
        final(v)@ == old(v)@.skip(k as int),
{
    let mut i: usize = 0;
    while i < k
        invariant
            i <= k <= old(v)@.len(),
            v@ == old(v)@.skip(i as int),
        decreases k - i,
    {
        v.remove(0);
        proof {
            assert(v@ =~= old(v)@.skip(i + 1 as int));
        }
        i = i + 1;
    }
}

/// The view of a run of lines.
pub open spec fn spec_line_views(s: Seq<Line>) -> Seq<LineView> {
    Seq::new(s.len(), |i: int| s[i]@)
}

/// Pushing a line whose view is the next element of `m` extends the viewed
/// prefix by one.
proof fn lemma_views_push_take(prev: Seq<Line>, x: Line, base: Seq<LineView>, m: Seq<LineView>, i: int)
    requires
        0 <= i < m.len(),
        spec_line_views(prev) == base + m.take(i),
        x@ == m[i],
    ensures
        spec_line_views(prev.push(x)) =~= base + m.take(i + 1),
{
    assert(spec_line_views(prev).len() == prev.len());
    assert(prev.len() == base.len() + i);
    let lhs = spec_line_views(prev.push(x));
    let rhs = base + m.take(i + 1);
    assert forall|j: int| 0 <= j < lhs.len() implies lhs[j] == rhs[j] by {
        if j < prev.len() {
            assert(lhs[j] == prev.push(x)[j]@);
            assert(prev.push(x)[j] == prev[j]);
            assert(spec_line_views(prev)[j] == prev[j]@);
            assert((base + m.take(i))[j] == spec_line_views(prev)[j]);
            if j >= base.len() {
                assert(m.take(i)[j - base.len()] == m[j - base.len()]);
                assert(m.take(i + 1)[j - base.len()] == m[j - base.len()]);
            }
        } else {
            assert(j == prev.len());
            assert(lhs[j] == x@);
            assert(m.take(i + 1)[i] == m[i]);
        }
    }
}

/// Copy `nb` lines from the front of the old cache to the back of the new
/// one.
fn apply_copy(o: &mut LineCache, n: &mut LineCache, nb: u64)
    ensures
        (final(o)@, final(n)@) == spec_apply_copy(old(o)@, old(n)@, nb),
{
    if o.invalid_before >= nb {
        o.invalid_before = o.invalid_before - nb;
        n.invalid_before = sat_add_u64(n.invalid_before, nb);
        return ;
    }
    let nb1: u64 = nb - o.invalid_before;
    n.invalid_before = sat_add_u64(n.invalid_before, o.invalid_before);
    o.invalid_before = 0;
    let k: usize = if nb1 < o.lines.len() as u64 {
        nb1 as usize
    } else {
        o.lines.len()
    };
    let ghost o_mid = o.lines@;
    let ghost n_mid = n.lines@;
    move_front(&mut o.lines, &mut n.lines, k);
    proof {
        assert(spec_line_views(n.lines@) =~= spec_line_views(n_mid) + spec_line_views(
            o_mid,
        ).take(k as int));
        assert(spec_line_views(o.lines@) =~= spec_line_views(o_mid).skip(k as int));
    }
    let nb2: u64 = nb1 - k as u64;
    if nb2 == 0 {
        return ;
    }
    let moved: u64 = if o.invalid_after < nb2 {
        o.invalid_after
    } else {
        nb2
    };
    o.invalid_after = o.invalid_after - moved;
    n.invalid_after = sat_add_u64(n.invalid_after, moved);
}

/// Drop `nb` lines from the front of the old cache.
fn apply_skip(o: &mut LineCache, nb: u64)
    ensures
        final(o)@ == spec_apply_skip(old(o)@, nb),
{
    if o.invalid_before > nb {
        o.invalid_before = o.invalid_before - nb;
        return ;
    }
    let nb1: u64 = nb - o.invalid_before;
    o.invalid_before = 0;
    if nb1 < o.lines.len() as u64 {
        let ghost o_mid = o.lines@;
        drop_front(&mut o.lines, nb1 as usize);
        proof {
            assert(spec_line_views(o.lines@) =~= spec_line_views(o_mid).skip(nb1 as int));
        }
    } else {
        let nb2: u64 = nb1 - o.lines.len() as u64;
        o.lines.clear();
        proof {
            assert(spec_line_views(o.lines@) =~= Seq::<LineView>::empty());
        }
        let moved: u64 = if o.invalid_after < nb2 {
            o.invalid_after
        } else {
            nb2
        };
        o.invalid_after = o.invalid_after - moved;
    }
}

/// Mark `nb` lines invalid in the new cache.
fn apply_invalidate(n: &mut LineCache, nb: u64)
    ensures
        final(n)@ == spec_apply_invalidate(old(n)@, nb),
{
    if n.lines.is_empty() {
        n.invalid_before = sat_add_u64(n.invalid_before, nb);
    } else {
        n.invalid_after = sat_add_u64(n.invalid_after, nb);
    }
}

/// Trim one trailing newline off a line's text.
fn trim_new_line(text: &mut Vec<char>)
    ensures
        final(text)@ == if old(text)@.len() > 0 && old(text)@.last() == '\n' {
            old(text)@.drop_last()
        } else {
            old(text)@
        },
{
    if text.len() > 0 && text[text.len() - 1] == '\n' {
        text.pop();
    }
}

/// Append fresh lines to the new cache, trimming trailing newlines.
fn apply_insert(n: &mut LineCache, lines: Vec<Line>)
    ensures
        final(n)@ == spec_apply_insert(old(n)@, spec_line_views(lines@)),
{
    let ghost all = lines@;
    let ghost n0 = n.lines@;
    let ghost m = spec_trim_lines(spec_line_views(all));
    proof {
        vstd::std_specs::vec::axiom_spec_len(&lines);
        assert(m.take(0) =~= Seq::<LineView>::empty());
        assert(spec_line_views(n.lines@) =~= spec_line_views(n0) + m.take(0));
    }
    let mut lines = lines;
    let mut i: usize = 0;
    while lines.len() > 0
        invariant
            i <= all.len() <= usize::MAX,
            m == spec_trim_lines(spec_line_views(all)),
            lines@ == all.skip(i as int),
            n.invalid_before == old(n).invalid_before,
            n.invalid_after == old(n).invalid_after,
            spec_line_views(n.lines@) == spec_line_views(n0) + m.take(i as int),
        decreases lines@.len(),
    {
        proof {
            assert(all.skip(i as int).len() > 0);
            assert(i < all.len());
        }
        let mut l = lines.remove(0);
        proof {
            assert(l == all.skip(i as int)[0]);
            assert(l == all[i as int]);
            assert(lines@ =~= all.skip(i + 1 as int));
        }
        trim_new_line(&mut l.text);
        let ghost prev = n.lines@;
        proof {
            assert(m[i as int] == spec_trim_line(all[i as int]@));
            assert(l@ == m[i as int]);
        }
        n.lines.push(l);
        proof {
            lemma_views_push_take(prev, l, spec_line_views(n0), m, i as int);
        }
        i = i + 1;
    }
    proof {
        assert(i == all.len());
        assert(m.take(i as int) =~= m);
        assert(n@.lines =~= old(n)@.lines + spec_trim_lines(spec_line_views(all)));
    }
}

/// Re-style `nb` lines from the front of the old cache with the styles of
/// their partners among the given lines.
fn apply_update_op(o: &mut LineCache, n: &mut LineCache, nb: u64, lines: Vec<Line>)
    ensures
        (final(o)@, final(n)@) == spec_apply_update(old(o)@, old(n)@, nb, spec_line_views(lines@)),
{
    proof {
        vstd::std_specs::vec::axiom_spec_len(&lines);
        vstd::std_specs::vec::axiom_spec_len(&o.lines);
    }
    let nb1: usize = if nb < o.lines.len() as u64 {
        nb as usize
    } else {
        o.lines.len()
    };
    let ghost o0 = o.lines@;
    let ghost n0 = n.lines@;
    let ghost all = lines@;
    let ghost kp = spec_min(nb1 as u64, all.len() as u64);
    let ghost merged = Seq::new(
        kp as nat,
        |i: int|
            LineView {
                text: o0[i]@.text,
                styles: all[i]@.styles,
            },
    );
    proof {
        assert(o0.skip(0) =~= o0);
        assert(merged.take(0) =~= Seq::<LineView>::empty());
        assert(spec_line_views(n.lines@) =~= spec_line_views(n0) + merged.take(0));
        assert(all.skip(0) =~= all);
    }
    let mut lines = lines;
    let mut i: usize = 0;
    while i < nb1
        invariant
            i <= nb1 <= o0.len(),
            all.len() <= usize::MAX,
            o0.len() <= usize::MAX,
            kp == spec_min(nb1 as u64, all.len() as u64),
            merged == Seq::new(
                kp as nat,
                |j: int| LineView { text: o0[j]@.text, styles: all[j]@.styles },
            ),
            o.lines@ == o0.skip(i as int),
            o.invalid_before == old(o).invalid_before,
            o.invalid_after == old(o).invalid_after,
            n.invalid_before == old(n).invalid_before,
            n.invalid_after == old(n).invalid_after,
            lines@ == all.skip(spec_min(i as u64, all.len() as u64) as int),
            spec_line_views(n.lines@) == spec_line_views(n0) + merged.take(
                spec_min(i as u64, kp as u64) as int,
            ),
        decreases nb1 - i,
    {
        proof {
            assert(o0.skip(i as int).len() > 0);
        }
        let lo = o.lines.remove(0);
        proof {
            assert(lo == o0.skip(i as int)[0]);
            assert(lo == o0[i as int]);
            assert(o.lines@ =~= o0.skip(i + 1 as int));
        }
        if lines.len() > 0 {
            proof {
                assert(lines@.len() > 0);
                assert(i < all.len()) by {
                    if i >= all.len() {
                        assert(spec_min(i as u64, all.len() as u64) == all.len());
                        assert(all.skip(all.len() as int).len() == 0);
                    }
                }
                assert(spec_min(i as u64, all.len() as u64) == i);
            }
            let lu = lines.remove(0);
            proof {
                assert(lu == all.skip(i as int)[0]);
                assert(lu == all[i as int]);
                assert(lines@ =~= all.skip(i + 1 as int));
                assert(spec_min((i + 1) as u64, all.len() as u64) == i + 1);
            }
            let ghost prev = n.lines@;
            let merged_line = Line { text: lo.text, styles: lu.styles };
            proof {
                assert(i < kp);
                assert(spec_min(i as u64, kp as u64) == i);
                assert(spec_min((i + 1) as u64, kp as u64) == i + 1);
                assert(merged[i as int] == LineView {
                    text: o0[i as int]@.text,
                    styles: all[i as int]@.styles,
                });
                assert(merged_line@ == merged[i as int]);
            }
            n.lines.push(merged_line);
            proof {
                lemma_views_push_take(prev, merged_line, spec_line_views(n0), merged, i as int);
            }
        } else {
            proof {
                assert(lines@.len() == 0);
                assert(all.len() <= i) by {
                    if i < all.len() {
                        assert(spec_min(i as u64, all.len() as u64) == i);
                        assert(all.skip(i as int).len() == all.len() - i);
                    }
                }
                assert(spec_min((i + 1) as u64, all.len() as u64) == spec_min(
                    i as u64,
                    all.len() as u64,
                ));
                assert(kp <= all.len());
                assert(spec_min((i + 1) as u64, kp as u64) == spec_min(i as u64, kp as u64));
            }
        }
        i = i + 1;
    }
    proof {
        assert(spec_min(nb1 as u64, kp as u64) == kp);
        assert(merged.take(kp as int) =~= merged);
        let want = spec_apply_update(old(o)@, old(n)@, nb, spec_line_views(all));
        assert(old(o)@.lines.len() == o0.len());
        assert(spec_min(nb, old(o)@.lines.len() as u64) == nb1 as u64);
        assert(o@.lines =~= want.0.lines);
        assert(want.1.lines =~= spec_line_views(n0) + merged) by {
            assert(spec_line_views(all).len() == all.len());
            let mm = Seq::new(
                kp as nat,
                |j: int|
                    LineView {
                        text: old(o)@.lines[j].text,
                        styles: spec_line_views(all)[j].styles,
                    },
            );
            assert(mm =~= merged);
            assert(want.1.lines == spec_line_views(n0) + mm);
        }
        assert(n@.lines =~= want.1.lines);
        assert(o@ == want.0);
        assert(n@ == want.1);
    }
}

impl Default for LineCache {
    /// The cache that knows nothing yet.
    fn default() -> (c: LineCache)
        ensures
            c@.before == 0,
            c@.after == 0,
            c@.lines.len() == 0,
    {
        LineCache { invalid_before: 0, lines: Vec::new(), invalid_after: 0 }
    }
}

impl LineCache {
    /// The number of lines known to exist before the cached run.
    pub fn before(&self) -> (r: u64)
        ensures
            r == self@.before,
    {
        self.invalid_before
    }

    /// The number of lines known to exist after the cached run.
    pub fn after(&self) -> (r: u64)
        ensures
            r == self@.after,
    {
        self.invalid_after
    }

    /// The cached lines.
    pub fn lines(&self) -> (r: &Vec<Line>)
        ensures
            r@ == self.lines@,
            spec_line_views(r@) == self@.lines,
    {
        &self.lines
    }

    /// The total height the document is known to have: the lines before,
    /// in, and after the cache (pinned to the top of the range).
    pub fn height(&self) -> (r: u64)
        ensures
            r == spec_sat_add(spec_sat_add(self@.before, self@.lines.len() as u64), self@.after),
    {
        sat_add_u64(sat_add_u64(self.invalid_before, self.lines.len() as u64), self.invalid_after)
    }

    pub fn is_empty(&self) -> (r: bool)
        ensures
            r <==> self@.lines.len() == 0,
    {
        self.lines.is_empty()
    }

    /// Merge a content delta into the cache by running its operations
    /// against the old cache.
    pub fn update(&mut self, update: Update)
        ensures
            final(self)@ == spec_cache_update(old(self)@, update.ops()),
    {
        let ghost all_ops = update.ops();
        let mut new_cache = LineCache { invalid_before: 0, lines: Vec::new(), invalid_after: 0 };
        proof {
            assert(new_cache@.lines =~= spec_empty_cache().lines);
        }
        let mut ops = update.operations;
        proof {
            assert(spec_views_of_ops(ops@) =~= all_ops);
        }
        while ops.len() > 0
            invariant
                spec_apply_ops(self@, new_cache@, spec_views_of_ops(ops@)) == spec_apply_ops(
                    old(self)@,
                    spec_empty_cache(),
                    all_ops,
                ),
            decreases ops@.len(),
        {
            let ghost pre_ops = spec_views_of_ops(ops@);
            let ghost pre_o = self@;
            let ghost pre_n = new_cache@;
            let op = ops.remove(0);
            proof {
                assert(op@ == pre_ops[0]);
                assert(spec_views_of_ops(ops@) =~= pre_ops.drop_first());
            }
            match op.operation_type {
                OperationKind::Copy => apply_copy(self, &mut new_cache, op.nb_lines),
                OperationKind::Skip => apply_skip(self, op.nb_lines),
                OperationKind::Invalidate => apply_invalidate(&mut new_cache, op.nb_lines),
                OperationKind::Insert => apply_insert(&mut new_cache, op.lines),
                OperationKind::Update => apply_update_op(
                    self,
                    &mut new_cache,
                    op.nb_lines,
                    op.lines,
                ),
            }
            proof {
                assert((self@, new_cache@) == spec_apply_op(pre_o, pre_n, pre_ops[0]));
                assert(spec_apply_ops(pre_o, pre_n, pre_ops) == spec_apply_ops(
                    self@,
                    new_cache@,
                    pre_ops.drop_first(),
                ));
            }
        }
        proof {
            assert(spec_views_of_ops(ops@).len() == 0);
            assert(spec_views_of_ops(ops@) =~= Seq::<OperationView>::empty());
        }
        *self = new_cache;
    }
}

} // verus!
