//! Viewport windower: keeps a window of `size` rows positioned over the
//! cached lines so that the cursor stays visible, moving the window as
//! little as possible.

use vstd::prelude::*;

verus! {

/// The visible range of lines: `start` is the index of the first visible
/// row, `size` the viewport height in rows.
#[derive(Clone, Copy, Debug, PartialEq, Eq, Structural)]
pub struct Window {
    pub start: u64,
    pub size: u16,
}

/// Where the window starts after it is told the cursor's line: unchanged
/// while the cursor is inside `[start, start + size)`, pulled up to the
/// cursor when the cursor is above, pushed down so the cursor becomes the
/// last visible row when the cursor is at or below the end.
pub open spec fn spec_follow_cursor(w: Window, line: u64) -> u64 {
    if line < w.start {
        line
    } else if line >= w.start + w.size {
        if line + 1 - w.size > u64::MAX {
            0
        } else {
            (line + 1 - w.size) as u64
        }
    } else {
        w.start
    }
}

/// Where the window starts after the per-tick recompute against the number
/// of cached lines: the candidate start (the midpoint of the current span,
/// which is the current start itself) is first clamped so the window does
/// not run past the cache, then overridden if it would leave the cursor
/// above the window or more than a full page below it.
pub open spec fn spec_update(w: Window, cursor: u64, nb_line: u64) -> u64 {
    let clamped = if w.start + w.size > nb_line {
        if nb_line < w.size {
            0
        } else {
            (nb_line - w.size) as u64
        }
    } else {
        w.start
    };
    if cursor < clamped {
        cursor
    } else if cursor > clamped + w.size {
        (cursor - w.size) as u64
    } else {
        clamped
    }
}

impl Window {
    pub fn new() -> (w: Window)
        ensures
            w.start == 0,
            w.size == 0,
    {
        Window { start: 0, size: 0 }
    }

    /// Follow an engine-driven cursor move; the viewport height is kept.
    pub fn set_cursor(&mut self, cursor: &crate::view::Cursor)
        ensures
            final(self).size == old(self).size,
            final(self).start == spec_follow_cursor(*old(self), cursor.line),
    {
        if cursor.line < self.start {
            self.start = cursor.line;
        } else if cursor.line as u128 >= self.start as u128 + self.size as u128 {
            if self.size > 0 {
                self.start = cursor.line - self.size as u64 + 1;
            } else if cursor.line < u64::MAX {
                self.start = cursor.line + 1;
            } else {
                self.start = 0;
            }
        }
    }

    pub fn resize(&mut self, height: u16)
        ensures
            final(self).size == height,
            final(self).start == old(self).start,
    {
        self.size = height;
    }

    pub fn size(&self) -> (s: u16)
        ensures
            s == self.size,
    {
        self.size
    }

    pub fn start(&self) -> (s: u64)
        ensures
            s == self.start,
    {
        self.start
    }

    /// One past the last visible row.
    pub fn end(&self) -> (e: u64)
        requires
            self.start + self.size <= u64::MAX,
        ensures
            e == self.start + self.size,
    {
        self.size as u64 + self.start
    }

    /// Per-tick recompute of the window start against the cached line count.
    pub fn update(&mut self, cursor: u64, nb_line: u64)
        ensures
            final(self).size == old(self).size,
            final(self).start == spec_update(*old(self), cursor, nb_line),
    {
        let mut new_start: u64 = self.start;

        if new_start as u128 + self.size as u128 > nb_line as u128 {
            if nb_line < self.size as u64 {
                new_start = 0;
            } else {
                new_start = nb_line - self.size as u64;
            }
        }
        if cursor < new_start {
            new_start = cursor;
        } else if cursor as u128 > new_start as u128 + self.size as u128 {
            new_start = cursor - self.size as u64;
        }

        self.start = new_start;
    }
}

/// The viewport invariant: once the window has followed the cursor and been
/// recomputed against the cache, the cursor's line lies inside the window
/// whenever it lies inside the cached range and the viewport has at least
/// one row. Equality at both window boundaries is covered: a cursor exactly
/// at `start` stays the first visible row, one at `start + size - 1` the
/// last.
pub proof fn lemma_cursor_in_window(w: Window, line: u64, nb_line: u64)
    requires
        w.size >= 1,
        line < nb_line,
    ensures
        ({
            let followed = Window { start: spec_follow_cursor(w, line), size: w.size };
            let start = spec_update(followed, line, nb_line);
            start <= line < start + w.size
        }),
{
}

/// Recomputing the window start is idempotent: feeding the recomputed
/// window through the same recompute moves nothing.
pub proof fn lemma_update_idempotent(w: Window, cursor: u64, nb_line: u64)
    ensures
        ({
            let once = Window { start: spec_update(w, cursor, nb_line), size: w.size };
            spec_update(once, cursor, nb_line) == once.start
        }),
{
}

/// Resizing to the same height twice leaves the same window as resizing
/// once: `resize` only stores the height, and the recompute that follows it
/// moves nothing the second time.
pub proof fn lemma_resize_idempotent(w: Window, height: u16, cursor: u64, nb_line: u64)
    ensures
        ({
            let resized = Window { start: w.start, size: height };
            let once = Window { start: spec_update(resized, cursor, nb_line), size: height };
            spec_update(once, cursor, nb_line) == once.start
        }),
{
    let resized = Window { start: w.start, size: height };
    let once = Window { start: spec_update(resized, cursor, nb_line), size: height };
    lemma_update_idempotent(resized, cursor, nb_line);
}

} // verus!
