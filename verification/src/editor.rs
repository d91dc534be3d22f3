//! The session coordinator: the set of open document views, the routing
//! of engine notifications to them (buffering those whose view does not
//! exist yet), the in-flight open-file requests, and the session-wide
//! style table and clipboard.

use vstd::prelude::*;
use vstd::view::View as _;
use std::collections::HashMap;
use crate::client::{Client, CoreRequest, EditOp, ModifySelection};
use crate::line_cache::{spec_cache_update, CacheView, Update};
use crate::style::Style;
use crate::tty::Event;
use crate::view::{Cursor, View};
use crate::vix::{CoreEvent, ScrollTo};
use crate::window::{spec_follow_cursor, Window};

verus! {

broadcast use vstd::std_specs::hash::group_hash_axioms;

/// The position of an id in the run of view ids: the first index holding
/// it, or -1 when none does.
pub open spec fn spec_id_index(s: Seq<u64>, id: u64) -> int
    decreases s.len(),
{
    if s.len() == 0 {
        -1
    } else if s[0] == id {
        0
    } else {
        let r = spec_id_index(s.drop_first(), id);
        if r == -1 {
            -1
        } else {
            r + 1
        }
    }
}

/// The index an id is found at is in range, holds the id, and is the
/// first to do so; an id reported absent is absent.
pub proof fn lemma_id_index_props(s: Seq<u64>, id: u64)
    ensures
        spec_id_index(s, id) == -1 || (0 <= spec_id_index(s, id) < s.len() && s[spec_id_index(
            s,
            id,
        )] == id),
        spec_id_index(s, id) == -1 ==> forall|j: int| 0 <= j < s.len() ==> s[j] != id,
        spec_id_index(s, id) >= 0 ==> forall|j: int| 0 <= j < spec_id_index(s, id) ==> s[j] != id,
    decreases s.len(),
{
    if s.len() > 0 && s[0] != id {
        lemma_id_index_props(s.drop_first(), id);
        let r = spec_id_index(s.drop_first(), id);
        if r == -1 {
            assert forall|j: int| 0 <= j < s.len() implies s[j] != id by {
                if j > 0 {
                    assert(s.drop_first()[j - 1] == s[j]);
                }
            }
        } else {
            assert(s.drop_first()[r] == s[r + 1]);
            assert forall|j: int| 0 <= j < r + 1 implies s[j] != id by {
                if j > 0 {
                    assert(s.drop_first()[j - 1] == s[j]);
                }
            }
        }
    }
}

/// An id found at `i`, with no earlier occurrence, is indexed at `i`.
pub proof fn lemma_id_index_found(s: Seq<u64>, id: u64, i: int)
    requires
        0 <= i < s.len(),
        s[i] == id,
        forall|j: int| 0 <= j < i ==> s[j] != id,
    ensures
        spec_id_index(s, id) == i,
    decreases i,
{
    if i > 0 {
        assert(s[0] != id);
        assert forall|j: int| 0 <= j < i - 1 implies s.drop_first()[j] != id by {
            assert(s.drop_first()[j] == s[j + 1]);
        }
        assert(s.drop_first()[i - 1] == s[i]);
        lemma_id_index_found(s.drop_first(), id, i - 1);
    }
}

/// An id no element holds is indexed at -1.
pub proof fn lemma_id_index_none(s: Seq<u64>, id: u64)
    requires
        forall|j: int| 0 <= j < s.len() ==> s[j] != id,
    ensures
        spec_id_index(s, id) == -1,
    decreases s.len(),
{
    if s.len() > 0 {
        assert forall|j: int| 0 <= j < s.drop_first().len() implies s.drop_first()[j] != id by {
            assert(s.drop_first()[j] == s[j + 1]);
        }
        lemma_id_index_none(s.drop_first(), id);
    }
}

/// What an engine notification reads and writes of one view: its cache,
/// cursor, window and gutter. The request queue is not part of it; routing
/// sends nothing.
pub ghost struct ViewModel {
    pub cache: CacheView,
    pub cursor: Cursor,
    pub window: Window,
    pub gutter: u16,
}

pub open spec fn spec_view_model(v: View) -> ViewModel {
    ViewModel { cache: v.cache@, cursor: v.cursor, window: v.window, gutter: v.gutter_size }
}

/// The routing state of the session: the known views, the style table,
/// and the buffered notifications.
pub ghost struct EditorModel {
    pub views: Map<u64, ViewModel>,
    pub styles: Map<u64, Style>,
    pub delayed: Seq<CoreEvent>,
}

pub open spec fn spec_views_map(ids: Seq<u64>, vs: Seq<View>) -> Map<u64, ViewModel> {
    Map::new(
        |id: u64| spec_id_index(ids, id) >= 0,
        |id: u64| spec_view_model(vs[spec_id_index(ids, id)]),
    )
}

pub open spec fn spec_model(e: Editor) -> EditorModel {
    EditorModel {
        views: spec_views_map(e.view_ids@, e.views@),
        styles: e.styles@,
        delayed: e.delayed_events@,
    }
}

/// How one engine notification steps the routing state: a content delta
/// or cursor move for a known view is applied to it, one for an unknown
/// view is buffered, and a style definition lands in the table,
/// last-write-wins.
pub open spec fn spec_apply_event(m: EditorModel, ev: CoreEvent) -> EditorModel {
    match ev {
        CoreEvent::Update(u) => if m.views.contains_key(u.view_id) {
            let vm = m.views[u.view_id];
            EditorModel {
                views: m.views.insert(
                    u.view_id,
                    ViewModel { cache: spec_cache_update(vm.cache, u.ops()), ..vm },
                ),
                ..m
            }
        } else {
            EditorModel { delayed: m.delayed.push(ev), ..m }
        },
        CoreEvent::ScrollTo(st) => if m.views.contains_key(st.view_id) {
            let vm = m.views[st.view_id];
            EditorModel {
                views: m.views.insert(
                    st.view_id,
                    ViewModel {
                        cursor: Cursor { line: st.line, column: st.column },
                        window: Window {
                            start: spec_follow_cursor(vm.window, st.line),
                            size: vm.window.size,
                        },
                        ..vm
                    },
                ),
                ..m
            }
        } else {
            EditorModel { delayed: m.delayed.push(ev), ..m }
        },
        CoreEvent::SetStyle(st) => EditorModel { styles: m.styles.insert(st.id, st), ..m },
    }
}

/// A whole run of notifications, applied in order.
pub open spec fn spec_apply_events(m: EditorModel, evs: Seq<CoreEvent>) -> EditorModel
    decreases evs.len(),
{
    if evs.len() == 0 {
        m
    } else {
        spec_apply_events(spec_apply_event(m, evs[0]), evs.drop_first())
    }
}

/// The default style, registered under the reserved id 0 when a session
/// starts.
pub open spec fn spec_default_style() -> Style {
    Style { id: 0, fg_color: None, bg_color: None, weight: None, italic: None, underline: None }
}

/// The session coordinator: the open views (ids and views in step), the
/// in-flight open requests (each by the path it was asked to open), the
/// buffered notifications, the style table, the clipboard, and the queue
/// of session-level requests the process edge performs.
#[derive(Debug)]
pub struct Editor {
    pub clipboard: String,
    pub pending_open_requests: Vec<Option<String>>,
    pub delayed_events: Vec<CoreEvent>,
    pub view_ids: Vec<u64>,
    pub views: Vec<View>,
    pub current_view: u64,
    pub size: (u16, u16),
    pub styles: HashMap<u64, Style>,
    pub requests: Vec<CoreRequest>,
}

/// Everything of the session except the views and the session queue is
/// unchanged.
pub open spec fn spec_same_but_views(e0: Editor, e1: Editor) -> bool {
    &&& e1.clipboard == e0.clipboard
    &&& e1.pending_open_requests@ == e0.pending_open_requests@
    &&& e1.delayed_events@ == e0.delayed_events@
    &&& e1.current_view == e0.current_view
    &&& e1.size == e0.size
    &&& e1.styles@ == e0.styles@
    &&& e1.requests@ == e0.requests@
    &&& e1.view_ids@ == e0.view_ids@
}

/// Exactly one view changed, and only its request queue: the view under
/// the session's current id had the given requests appended.
pub open spec fn spec_current_view_ops(e0: Editor, e1: Editor, ops: Seq<EditOp>) -> bool {
    let idx = spec_id_index(e0.view_ids@, e0.current_view);
    if idx == -1 {
        e1.views@ == e0.views@
    } else {
        let v0 = e0.views@[idx];
        let v1 = e1.views@[idx];
        &&& e1.views@ == e0.views@.update(idx, v1)
        &&& crate::view::spec_only_ops_changed(v0, v1)
        &&& v1.client.ops@ == v0.client.ops@ + ops
    }
}

impl Editor {
    /// Ids and views stay in step, and every view can render.
    pub open spec fn wf(&self) -> bool {
        &&& self.view_ids@.len() == self.views@.len()
        &&& forall|j: int| 0 <= j < self.views@.len() ==> (#[trigger] self.views@[j]).wf()
        &&& forall|j: int|
            0 <= j < self.views@.len() ==> (#[trigger] self.views@[j]).client.view_id
                == self.view_ids@[j]
    }

    /// A fresh session: no views, no pending opens, nothing buffered, and
    /// the default style under the reserved id 0.
    pub fn new() -> (e: Editor)
        ensures
            e.clipboard@ == Seq::<char>::empty(),
            e.pending_open_requests@ == Seq::<Option<String>>::empty(),
            e.delayed_events@ == Seq::<CoreEvent>::empty(),
            e.view_ids@ == Seq::<u64>::empty(),
            e.views@ == Seq::<View>::empty(),
            e.current_view == 0,
            e.size == (0u16, 0u16),
            e.styles@ == Map::<u64, Style>::empty().insert(0, spec_default_style()),
            e.requests@ == Seq::<CoreRequest>::empty(),
            e.wf(),
    {
        let mut styles: HashMap<u64, Style> = HashMap::new();
        styles.insert(0, Style::default());
        Editor {
            clipboard: String::new(),
            pending_open_requests: Vec::new(),
            delayed_events: Vec::new(),
            view_ids: Vec::new(),
            views: Vec::new(),
            current_view: 0,
            size: (0, 0),
            styles,
            requests: Vec::new(),
        }
    }

    /// The position of a view id among the open views.
    pub fn find_view(&self, id: u64) -> (r: Option<usize>)
        requires
            self.wf(),
        ensures
            match r {
                Some(i) => {
                    &&& i == spec_id_index(self.view_ids@, id)
                    &&& i < self.views@.len()
                    &&& self.view_ids@[i as int] == id
                },
                None => spec_id_index(self.view_ids@, id) == -1,
            },
    {
        let mut i: usize = 0;
        while i < self.view_ids.len()
            invariant
                self.wf(),
                i <= self.view_ids@.len(),
                forall|j: int| 0 <= j < i ==> self.view_ids@[j] != id,
            decreases self.view_ids@.len() - i,
        {
            if self.view_ids[i] == id {
                proof {
                    lemma_id_index_found(self.view_ids@, id, i as int);
                }
                return Some(i);
            }
            i = i + 1;
        }
        proof {
            lemma_id_index_none(self.view_ids@, id);
        }
        None
    }

    /// Forward one terminal event to the current view, if it exists.
    pub fn handle_input(&mut self, event: Event)
        requires
            old(self).wf(),
        ensures
            final(self).wf(),
            spec_same_but_views(*old(self), *final(self)),
            ({
                let idx = spec_id_index(old(self).view_ids@, old(self).current_view);
                idx == -1 ==> final(self).views@ == old(self).views@
            }),
            ({
                let idx = spec_id_index(old(self).view_ids@, old(self).current_view);
                idx != -1 ==> spec_current_view_ops(
                    *old(self),
                    *final(self),
                    crate::view::spec_input_ops(
                        old(self).views@[idx].cache@,
                        old(self).views@[idx].window,
                        old(self).views@[idx].tab_width,
                        event,
                    ),
                )
            }),
    {
        let current = self.current_view;
        if let Some(i) = self.find_view(current) {
            self.views[i].handle_input(event);
        }
    }

    /// Store the new terminal size and resize the current view, which
    /// re-requests its scroll range.
    pub fn handle_resize(&mut self, size: (u16, u16))
        requires
            old(self).wf(),
        ensures
            final(self).wf(),
            final(self).size == size,
            final(self).clipboard == old(self).clipboard,
            final(self).pending_open_requests@ == old(self).pending_open_requests@,
            final(self).delayed_events@ == old(self).delayed_events@,
            final(self).current_view == old(self).current_view,
            final(self).styles@ == old(self).styles@,
            final(self).requests@ == old(self).requests@,
            final(self).view_ids@ == old(self).view_ids@,
            ({
                let idx = spec_id_index(old(self).view_ids@, old(self).current_view);
                if idx == -1 {
                    final(self).views@ == old(self).views@
                } else {
                    let v0 = old(self).views@[idx];
                    let v1 = final(self).views@[idx];
                    let w1 = Window { start: v0.window.start, size: size.1 };
                    let w2 = crate::view::spec_windowed(w1, v0.cursor, v0.cache@);
                    let a = crate::line_cache::spec_sat_add(v0.cache@.before, w2.start);
                    let b = crate::line_cache::spec_sat_add(
                        v0.cache@.after,
                        crate::line_cache::spec_sat_add(w2.start, w2.size as u64),
                    );
                    &&& final(self).views@ == old(self).views@.update(idx, v1)
                    &&& v1.window == w2
                    &&& v1.gutter_size == crate::view::spec_guttered(
                        v0.gutter_size,
                        v0.cursor,
                        v0.cache@,
                    )
                    &&& v1.cache == v0.cache
                    &&& v1.cursor == v0.cursor
                    &&& v1.file == v0.file
                    &&& v1.tab_width == v0.tab_width
                    &&& v1.client.view_id == v0.client.view_id
                    &&& v1.client.ops@ == v0.client.ops@.push(EditOp::Scroll(a, b))
                }
            }),
    {
        self.size = size;
        let current = self.current_view;
        if let Some(i) = self.find_view(current) {
            self.views[i].resize(size.1);
        }
    }
}

/// Replacing the view at the first index of its id replaces exactly that
/// id's entry in the session's view map.
proof fn lemma_views_map_update(ids: Seq<u64>, vs0: Seq<View>, vs1: Seq<View>, i: int)
    requires
        ids.len() == vs0.len(),
        vs1.len() == vs0.len(),
        0 <= i < ids.len(),
        vs1 == vs0.update(i, vs1[i]),
        spec_id_index(ids, ids[i]) == i,
    ensures
        spec_views_map(ids, vs1) == spec_views_map(ids, vs0).insert(
            ids[i],
            spec_view_model(vs1[i]),
        ),
{
    let m1 = spec_views_map(ids, vs1);
    let m2 = spec_views_map(ids, vs0).insert(ids[i], spec_view_model(vs1[i]));
    assert forall|id: u64| #[trigger] m1.dom().contains(id) implies m1[id] == m2[id] by {
        let j = spec_id_index(ids, id);
        lemma_id_index_props(ids, id);
        if id == ids[i] {
            assert(j == i);
            assert(m1[id] == spec_view_model(vs1[i]));
        } else {
            assert(ids[j] == id);
            assert(j != i);
            assert(vs1[j] == vs0[j]);
        }
    }
    assert(m1 =~= m2);
}

/// The frame a notification dispatch leaves untouched: everything of the
/// session but views, styles and the delayed buffer, and of each view
/// everything its model leaves out.
pub open spec fn spec_dispatch_frame(e0: Editor, e1: Editor) -> bool {
    &&& e1.clipboard == e0.clipboard
    &&& e1.pending_open_requests@ == e0.pending_open_requests@
    &&& e1.current_view == e0.current_view
    &&& e1.size == e0.size
    &&& e1.requests@ == e0.requests@
    &&& e1.view_ids@ == e0.view_ids@
    &&& e1.views@.len() == e0.views@.len()
    &&& forall|j: int|
        0 <= j < e0.views@.len() ==> {
            &&& (#[trigger] e1.views@[j]).client == e0.views@[j].client
            &&& e1.views@[j].file == e0.views@[j].file
            &&& e1.views@[j].tab_width == e0.views@[j].tab_width
        }
}

impl Editor {
    /// Apply an engine content delta to its view, or buffer it while the
    /// view does not exist yet.
    pub fn handle_update(&mut self, update: Update)
        requires
            old(self).wf(),
        ensures
            final(self).wf(),
            spec_dispatch_frame(*old(self), *final(self)),
            spec_model(*final(self)) == spec_apply_event(
                spec_model(*old(self)),
                CoreEvent::Update(update),
            ),
    {
        let ghost m0 = spec_model(*old(self));
        let vid = update.view_id;
        match self.find_view(vid) {
            Some(i) => {
                let ghost vs0 = self.views@;
                self.views[i].update_cache(update);
                proof {
                    assert(m0.views.contains_key(vid));
                    assert(m0.views[vid] == spec_view_model(vs0[i as int]));
                    lemma_views_map_update(self.view_ids@, vs0, self.views@, i as int);
                    assert(spec_model(*final(self)) == spec_apply_event(
                        m0,
                        CoreEvent::Update(update),
                    ));
                }
            },
            None => {
                proof {
                    assert(!m0.views.contains_key(vid));
                }
                self.delayed_events.push(CoreEvent::Update(update));
            },
        }
    }

    /// Move a view's cursor where the engine says, letting the window
    /// follow, or buffer the move while the view does not exist yet.
    pub fn handle_scroll_to(&mut self, scroll_to: ScrollTo)
        requires
            old(self).wf(),
        ensures
            final(self).wf(),
            spec_dispatch_frame(*old(self), *final(self)),
            spec_model(*final(self)) == spec_apply_event(
                spec_model(*old(self)),
                CoreEvent::ScrollTo(scroll_to),
            ),
    {
        let ghost m0 = spec_model(*old(self));
        let vid = scroll_to.view_id;
        match self.find_view(vid) {
            Some(i) => {
                let ghost vs0 = self.views@;
                self.views[i].set_cursor(scroll_to.line, scroll_to.column);
                proof {
                    assert(m0.views.contains_key(vid));
                    assert(m0.views[vid] == spec_view_model(vs0[i as int]));
                    lemma_views_map_update(self.view_ids@, vs0, self.views@, i as int);
                    assert(spec_model(*final(self)) == spec_apply_event(
                        m0,
                        CoreEvent::ScrollTo(scroll_to),
                    ));
                }
            },
            None => {
                proof {
                    assert(!m0.views.contains_key(vid));
                }
                self.delayed_events.push(CoreEvent::ScrollTo(scroll_to));
            },
        }
    }

    /// Merge a style definition into the session table, last write wins.
    pub fn handle_def_style(&mut self, style: Style)
        requires
            old(self).wf(),
        ensures
            final(self).wf(),
            spec_dispatch_frame(*old(self), *final(self)),
            spec_model(*final(self)) == spec_apply_event(
                spec_model(*old(self)),
                CoreEvent::SetStyle(style),
            ),
    {
        self.styles.insert(style.id, style);
        proof {
            assert(spec_model(*final(self)).views =~= spec_model(*old(self)).views);
        }
    }

    /// Route one engine notification.
    pub fn dispatch_core_event(&mut self, event: CoreEvent)
        requires
            old(self).wf(),
        ensures
            final(self).wf(),
            spec_dispatch_frame(*old(self), *final(self)),
            spec_model(*final(self)) == spec_apply_event(spec_model(*old(self)), event),
    {
        match event {
            CoreEvent::Update(update) => self.handle_update(update),
            CoreEvent::SetStyle(style) => self.handle_def_style(style),
            CoreEvent::ScrollTo(scroll_to) => self.handle_scroll_to(scroll_to),
        }
    }

    /// Replay every buffered notification, in arrival order. One whose
    /// view still does not exist is buffered again.
    pub fn process_delayed_events(&mut self)
        requires
            old(self).wf(),
        ensures
            final(self).wf(),
            spec_dispatch_frame(*old(self), *final(self)),
            spec_model(*final(self)) == spec_apply_events(
                EditorModel {
                    delayed: Seq::empty(),
                    views: spec_model(*old(self)).views,
                    styles: spec_model(*old(self)).styles,
                },
                old(self).delayed_events@,
            ),
    {
        let ghost all = self.delayed_events@;
        let mut delayed: Vec<CoreEvent> = Vec::new();
        core::mem::swap(&mut delayed, &mut self.delayed_events);
        let ghost m0 = spec_model(*self);
        proof {
            assert(m0 == EditorModel {
                delayed: Seq::empty(),
                views: spec_model(*old(self)).views,
                styles: spec_model(*old(self)).styles,
            });
            assert(delayed@ == all);
        }
        while delayed.len() > 0
            invariant
                self.wf(),
                spec_dispatch_frame(*old(self), *self),
                spec_apply_events(m0, all) == spec_apply_events(spec_model(*self), delayed@),
            decreases delayed@.len(),
        {
            let ghost evs = delayed@;
            let ghost m_pre = spec_model(*self);
            let event = delayed.remove(0);
            proof {
                assert(event == evs[0]);
                assert(delayed@ =~= evs.drop_first());
            }
            self.dispatch_core_event(event);
            proof {
                assert(spec_apply_events(m_pre, evs) == spec_apply_events(
                    spec_model(*self),
                    evs.drop_first(),
                ));
            }
        }
        proof {
            assert(delayed@.len() == 0);
        }
    }

    /// Ask the engine to open a file: the request joins both the pending
    /// set and the session queue, to be completed by the process edge.
    pub fn open(&mut self, file_path: Option<String>)
        ensures
            final(self).pending_open_requests@ == old(self).pending_open_requests@.push(file_path),
            final(self).requests@ == old(self).requests@.push(CoreRequest::NewView(file_path)),
            final(self).clipboard == old(self).clipboard,
            final(self).delayed_events@ == old(self).delayed_events@,
            final(self).view_ids@ == old(self).view_ids@,
            final(self).views@ == old(self).views@,
            final(self).current_view == old(self).current_view,
            final(self).size == old(self).size,
            final(self).styles@ == old(self).styles@,
    {
        let copy_of_path = clone_opt_string(&file_path);
        self.pending_open_requests.push(copy_of_path);
        self.requests.push(CoreRequest::NewView(file_path));
    }

    /// Promote a resolved open request: build its view, size it to the
    /// terminal, adopt it (replacing any view under the same id), make it
    /// current, and drop the pending entry. The view that completes last
    /// becomes the active one.
    pub fn open_resolved(&mut self, pending_index: usize, view_id: u64)
        requires
            old(self).wf(),
            pending_index < old(self).pending_open_requests@.len(),
        ensures
            final(self).wf(),
            final(self).pending_open_requests@ == old(self).pending_open_requests@.remove(
                pending_index as int,
            ),
            final(self).current_view == view_id,
            final(self).clipboard == old(self).clipboard,
            final(self).delayed_events@ == old(self).delayed_events@,
            final(self).size == old(self).size,
            final(self).styles@ == old(self).styles@,
            final(self).requests@ == old(self).requests@,
            ({
                let idx = spec_id_index(old(self).view_ids@, view_id);
                let n = old(self).views@.len() as int;
                let at = if idx == -1 {
                    n
                } else {
                    idx
                };
                let v = final(self).views@[at];
                &&& (idx == -1 ==> final(self).view_ids@ == old(self).view_ids@.push(view_id)
                    && final(self).views@ == old(self).views@.push(v))
                &&& (idx >= 0 ==> final(self).view_ids@ == old(self).view_ids@
                    && final(self).views@ == old(self).views@.update(idx, v))
                &&& v.client.view_id == view_id
                &&& v.client.ops@ == seq![
                    EditOp::Scroll(0, old(self).size.1 as u64),
                ]
                &&& v.cache@.before == 0 && v.cache@.after == 0 && v.cache@.lines.len() == 0
                &&& v.cursor.line == 0 && v.cursor.column == 0
                &&& v.window.start == 0 && v.window.size == old(self).size.1
                &&& v.gutter_size == 2
                &&& v.tab_width == 4
                &&& match old(self).pending_open_requests@[pending_index as int] {
                    Some(p) => v.file matches Some(f) && f == p,
                    None => v.file matches Some(f) && f@ == Seq::<char>::empty(),
                }
            }),
    {
        let file_path = self.pending_open_requests.remove(pending_index);
        let file_arg: Option<String> = match file_path {
            Some(p) => Some(p),
            None => Some(String::new()),
        };
        let mut view = View::new(Client::new(view_id), file_arg);
        view.resize(self.size.1);
        proof {
            assert(view.window.start == 0 && view.window.size == self.size.1);
            assert(view.gutter_size == 2);
            assert(view.client.ops@ =~= seq![EditOp::Scroll(0, self.size.1 as u64)]);
        }
        match self.find_view(view_id) {
            Some(i) => {
                self.views[i] = view;
            },
            None => {
                self.view_ids.push(view_id);
                self.views.push(view);
            },
        }
        self.current_view = view_id;
    }
}

/// A copy of an optional string with the same characters.
pub fn clone_opt_string(s: &Option<String>) -> (r: Option<String>)
    ensures
        r == *s,
{
    match s {
        Some(p) => Some(crate::client::clone_string(p)),
        None => None,
    }
}

/// Nothing of the session changed.
pub open spec fn spec_editor_eq(e0: Editor, e1: Editor) -> bool {
    &&& e1.clipboard == e0.clipboard
    &&& e1.pending_open_requests@ == e0.pending_open_requests@
    &&& e1.delayed_events@ == e0.delayed_events@
    &&& e1.current_view == e0.current_view
    &&& e1.size == e0.size
    &&& e1.styles@ == e0.styles@
    &&& e1.requests@ == e0.requests@
    &&& e1.view_ids@ == e0.view_ids@
    &&& e1.views@ == e0.views@
}

/// What forwarding one terminal event to the current view does: nothing
/// when it does not exist, else exactly the event's requests are appended
/// to that view's queue.
pub open spec fn spec_handled_input(e0: Editor, e1: Editor, ev: Event) -> bool {
    &&& spec_same_but_views(e0, e1)
    &&& ({
        let idx = spec_id_index(e0.view_ids@, e0.current_view);
        if idx == -1 {
            e1.views@ == e0.views@
        } else {
            spec_current_view_ops(
                e0,
                e1,
                crate::view::spec_input_ops(
                    e0.views@[idx].cache@,
                    e0.views@[idx].window,
                    e0.views@[idx].tab_width,
                    ev,
                ),
            )
        }
    })
}

/// A request joined the session queue exactly when the current view
/// exists; nothing else changed.
pub open spec fn spec_queued_if_current(e0: Editor, e1: Editor, req: CoreRequest) -> bool {
    &&& spec_same_but_requests(e0, e1)
    &&& e1.requests@ == if spec_id_index(e0.view_ids@, e0.current_view) >= 0 {
        e0.requests@.push(req)
    } else {
        e0.requests@
    }
}

/// What queuing a save does: the save request of the named view (or the
/// current one) joined the queue exactly when that view exists and has a
/// file; nothing else changed.
pub open spec fn spec_save_effect(e0: Editor, e1: Editor, view: Option<u64>) -> bool {
    &&& spec_same_but_requests(e0, e1)
    &&& ({
        let target = match view {
            Some(id) => id,
            None => e0.current_view,
        };
        let idx = spec_id_index(e0.view_ids@, target);
        if idx >= 0 {
            match e0.views@[idx].file {
                Some(f) => e1.requests@ == e0.requests@.push(CoreRequest::Save(target, f)),
                None => e1.requests@ == e0.requests@,
            }
        } else {
            e1.requests@ == e0.requests@
        }
    })
}

/// Everything of the session except the session-level request queue is
/// unchanged.
pub open spec fn spec_same_but_requests(e0: Editor, e1: Editor) -> bool {
    &&& e1.clipboard == e0.clipboard
    &&& e1.pending_open_requests@ == e0.pending_open_requests@
    &&& e1.delayed_events@ == e0.delayed_events@
    &&& e1.current_view == e0.current_view
    &&& e1.size == e0.size
    &&& e1.styles@ == e0.styles@
    &&& e1.view_ids@ == e0.view_ids@
    &&& e1.views@ == e0.views@
}


/// What rendering the current view does: with no current view, nothing;
/// else the view's window and gutter are recomputed and the frame shows
/// exactly its rows, status and cursor.
pub open spec fn spec_render_effect(
    e0: Editor,
    e1: Editor,
    r: Option<crate::view::Frame>,
    state: &'static str,
) -> bool {
    let idx = spec_id_index(e0.view_ids@, e0.current_view);
    if idx == -1 {
        e1.views@ == e0.views@ && r is None
    } else {
        let v0 = e0.views@[idx];
        let v1 = e1.views@[idx];
        &&& e1.views@ == e0.views@.update(idx, v1)
        &&& v1.window == crate::view::spec_windowed(v0.window, v0.cursor, v0.cache@)
        &&& v1.gutter_size == crate::view::spec_guttered(v0.gutter_size, v0.cursor, v0.cache@)
        &&& v1.cache == v0.cache
        &&& v1.cursor == v0.cursor
        &&& v1.file == v0.file
        &&& v1.client == v0.client
        &&& v1.tab_width == v0.tab_width
        &&& match r {
            Some(f) => {
                &&& crate::view::spec_row_views(f.rows@) == crate::view::spec_render_rows(
                    v1.cache@,
                    v1.window,
                    e0.styles@,
                    v1.tab_width,
                )
                &&& f.gutter_size == v1.gutter_size
                &&& f.status.state == state
                &&& f.status.file == v1.file
                &&& f.status.line == crate::line_cache::spec_sat_add(v1.cursor.line, 1)
                &&& f.status.column == crate::line_cache::spec_sat_add(v1.cursor.column, 1)
                &&& f.cursor == crate::view::spec_cursor_pos(
                    v1.cache@,
                    v1.window,
                    v1.cursor,
                    v1.gutter_size,
                    v1.tab_width,
                )
            },
            None => false,
        }
    }
}

impl Editor {
    /// Paste the session clipboard into the current view.
    pub fn paste(&mut self)
        requires
            old(self).wf(),
        ensures
            final(self).wf(),
            spec_same_but_views(*old(self), *final(self)),
            spec_current_view_ops(
                *old(self),
                *final(self),
                seq![EditOp::Paste(old(self).clipboard)],
            ),
    {
        let current = self.current_view;
        if let Some(i) = self.find_view(current) {
            let buffer = crate::client::clone_string(&self.clipboard);
            self.views[i].paste(&buffer);
            proof {
                assert(self.views@[i as int].client.ops@ =~= old(self).views@[i as int].client.ops@
                    + seq![EditOp::Paste(old(self).clipboard)]);
            }
        }
    }

    /// Ask the engine for the current selection; the session queue carries
    /// the request whose clipboard value the process edge waits for.
    pub fn copy(&mut self)
        requires
            old(self).wf(),
        ensures
            final(self).wf(),
            spec_same_but_requests(*old(self), *final(self)),
            final(self).requests@ == if spec_id_index(old(self).view_ids@, old(self).current_view)
                >= 0 {
                old(self).requests@.push(CoreRequest::Copy(old(self).current_view))
            } else {
                old(self).requests@
            },
    {
        let current = self.current_view;
        if let Some(i) = self.find_view(current) {
            let req = self.views[i].copy();
            self.requests.push(req);
        }
    }

    /// Ask the engine to cut the current selection; as with copy, the
    /// clipboard value is waited for at the process edge.
    pub fn cut(&mut self)
        requires
            old(self).wf(),
        ensures
            final(self).wf(),
            spec_same_but_requests(*old(self), *final(self)),
            final(self).requests@ == if spec_id_index(old(self).view_ids@, old(self).current_view)
                >= 0 {
                old(self).requests@.push(CoreRequest::Cut(old(self).current_view))
            } else {
                old(self).requests@
            },
    {
        let current = self.current_view;
        if let Some(i) = self.find_view(current) {
            let req = self.views[i].cut();
            self.requests.push(req);
        }
    }

    /// Store what a copy or cut brought back: the engine's string, or an
    /// empty clipboard when it returned none.
    pub fn apply_copy_result(&mut self, value: Option<String>)
        requires
            old(self).wf(),
        ensures
            final(self).wf(),
            final(self).clipboard@ == match value {
                Some(s) => s@,
                None => Seq::<char>::empty(),
            },
            final(self).pending_open_requests@ == old(self).pending_open_requests@,
            final(self).delayed_events@ == old(self).delayed_events@,
            final(self).current_view == old(self).current_view,
            final(self).size == old(self).size,
            final(self).styles@ == old(self).styles@,
            final(self).requests@ == old(self).requests@,
            final(self).view_ids@ == old(self).view_ids@,
            final(self).views@ == old(self).views@,
    {
        self.clipboard = match value {
            Some(s) => s,
            None => String::new(),
        };
    }

    pub fn undo(&mut self)
        requires
            old(self).wf(),
        ensures
            final(self).wf(),
            spec_same_but_views(*old(self), *final(self)),
            spec_current_view_ops(*old(self), *final(self), seq![EditOp::Undo]),
    {
        let current = self.current_view;
        if let Some(i) = self.find_view(current) {
            self.views[i].undo();
            proof {
                assert(self.views@[i as int].client.ops@ =~= old(self).views@[i as int].client.ops@
                    + seq![EditOp::Undo]);
            }
        }
    }

    pub fn redo(&mut self)
        requires
            old(self).wf(),
        ensures
            final(self).wf(),
            spec_same_but_views(*old(self), *final(self)),
            spec_current_view_ops(*old(self), *final(self), seq![EditOp::Redo]),
    {
        let current = self.current_view;
        if let Some(i) = self.find_view(current) {
            self.views[i].redo();
            proof {
                assert(self.views@[i as int].client.ops@ =~= old(self).views@[i as int].client.ops@
                    + seq![EditOp::Redo]);
            }
        }
    }

    /// Ask the engine to switch themes.
    pub fn set_theme(&mut self, theme: String)
        ensures
            spec_same_but_requests(*old(self), *final(self)),
            final(self).requests@ == old(self).requests@.push(CoreRequest::SetTheme(theme)),
    {
        self.requests.push(CoreRequest::SetTheme(theme));
    }

    pub fn goto_line(&mut self, line: u64)
        requires
            old(self).wf(),
        ensures
            final(self).wf(),
            spec_same_but_views(*old(self), *final(self)),
            spec_current_view_ops(*old(self), *final(self), seq![EditOp::GotoLine(line)]),
    {
        let current = self.current_view;
        if let Some(i) = self.find_view(current) {
            self.views[i].goto_line(line);
            proof {
                assert(self.views@[i as int].client.ops@ =~= old(self).views@[i as int].client.ops@
                    + seq![EditOp::GotoLine(line)]);
            }
        }
    }

    /// Queue one fire-and-forget request for the current view on the
    /// session queue, if the view exists.
    fn edit_current(&mut self, op: EditOp)
        requires
            old(self).wf(),
        ensures
            final(self).wf(),
            spec_same_but_requests(*old(self), *final(self)),
            final(self).requests@ == if spec_id_index(old(self).view_ids@, old(self).current_view)
                >= 0 {
                old(self).requests@.push(CoreRequest::Edit(old(self).current_view, op))
            } else {
                old(self).requests@
            },
    {
        let current = self.current_view;
        if let Some(_i) = self.find_view(current) {
            self.requests.push(CoreRequest::Edit(current, op));
        }
    }

    pub fn down(&mut self)
        requires
            old(self).wf(),
        ensures
            final(self).wf(),
            spec_same_but_requests(*old(self), *final(self)),
            final(self).requests@ == if spec_id_index(old(self).view_ids@, old(self).current_view)
                >= 0 {
                old(self).requests@.push(
                    CoreRequest::Edit(old(self).current_view, EditOp::Down),
                )
            } else {
                old(self).requests@
            },
    {
        self.edit_current(EditOp::Down);
    }

    pub fn up(&mut self)
        requires
            old(self).wf(),
        ensures
            final(self).wf(),
            spec_same_but_requests(*old(self), *final(self)),
            final(self).requests@ == if spec_id_index(old(self).view_ids@, old(self).current_view)
                >= 0 {
                old(self).requests@.push(CoreRequest::Edit(old(self).current_view, EditOp::Up))
            } else {
                old(self).requests@
            },
    {
        self.edit_current(EditOp::Up);
    }

    pub fn right(&mut self)
        requires
            old(self).wf(),
        ensures
            final(self).wf(),
            spec_same_but_requests(*old(self), *final(self)),
            final(self).requests@ == if spec_id_index(old(self).view_ids@, old(self).current_view)
                >= 0 {
                old(self).requests@.push(
                    CoreRequest::Edit(old(self).current_view, EditOp::Right),
                )
            } else {
                old(self).requests@
            },
    {
        self.edit_current(EditOp::Right);
    }

    pub fn select_down(&mut self)
        requires
            old(self).wf(),
        ensures
            final(self).wf(),
            spec_same_but_requests(*old(self), *final(self)),
            final(self).requests@ == if spec_id_index(old(self).view_ids@, old(self).current_view)
                >= 0 {
                old(self).requests@.push(
                    CoreRequest::Edit(old(self).current_view, EditOp::DownSel),
                )
            } else {
                old(self).requests@
            },
    {
        self.edit_current(EditOp::DownSel);
    }

    pub fn select_up(&mut self)
        requires
            old(self).wf(),
        ensures
            final(self).wf(),
            spec_same_but_requests(*old(self), *final(self)),
            final(self).requests@ == if spec_id_index(old(self).view_ids@, old(self).current_view)
                >= 0 {
                old(self).requests@.push(
                    CoreRequest::Edit(old(self).current_view, EditOp::UpSel),
                )
            } else {
                old(self).requests@
            },
    {
        self.edit_current(EditOp::UpSel);
    }

    pub fn select_left(&mut self)
        requires
            old(self).wf(),
        ensures
            final(self).wf(),
            spec_same_but_requests(*old(self), *final(self)),
            final(self).requests@ == if spec_id_index(old(self).view_ids@, old(self).current_view)
                >= 0 {
                old(self).requests@.push(
                    CoreRequest::Edit(old(self).current_view, EditOp::LeftSel),
                )
            } else {
                old(self).requests@
            },
    {
        self.edit_current(EditOp::LeftSel);
    }

    pub fn select_right(&mut self)
        requires
            old(self).wf(),
        ensures
            final(self).wf(),
            spec_same_but_requests(*old(self), *final(self)),
            final(self).requests@ == if spec_id_index(old(self).view_ids@, old(self).current_view)
                >= 0 {
                old(self).requests@.push(
                    CoreRequest::Edit(old(self).current_view, EditOp::RightSel),
                )
            } else {
                old(self).requests@
            },
    {
        self.edit_current(EditOp::RightSel);
    }

    pub fn select_page_up(&mut self)
        requires
            old(self).wf(),
        ensures
            final(self).wf(),
            spec_same_but_requests(*old(self), *final(self)),
            final(self).requests@ == if spec_id_index(old(self).view_ids@, old(self).current_view)
                >= 0 {
                old(self).requests@.push(
                    CoreRequest::Edit(old(self).current_view, EditOp::PageUpSel),
                )
            } else {
                old(self).requests@
            },
    {
        self.edit_current(EditOp::PageUpSel);
    }

    pub fn select_page_down(&mut self)
        requires
            old(self).wf(),
        ensures
            final(self).wf(),
            spec_same_but_requests(*old(self), *final(self)),
            final(self).requests@ == if spec_id_index(old(self).view_ids@, old(self).current_view)
                >= 0 {
                old(self).requests@.push(
                    CoreRequest::Edit(old(self).current_view, EditOp::PageDownSel),
                )
            } else {
                old(self).requests@
            },
    {
        self.edit_current(EditOp::PageDownSel);
    }

    pub fn select_home(&mut self)
        requires
            old(self).wf(),
        ensures
            final(self).wf(),
            spec_same_but_requests(*old(self), *final(self)),
            final(self).requests@ == if spec_id_index(old(self).view_ids@, old(self).current_view)
                >= 0 {
                old(self).requests@.push(
                    CoreRequest::Edit(old(self).current_view, EditOp::LineStartSel),
                )
            } else {
                old(self).requests@
            },
    {
        self.edit_current(EditOp::LineStartSel);
    }

    pub fn select_end(&mut self)
        requires
            old(self).wf(),
        ensures
            final(self).wf(),
            spec_same_but_requests(*old(self), *final(self)),
            final(self).requests@ == if spec_id_index(old(self).view_ids@, old(self).current_view)
                >= 0 {
                old(self).requests@.push(
                    CoreRequest::Edit(old(self).current_view, EditOp::LineEndSel),
                )
            } else {
                old(self).requests@
            },
    {
        self.edit_current(EditOp::LineEndSel);
    }

    /// Start a search in the current view.
    pub fn find(&mut self, search_term: Vec<char>, case_sensitive: bool, regex: bool, whole_words: bool)
        requires
            old(self).wf(),
        ensures
            final(self).wf(),
            spec_same_but_views(*old(self), *final(self)),
            spec_current_view_ops(
                *old(self),
                *final(self),
                seq![
                    EditOp::Find {
                        term: search_term,
                        case_sensitive,
                        regex,
                        whole_words,
                    },
                ],
            ),
    {
        let current = self.current_view;
        if let Some(i) = self.find_view(current) {
            let ghost pre = self.views@[i as int].client.ops@;
            self.views[i].find(search_term, case_sensitive, regex, whole_words);
            proof {
                assert(self.views@[i as int].client.ops@ =~= pre + seq![
                    EditOp::Find { term: search_term, case_sensitive, regex, whole_words },
                ]);
            }
        }
    }

    pub fn find_next(&mut self, wrap_around: bool, allow_same: bool, modify_selection: ModifySelection)
        requires
            old(self).wf(),
        ensures
            final(self).wf(),
            spec_same_but_views(*old(self), *final(self)),
            spec_current_view_ops(
                *old(self),
                *final(self),
                seq![EditOp::FindNext { wrap_around, allow_same, modify_selection }],
            ),
    {
        let current = self.current_view;
        if let Some(i) = self.find_view(current) {
            let ghost pre = self.views@[i as int].client.ops@;
            self.views[i].find_next(wrap_around, allow_same, modify_selection);
            proof {
                assert(self.views@[i as int].client.ops@ =~= pre + seq![
                    EditOp::FindNext { wrap_around, allow_same, modify_selection },
                ]);
            }
        }
    }

    pub fn find_prev(&mut self, wrap_around: bool, allow_same: bool, modify_selection: ModifySelection)
        requires
            old(self).wf(),
        ensures
            final(self).wf(),
            spec_same_but_views(*old(self), *final(self)),
            spec_current_view_ops(
                *old(self),
                *final(self),
                seq![EditOp::FindPrev { wrap_around, allow_same, modify_selection }],
            ),
    {
        let current = self.current_view;
        if let Some(i) = self.find_view(current) {
            let ghost pre = self.views@[i as int].client.ops@;
            self.views[i].find_prev(wrap_around, allow_same, modify_selection);
            proof {
                assert(self.views@[i as int].client.ops@ =~= pre + seq![
                    EditOp::FindPrev { wrap_around, allow_same, modify_selection },
                ]);
            }
        }
    }

    pub fn find_all(&mut self)
        requires
            old(self).wf(),
        ensures
            final(self).wf(),
            spec_same_but_views(*old(self), *final(self)),
            spec_current_view_ops(*old(self), *final(self), seq![EditOp::FindAll]),
    {
        let current = self.current_view;
        if let Some(i) = self.find_view(current) {
            let ghost pre = self.views@[i as int].client.ops@;
            self.views[i].find_all();
            proof {
                assert(self.views@[i as int].client.ops@ =~= pre + seq![EditOp::FindAll]);
            }
        }
    }

    pub fn highlight_find(&mut self, visible: bool)
        requires
            old(self).wf(),
        ensures
            final(self).wf(),
            spec_same_but_views(*old(self), *final(self)),
            spec_current_view_ops(*old(self), *final(self), seq![EditOp::HighlightFind(visible)]),
    {
        let current = self.current_view;
        if let Some(i) = self.find_view(current) {
            let ghost pre = self.views@[i as int].client.ops@;
            self.views[i].highlight_find(visible);
            proof {
                assert(self.views@[i as int].client.ops@ =~= pre + seq![
                    EditOp::HighlightFind(visible),
                ]);
            }
        }
    }

    /// Select the whole current line of the current view.
    pub fn select_line(&mut self)
        requires
            old(self).wf(),
        ensures
            final(self).wf(),
            spec_same_but_views(*old(self), *final(self)),
            spec_current_view_ops(
                *old(self),
                *final(self),
                seq![EditOp::LineStart, EditOp::LineEndSel],
            ),
    {
        let current = self.current_view;
        if let Some(i) = self.find_view(current) {
            let ghost pre = self.views@[i as int].client.ops@;
            self.views[i].select_line();
            proof {
                assert(self.views@[i as int].client.ops@ =~= pre + seq![
                    EditOp::LineStart,
                    EditOp::LineEndSel,
                ]);
            }
        }
    }

    /// Extend the current view's selection to the end of its line.
    pub fn select_line_end(&mut self)
        requires
            old(self).wf(),
        ensures
            final(self).wf(),
            spec_same_but_requests(*old(self), *final(self)),
            final(self).requests@ == if spec_id_index(old(self).view_ids@, old(self).current_view)
                >= 0 {
                old(self).requests@.push(
                    CoreRequest::Edit(old(self).current_view, EditOp::LineEndSel),
                )
            } else {
                old(self).requests@
            },
    {
        self.edit_current(EditOp::LineEndSel);
    }

    /// Delete the whole current line of the current view.
    pub fn delete_line(&mut self)
        requires
            old(self).wf(),
        ensures
            final(self).wf(),
            spec_same_but_views(*old(self), *final(self)),
            spec_current_view_ops(
                *old(self),
                *final(self),
                seq![EditOp::LineStart, EditOp::LineEndSel, EditOp::Delete],
            ),
    {
        let current = self.current_view;
        if let Some(i) = self.find_view(current) {
            let ghost pre = self.views@[i as int].client.ops@;
            self.views[i].delete_line();
            proof {
                assert(self.views@[i as int].client.ops@ =~= pre + seq![
                    EditOp::LineStart,
                    EditOp::LineEndSel,
                    EditOp::Delete,
                ]);
            }
        }
    }

    /// Queue a save of the named view, or of the current one: the process
    /// edge waits for its outcome. A view on no file has nothing to save
    /// into and nothing is queued.
    pub fn save(&mut self, view: Option<u64>)
        requires
            old(self).wf(),
        ensures
            final(self).wf(),
            spec_same_but_requests(*old(self), *final(self)),
            ({
                let target = match view {
                    Some(id) => id,
                    None => old(self).current_view,
                };
                let idx = spec_id_index(old(self).view_ids@, target);
                if idx >= 0 {
                    match old(self).views@[idx].file {
                        Some(f) => final(self).requests@ == old(self).requests@.push(
                            CoreRequest::Save(target, f),
                        ),
                        None => final(self).requests@ == old(self).requests@,
                    }
                } else {
                    final(self).requests@ == old(self).requests@
                }
            }),
    {
        let target = match view {
            Some(id) => id,
            None => self.current_view,
        };
        if let Some(i) = self.find_view(target) {
            proof {
                assert(self.views@[i as int].client.view_id == self.view_ids@[i as int]);
            }
            let req = self.views[i].save();
            if let Some(r) = req {
                self.requests.push(r);
            }
        }
    }

    /// Render the current view, if it exists.
    pub fn render(&mut self, state: &'static str) -> (r: Option<crate::view::Frame>)
        requires
            old(self).wf(),
        ensures
            final(self).wf(),
            spec_same_but_views(*old(self), *final(self)),
            spec_render_effect(*old(self), *final(self), r, state),
    {
        let current = self.current_view;
        if let Some(i) = self.find_view(current) {
            let frame = self.views[i].render(&self.styles, state);
            Some(frame)
        } else {
            None
        }
    }

    /// The error overlay of the current view, if it exists.
    pub fn render_error(&self, msg: &String) -> (r: Option<(u16, String)>)
        requires
            self.wf(),
        ensures
            ({
                let idx = spec_id_index(self.view_ids@, self.current_view);
                if idx == -1 {
                    r is None
                } else {
                    r matches Some(e) && e.0 == crate::view::spec_wrap16(
                        self.views@[idx].window.size + 1,
                    ) && e.1 == *msg
                }
            }),
    {
        if let Some(i) = self.find_view(self.current_view) {
            Some(self.views[i].render_error(msg))
        } else {
            None
        }
    }
}

} // verus!
