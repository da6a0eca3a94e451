//! The window set of the compositor, kept consistent with its event stream.
use vstd::prelude::*;

use crate::id_map::{keyed_by_id, lemma_sorted_keyed, lemma_sorted_lookup, map_of_list, IdMap};
use crate::model::{Keyed, NiriWindow, WindowLayout, Workspace};

verus! {

/// An event of the compositor's event stream, as far as the window set reads it.
#[derive(Debug)]
#[allow(inconsistent_fields)]
pub enum Event {
    /// The full list of windows; the first one arrives when the stream opens.
    WindowsChanged { windows: Vec<NiriWindow> },
    /// The full list of workspaces; the first one arrives when the stream opens.
    WorkspacesChanged { workspaces: Vec<Workspace> },
    WindowClosed { id: u64 },
    WindowOpenedOrChanged { window: NiriWindow },
    /// The focused window changed, to none when `id` is `None`.
    WindowFocusChanged { id: Option<u64> },
    WindowLayoutsChanged { changes: Vec<(u64, WindowLayout)> },
    /// Any event that the window set does not act on.
    Other,
}

/// A window joined with the workspace it is on.
#[derive(Debug)]
pub struct Window {
    pub window: NiriWindow,
    pub workspace: Workspace,
}

/// What a window set holds: the phases before and after both initial lists arrived.
pub enum SetView {
    Uninitialized,
    WindowsOnly(Seq<NiriWindow>),
    WorkspacesOnly(Seq<Workspace>),
    /// The live windows and workspaces, each keyed by id.
    Ready(Map<u64, NiriWindow>, Map<u64, Workspace>),
}

pub open spec fn with_focus(w: NiriWindow, focused: bool) -> NiriWindow {
    NiriWindow { is_focused: focused, ..w }
}

pub open spec fn with_layout(w: NiriWindow, layout: WindowLayout) -> NiriWindow {
    NiriWindow { layout: layout, ..w }
}

/// The window with id `id` is focused, every other one is not.
pub open spec fn focus_on(m: Map<u64, NiriWindow>, id: Option<u64>) -> Map<u64, NiriWindow> {
    Map::new(|k: u64| m.contains_key(k), |k: u64| with_focus(m[k], Some(m[k].id) == id))
}

/// Inserts or replaces a window; a focused one takes the focus from all others.
pub open spec fn upsert(m: Map<u64, NiriWindow>, w: NiriWindow) -> Map<u64, NiriWindow> {
    if w.is_focused {
        focus_on(m, None).insert(w.id, w)
    } else {
        m.insert(w.id, w)
    }
}

/// Applies layout changes in order; a change for an unknown window is dropped.
pub open spec fn apply_layouts(m: Map<u64, NiriWindow>, changes: Seq<(u64, WindowLayout)>) -> Map<
    u64,
    NiriWindow,
>
    decreases changes.len(),
{
    if changes.len() == 0 {
        m
    } else {
        let rest = apply_layouts(m, changes.drop_last());
        let id = changes.last().0;
        if rest.contains_key(id) {
            rest.insert(id, with_layout(rest[id], changes.last().1))
        } else {
            rest
        }
    }
}

/// The state after one event.
pub open spec fn next_view(v: SetView, e: Event) -> SetView {
    match e {
        Event::WindowsChanged { windows } => match v {
            SetView::WorkspacesOnly(ws) => SetView::Ready(map_of_list(windows@), map_of_list(ws)),
            SetView::Ready(_, s) => SetView::Ready(map_of_list(windows@), s),
            _ => SetView::WindowsOnly(windows@),
        },
        Event::WorkspacesChanged { workspaces } => match v {
            SetView::WindowsOnly(ws) => SetView::Ready(map_of_list(ws), map_of_list(workspaces@)),
            SetView::Ready(m, _) => SetView::Ready(m, map_of_list(workspaces@)),
            _ => SetView::WorkspacesOnly(workspaces@),
        },
        Event::WindowClosed { id } => match v {
            SetView::Ready(m, s) => SetView::Ready(m.remove(id), s),
            _ => v,
        },
        Event::WindowOpenedOrChanged { window } => match v {
            SetView::Ready(m, s) => SetView::Ready(upsert(m, window), s),
            _ => v,
        },
        Event::WindowFocusChanged { id } => match v {
            SetView::Ready(m, s) => SetView::Ready(focus_on(m, id), s),
            _ => v,
        },
        Event::WindowLayoutsChanged { changes } => match v {
            SetView::Ready(m, s) => SetView::Ready(apply_layouts(m, changes@), s),
            _ => v,
        },
        Event::Other => v,
    }
}

/// In the ready phase, every window and workspace is stored under its own id.
pub open spec fn keyed_view(v: SetView) -> bool {
    match v {
        SetView::Ready(m, s) => keyed_by_id(m) && keyed_by_id(s),
        _ => true,
    }
}

/// The window's workspace is one of `spaces`.
pub open spec fn resolves(w: NiriWindow, spaces: Map<u64, Workspace>) -> bool {
    match w.workspace_id {
        Some(ws) => spaces.contains_key(ws),
        None => false,
    }
}

/// `v` is a window of `windows` joined with its workspace in `spaces`.
pub open spec fn joins(v: Window, windows: Map<u64, NiriWindow>, spaces: Map<u64, Workspace>) -> bool {
    &&& windows.contains_key(v.window.id)
    &&& windows[v.window.id] == v.window
    &&& v.window.workspace_id == Some(v.workspace.id)
    &&& spaces.contains_key(v.workspace.id)
    &&& spaces[v.workspace.id] == v.workspace
}

/// `r` lists, in increasing window id order, each window of `windows` whose
/// workspace is known, joined with that workspace, and nothing else.
pub open spec fn is_snapshot(
    r: Seq<Window>,
    windows: Map<u64, NiriWindow>,
    spaces: Map<u64, Workspace>,
) -> bool {
    &&& forall|a: int, b: int| 0 <= a < b < r.len() ==> r[a].window.id < r[b].window.id
    &&& forall|a: int| 0 <= a < r.len() ==> joins(#[trigger] r[a], windows, spaces)
    &&& forall|k: u64|
        #[trigger] windows.contains_key(k) && resolves(windows[k], spaces) ==> exists|a: int|
            0 <= a < r.len() && r[a].window.id == k
}

/// The live windows and workspaces.
struct NiriState {
    windows: IdMap<NiriWindow>,
    workspaces: IdMap<Workspace>,
}

impl NiriState {
    spec fn wf(&self) -> bool {
        self.windows.wf() && self.workspaces.wf()
    }

    fn new(windows: &Vec<NiriWindow>, workspaces: &Vec<Workspace>) -> (r: Self)
        ensures
            r.wf(),
            r.windows@ == map_of_list(windows@),
            r.workspaces@ == map_of_list(workspaces@),
    {
        let mut niri = NiriState { windows: IdMap::new(), workspaces: IdMap::new() };
        niri.replace_workspaces(workspaces);
        niri.replace_windows(windows);
        niri
    }

    fn remove_window(&mut self, id: u64)
        requires
            old(self).wf(),
        ensures
            final(self).wf(),
            final(self).windows@ == old(self).windows@.remove(id),
            final(self).workspaces@ == old(self).workspaces@,
    {
        self.windows.remove(id);
    }

    fn replace_windows(&mut self, windows: &Vec<NiriWindow>)
        requires
            old(self).wf(),
        ensures
            final(self).wf(),
            final(self).windows@ == map_of_list(windows@),
            final(self).workspaces@ == old(self).workspaces@,
    {
        self.windows = IdMap::from_list(windows);
    }

    fn replace_workspaces(&mut self, workspaces: &Vec<Workspace>)
        requires
            old(self).wf(),
        ensures
            final(self).wf(),
            final(self).workspaces@ == map_of_list(workspaces@),
            final(self).windows@ == old(self).windows@,
    {
        self.workspaces = IdMap::from_list(workspaces);
    }

    fn set_focus(&mut self, id: Option<u64>)
        requires
            old(self).wf(),
        ensures
            final(self).wf(),
            final(self).windows@ == focus_on(old(self).windows@, id),
            final(self).workspaces@ == old(self).workspaces@,
    {
        let ghost s = self.windows.entries();
        let n = self.windows.len();
        let mut i: usize = 0;
        while i < n
            invariant
                n == s.len(),
                i <= n,
                self.wf(),
                self.workspaces@ == old(self).workspaces@,
                s == old(self).windows.entries(),
                self.windows.entries().len() == n,
                forall|j: int|
                    0 <= j < i ==> #[trigger] self.windows.entries()[j] == with_focus(
                        s[j],
                        Some(s[j].id) == id,
                    ),
                forall|j: int| i <= j < n ==> #[trigger] self.windows.entries()[j] == s[j],
            decreases n - i,
        {
            let mut w = self.windows.at(i).duplicate();
            w.is_focused = Some(w.id) == id;
            self.windows.replace_at(i, w);
            i = i + 1;
        }
        proof {
            let t = self.windows.entries();
            let m = old(self).windows@;
            let f = focus_on(m, id);
            assert forall|j: int| 0 <= j < t.len() implies f.contains_key(#[trigger] t[j].key())
                && f[t[j].key()] == t[j] by {
                lemma_sorted_lookup(s, j);
            }
            assert forall|k: u64| #[trigger] f.contains_key(k) implies crate::id_map::has_key(
                t,
                k,
            ) by {
                let j = choose|j: int| 0 <= j < s.len() && s[j].key() == k;
                assert(t[j].key() == k);
            }
            crate::id_map::lemma_sorted_view_eq(t, f);
        }
    }

    fn update_window_layout(&mut self, window_id: u64, layout: WindowLayout)
        requires
            old(self).wf(),
        ensures
            final(self).wf(),
            final(self).windows@ == (if old(self).windows@.contains_key(window_id) {
                old(self).windows@.insert(
                    window_id,
                    with_layout(old(self).windows@[window_id], layout),
                )
            } else {
                old(self).windows@
            }),
            final(self).workspaces@ == old(self).workspaces@,
    {
        match self.windows.get(window_id) {
            Some(w) => {
                let mut w = w.duplicate();
                proof {
                    lemma_sorted_keyed(self.windows.entries());
                }
                w.layout = layout;
                self.windows.insert(w);
            },
            None => {},
        }
    }

    fn update_window_layouts(&mut self, changes: &Vec<(u64, WindowLayout)>)
        requires
            old(self).wf(),
        ensures
            final(self).wf(),
            final(self).windows@ == apply_layouts(old(self).windows@, changes@),
            final(self).workspaces@ == old(self).workspaces@,
    {
        let mut i: usize = 0;
        while i < changes.len()
            invariant
                i <= changes@.len(),
                self.wf(),
                self.workspaces@ == old(self).workspaces@,
                self.windows@ == apply_layouts(old(self).windows@, changes@.take(i as int)),
            decreases changes@.len() - i,
        {
            let (window_id, layout) = changes[i];
            self.update_window_layout(window_id, layout);
            proof {
                let p = changes@.take(i + 1);
                assert(p.drop_last() == changes@.take(i as int));
            }
            i = i + 1;
        }
        assert(changes@.take(i as int) == changes@);
    }

    fn upsert_window(&mut self, window: NiriWindow)
        requires
            old(self).wf(),
        ensures
            final(self).wf(),
            final(self).windows@ == upsert(old(self).windows@, window),
            final(self).workspaces@ == old(self).workspaces@,
    {
        if window.is_focused {
            self.set_focus(None);
        }
        self.windows.insert(window);
    }

    fn snapshot(&self) -> (r: Vec<Window>)
        requires
            self.wf(),
        ensures
            is_snapshot(r@, self.windows@, self.workspaces@),
    {
        let ghost s = self.windows.entries();
        let ghost m = self.windows@;
        let ghost spaces = self.workspaces@;
        let mut r: Vec<Window> = Vec::new();
        let n = self.windows.len();
        let mut i: usize = 0;
        while i < n
            invariant
                n == s.len(),
                i <= n,
                self.wf(),
                s == self.windows.entries(),
                m == self.windows@,
                spaces == self.workspaces@,
                forall|a: int, b: int|
                    0 <= a < b < r@.len() ==> r@[a].window.id < r@[b].window.id,
                forall|a: int| 0 <= a < r@.len() && i < n ==> #[trigger] r@[a].window.id < s[i as int].id,
                forall|a: int| 0 <= a < r@.len() ==> joins(#[trigger] r@[a], m, spaces),
                forall|j: int|
                    0 <= j < i && #[trigger] resolves(s[j], spaces) ==> exists|a: int|
                        0 <= a < r@.len() && r@[a].window.id == s[j].id,
            decreases n - i,
        {
            let w = self.windows.at(i);
            proof {
                lemma_sorted_lookup(s, i as int);
            }
            match w.workspace_id {
                Some(ws_id) => match self.workspaces.get(ws_id) {
                    Some(ws) => {
                        let ghost before = r@;
                        r.push(Window { window: w.duplicate(), workspace: ws.duplicate() });
                        proof {
                            lemma_sorted_keyed(self.workspaces.entries());
                            assert(r@[before.len() as int].window.id == s[i as int].id);
                            assert forall|j: int| 0 <= j < i + 1 && #[trigger] resolves(
                                s[j],
                                spaces,
                            ) implies exists|a: int|
                                0 <= a < r@.len() && r@[a].window.id == s[j].id by {
                                if j < i {
                                    let a = choose|a: int|
                                        0 <= a < before.len() && before[a].window.id == s[j].id;
                                    assert(r@[a] == before[a]);
                                }
                            }
                        }
                    },
                    None => {},
                },
                None => {},
            }
            i = i + 1;
        }
        proof {
            assert forall|k: u64| #[trigger]
                m.contains_key(k) && resolves(m[k], spaces) implies exists|a: int|
                0 <= a < r@.len() && r@[a].window.id == k by {
                let j = choose|j: int| 0 <= j < s.len() && s[j].key() == k;
                lemma_sorted_lookup(s, j);
                assert(resolves(s[j], spaces));
            }
        }
        r
    }
}

/// The phases of a window set while the stream opens.
///
/// The compositor sends the full window list and the full workspace list before
/// any update, in either order.
enum Inner {
    WindowsOnly(Vec<NiriWindow>),
    WorkspacesOnly(Vec<Workspace>),
    Ready(NiriState),
}

/// The toplevel window set of the compositor, updated from its event stream.
pub struct WindowSet(Option<Inner>);

impl View for WindowSet {
    type V = SetView;

    closed spec fn view(&self) -> SetView {
        match self.0 {
            None => SetView::Uninitialized,
            Some(Inner::WindowsOnly(w)) => SetView::WindowsOnly(w@),
            Some(Inner::WorkspacesOnly(s)) => SetView::WorkspacesOnly(s@),
            Some(Inner::Ready(state)) => SetView::Ready(state.windows@, state.workspaces@),
        }
    }
}

impl WindowSet {
    pub closed spec fn wf(&self) -> bool {
        match self.0 {
            Some(Inner::Ready(state)) => state.wf(),
            _ => true,
        }
    }

    pub fn new() -> (r: Self)
        ensures
            r.wf(),
            r@ == SetView::Uninitialized,
    {
        WindowSet(None)
    }

    /// Applies one event; once both initial lists have arrived, returns the
    /// windows whose workspace is known, joined with it.
    pub fn with_event(&mut self, event: Event) -> (r: Option<Vec<Window>>)
        requires
            old(self).wf(),
        ensures
            final(self).wf(),
            final(self)@ == next_view(old(self)@, event),
            keyed_view(final(self)@),
            match final(self)@ {
                SetView::Ready(windows, spaces) => r is Some && is_snapshot(
                    r->0@,
                    windows,
                    spaces,
                ),
                _ => r is None,
            },
    {
        let ghost e = event;
        match event {
            Event::WindowsChanged { windows } => {
                let prev = self.0.take();
                self.0 = match prev {
                    Some(Inner::WorkspacesOnly(workspaces)) => Some(
                        Inner::Ready(NiriState::new(&windows, &workspaces)),
                    ),
                    Some(Inner::Ready(state)) => {
                        let mut state = state;
                        state.replace_windows(&windows);
                        Some(Inner::Ready(state))
                    },
                    _ => Some(Inner::WindowsOnly(windows)),
                };
            },
            Event::WorkspacesChanged { workspaces } => {
                let prev = self.0.take();
                self.0 = match prev {
                    Some(Inner::WindowsOnly(windows)) => Some(
                        Inner::Ready(NiriState::new(&windows, &workspaces)),
                    ),
                    Some(Inner::Ready(state)) => {
                        let mut state = state;
                        state.replace_workspaces(&workspaces);
                        Some(Inner::Ready(state))
                    },
                    _ => Some(Inner::WorkspacesOnly(workspaces)),
                };
            },
            Event::WindowClosed { id } => {
                if let Some(Inner::Ready(state)) = &mut self.0 {
                    state.remove_window(id);
                }
            },
            Event::WindowOpenedOrChanged { window } => {
                if let Some(Inner::Ready(state)) = &mut self.0 {
                    state.upsert_window(window);
                }
            },
            Event::WindowFocusChanged { id } => {
                if let Some(Inner::Ready(state)) = &mut self.0 {
                    state.set_focus(id);
                }
            },
            Event::WindowLayoutsChanged { changes } => {
                if let Some(Inner::Ready(state)) = &mut self.0 {
                    state.update_window_layouts(&changes);
                }
            },
            Event::Other => {},
        }
        if let Some(Inner::Ready(state)) = &self.0 {
            proof {
                lemma_sorted_keyed(state.windows.entries());
                lemma_sorted_keyed(state.workspaces.entries());
            }
            Some(state.snapshot())
        } else {
            None
        }
    }
}

/// The ordering key of a layout: column in the high 32 bits, tile in the low
/// 32 bits, each cut to 32 bits; a window outside the scrolling layout gets 0.
pub open spec fn sort_key_of(layout: WindowLayout) -> int {
    match layout.pos_in_scrolling_layout {
        Some(p) => (p.0 as int % 0x1_0000_0000) * 0x1_0000_0000 + (p.1 as int % 0x1_0000_0000),
        None => 0,
    }
}

impl Window {
    /// The output that the window's workspace is on.
    pub fn output(&self) -> (r: Option<&str>)
        ensures
            match self.workspace.output {
                Some(o) => r is Some && r->0@ == o@,
                None => r is None,
            },
    {
        match &self.workspace.output {
            Some(o) => Some(o.as_str()),
            None => None,
        }
    }

    pub fn workspace_idx(&self) -> (r: u8)
        ensures
            r == self.workspace.idx,
    {
        self.workspace.idx
    }

    pub fn workspace_id(&self) -> (r: u64)
        ensures
            r == self.workspace.id,
    {
        self.workspace.id
    }

    /// The window record itself.
    pub fn window(&self) -> (r: &NiriWindow)
        ensures
            *r == self.window,
    {
        &self.window
    }

    /// The key that orders windows of one workspace by their place in the layout.
    pub fn sort_key(&self) -> (r: u64)
        ensures
            r as int == sort_key_of(self.window.layout),
    {
        let (column, tile) = match self.window.layout.pos_in_scrolling_layout {
            Some(p) => p,
            None => (0, 0),
        };
        let hi: u64 = column as u64 % 0x1_0000_0000;
        let lo: u64 = tile as u64 % 0x1_0000_0000;
        assert(hi * 0x1_0000_0000 + lo <= 0xffff_ffff_ffff_ffff) by (nonlinear_arith)
            requires
                hi < 0x1_0000_0000,
                lo < 0x1_0000_0000,
        ;
        hi * 0x1_0000_0000 + lo
    }
}

/// A handle on the compositor's IPC interface.
#[derive(Clone, Copy, Debug)]
pub struct Niri {}

impl Niri {
    pub fn new() -> (r: Self) {
        Niri {}
    }
}

/// The workspace list that an event carries, if it is a workspace update.
pub fn workspace_update(event: Event) -> (r: Option<Vec<Workspace>>)
    ensures
        match event {
            Event::WorkspacesChanged { workspaces } => r == Some(workspaces),
            _ => r is None,
        },
{
    match event {
        Event::WorkspacesChanged { workspaces } => Some(workspaces),
        _ => None,
    }
}

} // verus!
