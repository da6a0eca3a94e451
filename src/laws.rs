//! Properties of the window set that hold across events.
use vstd::prelude::*;

use crate::id_map::{keyed_by_id, map_of_list};
use crate::model::{NiriWindow, WindowLayout, Workspace};
use crate::niri::{
    apply_layouts, focus_on, is_snapshot, joins, next_view, resolves, upsert, with_focus,
    with_layout, Event, SetView, Window,
};
use crate::stream::{session_next, ReadOutcome};

verus! {

/// The state after a sequence of events, applied in order.
pub open spec fn run(v: SetView, es: Seq<Event>) -> SetView
    decreases es.len(),
{
    if es.len() == 0 {
        v
    } else {
        next_view(run(v, es.drop_last()), es.last())
    }
}

pub open spec fn has_windows(v: SetView) -> bool {
    v is WindowsOnly || v is Ready
}

pub open spec fn has_workspaces(v: SetView) -> bool {
    v is WorkspacesOnly || v is Ready
}

pub open spec fn seen_windows(es: Seq<Event>) -> bool {
    exists|i: int| 0 <= i < es.len() && #[trigger] es[i] is WindowsChanged
}

pub open spec fn seen_workspaces(es: Seq<Event>) -> bool {
    exists|i: int| 0 <= i < es.len() && #[trigger] es[i] is WorkspacesChanged
}

proof fn lemma_run_seen(es: Seq<Event>)
    ensures
        has_windows(run(SetView::Uninitialized, es)) == seen_windows(es),
        has_workspaces(run(SetView::Uninitialized, es)) == seen_workspaces(es),
    decreases es.len(),
{
    if es.len() > 0 {
        let p = es.drop_last();
        lemma_run_seen(p);
        if seen_windows(p) {
            let i = choose|i: int| 0 <= i < p.len() && #[trigger] p[i] is WindowsChanged;
            assert(es[i] is WindowsChanged);
        }
        if seen_workspaces(p) {
            let i = choose|i: int| 0 <= i < p.len() && #[trigger] p[i] is WorkspacesChanged;
            assert(es[i] is WorkspacesChanged);
        }
        if seen_windows(es) && !(es.last() is WindowsChanged) {
            let i = choose|i: int| 0 <= i < es.len() && #[trigger] es[i] is WindowsChanged;
            assert(p[i] is WindowsChanged);
        }
        if seen_workspaces(es) && !(es.last() is WorkspacesChanged) {
            let i = choose|i: int| 0 <= i < es.len() && #[trigger] es[i] is WorkspacesChanged;
            assert(p[i] is WorkspacesChanged);
        }
        if es.last() is WindowsChanged {
            assert(es[es.len() - 1] is WindowsChanged);
        }
        if es.last() is WorkspacesChanged {
            assert(es[es.len() - 1] is WorkspacesChanged);
        }
    }
}

/// Starting from nothing, the window set is ready exactly when at least one full
/// window list and at least one full workspace list have arrived, in either order.
pub proof fn lemma_ready_iff_both_lists_seen(es: Seq<Event>)
    ensures
        run(SetView::Uninitialized, es) is Ready <==> seen_windows(es) && seen_workspaces(es),
{
    lemma_run_seen(es);
}

/// Once ready, the window set stays ready whatever event comes.
pub proof fn lemma_ready_is_kept(v: SetView, e: Event)
    requires
        v is Ready,
    ensures
        next_view(v, e) is Ready,
{
}

/// The ids of the focused windows.
pub open spec fn focused_ids(m: Map<u64, NiriWindow>) -> Set<u64> {
    Set::new(|k: u64| m.contains_key(k) && m[k].is_focused)
}

/// The ids of the focused windows that a snapshot lists.
pub open spec fn snapshot_focused(r: Seq<Window>) -> Set<u64> {
    Set::new(|k: u64| exists|a: int| 0 <= a < r.len() && r[a].window.id == k && r[a].window.is_focused)
}

/// A snapshot shows as focused exactly the focused windows whose workspace is known.
pub proof fn lemma_snapshot_focus(r: Seq<Window>, m: Map<u64, NiriWindow>, s: Map<u64, Workspace>)
    requires
        keyed_by_id(m),
        is_snapshot(r, m, s),
    ensures
        forall|k: u64|
            #[trigger] snapshot_focused(r).contains(k) <==> focused_ids(m).contains(k) && resolves(
                m[k],
                s,
            ),
{
    assert forall|k: u64| #[trigger] snapshot_focused(r).contains(k) <==> focused_ids(m).contains(
        k,
    ) && resolves(m[k], s) by {
        if snapshot_focused(r).contains(k) {
            let a = choose|a: int|
                0 <= a < r.len() && r[a].window.id == k && r[a].window.is_focused;
            assert(joins(r[a], m, s));
        }
        if focused_ids(m).contains(k) && resolves(m[k], s) {
            assert(m.contains_key(k));
            let a = choose|a: int| 0 <= a < r.len() && r[a].window.id == k;
            assert(joins(r[a], m, s));
        }
    }
}

/// After focus moves to a known window, it is the only focused window; after
/// focus moves to nothing, no window is focused.
pub proof fn lemma_focus_change_is_exclusive(m: Map<u64, NiriWindow>, id: Option<u64>)
    requires
        keyed_by_id(m),
    ensures
        focused_ids(focus_on(m, id)) == (match id {
            Some(k) => if m.contains_key(k) {
                set![k]
            } else {
                Set::empty()
            },
            None => Set::empty(),
        }),
{
    let f = focus_on(m, id);
    match id {
        Some(k) => {
            if m.contains_key(k) {
                assert(focused_ids(f) =~= set![k]);
            } else {
                assert(focused_ids(f) =~= Set::empty());
            }
        },
        None => {
            assert(focused_ids(f) =~= Set::empty());
        },
    }
}

/// A focused window that opens or changes is afterwards the only focused window.
pub proof fn lemma_focused_upsert_is_exclusive(m: Map<u64, NiriWindow>, w: NiriWindow)
    requires
        w.is_focused,
    ensures
        focused_ids(upsert(m, w)) == set![w.id],
{
    assert(focused_ids(upsert(m, w)) =~= set![w.id]);
}

/// In the snapshot that follows a focus change, the newly focused window is the
/// only focused one, if its workspace is known; after focus moves to nothing,
/// no window in it is focused.
pub proof fn lemma_snapshot_after_focus_change(
    m: Map<u64, NiriWindow>,
    s: Map<u64, Workspace>,
    id: Option<u64>,
    r: Seq<Window>,
)
    requires
        keyed_by_id(m),
        is_snapshot(r, focus_on(m, id), s),
    ensures
        forall|k: u64| #[trigger]
            snapshot_focused(r).contains(k) <==> id == Some(k) && m.contains_key(k) && resolves(
                m[k],
                s,
            ),
{
    let f = focus_on(m, id);
    assert(keyed_by_id(f));
    lemma_snapshot_focus(r, f, s);
    lemma_focus_change_is_exclusive(m, id);
    assert forall|k: u64| #[trigger]
        snapshot_focused(r).contains(k) <==> id == Some(k) && m.contains_key(k) && resolves(
            m[k],
            s,
        ) by {
        if m.contains_key(k) {
            assert(f[k].workspace_id == m[k].workspace_id);
        }
    }
}

/// At most one window is focused.
pub open spec fn focus_exclusive(m: Map<u64, NiriWindow>) -> bool {
    forall|a: u64, b: u64|
        #[trigger] focused_ids(m).contains(a) && #[trigger] focused_ids(m).contains(b) ==> a == b
}

/// Every event but a full window list keeps at most one window focused.
pub proof fn lemma_focus_stays_exclusive(
    m: Map<u64, NiriWindow>,
    s: Map<u64, Workspace>,
    e: Event,
)
    requires
        keyed_by_id(m),
        focus_exclusive(m),
        !(e is WindowsChanged),
    ensures
        match next_view(SetView::Ready(m, s), e) {
            SetView::Ready(m2, _) => focus_exclusive(m2),
            _ => false,
        },
{
    match e {
        Event::WindowOpenedOrChanged { window } => {
            if !window.is_focused {
                let m2 = upsert(m, window);
                assert forall|a: u64, b: u64|
                    #[trigger] focused_ids(m2).contains(a) && #[trigger] focused_ids(m2).contains(
                        b,
                    ) implies a == b by {
                    assert(focused_ids(m).contains(a));
                    assert(focused_ids(m).contains(b));
                }
            }
        },
        Event::WindowFocusChanged { id } => {
            lemma_focus_change_is_exclusive(m, id);
        },
        Event::WindowClosed { id } => {
            let m2 = m.remove(id);
            assert forall|a: u64, b: u64|
                #[trigger] focused_ids(m2).contains(a) && #[trigger] focused_ids(m2).contains(
                    b,
                ) implies a == b by {
                assert(focused_ids(m).contains(a));
                assert(focused_ids(m).contains(b));
            }
        },
        Event::WindowLayoutsChanged { changes } => {
            lemma_layouts_pointwise(m, changes@);
            let m2 = apply_layouts(m, changes@);
            assert forall|a: u64, b: u64|
                #[trigger] focused_ids(m2).contains(a) && #[trigger] focused_ids(m2).contains(
                    b,
                ) implies a == b by {
                assert(focused_ids(m).contains(a));
                assert(focused_ids(m).contains(b));
            }
        },
        _ => {},
    }
}

/// The last layout that a list of changes gives window `k`, if any.
pub open spec fn last_layout(c: Seq<(u64, WindowLayout)>, k: u64) -> Option<WindowLayout>
    decreases c.len(),
{
    if c.len() == 0 {
        None
    } else if c.last().0 == k {
        Some(c.last().1)
    } else {
        last_layout(c.drop_last(), k)
    }
}

/// Layout changes touch no window but in its layout, which becomes the last one given.
pub proof fn lemma_layouts_pointwise(m: Map<u64, NiriWindow>, c: Seq<(u64, WindowLayout)>)
    ensures
        apply_layouts(m, c) == Map::new(
            |k: u64| m.contains_key(k),
            |k: u64|
                match last_layout(c, k) {
                    Some(l) => with_layout(m[k], l),
                    None => m[k],
                },
        ),
    decreases c.len(),
{
    if c.len() > 0 {
        lemma_layouts_pointwise(m, c.drop_last());
        let expected = Map::new(
            |k: u64| m.contains_key(k),
            |k: u64|
                match last_layout(c, k) {
                    Some(l) => with_layout(m[k], l),
                    None => m[k],
                },
        );
        assert(apply_layouts(m, c) =~= expected);
    }
}

/// Layout changes that name no known window leave the windows as they were;
/// no layout change ever adds or removes a window.
pub proof fn lemma_unknown_layouts_change_nothing(
    m: Map<u64, NiriWindow>,
    c: Seq<(u64, WindowLayout)>,
)
    ensures
        apply_layouts(m, c).dom() == m.dom(),
        (forall|i: int| 0 <= i < c.len() ==> !m.contains_key(#[trigger] c[i].0)) ==> apply_layouts(
            m,
            c,
        ) == m,
{
    lemma_layouts_pointwise(m, c);
    assert(apply_layouts(m, c).dom() =~= m.dom());
    if forall|i: int| 0 <= i < c.len() ==> !m.contains_key(#[trigger] c[i].0) {
        assert forall|k: u64| m.contains_key(k) implies #[trigger] last_layout(c, k) is None by {
            lemma_last_layout_names(c, k);
        }
        assert(apply_layouts(m, c) =~= m);
    }
}

proof fn lemma_last_layout_names(c: Seq<(u64, WindowLayout)>, k: u64)
    ensures
        last_layout(c, k) is Some ==> exists|i: int| 0 <= i < c.len() && #[trigger] c[i].0 == k,
    decreases c.len(),
{
    if c.len() > 0 {
        lemma_last_layout_names(c.drop_last(), k);
        if last_layout(c, k) is Some && c.last().0 != k {
            let i = choose|i: int| 0 <= i < c.len() - 1 && #[trigger] c.drop_last()[i].0 == k;
            assert(c[i].0 == k);
        }
        if c.last().0 == k {
            assert(c[c.len() - 1].0 == k);
        }
    }
}

/// Applying the same event twice leaves the window set as applying it once.
pub proof fn lemma_event_idempotent(v: SetView, e: Event)
    ensures
        next_view(next_view(v, e), e) == next_view(v, e),
{
    match (v, e) {
        (SetView::Ready(m, s), Event::WindowClosed { id }) => {
            assert(m.remove(id).remove(id) =~= m.remove(id));
        },
        (SetView::Ready(m, s), Event::WindowOpenedOrChanged { window }) => {
            assert(upsert(upsert(m, window), window) =~= upsert(m, window));
        },
        (SetView::Ready(m, s), Event::WindowFocusChanged { id }) => {
            assert(focus_on(focus_on(m, id), id) =~= focus_on(m, id));
        },
        (SetView::Ready(m, s), Event::WindowLayoutsChanged { changes }) => {
            let once = apply_layouts(m, changes@);
            lemma_layouts_pointwise(m, changes@);
            lemma_layouts_pointwise(once, changes@);
            assert(apply_layouts(once, changes@) =~= once);
        },
        _ => {},
    }
}

/// Applying the same event a second time gives the same snapshot as the first time.
pub proof fn lemma_repeated_event_same_snapshot(v: SetView, e: Event, r1: Seq<Window>, r2: Seq<Window>)
    requires
        match next_view(v, e) {
            SetView::Ready(m, s) => is_snapshot(r1, m, s),
            _ => false,
        },
        match next_view(next_view(v, e), e) {
            SetView::Ready(m, s) => is_snapshot(r2, m, s),
            _ => false,
        },
    ensures
        r1 == r2,
{
    lemma_event_idempotent(v, e);
    match next_view(v, e) {
        SetView::Ready(m, s) => {
            lemma_snapshot_unique(r1, r2, m, s);
        },
        _ => {},
    }
}

/// Two snapshots of the same windows and workspaces are the same.
pub proof fn lemma_snapshot_unique(
    r1: Seq<Window>,
    r2: Seq<Window>,
    m: Map<u64, NiriWindow>,
    s: Map<u64, Workspace>,
)
    requires
        is_snapshot(r1, m, s),
        is_snapshot(r2, m, s),
    ensures
        r1 == r2,
{
    let x = r1.map_values(|w: Window| w.window.id);
    let y = r2.map_values(|w: Window| w.window.id);
    assert forall|a: int| 0 <= a < x.len() implies y.contains(#[trigger] x[a]) by {
        assert(joins(r1[a], m, s));
        assert(m.contains_key(r1[a].window.id));
        let b = choose|b: int| 0 <= b < r2.len() && r2[b].window.id == r1[a].window.id;
        assert(y[b] == x[a]);
    }
    assert forall|b: int| 0 <= b < y.len() implies x.contains(#[trigger] y[b]) by {
        assert(joins(r2[b], m, s));
        assert(m.contains_key(r2[b].window.id));
        let a = choose|a: int| 0 <= a < r1.len() && r1[a].window.id == r2[b].window.id;
        assert(x[a] == y[b]);
    }
    lemma_increasing_same_elements(x, y);
    assert forall|a: int| 0 <= a < r1.len() implies r1[a] == r2[a] by {
        assert(x[a] == y[a]);
        assert(joins(r1[a], m, s));
        assert(joins(r2[a], m, s));
    }
    assert(r1 =~= r2);
}

/// The values strictly increase along the sequence.
pub open spec fn increasing(x: Seq<u64>) -> bool {
    forall|a: int, b: int| 0 <= a < b < x.len() ==> x[a] < x[b]
}

/// Two strictly increasing sequences with the same elements are equal.
proof fn lemma_increasing_same_elements(x: Seq<u64>, y: Seq<u64>)
    requires
        increasing(x),
        increasing(y),
        forall|a: int| 0 <= a < x.len() ==> y.contains(#[trigger] x[a]),
        forall|b: int| 0 <= b < y.len() ==> x.contains(#[trigger] y[b]),
    ensures
        x == y,
    decreases x.len(),
{
    if x.len() == 0 {
        if y.len() > 0 {
            assert(x.contains(y[0]));
        }
        assert(x =~= y);
    } else if y.len() == 0 {
        assert(y.contains(x[0]));
    } else {
        let lx = x.len() - 1;
        let ly = y.len() - 1;
        assert(y.contains(x[lx]));
        assert(x.contains(y[ly]));
        let b = choose|b: int| 0 <= b < y.len() && y[b] == x[lx];
        let a = choose|a: int| 0 <= a < x.len() && x[a] == y[ly];
        if b < ly {
            assert(y[b] < y[ly]);
        }
        if a < lx {
            assert(x[a] < x[lx]);
        }
        assert(x[lx] == y[ly]);
        let px = x.drop_last();
        let py = y.drop_last();
        assert forall|i: int| 0 <= i < px.len() implies py.contains(#[trigger] px[i]) by {
            assert(x[i] < x[lx]);
            assert(y.contains(x[i]));
            let j = choose|j: int| 0 <= j < y.len() && y[j] == x[i];
            assert(py[j] == y[j]);
        }
        assert forall|j: int| 0 <= j < py.len() implies px.contains(#[trigger] py[j]) by {
            assert(y[j] < y[ly]);
            assert(x.contains(y[j]));
            let i = choose|i: int| 0 <= i < x.len() && x[i] == y[j];
            assert(px[i] == x[i]);
        }
        lemma_increasing_same_elements(px, py);
        assert forall|i: int| 0 <= i < x.len() implies #[trigger] x[i] == y[i] by {
            if i < lx {
                assert(px[i] == x[i]);
                assert(py[i] == y[i]);
            }
        }
        assert(x =~= y);
    }
}

/// A snapshot only lists windows whose workspace is known, each with that workspace.
pub proof fn lemma_snapshot_windows_resolve(
    r: Seq<Window>,
    m: Map<u64, NiriWindow>,
    s: Map<u64, Workspace>,
)
    requires
        is_snapshot(r, m, s),
    ensures
        forall|a: int|
            0 <= a < r.len() ==> resolves(#[trigger] r[a].window, s) && r[a].window.workspace_id
                == Some(r[a].workspace.id) && s[r[a].workspace.id] == r[a].workspace,
{
    assert forall|a: int| 0 <= a < r.len() implies resolves(#[trigger] r[a].window, s)
        && r[a].window.workspace_id == Some(r[a].workspace.id) && s[r[a].workspace.id]
        == r[a].workspace by {
        assert(joins(r[a], m, s));
    }
}

/// The snapshot that follows the closing of a window does not list it.
pub proof fn lemma_closed_window_not_listed(v: SetView, id: u64, r: Seq<Window>)
    requires
        match next_view(v, Event::WindowClosed { id }) {
            SetView::Ready(m, s) => is_snapshot(r, m, s),
            _ => false,
        },
    ensures
        forall|a: int| 0 <= a < r.len() ==> #[trigger] r[a].window.id != id,
{
    match next_view(v, Event::WindowClosed { id }) {
        SetView::Ready(m, s) => {
            assert forall|a: int| 0 <= a < r.len() implies #[trigger] r[a].window.id != id by {
                assert(joins(r[a], m, s));
            }
        },
        _ => {},
    }
}

/// After a lost connection and a new stream that sends the full window and
/// workspace lists, in either order, the window set holds exactly those lists:
/// nothing of the state before the loss remains.
pub proof fn lemma_reconnect_replays_exactly(
    v: SetView,
    windows: Vec<NiriWindow>,
    workspaces: Vec<Workspace>,
)
    ensures
        run(
            session_next(v, ReadOutcome::Disconnected),
            seq![
                Event::WindowsChanged { windows: windows },
                Event::WorkspacesChanged { workspaces: workspaces },
            ],
        ) == SetView::Ready(map_of_list(windows@), map_of_list(workspaces@)),
        run(
            session_next(v, ReadOutcome::Disconnected),
            seq![
                Event::WorkspacesChanged { workspaces: workspaces },
                Event::WindowsChanged { windows: windows },
            ],
        ) == SetView::Ready(map_of_list(windows@), map_of_list(workspaces@)),
{
    let a = seq![
        Event::WindowsChanged { windows: windows },
        Event::WorkspacesChanged { workspaces: workspaces },
    ];
    let b = seq![
        Event::WorkspacesChanged { workspaces: workspaces },
        Event::WindowsChanged { windows: windows },
    ];
    let u = SetView::Uninitialized;
    let w = Event::WindowsChanged { windows: windows };
    let k = Event::WorkspacesChanged { workspaces: workspaces };
    assert(a.drop_last() =~= seq![w]);
    assert(b.drop_last() =~= seq![k]);
    assert(seq![w].drop_last() =~= Seq::<Event>::empty());
    assert(seq![k].drop_last() =~= Seq::<Event>::empty());
    assert(run(u, Seq::<Event>::empty()) == u);
    assert(seq![w].last() == w);
    assert(seq![k].last() == k);
    assert(run(u, seq![w]) == next_view(u, w));
    assert(run(u, seq![k]) == next_view(u, k));
}

} // verus!
