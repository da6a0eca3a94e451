use niribar::model::{NiriWindow, WindowLayout, Workspace};
use niribar::niri::{workspace_update, Event, Niri, Window, WindowSet};
use niribar::stream::{ReadOutcome, StreamAction, StreamSession};

fn win(id: u64, title: &str, workspace_id: Option<u64>, focused: bool) -> NiriWindow {
    NiriWindow {
        id,
        title: Some(title.to_string()),
        app_id: None,
        pid: None,
        workspace_id,
        is_focused: focused,
        is_floating: false,
        is_urgent: false,
        layout: WindowLayout { pos_in_scrolling_layout: None },
    }
}

fn space(id: u64, idx: u8, output: &str) -> Workspace {
    Workspace {
        id,
        idx,
        name: None,
        output: Some(output.to_string()),
        is_urgent: false,
        is_active: false,
        is_focused: false,
        active_window_id: None,
    }
}

fn ids(snap: &[Window]) -> Vec<u64> {
    snap.iter().map(|w| w.window.id).collect()
}

fn focused(snap: &[Window]) -> Vec<u64> {
    snap.iter().filter(|w| w.window.is_focused).map(|w| w.window.id).collect()
}

fn ready_set(windows: Vec<NiriWindow>, workspaces: Vec<Workspace>) -> WindowSet {
    let mut set = WindowSet::new();
    assert!(set.with_event(Event::WindowsChanged { windows }).is_none());
    assert!(set.with_event(Event::WorkspacesChanged { workspaces }).is_some());
    set
}

#[test]
fn example_scenario_windows_then_workspaces() {
    let mut set = WindowSet::new();
    let r = set.with_event(Event::WindowsChanged { windows: vec![win(1, "a", Some(10), true)] });
    assert!(r.is_none());
    let snap = set
        .with_event(Event::WorkspacesChanged { workspaces: vec![space(10, 0, "eDP-1")] })
        .unwrap();
    assert_eq!(snap.len(), 1);
    assert_eq!(snap[0].window.id, 1);
    assert_eq!(snap[0].window.title.as_deref(), Some("a"));
    assert_eq!(snap[0].workspace_id(), 10);
    assert_eq!(snap[0].workspace_idx(), 0);
    assert_eq!(snap[0].output(), Some("eDP-1"));
    assert!(snap[0].window.is_focused);

    let snap = set
        .with_event(Event::WindowOpenedOrChanged { window: win(2, "b", Some(99), true) })
        .unwrap();
    assert_eq!(ids(&snap), vec![1]);
    assert!(!snap[0].window.is_focused);
    assert_eq!(snap[0].window().title.as_deref(), Some("a"));
}

#[test]
fn ready_in_either_order() {
    let mut set = WindowSet::new();
    assert!(set.with_event(Event::WorkspacesChanged { workspaces: vec![space(10, 0, "DP-1")] }).is_none());
    assert!(set.with_event(Event::WorkspacesChanged { workspaces: vec![space(10, 0, "DP-1")] }).is_none());
    let snap = set.with_event(Event::WindowsChanged { windows: vec![win(3, "c", Some(10), false)] }).unwrap();
    assert_eq!(ids(&snap), vec![3]);
}

#[test]
fn repeated_window_lists_do_not_make_ready() {
    let mut set = WindowSet::new();
    assert!(set.with_event(Event::WindowsChanged { windows: vec![win(1, "a", Some(10), false)] }).is_none());
    assert!(set.with_event(Event::WindowsChanged { windows: vec![win(2, "b", Some(10), false)] }).is_none());
    // Only the latest window list counts once the workspaces arrive.
    let snap = set.with_event(Event::WorkspacesChanged { workspaces: vec![space(10, 0, "DP-1")] }).unwrap();
    assert_eq!(ids(&snap), vec![2]);
}

#[test]
fn updates_before_ready_are_ignored() {
    let mut set = WindowSet::new();
    assert!(set.with_event(Event::WindowOpenedOrChanged { window: win(7, "x", Some(10), true) }).is_none());
    assert!(set.with_event(Event::WindowClosed { id: 7 }).is_none());
    assert!(set.with_event(Event::WindowFocusChanged { id: Some(7) }).is_none());
    assert!(set.with_event(Event::WindowLayoutsChanged { changes: vec![] }).is_none());
    assert!(set.with_event(Event::Other).is_none());
    assert!(set.with_event(Event::WindowsChanged { windows: vec![win(1, "a", Some(10), false)] }).is_none());
    let snap = set.with_event(Event::WorkspacesChanged { workspaces: vec![space(10, 0, "DP-1")] }).unwrap();
    assert_eq!(ids(&snap), vec![1]);
}

#[test]
fn focus_change_is_exclusive() {
    let mut set = ready_set(
        vec![win(1, "a", Some(10), true), win(2, "b", Some(10), false), win(3, "c", Some(10), false)],
        vec![space(10, 0, "DP-1")],
    );
    let snap = set.with_event(Event::WindowFocusChanged { id: Some(2) }).unwrap();
    assert_eq!(focused(&snap), vec![2]);
    let snap = set.with_event(Event::WindowFocusChanged { id: None }).unwrap();
    assert_eq!(focused(&snap), Vec::<u64>::new());
    let snap = set.with_event(Event::WindowOpenedOrChanged { window: win(4, "d", Some(10), true) }).unwrap();
    assert_eq!(focused(&snap), vec![4]);
    assert_eq!(ids(&snap), vec![1, 2, 3, 4]);
}

#[test]
fn focus_on_unknown_window_clears_focus() {
    let mut set = ready_set(vec![win(1, "a", Some(10), true)], vec![space(10, 0, "DP-1")]);
    let snap = set.with_event(Event::WindowFocusChanged { id: Some(42) }).unwrap();
    assert_eq!(focused(&snap), Vec::<u64>::new());
}

#[test]
fn snapshot_omits_unresolved_windows() {
    let mut set = WindowSet::new();
    set.with_event(Event::WindowsChanged {
        windows: vec![win(5, "e", None, false), win(2, "b", Some(11), false), win(1, "a", Some(10), false)],
    });
    let snap = set
        .with_event(Event::WorkspacesChanged { workspaces: vec![space(10, 0, "DP-1"), space(12, 1, "DP-1")] })
        .unwrap();
    assert_eq!(ids(&snap), vec![1]);
    for w in &snap {
        assert_eq!(w.window.workspace_id, Some(w.workspace.id));
    }
}

#[test]
fn same_event_twice_gives_same_snapshot() {
    let mut set = ready_set(
        vec![win(1, "a", Some(10), false), win(2, "b", Some(10), true)],
        vec![space(10, 0, "DP-1")],
    );
    let ev = || Event::WindowOpenedOrChanged { window: win(3, "c", Some(10), true) };
    let first = set.with_event(ev()).unwrap();
    let second = set.with_event(ev()).unwrap();
    assert_eq!(ids(&first), ids(&second));
    assert_eq!(focused(&first), focused(&second));
    let first = set.with_event(Event::WindowClosed { id: 1 }).unwrap();
    let second = set.with_event(Event::WindowClosed { id: 1 }).unwrap();
    assert_eq!(ids(&first), vec![2, 3]);
    assert_eq!(ids(&second), vec![2, 3]);
}

#[test]
fn closed_window_leaves_snapshot() {
    let mut set = ready_set(
        vec![win(1, "a", Some(10), false), win(2, "b", Some(10), true)],
        vec![space(10, 0, "DP-1")],
    );
    let snap = set.with_event(Event::WindowClosed { id: 2 }).unwrap();
    assert_eq!(ids(&snap), vec![1]);
    let snap = set.with_event(Event::WindowClosed { id: 9 }).unwrap();
    assert_eq!(ids(&snap), vec![1]);
}

#[test]
fn layouts_for_unknown_windows_change_nothing() {
    let mut set = ready_set(vec![win(1, "a", Some(10), false)], vec![space(10, 0, "DP-1")]);
    let snap = set
        .with_event(Event::WindowLayoutsChanged {
            changes: vec![(8, WindowLayout { pos_in_scrolling_layout: Some((4, 4)) })],
        })
        .unwrap();
    assert_eq!(ids(&snap), vec![1]);
    assert_eq!(snap[0].window.layout.pos_in_scrolling_layout, None);
    assert_eq!(snap[0].sort_key(), 0);
}

#[test]
fn layouts_for_known_windows_keep_the_last() {
    let mut set = ready_set(vec![win(1, "a", Some(10), false)], vec![space(10, 0, "DP-1")]);
    let snap = set
        .with_event(Event::WindowLayoutsChanged {
            changes: vec![
                (1, WindowLayout { pos_in_scrolling_layout: Some((1, 1)) }),
                (1, WindowLayout { pos_in_scrolling_layout: Some((2, 3)) }),
            ],
        })
        .unwrap();
    assert_eq!(snap[0].window.layout.pos_in_scrolling_layout, Some((2, 3)));
    assert_eq!(snap[0].sort_key(), (2u64 << 32) | 3);
}

#[test]
fn sort_key_cuts_to_32_bits() {
    let mut w = win(1, "a", Some(10), false);
    w.layout = WindowLayout { pos_in_scrolling_layout: Some((5, 7)) };
    let set_ws = vec![space(10, 0, "DP-1")];
    let mut set = ready_set(vec![w], set_ws);
    let snap = set.with_event(Event::Other).unwrap();
    assert_eq!(snap[0].sort_key(), 21474836487);
}

#[test]
fn later_duplicate_in_window_list_wins() {
    let set = ready_set(
        vec![win(4, "old", Some(10), false), win(2, "b", Some(10), false), win(4, "new", Some(10), false)],
        vec![space(10, 0, "DP-1")],
    );
    let mut set = set;
    let snap = set.with_event(Event::Other).unwrap();
    assert_eq!(ids(&snap), vec![2, 4]);
    assert_eq!(snap[1].window.title.as_deref(), Some("new"));
}

#[test]
fn workspace_list_replaces_the_old_one() {
    let mut set = ready_set(
        vec![win(1, "a", Some(10), false), win(2, "b", Some(11), false)],
        vec![space(10, 0, "DP-1")],
    );
    let snap = set.with_event(Event::WorkspacesChanged { workspaces: vec![space(11, 3, "HDMI-A-1")] }).unwrap();
    assert_eq!(ids(&snap), vec![2]);
    assert_eq!(snap[0].workspace_idx(), 3);
    assert_eq!(snap[0].output(), Some("HDMI-A-1"));
}

#[test]
fn reconnect_replays_without_residue() {
    let mut session = StreamSession::new();
    let a = session.step(ReadOutcome::Event(Event::WindowsChanged {
        windows: vec![win(1, "a", Some(10), true), win(2, "b", Some(10), false)],
    }));
    assert!(matches!(a, StreamAction::ReadNext));
    let a = session.step(ReadOutcome::Event(Event::WorkspacesChanged { workspaces: vec![space(10, 0, "DP-1")] }));
    match a {
        StreamAction::Publish(snap) => assert_eq!(ids(&snap), vec![1, 2]),
        _ => panic!("expected a snapshot"),
    }
    assert!(matches!(session.step(ReadOutcome::Malformed), StreamAction::ReadNext));
    assert!(matches!(session.step(ReadOutcome::Disconnected), StreamAction::Reconnect));
    // Updates before the new lists arrive publish nothing.
    assert!(matches!(
        session.step(ReadOutcome::Event(Event::WindowFocusChanged { id: Some(2) })),
        StreamAction::ReadNext
    ));
    let a = session.step(ReadOutcome::Event(Event::WorkspacesChanged { workspaces: vec![space(20, 1, "DP-2")] }));
    assert!(matches!(a, StreamAction::ReadNext));
    let a = session.step(ReadOutcome::Event(Event::WindowsChanged { windows: vec![win(2, "b", Some(20), false)] }));
    match a {
        StreamAction::Publish(snap) => {
            assert_eq!(ids(&snap), vec![2]);
            assert_eq!(focused(&snap), Vec::<u64>::new());
            assert_eq!(snap[0].workspace_id(), 20);
            assert_eq!(snap[0].output(), Some("DP-2"));
        }
        _ => panic!("expected a snapshot"),
    }
}

#[test]
fn malformed_read_keeps_state() {
    let mut session = StreamSession::new();
    session.step(ReadOutcome::Event(Event::WindowsChanged { windows: vec![win(1, "a", Some(10), false)] }));
    assert!(matches!(session.step(ReadOutcome::Malformed), StreamAction::ReadNext));
    match session.step(ReadOutcome::Event(Event::WorkspacesChanged { workspaces: vec![space(10, 0, "DP-1")] })) {
        StreamAction::Publish(snap) => assert_eq!(ids(&snap), vec![1]),
        _ => panic!("expected a snapshot"),
    }
}

#[test]
fn workspace_update_picks_workspace_lists() {
    let r = workspace_update(Event::WorkspacesChanged { workspaces: vec![space(10, 2, "DP-1")] }).unwrap();
    assert_eq!(r.len(), 1);
    assert_eq!(r[0].idx, 2);
    assert!(workspace_update(Event::WindowClosed { id: 1 }).is_none());
    assert!(workspace_update(Event::Other).is_none());
}

#[test]
fn niri_handle_is_copy() {
    let n = Niri::new();
    let m = n;
    let _ = (n, m);
}
