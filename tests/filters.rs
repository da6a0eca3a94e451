use niribar::launcher::window_to_focus;
use niribar::model::{NiriWindow, WindowLayout, Workspace};
use niribar::niri::Window;
use niribar::outputs::{build_output_filter, Output, OutputFilter};

fn window_on(output: Option<&str>) -> Window {
    Window {
        window: NiriWindow {
            id: 1,
            title: None,
            app_id: None,
            pid: None,
            workspace_id: Some(10),
            is_focused: false,
            is_floating: false,
            is_urgent: false,
            layout: WindowLayout { pos_in_scrolling_layout: None },
        },
        workspace: Workspace {
            id: 10,
            idx: 0,
            name: None,
            output: output.map(|o| o.to_string()),
            is_urgent: false,
            is_active: true,
            is_focused: false,
            active_window_id: None,
        },
    }
}

fn outputs(names: &[&str]) -> Vec<(String, Output)> {
    names.iter().map(|n| (n.to_string(), Output { name: n.to_string() })).collect()
}

fn app_window(id: u64, app_id: Option<&str>) -> NiriWindow {
    NiriWindow {
        id,
        title: None,
        app_id: app_id.map(|a| a.to_string()),
        pid: None,
        workspace_id: None,
        is_focused: false,
        is_floating: false,
        is_urgent: false,
        layout: WindowLayout { pos_in_scrolling_layout: None },
    }
}

#[test]
fn filter_matches_connector() {
    let f = build_output_filter(&outputs(&["DP-1", "eDP-1"]), &Some("eDP-1".to_string()));
    match &f {
        OutputFilter::Only(name) => assert_eq!(name, "eDP-1"),
        OutputFilter::All => panic!("expected a filter on eDP-1"),
    }
    assert!(f.matches(&window_on(Some("eDP-1"))));
    assert!(!f.matches(&window_on(Some("DP-1"))));
    assert!(!f.matches(&window_on(None)));
}

#[test]
fn filter_fails_open() {
    let f = build_output_filter(&outputs(&["DP-1"]), &Some("HDMI-A-1".to_string()));
    assert!(matches!(f, OutputFilter::All));
    assert!(f.matches(&window_on(None)));
    let f = build_output_filter(&Vec::new(), &Some("DP-1".to_string()));
    assert!(matches!(f, OutputFilter::All));
    let f = build_output_filter(&outputs(&["DP-1"]), &None);
    assert!(matches!(f, OutputFilter::All));
    assert!(f.matches(&window_on(Some("DP-9"))));
}

#[test]
fn focus_target_is_first_matching_window() {
    let windows = vec![app_window(3, None), app_window(5, Some("kitty")), app_window(7, Some("Discord")), app_window(9, Some("discord"))];
    let ids = vec!["vesktop".to_string(), "discord".to_string()];
    assert_eq!(window_to_focus(&windows, &ids), Some(9));
    let ids = vec!["kitty".to_string(), "Discord".to_string()];
    assert_eq!(window_to_focus(&windows, &ids), Some(5));
}

#[test]
fn no_focus_target_means_launch() {
    let windows = vec![app_window(3, None), app_window(5, Some("kitty"))];
    assert_eq!(window_to_focus(&windows, &vec!["spotify".to_string()]), None);
    assert_eq!(window_to_focus(&Vec::new(), &vec!["kitty".to_string()]), None);
    assert_eq!(window_to_focus(&windows, &Vec::new()), None);
}
