//! The compositor's records as this library holds them.
use vstd::prelude::*;

verus! {

/// Where a window sits in the compositor's layout; the library only reads the
/// position of its tile in the scrolling layout.
#[derive(Clone, Copy, Debug, PartialEq, Eq)]
pub struct WindowLayout {
    /// Column and tile index (both 1-based) in the scrolling layout, if tiled.
    pub pos_in_scrolling_layout: Option<(usize, usize)>,
}

/// A toplevel window tracked by the compositor.
#[derive(Debug)]
pub struct NiriWindow {
    pub id: u64,
    pub title: Option<String>,
    pub app_id: Option<String>,
    pub pid: Option<i32>,
    pub workspace_id: Option<u64>,
    pub is_focused: bool,
    pub is_floating: bool,
    pub is_urgent: bool,
    pub layout: WindowLayout,
}

/// A workspace tracked by the compositor.
#[derive(Debug)]
pub struct Workspace {
    pub id: u64,
    /// 0-based position of the workspace on its output.
    pub idx: u8,
    pub name: Option<String>,
    pub output: Option<String>,
    pub is_urgent: bool,
    pub is_active: bool,
    pub is_focused: bool,
    pub active_window_id: Option<u64>,
}

/// Copies an optional string.
pub fn copy_text(s: &Option<String>) -> (r: Option<String>)
    ensures
        r == *s,
{
    match s {
        Some(t) => Some(t.clone()),
        None => None,
    }
}

/// A record whose identity is a numeric id.
pub trait Keyed: Sized {
    spec fn key(&self) -> u64;

    fn id(&self) -> (r: u64)
        ensures
            r == self.key(),
    ;

    fn duplicate(&self) -> (r: Self)
        ensures
            r == *self,
    ;
}

impl Keyed for NiriWindow {
    open spec fn key(&self) -> u64 {
        self.id
    }

    fn id(&self) -> (r: u64) {
        self.id
    }

    fn duplicate(&self) -> (r: Self) {
        NiriWindow {
            id: self.id,
            title: copy_text(&self.title),
            app_id: copy_text(&self.app_id),
            pid: self.pid,
            workspace_id: self.workspace_id,
            is_focused: self.is_focused,
            is_floating: self.is_floating,
            is_urgent: self.is_urgent,
            layout: self.layout,
        }
    }
}

impl Keyed for Workspace {
    open spec fn key(&self) -> u64 {
        self.id
    }

    fn id(&self) -> (r: u64) {
        self.id
    }

    fn duplicate(&self) -> (r: Self) {
        Workspace {
            id: self.id,
            idx: self.idx,
            name: copy_text(&self.name),
            output: copy_text(&self.output),
            is_urgent: self.is_urgent,
            is_active: self.is_active,
            is_focused: self.is_focused,
            active_window_id: self.active_window_id,
        }
    }
}

} // verus!
