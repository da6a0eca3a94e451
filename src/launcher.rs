//! Which open window a launcher button brings to the front.
use vstd::prelude::*;

use crate::model::NiriWindow;

verus! {

/// The window belongs to one of the applications `app_ids`.
pub open spec fn runs_app(w: NiriWindow, app_ids: Seq<String>) -> bool {
    match w.app_id {
        Some(a) => exists|j: int| 0 <= j < app_ids.len() && app_ids[j]@ == a@,
        None => false,
    }
}

fn is_listed(app_id: &String, app_ids: &Vec<String>) -> (r: bool)
    ensures
        r == exists|j: int| 0 <= j < app_ids@.len() && app_ids@[j]@ == app_id@,
{
    let mut j: usize = 0;
    while j < app_ids.len()
        invariant
            j <= app_ids@.len(),
            forall|k: int| 0 <= k < j ==> app_ids@[k]@ != app_id@,
        decreases app_ids@.len() - j,
    {
        if app_ids[j] == *app_id {
            return true;
        }
        j = j + 1;
    }
    false
}

/// The id of the first window, in the order given, that belongs to one of the
/// applications `app_ids`; `None` when no window does and the application
/// should be launched instead.
pub fn window_to_focus(windows: &Vec<NiriWindow>, app_ids: &Vec<String>) -> (r: Option<u64>)
    ensures
        match r {
            Some(id) => exists|i: int|
                0 <= i < windows@.len() && runs_app(windows@[i], app_ids@) && windows@[i].id == id
                    && forall|k: int| 0 <= k < i ==> !runs_app(#[trigger] windows@[k], app_ids@),
            None => forall|i: int| 0 <= i < windows@.len() ==> !runs_app(#[trigger] windows@[i], app_ids@),
        },
{
    let mut i: usize = 0;
    while i < windows.len()
        invariant
            i <= windows@.len(),
            forall|k: int| 0 <= k < i ==> !runs_app(#[trigger] windows@[k], app_ids@),
        decreases windows@.len() - i,
    {
        match &windows[i].app_id {
            Some(a) => {
                if is_listed(a, app_ids) {
                    return Some(windows[i].id);
                }
            },
            None => {},
        }
        i = i + 1;
    }
    None
}

} // verus!
