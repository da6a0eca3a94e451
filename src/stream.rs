//! The decisions of the loop that reads the compositor's event stream.
use vstd::prelude::*;

use crate::niri::{is_snapshot, keyed_view, next_view, Event, SetView, Window, WindowSet};

verus! {

/// What one blocking read of the event stream gave.
#[derive(Debug)]
pub enum ReadOutcome {
    Event(Event),
    /// A line arrived that is not a well-formed event; the connection is still up.
    Malformed,
    /// The connection is gone.
    Disconnected,
}

/// What the reading loop does next.
#[derive(Debug)]
pub enum StreamAction {
    /// Hand this snapshot to the consumer, then read the next event.
    Publish(Vec<Window>),
    /// Read the next event.
    ReadNext,
    /// Open a new connection and request the event stream again.
    Reconnect,
}

/// The state after one read: a lost connection starts over from nothing, since
/// a new stream sends the full lists again.
pub open spec fn session_next(v: SetView, o: ReadOutcome) -> SetView {
    match o {
        ReadOutcome::Event(e) => next_view(v, e),
        ReadOutcome::Malformed => v,
        ReadOutcome::Disconnected => SetView::Uninitialized,
    }
}

/// The window set of one reading loop, across reconnections.
pub struct StreamSession {
    set: WindowSet,
}

impl View for StreamSession {
    type V = SetView;

    closed spec fn view(&self) -> SetView {
        self.set@
    }
}

impl StreamSession {
    pub closed spec fn wf(&self) -> bool {
        self.set.wf() && keyed_view(self.set@)
    }

    pub fn new() -> (r: Self)
        ensures
            r.wf(),
            r@ == SetView::Uninitialized,
    {
        StreamSession { set: WindowSet::new() }
    }

    /// Takes the outcome of one read and says what to do next.
    pub fn step(&mut self, outcome: ReadOutcome) -> (r: StreamAction)
        requires
            old(self).wf(),
        ensures
            final(self).wf(),
            final(self)@ == session_next(old(self)@, outcome),
            keyed_view(final(self)@),
            match outcome {
                ReadOutcome::Event(_) => match final(self)@ {
                    SetView::Ready(windows, spaces) => match r {
                        StreamAction::Publish(snap) => is_snapshot(snap@, windows, spaces),
                        _ => false,
                    },
                    _ => r is ReadNext,
                },
                ReadOutcome::Malformed => r is ReadNext,
                ReadOutcome::Disconnected => r is Reconnect,
            },
    {
        match outcome {
            ReadOutcome::Event(event) => match self.set.with_event(event) {
                Some(windows) => StreamAction::Publish(windows),
                None => StreamAction::ReadNext,
            },
            ReadOutcome::Malformed => StreamAction::ReadNext,
            ReadOutcome::Disconnected => {
                self.set = WindowSet::new();
                StreamAction::Reconnect
            },
        }
    }
}

} // verus!
