//! The windows that a bar on one monitor shows.
use vstd::prelude::*;

use crate::niri::Window;

verus! {

/// An output (monitor) of the compositor, as far as the bar reads it.
#[derive(Debug)]
pub struct Output {
    pub name: String,
}

/// Which windows a bar shows.
#[derive(Debug)]
pub enum OutputFilter {
    /// Every window: no output of the compositor matched the monitor.
    All,
    /// The windows on the output of this name.
    Only(String),
}

/// Entry `i` is the first whose name is `c`.
pub open spec fn first_named(outputs: Seq<(String, Output)>, c: Seq<char>, i: int) -> bool {
    &&& 0 <= i < outputs.len()
    &&& outputs[i].0@ == c
    &&& forall|j: int| 0 <= j < i ==> outputs[j].0@ != c
}

/// The filter for a monitor with connector name `connector`, given the
/// compositor's outputs by name. It fails open: when the outputs are unknown
/// (empty) or none has the connector's name, all windows pass.
pub fn build_output_filter(outputs: &Vec<(String, Output)>, connector: &Option<String>) -> (r:
    OutputFilter)
    ensures
        match r {
            OutputFilter::All => match connector {
                Some(c) => forall|i: int| 0 <= i < outputs@.len() ==> outputs@[i].0@ != c@,
                None => true,
            },
            OutputFilter::Only(name) => match connector {
                Some(c) => exists|i: int|
                    first_named(outputs@, c@, i) && name@ == outputs@[i].1.name@,
                None => false,
            },
        },
{
    let c = match connector {
        Some(c) => c,
        None => {
            return OutputFilter::All;
        },
    };
    let mut i: usize = 0;
    while i < outputs.len()
        invariant
            i <= outputs@.len(),
            *connector == Some(*c),
            forall|j: int| 0 <= j < i ==> outputs@[j].0@ != c@,
        decreases outputs@.len() - i,
    {
        if outputs[i].0 == *c {
            let name = outputs[i].1.name.clone();
            assert(first_named(outputs@, c@, i as int) && name@ == outputs@[i as int].1.name@);
            assert(connector->0@ == c@);
            assert(first_named(outputs@, connector->0@, i as int));
            return OutputFilter::Only(name);
        }
        i = i + 1;
    }
    OutputFilter::All
}

impl OutputFilter {
    /// The filter lets the window through.
    pub open spec fn admits(&self, w: Window) -> bool {
        match self {
            OutputFilter::All => true,
            OutputFilter::Only(name) => match w.workspace.output {
                Some(o) => o@ == name@,
                None => false,
            },
        }
    }

    pub fn matches(&self, window: &Window) -> (r: bool)
        ensures
            r == self.admits(*window),
    {
        match self {
            OutputFilter::All => true,
            OutputFilter::Only(name) => match &window.workspace.output {
                Some(o) => *o == *name,
                None => false,
            },
        }
    }
}

} // verus!
