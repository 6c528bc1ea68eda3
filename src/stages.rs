//! The phases of one application tick.
use vstd::prelude::*;

verus! {

/// The stages that every tick runs through, in this order.
#[derive(Clone, Copy, Debug, PartialEq, Eq, Hash, Structural)]
pub enum Stages {
    Setup,
    First,
    FixedUpdate,
    Update,
    Render,
    Last,
}

/// The steps within a stage, in this order.
#[derive(Clone, Copy, Debug, PartialEq, Eq, Hash, Structural)]
pub enum SubStages {
    First,
    Pre,
    Main,
    Post,
    Last,
}

/// The step after `s`, if there is one.
pub open spec fn sub_stage_after(s: SubStages) -> Option<SubStages> {
    match s {
        SubStages::First => Some(SubStages::Pre),
        SubStages::Pre => Some(SubStages::Main),
        SubStages::Main => Some(SubStages::Post),
        SubStages::Post => Some(SubStages::Last),
        SubStages::Last => None,
    }
}

impl SubStages {
    /// Advances to the following step and returns it; at the last step
    /// nothing follows and the step stays as it is.
    pub fn next(&mut self) -> (r: Option<SubStages>)
        ensures
            r == sub_stage_after(*old(self)),
            *final(self) == match r {
                Some(s) => s,
                None => *old(self),
            },
    {
        let next = match *self {
            SubStages::First => Some(SubStages::Pre),
            SubStages::Pre => Some(SubStages::Main),
            SubStages::Main => Some(SubStages::Post),
            SubStages::Post => Some(SubStages::Last),
            SubStages::Last => None,
        };
        if let Some(s) = next {
            *self = s;
        }
        next
    }
}

/// A message that systems can send to each other between ticks.
pub trait Event: Send + Sync + 'static {
}

} // verus!
