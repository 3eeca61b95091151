//! What the supervisor tells its caller to do.

use vstd::prelude::*;
use vstd::string::*;
use crate::environment::{Activation, ActivationView};
use crate::outcome::{RunState, RunStateView};

verus! {

/// What is needed to start the process of one item.
#[derive(Debug)]
pub struct LaunchPlan {
    /// The position of the item in the batch.
    pub item: usize,
    pub executable: String,
    pub arguments: String,
    pub activation: Activation,
}

/// What a launch plan holds.
pub struct LaunchPlanView {
    pub item: nat,
    pub executable: Seq<char>,
    pub arguments: Seq<char>,
    pub activation: ActivationView,
}

impl View for LaunchPlan {
    type V = LaunchPlanView;

    open spec fn view(&self) -> LaunchPlanView {
        LaunchPlanView {
            item: self.item as nat,
            executable: self.executable@,
            arguments: self.arguments@,
            activation: self.activation@,
        }
    }
}

/// What the caller is to do next for the run.
#[derive(Debug)]
pub enum Directive {
    /// Start the process of the next item.
    Launch(LaunchPlan),
    /// The run is over; this is its outcome.
    Finish(RunState),
}

/// What a directive holds.
pub enum DirectiveView {
    Launch(LaunchPlanView),
    Finish(RunStateView),
}

impl View for Directive {
    type V = DirectiveView;

    open spec fn view(&self) -> DirectiveView {
        match self {
            Directive::Launch(plan) => DirectiveView::Launch(plan@),
            Directive::Finish(outcome) => DirectiveView::Finish(outcome@),
        }
    }
}

/// What the loop that waits on a running process is to do next.
#[derive(Clone, Copy, Debug, PartialEq, Eq, Structural)]
pub enum WaitAction {
    /// Sleep until new output, a cancellation or the next poll tick.
    Wait,
    /// Forcefully terminate the process, then go on waiting for its exit.
    Terminate,
    /// The process has exited: drain its streams and report the result.
    Collect,
}

} // verus!
