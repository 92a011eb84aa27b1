//! The concurrency budget: how much of it each chunk of a step receives, and
//! whether the two chunks may be parsed side by side.
//!
//! A budget above 1 allows a step to hand one chunk to a worker while the
//! other is parsed by the caller; each of them goes on with one less. At 1 or
//! below everything runs in the caller. The budget orders the work and nothing
//! else: no result depends on it.

use vstd::prelude::*;
use crate::split::Rule;

verus! {

/// How the two chunks of one step are to be run.
#[derive(Clone, Copy, PartialEq, Eq, Structural, Debug)]
pub struct Plan {
    /// Whether the head may be parsed by a worker while the caller parses the
    /// tail.
    pub parallel: bool,
    /// The budget for the head.
    pub head: u32,
    /// The budget for the tail.
    pub tail: u32,
}

/// The budget that is left behind a step that may fork: one less, and never
/// below 1.
pub open spec fn spent(j: u32) -> u32 {
    if j > 1 {
        (j - 1) as u32
    } else {
        1
    }
}

/// The plan for a step under `rule` with the budget `j`.
///
/// A block forks where the budget allows it, and so does an assignment, whose
/// right-hand side is one statement and always gets the budget 1. What follows
/// a would-be expression is parsed with what a fork would have left. A loop is
/// never parsed side by side with anything: all of it gets the budget 1. The
/// other rules have one chunk only and pass the budget on unchanged.
pub open spec fn plan_spec(rule: Rule, j: u32) -> Plan {
    match rule {
        Rule::Block => Plan { parallel: j > 1, head: spent(j), tail: spent(j) },
        Rule::Assign => Plan { parallel: j > 1, head: 1, tail: spent(j) },
        Rule::Candidate => Plan { parallel: false, head: 1, tail: spent(j) },
        Rule::While | Rule::Empty => Plan { parallel: false, head: 1, tail: 1 },
        Rule::If | Rule::Elif | Rule::Else | Rule::Comment => Plan {
            parallel: false,
            head: 1,
            tail: j,
        },
    }
}

/// Decides how the two chunks of a step under `rule` are run with the budget
/// `j`.
pub fn plan(rule: Rule, j: u32) -> (p: Plan)
    ensures
        p == plan_spec(rule, j),
{
    let left: u32 = if j > 1 {
        j - 1
    } else {
        1
    };
    match rule {
        Rule::Block => Plan { parallel: j > 1, head: left, tail: left },
        Rule::Assign => Plan { parallel: j > 1, head: 1, tail: left },
        Rule::Candidate => Plan { parallel: false, head: 1, tail: left },
        Rule::While | Rule::Empty => Plan { parallel: false, head: 1, tail: 1 },
        Rule::If | Rule::Elif | Rule::Else | Rule::Comment => Plan {
            parallel: false,
            head: 1,
            tail: j,
        },
    }
}

} // verus!
