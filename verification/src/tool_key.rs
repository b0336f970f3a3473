//! The keys by which the services of tools are ranked.

use vstd::prelude::*;
use core::cmp::Ordering;
use vstd::std_specs::cmp::{PartialEqSpecImpl, PartialOrdSpecImpl};

verus! {

/// The position of a tool in a register, with the rank of one of its
/// services.
///
/// Keys are compared by rank alone, and the key of the higher rank is the
/// lesser one: sorted keys start with the best.
#[derive(Debug, Hash)]
pub struct ToolKey {
    pub(crate) ix: usize,
    pub(crate) priority: usize,
}

/// The contents of a [`ToolKey`].
pub struct ToolKeyView {
    pub ix: nat,
    pub priority: nat,
}

impl View for ToolKey {
    type V = ToolKeyView;

    closed spec fn view(&self) -> ToolKeyView {
        ToolKeyView { ix: self.ix as nat, priority: self.priority as nat }
    }
}

impl ToolKey {
    pub fn new(ix: usize, priority: usize) -> (r: Self)
        ensures
            r@ == (ToolKeyView { ix: ix as nat, priority: priority as nat }),
    {
        Self { ix, priority }
    }
}

impl PartialEq for ToolKey {
    fn eq(&self, other: &Self) -> (r: bool) {
        self.priority == other.priority
    }
}

impl PartialEqSpecImpl for ToolKey {
    open spec fn obeys_eq_spec() -> bool {
        true
    }

    open spec fn eq_spec(&self, other: &Self) -> bool {
        self@.priority == other@.priority
    }
}

impl Eq for ToolKey {

}

impl PartialOrd for ToolKey {
    fn partial_cmp(&self, other: &Self) -> (r: Option<Ordering>) {
        if self.priority > other.priority {
            Some(Ordering::Less)
        } else if self.priority == other.priority {
            Some(Ordering::Equal)
        } else {
            Some(Ordering::Greater)
        }
    }
}

impl PartialOrdSpecImpl for ToolKey {
    open spec fn obeys_partial_cmp_spec() -> bool {
        true
    }

    open spec fn partial_cmp_spec(&self, other: &Self) -> Option<Ordering> {
        if self@.priority > other@.priority {
            Some(Ordering::Less)
        } else if self@.priority == other@.priority {
            Some(Ordering::Equal)
        } else {
            Some(Ordering::Greater)
        }
    }
}

} // verus!
