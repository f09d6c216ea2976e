//! Bounds: what a call site asks of the arguments it takes.

use vstd::prelude::*;

use crate::model::{views, BoundView};

verus! {

/// What a call site asks of its arguments.
#[derive(Debug)]
pub enum Bound {
    /// Conformance to one capability.
    Single(String),
    /// Conformance to every capability of the list.
    All(Vec<String>),
    /// Conformance to every capability of the list, by arguments that all
    /// have one concrete type.
    SameType(Vec<String>),
}

impl View for Bound {
    type V = BoundView;

    open spec fn view(&self) -> BoundView {
        match self {
            Bound::Single(capability) => BoundView::Single(capability@),
            Bound::All(capabilities) => BoundView::All(views(capabilities@)),
            Bound::SameType(capabilities) => BoundView::SameType(views(capabilities@)),
        }
    }
}

impl Bound {
    /// How many capabilities the bound asks for.
    pub fn count(&self) -> (count: usize)
        ensures
            count == self@.capabilities().len(),
    {
        match self {
            Bound::Single(_) => 1,
            Bound::All(capabilities) => capabilities.len(),
            Bound::SameType(capabilities) => capabilities.len(),
        }
    }

    /// The capability at a place within the bound.
    pub(crate) fn capability_at(&self, place: usize) -> (capability: &str)
        requires
            place < self@.capabilities().len(),
        ensures
            capability@ == self@.capabilities()[place as int],
    {
        match self {
            Bound::Single(capability) => capability.as_str(),
            Bound::All(capabilities) => capabilities[place].as_str(),
            Bound::SameType(capabilities) => capabilities[place].as_str(),
        }
    }

    /// The capability at a place of the bound, if the bound reaches that
    /// far.
    pub fn capability(&self, place: usize) -> (capability: Option<&str>)
        ensures
            match capability {
                Some(capability) => place < self@.capabilities().len() && capability@
                    == self@.capabilities()[place as int],
                None => place >= self@.capabilities().len(),
            },
    {
        if place < self.count() {
            Some(self.capability_at(place))
        } else {
            None
        }
    }

    /// Whether the bound ties its arguments to one concrete type.
    pub fn ties_types(&self) -> (ties: bool)
        ensures
            ties == self@.ties_types(),
    {
        match self {
            Bound::SameType(_) => true,
            _ => false,
        }
    }
}

} // verus!
