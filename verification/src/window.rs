//! Windows hosted by the server, and what they exchange with it.

use vstd::prelude::*;
use std::fmt::Debug;

pub mod simple_window;

verus! {

/// What an application sends itself when the user acts.
pub trait Message: 'static + Debug + Clone + Send + Sync {

}

impl<T: 'static + Debug + Clone + Send + Sync> Message for T {

}

/// Whether an update has made the rendered view stale.
#[derive(Clone, Copy, Debug, PartialEq, Eq, Structural)]
pub enum DirtyFlag {
    /// The view has to be drawn again.
    ShouldRender,
    /// The view is still current.
    Clean,
}

impl DirtyFlag {
    /// Whether the view has to be drawn again.
    pub fn should_render(&self) -> (stale: bool)
        ensures
            stale == (*self == DirtyFlag::ShouldRender),
    {
        match self {
            DirtyFlag::ShouldRender => true,
            DirtyFlag::Clean => false,
        }
    }
}

} // verus!
