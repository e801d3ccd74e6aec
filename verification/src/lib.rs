//! A declarative UI tree kept in sync with a remote renderer by minimal
//! update commands.
//!
//! An application describes its view as a tree of [`vnode::VNode`]s. Each
//! draw binds the tree's handlers to the application's message channel,
//! turns inline styles into classes, moves portals to a side forest, and
//! reconciles the result with what the remote side shows. The commands that
//! come out of this bring the remote side up to date.

pub mod ident;
pub mod server;
pub mod vnode;
pub mod window;

pub use server::StaticFile;
pub use window::simple_window;
pub use window::{DirtyFlag, Message};
