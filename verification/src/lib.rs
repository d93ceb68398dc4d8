//! Core engine of an interactive line selector.
//!
//! The library owns the pure heart of the menu: a grapheme-indexed input
//! buffer, a candidate matcher, a paginator that lays matched candidates out
//! into screen-sized pages, and a navigator that tracks the selection across
//! those pages.  Rendering, the X event loop and all other I/O live outside
//! and talk to this crate through plain values.

pub mod config;
pub mod drw;
pub mod input;
pub mod item;
pub mod manpage;
pub mod matcher;
pub mod nav;
pub mod pages;
pub mod plugins;
pub mod result;
pub mod run;
pub mod stest;

pub use result::{CompResult, Die};
