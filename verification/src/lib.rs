//! A small line editor core: an adaptive line buffer whose capacity follows
//! its occupancy, the text conventions used to load and save it, and the
//! command interpreter that drives it.

pub mod buffer;
pub mod command;
pub mod laws;
pub mod number;
pub mod policy;
pub mod session;
pub mod style;
pub mod text;
