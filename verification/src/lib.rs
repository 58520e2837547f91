//! A verified core of a TeX-family page shipout engine.
//!
//! The executable, proved layer covers glue resolution against a box's
//! glue-set ratio, mixed-direction list reversal, the stream-control
//! extension dispatch, cursor-movement collapsing, the device byte stream
//! with its flush window, command emission with lazy font definitions, and
//! the binary page framing (preamble, pages, postamble, padding).  The
//! horizontal and vertical box traversals that turn a node tree into the
//! abstract command list are fully specified here (with proved termination
//! and laws) but have no executable counterpart yet: a caller supplies the
//! command list those specifications define.  File and terminal I/O, token
//! expansion and platform font shaping stay outside: the library takes
//! plain values in and hands byte streams and side-effect requests back.

pub mod consts;
pub mod glue;
pub mod node;
pub mod arena;
pub mod fmt;
pub mod dvi;
pub mod movement;
pub mod cmds;
pub mod emit;
pub mod layout;
pub mod ship;
pub mod laws;
