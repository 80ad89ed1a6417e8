//! The discrete core of a static solver for catenary mooring lines.
//!
//! A mooring line hangs between a top point and an anchor. It is made of
//! segments of different line types, and each segment is cut into elements.
//! The solver shoots: it integrates the line from the top at a trial angle,
//! looks at how far from the anchor depth the bottom node lands, and searches
//! for the angle at which it lands on it.
//!
//! This crate holds the part of that solver which does not depend on how
//! numbers are represented, and proves it:
//!
//! - [`mesh`]: how a line is cut into elements and nodes, and which segment
//!   each step of the integration lies in;
//! - [`table`]: the table of line types and the lookup of the names that
//!   segments refer to;
//! - [`integrate`]: the march from the top node to the bottom node;
//! - [`shooting`]: the search for the top angle;
//! - [`system`]: the sweep over the lines of a system;
//! - [`units`] and [`error`]: the unit systems of a configuration and the
//!   ways in which the solve of a line fails.
//!
//! The arithmetic of a step, of a residual and of an interpolation is given
//! to the march and to the search as functions.

pub mod error;
pub mod integrate;
pub mod mesh;
pub mod shooting;
pub mod system;
pub mod table;
pub mod units;
