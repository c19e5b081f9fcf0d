//! Rendering core for escape-time fractal images.
//!
//! The crate holds the integer side of the renderer: the mapping from an
//! escape count to a colour, the byte layout of a binary PPM frame, the
//! plan by which frames are handed out to workers in batches, and the
//! reading of the command line. The floating-point iteration itself is left
//! to the caller, who passes its outcome in as plain values.

pub mod cli;
pub mod color;
pub mod frame;
pub mod schedule;

pub use cli::{
    parse_algorithm, parse_arg, parse_count, parse_flag, Algorithm, ArgAction, ArgState,
};
pub use color::{color_escape, colorize};
pub use frame::{gen_image, header, push_decimal};
pub use schedule::{Batch, BatchPlan};
