//! A status bar assembled from independently updated fragments.

use vstd::prelude::*;

pub mod data;
pub mod dispatch;
pub mod format;
pub mod numeral;
pub mod position;
pub mod registry;
pub mod style;
pub mod text;
pub mod util;

pub use crate::format::{Format, Formatter};
pub use crate::position::{Align, Position};
pub use crate::registry::Bar;

verus! {

/// The name and version this library announces.
pub fn version() -> (v: String)
    ensures
        v@ == "bar 0.1.0"@,
{
    String::from_str("bar 0.1.0")
}

} // verus!
