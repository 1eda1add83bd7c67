//! Data sources: the values the collectors produce and the parsers of the
//! text that system tools print.
use vstd::prelude::*;

pub mod command;
pub mod external;
pub mod hyprland;
pub mod system;
pub mod types;

verus! {

} // verus!
