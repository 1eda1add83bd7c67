use vstd::prelude::*;

pub mod action;
pub mod config;
pub mod dashboard;
pub mod data;
pub mod editor;
pub mod input;
pub mod profile;
pub mod keys;
pub mod layout;
pub mod profile_map;
pub mod registry;
pub mod text;
pub mod theme;
pub mod widgets;

verus! {

} // verus!
