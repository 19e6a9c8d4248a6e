//! Decision kernels of the Naygo multi-pane workspace controller.
use vstd::prelude::*;

pub mod text;
pub mod textset;
pub mod drives;
pub mod dates;
pub mod size;
pub mod autocomplete;
pub mod paths;
pub mod columns;
pub mod panes;
pub mod navigation;
pub mod listing;
pub mod favorites;
pub mod references;
pub mod drops;
pub mod basket;
pub mod export;
pub mod compare;
pub mod actions;
pub mod preview_rules;
pub mod review;
pub mod text_transform;
pub mod sync;
pub mod delivery;
pub mod points;
pub mod points_panel;
pub mod recipes_panel;
pub mod completion;
pub mod session;
pub mod meta;
pub mod palette;
pub mod radar;
pub mod signature;
pub mod messages;
pub mod operations;
pub mod jobs;

verus! {

} // verus!
