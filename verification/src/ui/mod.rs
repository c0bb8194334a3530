//! Control window: what it shows and what its controls do, as plain values.

pub mod cards;
pub mod chrome;
pub mod controls;
pub mod dashboard;
pub mod form;
pub mod nav_header;
pub mod presets;
pub mod profiles;
pub mod root;
