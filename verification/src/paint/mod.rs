//! Painting: brushes, layers, masks and tiles.

pub mod brush;
pub mod composite;
pub mod layer;
pub mod panel;
pub mod presets;
pub mod smart_mask;
pub mod target;
pub mod udim;
