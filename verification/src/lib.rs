//! Monitor profile management for a Wayland compositor: which profile of
//! screen layouts matches the attached monitors, how the layout tree of a
//! profile is built, how the output-management protocol events assemble the
//! monitor descriptions, and how monitor input sources are encoded.

pub mod input_source;
pub mod monitor;
pub mod output_state;
pub mod text;
pub mod keyed;
pub mod configuration;
pub mod position_tree;
pub mod daemon;
