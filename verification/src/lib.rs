//! Verified core of a terminal status bar: the markup language of bar texts,
//! the width/height rules of layout elements, the scrolling of long texts and
//! the decisions of the data providers.
pub mod text;
pub mod number;
pub mod color;
pub mod style;
pub mod variables;
pub mod markup;
pub mod geometry;
pub mod widgets;
pub mod layout;
pub mod components;
pub mod mouse;
pub mod providers;
pub mod scripts;
pub mod builtin;
pub mod config;
