//! The state and measurements of the bar's widgets.
pub mod scroll_text;
pub mod bar_graph;
pub mod kv_bar;
pub mod layout;
