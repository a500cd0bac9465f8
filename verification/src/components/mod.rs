//! Bar components configured by providers: their layouts and sizes.
pub mod provider;
