//! Price crawler for Swedish grocery stores: the verified core.
pub mod crawler;
pub mod json;
pub mod model;
pub mod store;
pub mod text;
