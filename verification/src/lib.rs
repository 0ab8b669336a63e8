//! Task tree and view-interaction engine of a terminal dashboard for
//! hierarchical plans.

pub mod app;
pub mod models;
pub mod session;
pub mod tree;
pub mod text;
pub mod api;
pub mod time;
pub mod paths;
pub mod screen;
