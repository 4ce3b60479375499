//! The state and the decisions of a page that shows a long, lazily loaded list
//! through a small window of rows.

pub mod debounce;
pub mod feed;
pub mod loader;
pub mod route;
pub mod watcher;
pub mod window;
