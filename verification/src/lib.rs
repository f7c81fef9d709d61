//! Crawl engine and interactive session state for a single-site crawler with a
//! live, searchable terminal view.
//!
//! The crate holds the decisions only: which URL is fetched next, which results
//! match the active query, where the selection and the scroll offset go, and what
//! each key or mouse event does. Driving the browser, painting the screen and
//! reading the terminal are left to the caller.

pub mod crawl;
pub mod draw;
pub mod frontier;
pub mod input;
pub mod links;
pub mod prompt;
pub mod session;
pub mod text;
