//! The client's side: the requests it sends, how it reads the replies, and
//! the decisions its screens make about what to show.
pub mod app;
pub mod gallery;
pub mod networking;
