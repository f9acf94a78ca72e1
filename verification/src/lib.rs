//! Wallpapy: a personalised daily wallpaper generator.
//!
//! The verified core of the server and client: the records the server keeps,
//! the rules that pick, filter, order and describe wallpapers, the account
//! and token rules, and the requests the client sends.
pub mod brightness;
pub mod client;
pub mod common;
pub mod database;
pub mod fresh;
pub mod gpt;
pub mod history;
pub mod image;
pub mod routing;
pub mod server;
pub mod server_functions;
pub mod sorting;
pub mod text;
pub mod web;
