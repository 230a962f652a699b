//! The rules of a command-line HTTP client: how its arguments are read, what
//! a request is made of, what a session keeps, and how a response is shown.

pub mod app;
pub mod client;
pub mod config;
pub mod directories;
pub mod errors;
pub mod params;
pub mod paths;
pub mod response;
pub mod session;
