//! Verified building blocks of a handful of small programs: a worker pool and
//! the web server it backs, a message board, a line searcher, a number
//! printer and a command-line HTTP client.

pub mod addition;
pub mod assoc;
pub mod blog;
pub mod greeting;
pub mod hurl;
pub mod messages;
pub mod minigrep;
pub mod numbers;
pub mod text;
pub mod web_server;
