//! A fixed-size worker pool and the request handling of the small web server
//! that it backs.

pub mod channel;
pub mod http;
pub mod laws;
pub mod pool;
