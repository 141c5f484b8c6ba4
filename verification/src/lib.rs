//! A small HTTP client core: it turns command-line style input into a request
//! description and a received response into styled text. Sending the request
//! and writing to the terminal are left to the caller.

pub mod error;
pub mod form;
pub mod render;
pub mod request;
pub mod response;
