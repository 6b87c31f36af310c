//! A small command-line HTTP client's decision logic: turning argument tokens
//! into a request configuration, classifying the target URL, assembling the
//! outbound request and rendering the response as text.

pub mod outside;
pub mod text;
pub mod args;
pub mod target;
pub mod request;
pub mod render;
