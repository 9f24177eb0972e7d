//! Fetch-free core of a prayer-times viewer: building the request URL for a
//! day and coordinate, extracting the `data.timings` pairs out of a parsed
//! JSON document, and rendering them sorted by their time strings.

pub mod date;
pub mod json;
pub mod present;
pub mod request;
pub mod text;
