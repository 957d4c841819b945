//! Client-side model of a weather service: the radar product catalogue and a
//! parser for the HTML directory listings under which radar files are published.

pub mod text;
pub mod number;
pub mod radar;
pub mod listing;
pub mod stations;
pub mod client;
