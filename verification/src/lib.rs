//! Watching web pages for changes, as a verified library.

pub mod dates;
pub mod fields;
pub mod freshness;
pub mod hash;
pub mod headers;
pub mod hub;
pub mod intent;
pub mod links;
pub mod pages;
pub mod poll;
pub mod response;
pub mod text;
pub mod uris;
pub mod urls;
pub mod watch;
