//! A small server-rendered wiki library.
//!
//! The library models the route grammar of the wiki's URLs, the document /
//! revision store, and the dispatch from a parsed route to a response.  The
//! surrounding binary supplies the HTTP transport and the relational store;
//! everything here is plain logic over strings and integers.

pub mod strutil;
pub mod routes;
pub mod store;
pub mod views;
pub mod handler;
