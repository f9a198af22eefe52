//! A verified engine for the Gemini application-layer protocol.
//!
//! The crate has three parts: a response parser that turns the raw text of a
//! Gemini reply into a typed [`response::Response`], a gemtext parser that
//! turns a response body into a structured sequence of
//! [`gemtext::Line`] values with link resolution, and a small set of pure
//! decision functions that drive a TLS transport's I/O pumping. A separate
//! module parses the server's configuration-file grammar.

pub mod config;
pub mod error;
pub mod gemtext;
pub mod laws;
pub mod mime;
pub mod parser;
pub mod resolve;
pub mod response;
pub mod text;
pub mod transport;
