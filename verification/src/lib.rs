//! A minimal HTTP/1.1 request/response core.
//!
//! The library turns a raw request buffer into a structured [`parse::Request`],
//! routes it to one of a fixed set of handlers ([`route`]), and encodes the
//! resulting [`status::HTTPStatus`] into exact wire bytes. Socket and file
//! I/O stay outside: the routing step returns an [`route::Action`] naming the
//! file operation to perform, and the outcome of that operation is mapped back
//! to a status by verified functions.

pub mod parse;
pub mod route;
pub mod status;
