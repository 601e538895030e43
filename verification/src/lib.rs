//! A minimal HTTP/1.1 front end, verified with Verus.
//!
//! The crate covers the connection-handling core of a small server: parsing
//! one request off a raw byte stream (`parse`), deciding early rejection of
//! oversized payloads (`guard`), bounding the number of requests in flight
//! (`gate`), checking text handed across a call boundary (`bridge`),
//! serializing responses (`respond`), and normalizing the bind address
//! (`config`). Socket I/O, threads, and the foreign handler call live in the
//! surrounding application; every decision and every byte-level computation
//! is made here, under a contract.

pub mod bridge;
pub mod config;
pub mod gate;
pub mod guard;
pub mod parse;
pub mod respond;
pub mod text;
