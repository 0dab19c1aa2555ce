//! A verified decoder and query engine for kernel socket tables.
//!
//! The library parses the whitespace-delimited rows of a socket table
//! (as exposed under `/proc/net`), decodes the hexadecimal
//! `ADDRESS:PORT` fields, and filters the resulting connection records
//! by process id, connection state, or port. Reading the tables and
//! resolving process names are left to the surrounding program; the
//! library works on the lines and resolver answers it is handed.

pub mod codec;
pub mod decode;
pub mod filter;
pub mod record;
pub mod text;
