//! Decoding of escaped, legacy-charset, Base64, quoted-printable and RFC 2047
//! encoded-word text into UTF-8, and a bounded cache of compiled regular
//! expressions.

pub mod text;
pub mod escape;
pub mod charset;
pub mod mime;
pub mod header;
pub mod cache;
pub mod config;
pub mod args;
