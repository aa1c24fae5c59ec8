//! Resolution of the world-coordinate keywords of an image header.
//!
//! A header is a block of fixed-width keyword records.  [`header::WCSHeader`]
//! keeps the records that matter as a keyword snapshot; the resolvers read the
//! snapshot and describe the celestial frame ([`coo_system`]), the sky
//! projection with its parameters ([`projection`]) and the polynomial
//! distortion ([`sip`]).
//!
//! Numbers are never interpreted here: a numeric card is kept as the literal
//! that the header wrote ([`number::Number`]), and every contract is stated
//! over sequences of characters.

pub mod coo_system;
pub mod error;
pub mod header;
pub mod number;
pub mod projection;
pub mod sip;
pub mod text;
