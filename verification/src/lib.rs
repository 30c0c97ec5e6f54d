//! Cryptographically secure polling without a trusted server: every participant is
//! both a voter and a tallier.
//!
//! The crate holds the poll protocol and its state machine ([`poll`]), and
//! what the pages of the polling application decide ([`components`]). Group
//! arithmetic and zero-knowledge proofs are computed by the `elastic-elgamal`
//! crate; the types here keep each cryptographic value in its canonical
//! encoding and hand it to that crate through the functions of [`group`] and
//! [`proofs`].

pub mod components;
pub mod encoding;
pub mod group;
pub mod poll;
pub mod proofs;
pub mod utils;
