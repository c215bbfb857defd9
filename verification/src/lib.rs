//! Verified pieces of a Director movie player: a bit-level reader for PFR1
//! font data, the PFR1 header and logical font directory parsers, and the
//! decision logic of two scripted room objects.

pub mod bit_reader;
pub mod text;
pub mod header;
pub mod door_guard;
pub mod legacy_online_actor;
pub mod player_datum;
