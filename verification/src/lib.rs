//! Decoding and synthesis of MPEG transport stream packets and of the
//! program-specific information tables (PAT and PMT) they carry.
//!
//! The functions are verified: accessors against a byte-level model of the
//! 188-byte frame, synthesis against the exact frame it lays out, and the
//! checksum against a bit-serial definition of the MPEG-2 CRC-32. Big-endian
//! integers are read and written by the `byteorder` crate; the three
//! functions taken from it are stated in `bytes` and not proved.

pub mod adaptation;
pub mod bytes;
pub mod crc;
pub mod error;
pub mod header;
pub mod packet;
pub mod psi;
pub mod round_trip;
pub mod synth;
