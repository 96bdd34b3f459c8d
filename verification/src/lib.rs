//! Talking to small embedded devices over a serial or CAN-style link.
//!
//! The core is the framing layer: [`codec`] turns a payload into a frame that
//! ends in a chosen delimiter byte and back, [`codec_laws`] holds what is
//! proved of every frame, and [`checksum`] computes the 16-bit checksum that
//! travels with a frame. Around it stand the numbers of the packet protocol
//! ([`protocol`]) and the decisions of the command-line tools: the device
//! client ([`dio`]), the device simulator ([`silver_chariot`]) and the
//! firmware build tool ([`ora`]), which read their command lines with
//! [`words`].

pub mod checksum;
pub mod codec;
pub mod codec_laws;
pub mod dio;
pub mod ora;
pub mod protocol;
pub mod silver_chariot;
pub mod words;

pub use crate::checksum::{check_bytes, checksum};
pub use crate::codec::{get_max_encode_buffer_size, DecodeError, TuskEncoder};
