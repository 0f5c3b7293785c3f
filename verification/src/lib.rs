//! Wake-on-LAN magic packets and wake-up target lines.
//!
//! The crate assembles the magic packet that wakes a sleeping network card,
//! reads hardware addresses and SecureON tokens from text, and reads lines
//! that describe the systems to wake up.
//!
//! - [`address`]: hardware addresses and SecureON tokens.
//! - [`eui48`]: their textual form, read and written.
//! - [`packet`]: the bytes of a magic packet.
//! - [`text`], [`fields`], [`ip`]: the fields of a line and what each reads
//!   as.
//! - [`file`]: wake up targets, parsed from lines and from files of lines.
//! - [`plan`]: defaults for what a target leaves open, and the choice
//!   among the addresses of a host.
//!
//! Every function states what it returns over a model of its arguments:
//! sequences of characters and bytes, and plain numbers.

pub mod address;
pub mod eui48;
pub mod fields;
pub mod file;
pub mod ip;
pub mod packet;
pub mod plan;
pub mod text;

pub use address::{MacAddress, SecureOn};
pub use eui48::{eui48, only_eui48, Eui48Error, ParseError, ParseErrorKind, Separator};
pub use fields::{Field, Mac6Error};
pub use ip::IpAddress;
pub use packet::{
    fill_magic_packet, fill_magic_packet_secure_on, magic_packet, write_magic_packet,
};
