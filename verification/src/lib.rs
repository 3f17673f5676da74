//! Transport and grammar layer of the GDB remote serial protocol.
//!
//! A byte stream is split into packets (`packet`), each data packet's
//! checksum is recomputed (`checksum`), the session decides what to
//! acknowledge and what to answer (`session`), and an accepted payload is
//! decoded into a typed command (`command`, `feature`).

pub mod checksum;
pub mod command;
pub mod feature;
pub mod packet;
pub mod parse;
pub mod session;
pub mod text;

pub use checksum::{checksum, compute_checksum};
pub use command::{command, query, Command, Query};
pub use feature::{
    gdbfeature, gdbfeaturesupported, FeatureSupported, GDBFeature, GDBFeatureSupported, Known,
};
pub use packet::{offset, packet, packet_or_response, run_parser, Packet};
pub use parse::{ErrorKind, Needed, Parsed};
pub use session::{handle_packet, next_action, unsupported, Action, Handler};
