//! Multimedia-toolkit core: a typed binary `Packet` container, socket state
//! machines (TCP stream, TCP listener, UDP datagram) with a readiness
//! `SocketSelector`, plus the toolkit's plain data types (colors, rectangles,
//! vectors, time).
//!
//! The socket types model the protocol-level bookkeeping: the transport's
//! status reports and readiness polls are handed in by the embedding as plain
//! values, and every decision taken on them is verified.

pub mod blend_mode;
pub mod color;
pub mod error;
pub mod image;
pub mod ip_address;
pub mod packet;
pub mod primitive_type;
pub mod rect;
pub mod shader;
pub mod socket;
pub mod sound;
pub mod time;
pub mod vector;
pub mod vertex;
pub mod window;
