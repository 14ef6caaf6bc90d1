//! A WebSocket frame engine with an optional end-to-end encrypted overlay.
//!
//! The engine works on bytes in memory. It parses the bytes that arrived into frames,
//! writes frames out as bytes, and decides what is masked, sealed, opened and delivered.
//! Reading from the stream, writing to it, and the cipher are left to the owner.

pub mod coding;
pub mod error;
pub mod frame;
pub mod header;
pub mod layer8_streamer;
pub mod mask;
pub mod message;
pub mod message_laws;
pub mod role;
pub mod socket;
pub mod streamer_laws;
pub mod wire_laws;

pub use crate::coding::OpCode;
pub use crate::error::{Error, ProtocolError};
pub use crate::frame::{CloseFrame, Frame};
pub use crate::header::FrameHeader;
pub use crate::layer8_streamer::{CipherFailure, Layer8Streamer, ReadStep, SendStep, WriteStep};
pub use crate::message::Message;
pub use crate::role::{Role, WebSocketConfig};
pub use crate::socket::FrameSocket;
