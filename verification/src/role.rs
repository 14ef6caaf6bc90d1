//! The role of a connection's end and what it means for masking.

use crate::error::{Error, ProtocolError};
use crate::frame::{frame_result_view, Frame, FrameView};
use crate::header::FrameHeader;
use crate::socket::MAX_READ_LIMIT;
use vstd::prelude::*;

verus! {

/// Which end of a connection this is.
#[derive(Debug, Clone, Copy, PartialEq, Eq, Structural)]
pub enum Role {
    /// The end that opened the connection. It masks every frame that it sends.
    Client,
    /// The end that accepted the connection. It adds no mask to what it sends.
    Server,
}

/// The options of a connection.
#[derive(Debug, Clone, Copy, PartialEq, Eq, Structural)]
pub struct WebSocketConfig {
    /// Whether a server tolerates frames that arrive without a masking key. Off unless it
    /// is switched on.
    pub accept_unmasked_frames: bool,
    /// The largest payload that a read accepts.
    pub max_read_size: u64,
}

impl Default for WebSocketConfig {
    /// Unmasked frames are not tolerated, and a payload may have up to one GiB.
    fn default() -> (config: WebSocketConfig)
        ensures
            config == (WebSocketConfig {
                accept_unmasked_frames: false,
                max_read_size: MAX_READ_LIMIT,
            }),
    {
        WebSocketConfig { accept_unmasked_frames: false, max_read_size: MAX_READ_LIMIT }
    }
}

/// `frame` with the masking key `mask` in place of its own.
pub open spec fn with_mask(frame: FrameView, mask: Option<[u8; 4]>) -> FrameView {
    FrameView {
        header: FrameHeader {
            is_final: frame.header.is_final,
            rsv1: frame.header.rsv1,
            rsv2: frame.header.rsv2,
            rsv3: frame.header.rsv3,
            opcode: frame.header.opcode,
            mask,
        },
        payload: frame.payload,
    }
}

impl Role {
    /// Whether this end masks the frames that it sends: a client does, a server adds no
    /// mask.
    pub open spec fn spec_masks_outbound(self) -> bool {
        self is Client
    }

    /// The frame as this end sends it. A frame that carries a masking key is sent as it is,
    /// under its own key. A frame without one gets `mask_key` from a client, and stays
    /// without one from a server.
    pub open spec fn outbound(self, frame: FrameView, mask_key: [u8; 4]) -> FrameView {
        if self is Client && frame.header.mask is None {
            with_mask(frame, Some(mask_key))
        } else {
            frame
        }
    }

    /// The frame as this end takes it in. A server refuses a frame without a masking key
    /// unless the options tolerate it. A frame that is taken in has done with its key.
    pub open spec fn inbound(self, config: WebSocketConfig, frame: FrameView) -> Result<
        FrameView,
        Error,
    > {
        if self is Server && frame.header.mask is None && !config.accept_unmasked_frames {
            Err(Error::Protocol(ProtocolError::UnmaskedFrameFromClient))
        } else {
            Ok(with_mask(frame, None))
        }
    }

    /// Whether this end masks the frames that it sends.
    #[verifier::when_used_as_spec(spec_masks_outbound)]
    pub fn masks_outbound(self) -> (masks: bool)
        ensures
            masks == self.spec_masks_outbound(),
    {
        match self {
            Role::Client => true,
            Role::Server => false,
        }
    }

    /// Prepares a frame for sending. A frame that carries a masking key is left as it is;
    /// a client gives a frame without one the key `mask_key`, which must be fresh for every
    /// frame; a server adds none.
    pub fn mask_outbound(self, frame: Frame, mask_key: [u8; 4]) -> (sent: Frame)
        ensures
            sent@ == self.outbound(frame@, mask_key),
    {
        let mut frame = frame;
        match self {
            Role::Client => {
                if frame.header.mask.is_none() {
                    frame.header.mask = Some(mask_key);
                }
            },
            Role::Server => {},
        }
        frame
    }

    /// Takes in a frame that was read, or refuses it with a protocol error.
    pub fn accept_inbound(self, config: &WebSocketConfig, frame: Frame) -> (taken: Result<
        Frame,
        Error,
    >)
        ensures
            frame_result_view(taken) == self.inbound(*config, frame@),
    {
        let unmasked: bool = frame.header.mask.is_none();
        match self {
            Role::Server => {
                if unmasked && !config.accept_unmasked_frames {
                    return Err(Error::Protocol(ProtocolError::UnmaskedFrameFromClient));
                }
            },
            Role::Client => {},
        }
        let mut frame = frame;
        frame.header.mask = None;
        Ok(frame)
    }
}

} // verus!
