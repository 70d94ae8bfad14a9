//! Decoding of the Meridian Comms serial line: recovery of bits from the
//! time between rising edges, recognition of framed messages in the
//! recovered bits, and the decisions of the edge-capture and decode stages.
//! All times are in microseconds.

pub mod decoder;
pub mod encoder;
pub mod message;
pub mod pipeline;

pub use decoder::{CommsDecoder, DecoderModel, COMMS_TIMEOUT_THRESHOLD};
pub use message::{CommsMessage, MessageModel};
pub use pipeline::{DecodeAction, DecodeEvent, DecodeStage, EdgeCapture, COMMS_GIVE_UP};
