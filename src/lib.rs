//! Decoding of untrusted PNG data into a small set of fixed 8-bit pixel
//! formats, with a framed request/response protocol that lets the decode run
//! in a separate process stripped of its operating-system capabilities.

pub mod engine;
pub mod image;
pub mod rpc;
pub mod sandbox;
pub mod wire;

pub use engine::{decode_from_memory, LocalDecoder, PngFailure, RawFrame};
pub use image::{DecodeResult, Image, PixelsByColorType};
pub use rpc::ChannelError;
pub use sandbox::{ChildAction, ChildEvent, ChildPhase, ChildSession};
