//! Verified core of a GPU inference sidecar: the tensor codec, the line
//! protocol spoken with the sidecar process, the engine lifecycle and the
//! slicing of batched inference outputs back into per-item results.

pub mod codec;
pub mod batch;
pub mod protocol;
pub mod lifecycle;
