//! Verified core of the Fusion desktop toolkit: configuration values,
//! widget state machines, resource bookkeeping and draw batching.

pub mod button;
pub mod lexical;
pub mod value;
pub mod batch;
pub mod resource;
pub mod color;
pub mod anchor;
pub mod input;
pub mod packaging;
pub mod protocol;
pub mod compositor;
pub mod ffi;
pub mod window;
