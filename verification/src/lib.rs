//! Safe building blocks for Mach inter-process communication: the layout of a
//! message buffer, the bookkeeping of port rights, and the decisions taken
//! around each kernel call.
//!
//! Nothing here traps into the kernel. A caller performs the call that a
//! function of this crate describes and hands the kernel's reply back, so
//! every rule about rights, sizes and layouts is stated and proved here.

pub mod abi;
pub mod buffer;
pub mod descriptor;
pub mod error;
pub mod laws;
pub mod model;
pub mod msg;
pub mod port;
pub mod wire;

pub use abi::RawPort;
pub use buffer::{MsgBuffer, PortCopyMode, PortMoveMode};
pub use descriptor::{
    MsgDescriptor, MsgDescriptorIter, MsgDescriptorIterMut, MsgDescriptorKind,
    MsgDescriptorKindMut, MsgPortDescriptor,
};
pub use error::MachError;
pub use msg::{Msg, MsgHeader};
pub use port::{convert_timeout, MsgCall, Port, PortRight, RecvFailure, ReleaseRequest};
