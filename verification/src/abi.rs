//! Numbers fixed by the Mach kernel interface: port names, right kinds,
//! message options, return codes and the widths of the records a message is
//! made of.

use vstd::prelude::*;

verus! {

/// The name of a port right within a task.
pub type RawPort = u32;

/// The name that denotes no right at all.
pub const MACH_PORT_NULL: RawPort = 0;

/// The name left behind where a right existed and its port has died.
pub const MACH_PORT_DEAD: RawPort = 0xFFFF_FFFF;

pub const MACH_PORT_RIGHT_SEND: u32 = 0;

pub const MACH_PORT_RIGHT_RECEIVE: u32 = 1;

pub const MACH_PORT_TYPE_SEND: u32 = 0x0001_0000;

pub const MACH_PORT_TYPE_RECEIVE: u32 = 0x0002_0000;

pub const MACH_MSG_TYPE_MOVE_RECEIVE: u32 = 16;

pub const MACH_MSG_TYPE_MOVE_SEND: u32 = 17;

pub const MACH_MSG_TYPE_MOVE_SEND_ONCE: u32 = 18;

pub const MACH_MSG_TYPE_COPY_SEND: u32 = 19;

pub const MACH_MSG_TYPE_MAKE_SEND: u32 = 20;

pub const MACH_MSG_TYPE_MAKE_SEND_ONCE: u32 = 21;

/// The right kind the kernel reports for a send right it has handed out.
pub const MACH_MSG_TYPE_PORT_SEND: u32 = 17;

/// Set in the header's flag word of a message that carries descriptors.
pub const MACH_MSGH_BITS_COMPLEX: u32 = 0x8000_0000;

pub const MACH_MSG_PORT_DESCRIPTOR: u8 = 0;

pub const MACH_MSG_OOL_DESCRIPTOR: u8 = 1;

pub const MACH_MSG_OOL_PORTS_DESCRIPTOR: u8 = 2;

pub const MACH_MSG_OOL_VOLATILE_DESCRIPTOR: u8 = 3;

pub const MACH_SEND_MSG: u32 = 0x0000_0001;

pub const MACH_RCV_MSG: u32 = 0x0000_0002;

pub const MACH_RCV_LARGE: u32 = 0x0000_0004;

pub const MACH_SEND_TIMEOUT: u32 = 0x0000_0010;

pub const MACH_RCV_TIMEOUT: u32 = 0x0000_0100;

/// The timeout argument of a call that waits without limit.
pub const MACH_MSG_TIMEOUT_NONE: u32 = 0;

/// The longest wait, in milliseconds, that a call can ask for.
pub const MACH_MSG_TIMEOUT_MAX: u32 = 0x7FFF_FFFF;

pub const KERN_SUCCESS: i32 = 0;

pub const KERN_INVALID_RIGHT: i32 = 17;

pub const MACH_SEND_TIMED_OUT: i32 = 0x1000_0004;

pub const MACH_RCV_TIMED_OUT: i32 = 0x1000_4003;

/// Bytes of the fixed header: flag word, size, three port names, identifier.
pub const HEADER_SIZE: usize = 24;

/// Bytes from the start of a message to its first descriptor: the header and
/// the descriptor count.
pub const MSG_START_SIZE: usize = 28;

pub const PORT_DESCRIPTOR_SIZE: usize = 12;

pub const OOL_DESCRIPTOR_SIZE: usize = 16;

pub const OOL_PORTS_DESCRIPTOR_SIZE: usize = 16;

/// The width of the widest descriptor, which is what one reserved
/// descriptor slot takes.
pub const DESCRIPTOR_SLOT_SIZE: usize = 16;

/// Bytes the kernel appends after a received message.
pub const TRAILER_SIZE: usize = 8;

/// The largest buffer this crate allocates: what one allocation can hold on
/// every target.
pub const MAX_MSG_CAPACITY: usize = 0x7FFF_FFFF;

/// The bit that stands for right kind `right` in the mask the kernel returns
/// when asked which rights a name denotes.
#[allow(non_snake_case)]
pub fn MACH_PORT_TYPE(right: u32) -> (mask: u32)
    requires
        right < 16,
    ensures
        mask == 1u32 << ((right + 16) as u32),
        right == MACH_PORT_RIGHT_SEND ==> mask == MACH_PORT_TYPE_SEND,
        right == MACH_PORT_RIGHT_RECEIVE ==> mask == MACH_PORT_TYPE_RECEIVE,
{
    let shift: u32 = right + 16;
    assert(1u32 << 16u32 == 0x0001_0000u32) by (bit_vector);
    assert(1u32 << 17u32 == 0x0002_0000u32) by (bit_vector);
    1u32 << shift
}

} // verus!
