//! What can go wrong around a kernel call, and how a return code is read.

use vstd::prelude::*;
use crate::abi::{KERN_SUCCESS, MACH_RCV_TIMED_OUT, MACH_SEND_TIMED_OUT};

verus! {

/// A failure reported to the caller.
#[derive(Clone, Copy, Debug, PartialEq, Eq, Structural)]
pub enum MachError {
    /// The kernel returned a code that is neither success nor a timeout.
    KernelCallFailed { code: i32 },
    /// The kernel gave up a send or a receive because its time ran out.
    Timeout,
    /// The kernel handed out a right of another kind than was asked for.
    UnexpectedRightType,
    /// A message does not follow the layout: a size that does not fit, or a
    /// descriptor of no known kind.
    CorruptedMessage,
}

/// Whether `code` is one of the two codes by which the message call reports
/// that its time ran out.
pub open spec fn is_timeout_code(code: i32) -> bool {
    code == MACH_SEND_TIMED_OUT || code == MACH_RCV_TIMED_OUT
}

/// The error that a failing return code of the message call stands for.
pub open spec fn mach_error_of(code: i32) -> MachError {
    if is_timeout_code(code) {
        MachError::Timeout
    } else {
        MachError::KernelCallFailed { code }
    }
}

/// Reads the failing return code of a message call.
pub fn rust_from_mach_error(code: i32) -> (err: MachError)
    ensures
        err == mach_error_of(code),
{
    if code == MACH_SEND_TIMED_OUT || code == MACH_RCV_TIMED_OUT {
        MachError::Timeout
    } else {
        MachError::KernelCallFailed { code }
    }
}

/// Reads the failing return code of any other kernel call: none of them is
/// told apart.
pub fn rust_from_mach_kern_error(code: i32) -> (err: MachError)
    ensures
        err == (MachError::KernelCallFailed { code }),
{
    MachError::KernelCallFailed { code }
}

/// The outcome of a message call: success on `KERN_SUCCESS`, else the error
/// the code stands for.
pub fn mach_call(code: i32) -> (res: Result<(), MachError>)
    ensures
        code == KERN_SUCCESS ==> res == Ok::<(), MachError>(()),
        code != KERN_SUCCESS ==> res == Err::<(), MachError>(mach_error_of(code)),
{
    if code == KERN_SUCCESS {
        Ok(())
    } else {
        Err(rust_from_mach_error(code))
    }
}

/// The outcome of any other kernel call.
pub fn mach_kern_call(code: i32) -> (res: Result<(), MachError>)
    ensures
        code == KERN_SUCCESS ==> res == Ok::<(), MachError>(()),
        code != KERN_SUCCESS ==> res == Err::<(), MachError>(MachError::KernelCallFailed { code }),
{
    if code == KERN_SUCCESS {
        Ok(())
    } else {
        Err(rust_from_mach_kern_error(code))
    }
}

} // verus!
