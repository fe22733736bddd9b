//! A port name together with the rights it is known to denote, and what is
//! decided before and after each kernel call made with it.

use vstd::prelude::*;
use std::time::Duration;
use crate::abi::{
    RawPort, KERN_INVALID_RIGHT, KERN_SUCCESS, MACH_MSG_TIMEOUT_MAX, MACH_MSG_TIMEOUT_NONE,
    MACH_MSG_TYPE_PORT_SEND, MACH_PORT_NULL, MACH_PORT_RIGHT_RECEIVE, MACH_PORT_RIGHT_SEND,
    MACH_PORT_TYPE_RECEIVE, MACH_PORT_TYPE_SEND, MACH_RCV_LARGE, MACH_RCV_MSG, MACH_RCV_TIMEOUT,
    MACH_SEND_MSG, MSG_START_SIZE,
};
use crate::error::{mach_error_of, rust_from_mach_error, rust_from_mach_kern_error, MachError};
use crate::model::MsgView;
use crate::msg::{
    emptied_capacity, has_room, holds_message, received_len, reported_size, restored_area, Msg,
};

verus! {

/// The whole seconds of a duration, as `Duration::as_secs` returns them.
pub uninterp spec fn duration_secs(d: Duration) -> u64;

/// The milliseconds of a duration beyond its whole seconds, as
/// `Duration::subsec_millis` returns them.
pub uninterp spec fn duration_subsec_millis(d: Duration) -> u32;

/// `Duration::as_secs`: the number of whole seconds, which depends on the
/// duration alone.
pub assume_specification[ Duration::as_secs ](d: &Duration) -> (secs: u64)
    ensures
        secs == duration_secs(*d),
;

/// `Duration::subsec_millis`: the part of the duration below one second, in
/// whole milliseconds, which is therefore less than a thousand.
pub assume_specification[ Duration::subsec_millis ](d: &Duration) -> (millis: u32)
    ensures
        millis == duration_subsec_millis(*d),
        millis < 1000,
;

/// The milliseconds to wait for a duration of `secs` seconds and
/// `subsec_millis` milliseconds: their count, or the longest wait there is
/// where the count is beyond it.
pub open spec fn timeout_millis(secs: u64, subsec_millis: u32) -> u32 {
    if secs * 1000 + subsec_millis <= MACH_MSG_TIMEOUT_MAX {
        (secs * 1000 + subsec_millis) as u32
    } else {
        MACH_MSG_TIMEOUT_MAX
    }
}

/// The timeout argument of a message call that is to wait for `timeout`.
pub open spec fn timeout_argument(timeout: Option<Duration>) -> u32 {
    match timeout {
        Some(d) => timeout_millis(duration_secs(d), duration_subsec_millis(d)),
        None => MACH_MSG_TIMEOUT_NONE,
    }
}

/// Counts a duration given by its parts in milliseconds, stopping at the
/// longest wait there is; a count too large for the arithmetic stops there
/// too.
pub fn timeout_from_parts(secs: u64, subsec_millis: u32) -> (millis: u32)
    ensures
        millis == timeout_millis(secs, subsec_millis),
{
    match secs.checked_mul(1000) {
        Some(whole) => match whole.checked_add(subsec_millis as u64) {
            Some(total) => if total <= MACH_MSG_TIMEOUT_MAX as u64 {
                total as u32
            } else {
                MACH_MSG_TIMEOUT_MAX
            },
            None => MACH_MSG_TIMEOUT_MAX,
        },
        None => MACH_MSG_TIMEOUT_MAX,
    }
}

/// Counts `duration` in milliseconds, stopping at the longest wait there is.
pub fn convert_timeout(duration: Duration) -> (millis: u32)
    ensures
        millis == timeout_millis(duration_secs(duration), duration_subsec_millis(duration)),
        millis <= MACH_MSG_TIMEOUT_MAX,
{
    timeout_from_parts(duration.as_secs(), duration.subsec_millis())
}

/// The arguments of one message call, apart from the buffer itself.
#[derive(Clone, Copy, Debug, PartialEq, Eq, Structural)]
pub struct MsgCall {
    pub options: u32,
    pub send_size: u32,
    pub rcv_size: u32,
    pub rcv_name: RawPort,
    pub timeout: u32,
    pub notify: RawPort,
}

/// A receive that did not give a message.
#[derive(Clone, Copy, Debug, PartialEq, Eq, Structural)]
pub struct RecvFailure {
    pub error: MachError,
    /// The size word that the kernel left in the buffer's header. After a
    /// message too large for the buffer this is the size of that message.
    pub reported_size: u32,
}

/// A kind of right that a `Port` can hold.
#[derive(Clone, Copy, Debug, PartialEq, Eq, Structural)]
pub enum PortRight {
    Send,
    Receive,
}

impl PortRight {
    /// The number by which the kernel knows this kind of right.
    pub fn code(self) -> (code: u32)
        ensures
            code == match self {
                PortRight::Send => MACH_PORT_RIGHT_SEND,
                PortRight::Receive => MACH_PORT_RIGHT_RECEIVE,
            },
    {
        match self {
            PortRight::Send => MACH_PORT_RIGHT_SEND,
            PortRight::Receive => MACH_PORT_RIGHT_RECEIVE,
        }
    }
}

/// One change of a right's reference count to ask of the kernel.
#[derive(Clone, Copy, Debug, PartialEq, Eq, Structural)]
pub struct ReleaseRequest {
    pub name: RawPort,
    pub right: PortRight,
    pub delta: i32,
}

/// A port name and the rights held under it.
///
/// A `Port` owns its rights: it is neither `Clone` nor `Copy`, and what
/// hands a right on takes the `Port` by value.
#[derive(Debug)]
pub struct Port {
    port: RawPort,
    has_receive: bool,
    has_send: bool,
}

impl Port {
    pub closed spec fn name(&self) -> RawPort {
        self.port
    }

    pub closed spec fn spec_has_receive(&self) -> bool {
        self.has_receive
    }

    pub closed spec fn spec_has_send(&self) -> bool {
        self.has_send
    }

    /// The releases owed for this port: one for the receive right if it is
    /// held, then one for the send right if it is held, each taking one
    /// reference away.
    pub open spec fn release_sequence(&self) -> Seq<ReleaseRequest> {
        let receive = if self.has_receive() {
            seq![ReleaseRequest { name: self.name(), right: PortRight::Receive, delta: -1i32 }]
        } else {
            Seq::empty()
        };
        let send = if self.has_send() {
            seq![ReleaseRequest { name: self.name(), right: PortRight::Send, delta: -1i32 }]
        } else {
            Seq::empty()
        };
        receive + send
    }

    /// The port that the kernel's reply to a request for a fresh receive
    /// right stands for: on success `name` with the receive right and no
    /// send right; on any other status the failure of a kernel call with
    /// that status.
    pub fn new(status: i32, name: RawPort) -> (res: Result<Port, MachError>)
        ensures
            status == KERN_SUCCESS ==> res.is_ok() && res.unwrap().name() == name
                && res.unwrap().has_receive() && !res.unwrap().has_send(),
            status != KERN_SUCCESS ==> res.is_err() && res.unwrap_err()
                == (MachError::KernelCallFailed { code: status }),
    {
        if status != KERN_SUCCESS {
            return Err(rust_from_mach_kern_error(status));
        }
        Ok(Port { port: name, has_receive: true, has_send: false })
    }

    /// Adopts the name `port` with the rights that the kernel, asked for the
    /// rights under that name, has answered with in `mask`.
    ///
    /// The caller owns whatever rights exist under `port` and hands them
    /// over.
    pub fn from_raw_port(port: RawPort, status: i32, mask: u32) -> (res: Result<Port, MachError>)
        ensures
            status == KERN_SUCCESS ==> res.is_ok() && res.unwrap().name() == port
                && res.unwrap().has_send() == (mask & MACH_PORT_TYPE_SEND != 0)
                && res.unwrap().has_receive() == (mask & MACH_PORT_TYPE_RECEIVE != 0),
            status != KERN_SUCCESS ==> res.is_err() && res.unwrap_err() == mach_error_of(status),
    {
        if status != KERN_SUCCESS {
            return Err(rust_from_mach_error(status));
        }
        Ok(
            Port {
                port,
                has_send: mask & MACH_PORT_TYPE_SEND != 0,
                has_receive: mask & MACH_PORT_TYPE_RECEIVE != 0,
            },
        )
    }

    /// The name, which stays owned by this `Port`.
    pub fn as_raw_port(&self) -> (raw: RawPort)
        ensures
            raw == self.name(),
    {
        self.port
    }

    /// Gives up the `Port` and hands out its name. The rights are no longer
    /// released on the caller's behalf: whoever takes the name takes them.
    pub fn into_raw_port(self) -> (raw: RawPort)
        ensures
            raw == self.name(),
    {
        self.port
    }

    #[verifier::when_used_as_spec(spec_has_receive)]
    pub fn has_receive(&self) -> (b: bool)
        ensures
            b == self.has_receive(),
    {
        self.has_receive
    }

    #[verifier::when_used_as_spec(spec_has_send)]
    pub fn has_send(&self) -> (b: bool)
        ensures
            b == self.has_send(),
    {
        self.has_send
    }

    /// The sender that the kernel's reply to a request to make a send right
    /// from this port stands for: `name` with the send right alone, if the
    /// call succeeded and the right handed out is a send right.
    pub fn make_sender(&self, status: i32, name: RawPort, right: u32) -> (res: Result<
        Port,
        MachError,
    >)
        ensures
            status != KERN_SUCCESS ==> res.is_err() && res.unwrap_err() == mach_error_of(status),
            status == KERN_SUCCESS && right != MACH_MSG_TYPE_PORT_SEND ==> res.is_err()
                && res.unwrap_err() == MachError::UnexpectedRightType,
            status == KERN_SUCCESS && right == MACH_MSG_TYPE_PORT_SEND ==> res.is_ok()
                && res.unwrap().name() == name && res.unwrap().has_send()
                && !res.unwrap().has_receive(),
    {
        if status != KERN_SUCCESS {
            return Err(rust_from_mach_error(status));
        }
        if right != MACH_MSG_TYPE_PORT_SEND {
            return Err(MachError::UnexpectedRightType);
        }
        Ok(Port { port: name, has_receive: false, has_send: true })
    }

    /// Readies `msg` to be sent to this port and says how the kernel is to
    /// be called: the port becomes the message's destination, the whole
    /// message is to be sent, and the call is to wait for `timeout` at most,
    /// or without limit where there is none.
    pub fn begin_send(&self, msg: &mut Msg, timeout: Option<Duration>) -> (call: MsgCall)
        requires
            old(msg).wf(),
        ensures
            final(msg).wf(),
            final(msg)@ == old(msg)@.with_remote_port(self.name()),
            final(msg).capacity() == old(msg).capacity(),
            call == (MsgCall {
                options: if timeout.is_some() {
                    MACH_SEND_MSG | MACH_RCV_TIMEOUT
                } else {
                    MACH_SEND_MSG
                },
                send_size: old(msg)@.size() as u32,
                rcv_size: 0,
                rcv_name: MACH_PORT_NULL,
                timeout: timeout_argument(timeout),
                notify: MACH_PORT_NULL,
            }),
    {
        let mut options = MACH_SEND_MSG;
        let mut timeout_arg = MACH_MSG_TIMEOUT_NONE;
        if let Some(duration) = timeout {
            options = options | MACH_RCV_TIMEOUT;
            timeout_arg = convert_timeout(duration);
        }
        proof {
            msg.lemma_wf();
        }
        msg.set_remote_port(self.port);
        MsgCall {
            options,
            send_size: msg.len() as u32,
            rcv_size: 0,
            rcv_name: MACH_PORT_NULL,
            timeout: timeout_arg,
            notify: MACH_PORT_NULL,
        }
    }

    /// Takes the kernel's reply to a send. The destination is cleared
    /// whatever the reply, so that the buffer can be sent again; on success
    /// the buffer is emptied, since what it carried is now the kernel's.
    pub fn finish_send(&self, msg: &mut Msg, status: i32) -> (res: Result<(), MachError>)
        requires
            old(msg).wf(),
        ensures
            final(msg).wf(),
            final(msg).capacity() == old(msg).capacity(),
            status == KERN_SUCCESS ==> res == Ok::<(), MachError>(()) && final(msg)@
                == MsgView::empty(),
            status != KERN_SUCCESS ==> res == Err::<(), MachError>(mach_error_of(status))
                && final(msg)@ == old(msg)@.with_remote_port(MACH_PORT_NULL),
    {
        msg.set_remote_port(MACH_PORT_NULL);
        if status != KERN_SUCCESS {
            return Err(rust_from_mach_error(status));
        }
        msg.reset_on_send();
        Ok(())
    }

    /// Says how the kernel is to be called to receive from this port into
    /// the whole of `msg`'s buffer: a message too large for the buffer is to
    /// be reported, not cut, and the call is to wait for `timeout` at most,
    /// or without limit where there is none.
    pub fn begin_recv(&self, msg: &Msg, timeout: Option<Duration>) -> (call: MsgCall)
        requires
            msg.wf(),
        ensures
            call == (MsgCall {
                options: if timeout.is_some() {
                    MACH_RCV_MSG | MACH_RCV_LARGE | MACH_RCV_TIMEOUT
                } else {
                    MACH_RCV_MSG | MACH_RCV_LARGE
                },
                send_size: 0,
                rcv_size: msg.capacity() as u32,
                rcv_name: self.name(),
                timeout: timeout_argument(timeout),
                notify: MACH_PORT_NULL,
            }),
    {
        let mut options = MACH_RCV_MSG | MACH_RCV_LARGE;
        let mut timeout_arg = MACH_MSG_TIMEOUT_NONE;
        if let Some(duration) = timeout {
            options = options | MACH_RCV_TIMEOUT;
            timeout_arg = convert_timeout(duration);
        }
        proof {
            msg.lemma_wf();
        }
        MsgCall {
            options,
            send_size: 0,
            rcv_size: msg.capacity() as u32,
            rcv_name: self.port,
            timeout: timeout_arg,
            notify: MACH_PORT_NULL,
        }
    }

    /// Takes the kernel's reply to a receive into `msg`'s buffer.
    ///
    /// On success the message is what the buffer now holds, at the length
    /// its header states, provided that is a message in full; else the
    /// buffer is emptied and the message reported as corrupted.
    ///
    /// On failure the buffer keeps its length and its capacity: the size
    /// word is put back, and the message is the one from before wherever the
    /// kernel left its bytes alone. The failure carries the size word that
    /// the kernel left, which after a message too large is the size to make
    /// room for before receiving again.
    pub fn finish_recv(&self, msg: &mut Msg, status: i32) -> (res: Result<(), RecvFailure>)
        ensures
            final(msg).wf(),
            status != KERN_SUCCESS ==> res == Err::<(), RecvFailure>(
                RecvFailure {
                    error: mach_error_of(status),
                    reported_size: reported_size(old(msg).area()),
                },
            ),
            status != KERN_SUCCESS && has_room(old(msg).area(), old(msg).len() as int) ==> final(msg).len() == old(msg).len() && final(msg).capacity() == old(msg).capacity() && final(msg).area() == restored_area(old(msg).area(), old(msg).len() as int),
            status != KERN_SUCCESS && holds_message(old(msg).area(), old(msg).len() as int)
                ==> final(msg).area() == old(msg).area(),
            status != KERN_SUCCESS && !has_room(old(msg).area(), old(msg).len() as int) ==> final(msg)@ == MsgView::empty() && final(msg).capacity() == emptied_capacity(
                old(msg).area().len() as int,
            ),
            status == KERN_SUCCESS && old(msg).area().len() >= MSG_START_SIZE && holds_message(
                old(msg).area(),
                received_len(old(msg).area()),
            ) ==> res == Ok::<(), RecvFailure>(()) && final(msg).area() == old(msg).area()
                && final(msg).len() == received_len(old(msg).area()),
            status == KERN_SUCCESS && !(old(msg).area().len() >= MSG_START_SIZE && holds_message(
                old(msg).area(),
                received_len(old(msg).area()),
            )) ==> res == Err::<(), RecvFailure>(
                RecvFailure {
                    error: MachError::CorruptedMessage,
                    reported_size: reported_size(old(msg).area()),
                },
            ) && final(msg)@ == MsgView::empty() && final(msg).capacity() == emptied_capacity(
                old(msg).area().len() as int,
            ),
    {
        if status != KERN_SUCCESS {
            let reported_size = msg.restore();
            return Err(RecvFailure { error: rust_from_mach_error(status), reported_size });
        }
        let reported_size = msg.reported_size();
        match msg.accept_received() {
            Ok(()) => Ok(()),
            Err(error) => Err(RecvFailure { error, reported_size }),
        }
    }

    /// Gives up the `Port` and says which releases are owed for it. Each is
    /// to be asked of the kernel once.
    pub fn release(self) -> (requests: Vec<ReleaseRequest>)
        ensures
            requests@ == self.release_sequence(),
    {
        let mut requests: Vec<ReleaseRequest> = Vec::new();
        if self.has_receive {
            requests.push(ReleaseRequest { name: self.port, right: PortRight::Receive, delta: -1 });
        }
        if self.has_send {
            requests.push(ReleaseRequest { name: self.port, right: PortRight::Send, delta: -1 });
        }
        assert(requests@ =~= self.release_sequence());
        requests
    }

    /// Reads the kernel's reply to the release of a right of kind `right`.
    /// A send right whose port is already gone counts as released; every
    /// other failure is for the caller to report, never to retry.
    pub fn release_outcome(right: PortRight, status: i32) -> (res: Result<(), MachError>)
        ensures
            res.is_ok() <==> (status == KERN_SUCCESS || (right == PortRight::Send && status
                == KERN_INVALID_RIGHT)),
            res.is_err() ==> res.unwrap_err() == mach_error_of(status),
    {
        match right {
            PortRight::Receive => if status == KERN_SUCCESS {
                Ok(())
            } else {
                Err(rust_from_mach_error(status))
            },
            PortRight::Send => if status == KERN_SUCCESS || status == KERN_INVALID_RIGHT {
                Ok(())
            } else {
                Err(rust_from_mach_error(status))
            },
        }
    }
}

} // verus!
