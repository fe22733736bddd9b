//! The buffer a message is built in: it owns the bytes, attaches payload and
//! port rights, and keeps room reserved ahead of need.

use vstd::prelude::*;
use crate::abi::{
    RawPort, DESCRIPTOR_SLOT_SIZE, MACH_MSG_PORT_DESCRIPTOR, MACH_MSG_TYPE_COPY_SEND,
    MACH_MSG_TYPE_MAKE_SEND, MACH_MSG_TYPE_MAKE_SEND_ONCE, MACH_MSG_TYPE_MOVE_RECEIVE,
    MACH_MSG_TYPE_MOVE_SEND, MACH_MSG_TYPE_MOVE_SEND_ONCE, MAX_MSG_CAPACITY, MSG_START_SIZE,
    PORT_DESCRIPTOR_SIZE, TRAILER_SIZE,
};
use crate::model::{is_record, port_record, MsgBufferView};
use crate::msg::Msg;
use crate::port::Port;

verus! {

/// How a right that stays with its owner is handed to the receiver.
#[derive(Clone, Copy, PartialEq, Eq, Hash, Debug, Structural)]
pub enum PortCopyMode {
    Send,
    MakeSend,
    MakeSendOnce,
}

/// Which right leaves its owner for the receiver.
#[derive(Clone, Copy, PartialEq, Eq, Hash, Debug, Structural)]
pub enum PortMoveMode {
    Receive,
    Send,
    SendOnce,
}

/// The disposition that stands for `mode` in a port descriptor.
pub open spec fn copy_disposition(mode: PortCopyMode) -> u8 {
    match mode {
        PortCopyMode::Send => 19,
        PortCopyMode::MakeSend => 20,
        PortCopyMode::MakeSendOnce => 21,
    }
}

/// The disposition that stands for `mode` in a port descriptor.
pub open spec fn move_disposition(mode: PortMoveMode) -> u8 {
    match mode {
        PortMoveMode::Receive => 16,
        PortMoveMode::Send => 17,
        PortMoveMode::SendOnce => 18,
    }
}

impl PortCopyMode {
    pub fn disposition(self) -> (d: u8)
        ensures
            d == copy_disposition(self),
            d == match self {
                PortCopyMode::Send => MACH_MSG_TYPE_COPY_SEND,
                PortCopyMode::MakeSend => MACH_MSG_TYPE_MAKE_SEND,
                PortCopyMode::MakeSendOnce => MACH_MSG_TYPE_MAKE_SEND_ONCE,
            },
    {
        match self {
            PortCopyMode::Send => 19,
            PortCopyMode::MakeSend => 20,
            PortCopyMode::MakeSendOnce => 21,
        }
    }
}

impl PortMoveMode {
    pub fn disposition(self) -> (d: u8)
        ensures
            d == move_disposition(self),
            d == match self {
                PortMoveMode::Receive => MACH_MSG_TYPE_MOVE_RECEIVE,
                PortMoveMode::Send => MACH_MSG_TYPE_MOVE_SEND,
                PortMoveMode::SendOnce => MACH_MSG_TYPE_MOVE_SEND_ONCE,
            },
    {
        match self {
            PortMoveMode::Receive => 16,
            PortMoveMode::Send => 17,
            PortMoveMode::SendOnce => 18,
        }
    }
}

/// The bytes of the port descriptor that carries `name` with `disposition`.
fn port_record_bytes(name: RawPort, disposition: u8) -> (record: Vec<u8>)
    ensures
        record@ == port_record(name, disposition),
        is_record(record@),
{
    let mut record: Vec<u8> = Vec::new();
    record.push((name % 0x100) as u8);
    record.push(((name / 0x100) % 0x100) as u8);
    record.push(((name / 0x1_0000) % 0x100) as u8);
    record.push((name / 0x100_0000) as u8);
    record.push(0u8);
    record.push(0u8);
    record.push(0u8);
    record.push(0u8);
    record.push(0u8);
    record.push(0u8);
    record.push(disposition);
    record.push(MACH_MSG_PORT_DESCRIPTOR);
    assert(record@ =~= port_record(name, disposition));
    record
}

/// A message buffer that grows as its message does.
pub struct MsgBuffer {
    msg: Msg,
    capacity_inline: usize,
    capacity_descriptors: usize,
}

impl View for MsgBuffer {
    type V = MsgBufferView;

    open spec fn view(&self) -> MsgBufferView {
        MsgBufferView {
            msg: self.msg()@,
            capacity: self.msg().capacity() as nat,
            capacity_inline: self.capacity_inline() as nat,
            capacity_descriptors: self.capacity_descriptors() as nat,
        }
    }
}

impl core::ops::Deref for MsgBuffer {
    type Target = Msg;

    /// The message, for reading.
    fn deref(&self) -> (msg: &Msg)
        ensures
            *msg == self.msg(),
    {
        &self.msg
    }
}

impl MsgBuffer {
    /// The message and its bytes.
    pub closed spec fn msg(&self) -> Msg {
        self.msg
    }

    pub closed spec fn spec_capacity_inline(&self) -> usize {
        self.capacity_inline
    }

    pub closed spec fn spec_capacity_descriptors(&self) -> usize {
        self.capacity_descriptors
    }

    /// The message is held in full, and the buffer is as long as the
    /// reservations ask.
    pub open spec fn wf(&self) -> bool {
        &&& self.msg().wf()
        &&& self@.reservation() <= self.msg().capacity()
    }

    /// A well-formed buffer has a well-formed view.
    pub proof fn lemma_wf(&self)
        requires
            self.wf(),
        ensures
            self@.wf(),
    {
        self.msg().lemma_wf();
    }

    /// An empty message in a buffer with room for it and a trailer, and
    /// nothing reserved.
    pub fn new() -> (buffer: MsgBuffer)
        ensures
            buffer.wf(),
            buffer@ == MsgBufferView::empty(),
    {
        MsgBuffer { msg: Msg::new(), capacity_inline: 0, capacity_descriptors: 0 }
    }

    /// Restores the empty message in place. The buffer keeps its capacity
    /// and its reservations.
    pub fn reset(&mut self)
        requires
            old(self).wf(),
        ensures
            final(self).wf(),
            final(self)@ == old(self)@.reset(),
    {
        self.msg.reset_on_send();
    }

    /// The message, for reading.
    pub fn as_msg(&self) -> (msg: &Msg)
        ensures
            *msg == self.msg(),
    {
        &self.msg
    }

    /// The message, for sending, receiving and writing in place. The
    /// reservations stay as they are.
    pub fn as_msg_mut(&mut self) -> (msg: &mut Msg)
        ensures
            *msg == old(self).msg(),
            final(self).msg() == *final(msg),
            final(self).capacity_inline() == old(self).capacity_inline(),
            final(self).capacity_descriptors() == old(self).capacity_descriptors(),
    {
        &mut self.msg
    }

    /// Payload bytes reserved so far.
    #[verifier::when_used_as_spec(spec_capacity_inline)]
    pub fn capacity_inline(&self) -> (n: usize)
        ensures
            n == self.capacity_inline(),
    {
        self.capacity_inline
    }

    /// Descriptor slots reserved so far.
    #[verifier::when_used_as_spec(spec_capacity_descriptors)]
    pub fn capacity_descriptors(&self) -> (n: usize)
        ensures
            n == self.capacity_descriptors(),
    {
        self.capacity_descriptors
    }

    /// Whether the buffer stays within the largest capacity when room for
    /// `additional` payload bytes beyond those present is reserved: exactly
    /// then `reserve_inline_data` may be called.
    pub fn can_reserve_inline_data(&self, additional: usize) -> (ok: bool)
        requires
            self.wf(),
        ensures
            ok == (self@.reserve_inline_data(additional as nat).capacity <= MAX_MSG_CAPACITY),
    {
        proof {
            self.msg().lemma_wf();
        }
        if additional > MAX_MSG_CAPACITY {
            return false;
        }
        let wanted = self.msg.inline_data().len() + additional;
        if self.capacity_inline >= wanted {
            return true;
        }
        MSG_START_SIZE as u64 + self.capacity_descriptors as u64 * DESCRIPTOR_SLOT_SIZE as u64
            + wanted as u64 + TRAILER_SIZE as u64 <= MAX_MSG_CAPACITY as u64
    }

    /// Whether the buffer stays within the largest capacity when room for
    /// `additional` descriptors beyond those present is reserved: exactly
    /// then `reserve_descriptors` may be called.
    pub fn can_reserve_descriptors(&self, additional: usize) -> (ok: bool)
        requires
            self.wf(),
        ensures
            ok == (self@.reserve_descriptors(additional as nat).capacity <= MAX_MSG_CAPACITY),
    {
        proof {
            self.msg().lemma_wf();
        }
        if additional > MAX_MSG_CAPACITY {
            return false;
        }
        let wanted = self.msg.descriptor_count() + additional;
        if self.capacity_descriptors >= wanted {
            return true;
        }
        MSG_START_SIZE as u64 + wanted as u64 * DESCRIPTOR_SLOT_SIZE as u64
            + self.capacity_inline as u64 + TRAILER_SIZE as u64 <= MAX_MSG_CAPACITY as u64
    }

    /// Whether the buffer stays within the largest capacity when `len`
    /// payload bytes are added: exactly then `extend_inline_data` may be
    /// called with that many bytes.
    pub fn can_extend_inline_data(&self, len: usize) -> (ok: bool)
        requires
            self.wf(),
        ensures
            ok == (self@.capacity_after_extend(len as nat) <= MAX_MSG_CAPACITY),
    {
        proof {
            self.msg().lemma_wf();
        }
        if len > MAX_MSG_CAPACITY {
            return false;
        }
        self.can_reserve_inline_data(len) && self.msg.len() + len + TRAILER_SIZE
            <= MAX_MSG_CAPACITY
    }

    /// Whether the buffer stays within the largest capacity when a
    /// descriptor record of `width` bytes is attached: exactly then
    /// `append_descriptor` may be called with such a record.
    pub fn can_append_descriptor(&self, width: usize) -> (ok: bool)
        requires
            self.wf(),
        ensures
            ok == (self@.capacity_after_append(width as nat) <= MAX_MSG_CAPACITY),
    {
        proof {
            self.msg().lemma_wf();
        }
        if width > MAX_MSG_CAPACITY {
            return false;
        }
        if self.msg.len() + width + TRAILER_SIZE > MAX_MSG_CAPACITY {
            return false;
        }
        let wanted = self.msg.descriptor_count() + 1;
        if self.capacity_descriptors >= wanted {
            return true;
        }
        MSG_START_SIZE as u64 + wanted as u64 * DESCRIPTOR_SLOT_SIZE as u64
            + self.capacity_inline as u64 + TRAILER_SIZE as u64 <= MAX_MSG_CAPACITY as u64
    }

    /// Whether the buffer stays within the largest capacity when one port
    /// right is attached: exactly then `copy_right`, `copy_right_raw`,
    /// `move_right` and `move_right_raw` may be called.
    pub fn can_attach_right(&self) -> (ok: bool)
        requires
            self.wf(),
        ensures
            ok == (self@.capacity_after_append(PORT_DESCRIPTOR_SIZE as nat) <= MAX_MSG_CAPACITY),
    {
        self.can_append_descriptor(PORT_DESCRIPTOR_SIZE)
    }

    /// Makes the buffer as long as the reservations ask. It never shrinks.
    fn update_reservation(&mut self)
        requires
            old(self).msg().wf(),
            old(self)@.reservation() <= MAX_MSG_CAPACITY,
        ensures
            final(self).wf(),
            final(self)@ == old(self)@.update_reservation(),
    {
        let total = MSG_START_SIZE + self.capacity_descriptors * DESCRIPTOR_SLOT_SIZE
            + self.capacity_inline + TRAILER_SIZE;
        self.msg.grow_to(total);
    }

    /// Reserves room for `additional` payload bytes beyond those present.
    pub fn reserve_inline_data(&mut self, additional: usize)
        requires
            old(self).wf(),
            old(self)@.reserve_inline_data(additional as nat).capacity <= MAX_MSG_CAPACITY,
        ensures
            final(self).wf(),
            final(self)@ == old(self)@.reserve_inline_data(additional as nat),
    {
        let present = self.msg.inline_data().len();
        proof {
            self.msg().lemma_wf();
        }
        if self.capacity_inline < present + additional {
            self.capacity_inline = present + additional;
            self.update_reservation();
        }
    }

    /// Reserves room for `additional` descriptors beyond those present.
    pub fn reserve_descriptors(&mut self, additional: usize)
        requires
            old(self).wf(),
            old(self)@.reserve_descriptors(additional as nat).capacity <= MAX_MSG_CAPACITY,
        ensures
            final(self).wf(),
            final(self)@ == old(self)@.reserve_descriptors(additional as nat),
    {
        let present = self.msg.descriptor_count();
        proof {
            self.msg().lemma_wf();
        }
        if self.capacity_descriptors < present + additional {
            self.capacity_descriptors = present + additional;
            self.update_reservation();
        }
    }

    /// Adds `data` after the payload.
    pub fn extend_inline_data(&mut self, data: &[u8])
        requires
            old(self).wf(),
            old(self)@.capacity_after_extend(data@.len()) <= MAX_MSG_CAPACITY,
        ensures
            final(self).wf(),
            final(self)@ == old(self)@.extend_inline_data(data@),
    {
        proof {
            self.msg().lemma_wf();
        }
        self.reserve_inline_data(data.len());
        proof {
            self.msg().lemma_wf();
        }
        self.msg.append_bytes(data);
    }

    /// Attaches the descriptor `record` after the last one present.
    pub fn append_descriptor(&mut self, record: &[u8])
        requires
            old(self).wf(),
            is_record(record@),
            old(self)@.capacity_after_append(record@.len()) <= MAX_MSG_CAPACITY,
        ensures
            final(self).wf(),
            final(self)@ == old(self)@.append_descriptor(record@),
    {
        proof {
            self.msg().lemma_wf();
        }
        self.msg.insert_record(record);
        self.reserve_descriptors(0);
    }

    /// Attaches the right named `port`, to be copied to the receiver as
    /// `mode` says when the message is sent.
    ///
    /// The buffer holds the name, not the right: the caller keeps the right
    /// alive until the message is sent or reset.
    pub fn copy_right_raw(&mut self, mode: PortCopyMode, port: RawPort)
        requires
            old(self).wf(),
            old(self)@.capacity_after_append(PORT_DESCRIPTOR_SIZE as nat) <= MAX_MSG_CAPACITY,
        ensures
            final(self).wf(),
            final(self)@ == old(self)@.append_descriptor(port_record(port, copy_disposition(mode))),
    {
        let record = port_record_bytes(port, mode.disposition());
        self.append_descriptor(record.as_slice());
    }

    /// Attaches a right of `port`, to be copied to the receiver as `mode`
    /// says when the message is sent.
    ///
    /// The buffer holds the name, not the right: the caller keeps `port`
    /// alive until the message is sent or reset.
    pub fn copy_right(&mut self, mode: PortCopyMode, port: &Port)
        requires
            old(self).wf(),
            old(self)@.capacity_after_append(PORT_DESCRIPTOR_SIZE as nat) <= MAX_MSG_CAPACITY,
        ensures
            final(self).wf(),
            final(self)@ == old(self)@.append_descriptor(
                port_record(port.name(), copy_disposition(mode)),
            ),
    {
        self.copy_right_raw(mode, port.as_raw_port())
    }

    /// Attaches the right named `port`, to leave its owner for the receiver
    /// as `mode` says when the message is sent.
    pub fn move_right_raw(&mut self, mode: PortMoveMode, port: RawPort)
        requires
            old(self).wf(),
            old(self)@.capacity_after_append(PORT_DESCRIPTOR_SIZE as nat) <= MAX_MSG_CAPACITY,
        ensures
            final(self).wf(),
            final(self)@ == old(self)@.append_descriptor(port_record(port, move_disposition(mode))),
    {
        let record = port_record_bytes(port, mode.disposition());
        self.append_descriptor(record.as_slice());
    }

    /// Attaches a right of `port`, which the message takes over: the `Port`
    /// is given up, and nothing releases the right on its behalf any more.
    pub fn move_right(&mut self, mode: PortMoveMode, port: Port)
        requires
            old(self).wf(),
            old(self)@.capacity_after_append(PORT_DESCRIPTOR_SIZE as nat) <= MAX_MSG_CAPACITY,
        ensures
            final(self).wf(),
            final(self)@ == old(self)@.append_descriptor(
                port_record(port.name(), move_disposition(mode)),
            ),
    {
        self.move_right_raw(mode, port.into_raw_port())
    }
}

} // verus!
