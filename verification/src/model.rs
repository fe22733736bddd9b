//! What a message is, apart from the bytes that hold it: the words of its
//! header, its descriptor records in order, and its inline payload.

use vstd::prelude::*;
use crate::abi::{
    RawPort, DESCRIPTOR_SLOT_SIZE, MACH_MSGH_BITS_COMPLEX, MACH_MSG_PORT_DESCRIPTOR,
    MACH_MSG_TYPE_COPY_SEND, MACH_PORT_NULL, MAX_MSG_CAPACITY, MSG_START_SIZE, TRAILER_SIZE,
};

verus! {

/// The four bytes that hold `x`, lowest byte first.
pub open spec fn le32_bytes(x: u32) -> Seq<u8> {
    seq![
        (x % 0x100) as u8,
        ((x / 0x100) % 0x100) as u8,
        ((x / 0x1_0000) % 0x100) as u8,
        (x / 0x100_0000) as u8,
    ]
}

/// The word held by the four bytes of `s` that start at `off`, lowest byte
/// first.
pub open spec fn le32(s: Seq<u8>, off: int) -> u32 {
    (s[off] as int + 0x100 * (s[off + 1] as int) + 0x1_0000 * (s[off + 2] as int) + 0x100_0000 * (
    s[off + 3] as int)) as u32
}

/// Whether the flag word `bits` marks a message that carries descriptors.
pub open spec fn is_complex(bits: u32) -> bool {
    bits & MACH_MSGH_BITS_COMPLEX != 0
}

/// Setting the flag for descriptors sets it.
pub proof fn lemma_complex_set(bits: u32)
    ensures
        is_complex(bits | MACH_MSGH_BITS_COMPLEX),
{
    assert((bits | 0x8000_0000u32) & 0x8000_0000u32 != 0) by (bit_vector);
}

/// Clearing the flag for descriptors clears it.
pub proof fn lemma_complex_cleared(bits: u32)
    ensures
        !is_complex(bits & !MACH_MSGH_BITS_COMPLEX),
{
    assert((bits & !0x8000_0000u32) & 0x8000_0000u32 == 0) by (bit_vector);
}

/// The flag word of the empty message does not have the flag for
/// descriptors.
pub proof fn lemma_empty_bits_plain()
    ensures
        !is_complex(MACH_MSG_TYPE_COPY_SEND),
{
    assert(19u32 & 0x8000_0000u32 == 0) by (bit_vector);
}

/// The width of a descriptor record whose kind tag is `tag`; 0 for a tag of
/// no known kind.
pub open spec fn descriptor_width(tag: u8) -> int {
    if tag == MACH_MSG_PORT_DESCRIPTOR {
        12
    } else if tag <= 3 {
        16
    } else {
        0
    }
}

/// The kind tag of a descriptor record.
pub open spec fn record_tag(r: Seq<u8>) -> u8 {
    r[11]
}

/// The port name that a port descriptor record carries.
pub open spec fn record_name(r: Seq<u8>) -> RawPort {
    le32(r, 0)
}

/// The disposition that a port descriptor record carries.
pub open spec fn record_disposition(r: Seq<u8>) -> u8 {
    r[10]
}

/// Whether `r` is one whole descriptor record: a known kind tag in its place
/// and the width that this kind has.
pub open spec fn is_record(r: Seq<u8>) -> bool {
    &&& r.len() >= 12
    &&& record_tag(r) <= 3
    &&& r.len() == descriptor_width(record_tag(r))
}

/// The record of a port descriptor that carries `name` with `disposition`.
pub open spec fn port_record(name: RawPort, disposition: u8) -> Seq<u8> {
    le32_bytes(name) + seq![0u8, 0u8, 0u8, 0u8, 0u8, 0u8, disposition, MACH_MSG_PORT_DESCRIPTOR]
}

/// `r` with the port name it carries replaced by `name`.
pub open spec fn record_with_name(r: Seq<u8>, name: RawPort) -> Seq<u8> {
    le32_bytes(name) + r.subrange(4, r.len() as int)
}

/// The bytes that the records of `recs` take together.
pub open spec fn records_len(recs: Seq<Seq<u8>>) -> int
    decreases recs.len(),
{
    if recs.len() == 0 {
        0
    } else {
        records_len(recs.drop_last()) + recs.last().len()
    }
}

/// A message as its reader sees it.
pub struct MsgView {
    /// The header's flag word.
    pub bits: u32,
    pub remote_port: RawPort,
    pub local_port: RawPort,
    pub voucher_port: RawPort,
    pub id: u32,
    /// The descriptor records, first to last, each as the bytes it is made of.
    pub descriptors: Seq<Seq<u8>>,
    pub inline_data: Seq<u8>,
}

impl MsgView {
    /// The message a fresh or reset buffer holds: no descriptor, no payload,
    /// every port name null.
    pub open spec fn empty() -> MsgView {
        MsgView {
            bits: MACH_MSG_TYPE_COPY_SEND,
            remote_port: MACH_PORT_NULL,
            local_port: MACH_PORT_NULL,
            voucher_port: MACH_PORT_NULL,
            id: 0,
            descriptors: Seq::empty(),
            inline_data: Seq::empty(),
        }
    }

    /// The bytes the message takes on the wire, which is what its header's
    /// size word says: header and count, the records, the payload.
    pub open spec fn size(self) -> int {
        MSG_START_SIZE + records_len(self.descriptors) + self.inline_data.len()
    }

    pub open spec fn complex(self) -> bool {
        is_complex(self.bits)
    }

    /// Every record is whole, and the flag word says whether there are any.
    pub open spec fn wf(self) -> bool {
        &&& forall|i: int| 0 <= i < self.descriptors.len() ==> is_record(#[trigger] self.descriptors[i])
        &&& self.complex() <==> self.descriptors.len() > 0
    }

    /// The message with `data` added after its payload.
    pub open spec fn extend_inline(self, data: Seq<u8>) -> MsgView {
        MsgView { inline_data: self.inline_data + data, ..self }
    }

    /// The message with `record` added after its last descriptor.
    pub open spec fn append_descriptor(self, record: Seq<u8>) -> MsgView {
        MsgView {
            bits: self.bits | MACH_MSGH_BITS_COMPLEX,
            descriptors: self.descriptors.push(record),
            ..self
        }
    }

    /// The message with the port name of descriptor `i` replaced by the null
    /// name.
    pub open spec fn clear_port(self, i: int) -> MsgView {
        MsgView {
            descriptors: self.descriptors.update(
                i,
                record_with_name(self.descriptors[i], MACH_PORT_NULL),
            ),
            ..self
        }
    }

    pub open spec fn with_remote_port(self, port: RawPort) -> MsgView {
        MsgView { remote_port: port, ..self }
    }
}

/// A message buffer as its owner sees it: the message, the bytes the buffer
/// has, and how much of the two growing parts has been reserved.
pub struct MsgBufferView {
    pub msg: MsgView,
    /// Bytes the buffer has, message and spare room together.
    pub capacity: nat,
    /// Payload bytes reserved so far.
    pub capacity_inline: nat,
    /// Descriptor slots reserved so far.
    pub capacity_descriptors: nat,
}

impl MsgBufferView {
    /// The buffer that `MsgBuffer::new` makes.
    pub open spec fn empty() -> MsgBufferView {
        MsgBufferView {
            msg: MsgView::empty(),
            capacity: (MSG_START_SIZE + TRAILER_SIZE) as nat,
            capacity_inline: 0,
            capacity_descriptors: 0,
        }
    }

    /// The bytes that the reservations ask for: header and count, a slot of
    /// the widest kind for each reserved descriptor, the reserved payload,
    /// and a trailer.
    pub open spec fn reservation(self) -> nat {
        MSG_START_SIZE as nat + self.capacity_descriptors * DESCRIPTOR_SLOT_SIZE as nat
            + self.capacity_inline + TRAILER_SIZE as nat
    }

    /// The message is well formed; the buffer holds it, a trailer, and all
    /// that has been reserved.
    pub open spec fn wf(self) -> bool {
        &&& self.msg.wf()
        &&& self.msg.size() + TRAILER_SIZE <= self.capacity <= MAX_MSG_CAPACITY
        &&& self.reservation() <= self.capacity
    }

    /// The descriptors present are within the slots reserved. This holds of
    /// a buffer for as long as its message is built by attaching; a received
    /// message may bring more descriptors than were reserved.
    pub open spec fn tracks_descriptors(self) -> bool {
        self.msg.descriptors.len() <= self.capacity_descriptors
    }

    /// The buffer made at least `needed` bytes long.
    pub open spec fn grow(self, needed: nat) -> MsgBufferView {
        MsgBufferView { capacity: if needed > self.capacity { needed } else { self.capacity }, ..self }
    }

    /// The buffer made long enough for what has been reserved.
    pub open spec fn update_reservation(self) -> MsgBufferView {
        self.grow(self.reservation())
    }

    pub open spec fn reserve_inline_data(self, additional: nat) -> MsgBufferView {
        if self.capacity_inline < self.msg.inline_data.len() + additional {
            (MsgBufferView {
                capacity_inline: self.msg.inline_data.len() + additional,
                ..self
            }).update_reservation()
        } else {
            self
        }
    }

    pub open spec fn reserve_descriptors(self, additional: nat) -> MsgBufferView {
        if self.capacity_descriptors < self.msg.descriptors.len() + additional {
            (MsgBufferView {
                capacity_descriptors: self.msg.descriptors.len() + additional,
                ..self
            }).update_reservation()
        } else {
            self
        }
    }

    pub open spec fn extend_inline_data(self, data: Seq<u8>) -> MsgBufferView {
        let reserved = self.reserve_inline_data(data.len());
        (MsgBufferView { msg: self.msg.extend_inline(data), ..reserved }).grow(
            (self.msg.size() + data.len() + TRAILER_SIZE) as nat,
        )
    }

    pub open spec fn append_descriptor(self, record: Seq<u8>) -> MsgBufferView {
        let attached = (MsgBufferView { msg: self.msg.append_descriptor(record), ..self }).grow(
            (self.msg.size() + record.len() + TRAILER_SIZE) as nat,
        );
        attached.reserve_descriptors(0)
    }

    /// The bytes the buffer has once `n` payload bytes have been added.
    pub open spec fn capacity_after_extend(self, n: nat) -> nat {
        self.reserve_inline_data(n).grow((self.msg.size() + n + TRAILER_SIZE) as nat).capacity
    }

    /// The bytes the buffer has once a descriptor record of `width` bytes
    /// has been attached.
    pub open spec fn capacity_after_append(self, width: nat) -> nat {
        let grown = self.grow((self.msg.size() + width + TRAILER_SIZE) as nat);
        if self.capacity_descriptors < self.msg.descriptors.len() + 1 {
            (MsgBufferView {
                capacity_descriptors: self.msg.descriptors.len() + 1,
                ..grown
            }).update_reservation().capacity
        } else {
            grown.capacity
        }
    }

    /// The buffer with the empty message in it; what was reserved stays.
    pub open spec fn reset(self) -> MsgBufferView {
        MsgBufferView { msg: MsgView::empty(), ..self }
    }
}

} // verus!
