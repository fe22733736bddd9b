//! What holds of every buffer, whatever was done to it: stated over the
//! views that the operations' contracts speak of, and proved.

use vstd::prelude::*;
use crate::abi::{
    RawPort, DESCRIPTOR_SLOT_SIZE, MACH_MSG_PORT_DESCRIPTOR, MSG_START_SIZE,
    PORT_DESCRIPTOR_SIZE, TRAILER_SIZE,
};
use crate::model::{
    is_record, lemma_complex_set, lemma_empty_bits_plain, port_record, record_disposition,
    record_name, record_tag, records_len, MsgBufferView, MsgView,
};
use crate::wire::{chain_end, image_count, image_wf, lemma_record_bytes, TAG_OFFSET};

verus! {

/// One thing attached to a message: payload bytes, or a port right.
pub enum Attachment {
    /// What `extend_inline_data` adds.
    Bytes(Seq<u8>),
    /// What `copy_right_raw` and `move_right_raw` add, with the disposition
    /// that stands for the mode.
    Right { name: RawPort, disposition: u8 },
}

/// The buffer after `a` has been attached.
pub open spec fn attach(b: MsgBufferView, a: Attachment) -> MsgBufferView {
    match a {
        Attachment::Bytes(data) => b.extend_inline_data(data),
        Attachment::Right { name, disposition } => b.append_descriptor(
            port_record(name, disposition),
        ),
    }
}

/// The buffer after everything in `attachments` has been attached, first to
/// last.
pub open spec fn attach_all(b: MsgBufferView, attachments: Seq<Attachment>) -> MsgBufferView
    decreases attachments.len(),
{
    if attachments.len() == 0 {
        b
    } else {
        attach(attach_all(b, attachments.drop_last()), attachments.last())
    }
}

/// The payload bytes among `attachments`, in the order they were attached.
pub open spec fn attached_bytes(attachments: Seq<Attachment>) -> Seq<u8>
    decreases attachments.len(),
{
    if attachments.len() == 0 {
        Seq::empty()
    } else {
        match attachments.last() {
            Attachment::Bytes(data) => attached_bytes(attachments.drop_last()) + data,
            Attachment::Right { .. } => attached_bytes(attachments.drop_last()),
        }
    }
}

/// The port descriptor records for the rights among `attachments`, in the
/// order they were attached.
pub open spec fn attached_rights(attachments: Seq<Attachment>) -> Seq<Seq<u8>>
    decreases attachments.len(),
{
    if attachments.len() == 0 {
        Seq::empty()
    } else {
        match attachments.last() {
            Attachment::Bytes(_) => attached_rights(attachments.drop_last()),
            Attachment::Right { name, disposition } => attached_rights(
                attachments.drop_last(),
            ).push(port_record(name, disposition)),
        }
    }
}

/// A port descriptor record is a whole record, twelve bytes wide.
pub proof fn lemma_port_record(name: RawPort, disposition: u8)
    ensures
        is_record(port_record(name, disposition)),
        port_record(name, disposition).len() == PORT_DESCRIPTOR_SIZE,
{
}

/// One record more takes its own width more.
pub proof fn lemma_records_len_push(records: Seq<Seq<u8>>, record: Seq<u8>)
    ensures
        records_len(records.push(record)) == records_len(records) + record.len(),
{
    assert(records.push(record).drop_last() =~= records);
}

/// Whole records take a slot's width each at most.
pub proof fn lemma_records_len_bound(records: Seq<Seq<u8>>)
    requires
        forall|i: int| 0 <= i < records.len() ==> is_record(#[trigger] records[i]),
    ensures
        records_len(records) <= records.len() * DESCRIPTOR_SLOT_SIZE,
    decreases records.len(),
{
    if records.len() > 0 {
        lemma_records_len_bound(records.drop_last());
        assert(is_record(records[records.len() - 1]));
    }
}

/// What was attached to a fresh buffer is what its message holds: the
/// payload is the attached bytes in the order they were attached, the
/// descriptors are the attached rights in the order they were attached, and
/// the size is the header's width, twelve bytes for each right, and the
/// payload's length. The message is well formed, and no more descriptors are
/// present than slots are reserved.
pub proof fn lemma_attachments_read_back(attachments: Seq<Attachment>)
    ensures
        ({
            let b = attach_all(MsgBufferView::empty(), attachments);
            &&& b.msg.inline_data == attached_bytes(attachments)
            &&& b.msg.descriptors == attached_rights(attachments)
            &&& b.msg.size() == MSG_START_SIZE + PORT_DESCRIPTOR_SIZE * attached_rights(
                attachments,
            ).len() + attached_bytes(attachments).len()
            &&& b.msg.wf()
            &&& b.tracks_descriptors()
            &&& b.msg.size() + TRAILER_SIZE <= b.capacity
            &&& b.reservation() <= b.capacity
        }),
    decreases attachments.len(),
{
    if attachments.len() == 0 {
        lemma_empty_bits_plain();
        assert(records_len(Seq::<Seq<u8>>::empty()) == 0);
    } else {
        let before = attachments.drop_last();
        let b = attach_all(MsgBufferView::empty(), before);
        lemma_attachments_read_back(before);
        match attachments.last() {
            Attachment::Bytes(data) => {},
            Attachment::Right { name, disposition } => {
                lemma_port_record(name, disposition);
                lemma_records_len_push(b.msg.descriptors, port_record(name, disposition));
                lemma_complex_set(b.msg.bits);
            },
        }
    }
}

/// Adding payload bytes to any well-formed buffer adds them after the
/// payload present and changes nothing else of the message: the descriptors
/// and the flag for descriptors stay, the size grows by the bytes added and
/// is the header's width, the descriptors' bytes and the payload's length,
/// and a trailer's width of room is left.
pub proof fn lemma_extend_adds_payload(b: MsgBufferView, data: Seq<u8>)
    requires
        b.wf(),
    ensures
        ({
            let e = b.extend_inline_data(data);
            &&& e.msg.inline_data == b.msg.inline_data + data
            &&& e.msg.descriptors == b.msg.descriptors
            &&& e.msg.complex() == b.msg.complex()
            &&& e.msg.size() == b.msg.size() + data.len()
            &&& e.msg.size() == MSG_START_SIZE + records_len(e.msg.descriptors)
                + e.msg.inline_data.len()
            &&& e.msg.wf()
            &&& e.msg.size() + TRAILER_SIZE <= e.capacity
            &&& e.reservation() <= e.capacity
            &&& e.capacity >= b.capacity
            &&& b.tracks_descriptors() ==> e.tracks_descriptors()
        }),
{
    lemma_records_len_nonnegative(b.msg.descriptors);
}

/// Attaching a port right to any well-formed buffer adds one port
/// descriptor after those present, with the name and the disposition given,
/// and changes nothing else of the message but the flag for descriptors,
/// which is set: the earlier descriptors and the payload stay, the size
/// grows by twelve, and a trailer's width of room is left.
pub proof fn lemma_right_attaches_last(b: MsgBufferView, name: RawPort, disposition: u8)
    requires
        b.wf(),
    ensures
        ({
            let e = b.append_descriptor(port_record(name, disposition));
            let k = b.msg.descriptors.len() as int;
            &&& e.msg.descriptors.len() == k + 1
            &&& e.msg.descriptors.subrange(0, k) == b.msg.descriptors
            &&& record_tag(e.msg.descriptors[k]) == MACH_MSG_PORT_DESCRIPTOR
            &&& record_name(e.msg.descriptors[k]) == name
            &&& record_disposition(e.msg.descriptors[k]) == disposition
            &&& e.msg.inline_data == b.msg.inline_data
            &&& e.msg.complex()
            &&& e.msg.size() == b.msg.size() + PORT_DESCRIPTOR_SIZE
            &&& e.msg.wf()
            &&& e.msg.size() + TRAILER_SIZE <= e.capacity
            &&& e.reservation() <= e.capacity
            &&& e.capacity >= b.capacity
            &&& e.tracks_descriptors()
        }),
{
    let record = port_record(name, disposition);
    let e = b.append_descriptor(record);
    lemma_port_record(name, disposition);
    lemma_records_len_push(b.msg.descriptors, record);
    lemma_records_len_nonnegative(b.msg.descriptors);
    lemma_complex_set(b.msg.bits);
    assert(e.msg.descriptors.subrange(0, b.msg.descriptors.len() as int) =~= b.msg.descriptors);
}

/// Bytes in which a descriptor that the count covers has a kind tag of no
/// known kind are no message: no well-formed buffer holds them, and a
/// receive that left them is reported as corrupted.
pub proof fn lemma_unknown_kind_is_no_message(s: Seq<u8>, i: nat)
    requires
        i < image_count(s),
        s[chain_end(s, i) + TAG_OFFSET] > 3,
    ensures
        !image_wf(s),
{
    if image_wf(s) {
        lemma_record_bytes(s, i, image_count(s), s.len() as int);
    }
}

/// Whatever a buffer holds and has reserved, resetting it leaves the empty
/// message: the size is the header's width, there is no descriptor, and the
/// flag for descriptors is clear. The capacity and the reservations are
/// those from before, and a second reset changes nothing.
pub proof fn lemma_reset_restores_empty(b: MsgBufferView)
    ensures
        b.reset().msg == MsgView::empty(),
        b.reset().msg.size() == MSG_START_SIZE,
        b.reset().msg.descriptors.len() == 0,
        !b.reset().msg.complex(),
        b.reset().capacity == b.capacity,
        b.reset().capacity_inline == b.capacity_inline,
        b.reset().capacity_descriptors == b.capacity_descriptors,
        b.reset().reset() == b.reset(),
        b.wf() ==> b.reset().wf(),
{
    lemma_empty_bits_plain();
    assert(records_len(Seq::<Seq<u8>>::empty()) == 0);
    if b.wf() {
        lemma_records_len_nonnegative(b.msg.descriptors);
    }
}

/// Records take no negative number of bytes.
pub proof fn lemma_records_len_nonnegative(records: Seq<Seq<u8>>)
    ensures
        records_len(records) >= 0,
    decreases records.len(),
{
    if records.len() > 0 {
        lemma_records_len_nonnegative(records.drop_last());
    }
}

/// Once room for `additional` payload bytes has been reserved, adding up to
/// that many bytes leaves the capacity and the reservations as the
/// reservation left them: nothing is allocated anew.
///
/// This is stated of buffers that hold no more descriptors than slots are
/// reserved, which is every buffer whose message was built by attaching.
pub proof fn lemma_reserved_extend_keeps_capacity(
    b: MsgBufferView,
    additional: nat,
    data: Seq<u8>,
)
    requires
        b.wf(),
        b.tracks_descriptors(),
        data.len() <= additional,
    ensures
        ({
            let reserved = b.reserve_inline_data(additional);
            let extended = reserved.extend_inline_data(data);
            &&& extended.capacity == reserved.capacity
            &&& extended.capacity_inline == reserved.capacity_inline
            &&& extended.capacity_descriptors == reserved.capacity_descriptors
            &&& extended.msg == reserved.msg.extend_inline(data)
            &&& extended.tracks_descriptors()
        }),
{
    lemma_records_len_bound(b.msg.descriptors);
    lemma_records_len_nonnegative(b.msg.descriptors);
    assert(b.msg.descriptors.len() * DESCRIPTOR_SLOT_SIZE <= b.capacity_descriptors
        * DESCRIPTOR_SLOT_SIZE) by (nonlinear_arith)
        requires
            b.msg.descriptors.len() <= b.capacity_descriptors,
    ;
    let reserved = b.reserve_inline_data(additional);
    assert(reserved.msg == b.msg);
    assert(reserved.capacity_descriptors == b.capacity_descriptors);
    assert(reserved.capacity_inline >= b.msg.inline_data.len() + additional);
    assert(reserved.reservation() <= reserved.capacity);
    assert(reserved.reserve_inline_data(data.len()) == reserved);
    assert(b.msg.size() + data.len() + TRAILER_SIZE <= reserved.reservation());
}

} // verus!
