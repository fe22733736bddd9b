//! A message in its buffer: the bytes the kernel reads and writes, and the
//! operations that keep them a message.

use vstd::prelude::*;
use crate::abi::{
    RawPort, MACH_MSGH_BITS_COMPLEX, MACH_MSG_OOL_PORTS_DESCRIPTOR, MACH_MSG_PORT_DESCRIPTOR,
    MACH_MSG_TYPE_COPY_SEND, MACH_PORT_NULL, MAX_MSG_CAPACITY, MSG_START_SIZE, OOL_DESCRIPTOR_SIZE,
    OOL_PORTS_DESCRIPTOR_SIZE, PORT_DESCRIPTOR_SIZE, TRAILER_SIZE,
};
use crate::error::MachError;
use crate::model::{
    descriptor_width, is_record, le32, lemma_complex_cleared, records_len, MsgView,
};
use crate::wire::{
    chain_end, chain_ok, empty_image, image_count, image_view, image_wf, lemma_chain_bounds,
    lemma_empty_image, lemma_image_extend, lemma_image_insert, lemma_image_clear_port,
    lemma_image_set_inline, lemma_image_set_remote_port, lemma_image_view, lemma_record_bytes,
    lemma_put32, lemma_put32_prefix, lemma_put32_same, put32, read_u32, splice, write_u32, BITS_OFFSET, COUNT_OFFSET,
    ID_OFFSET, LOCAL_PORT_OFFSET, REMOTE_PORT_OFFSET, SIZE_OFFSET, TAG_OFFSET, VOUCHER_PORT_OFFSET,
};

verus! {

/// The words of a message header, read out of the buffer.
#[derive(Clone, Copy, Debug, PartialEq, Eq, Structural)]
pub struct MsgHeader {
    pub bits: u32,
    pub size: u32,
    pub remote_port: RawPort,
    pub local_port: RawPort,
    pub voucher_port: RawPort,
    pub id: u32,
}

/// A message and the room around it.
///
/// The message is the first `len` bytes of the storage. What follows is
/// spare room, of which at least a trailer's width is always left, so that
/// the kernel can receive into the storage.
pub struct Msg {
    storage: Vec<u8>,
    len: usize,
}

impl View for Msg {
    type V = MsgView;

    open spec fn view(&self) -> MsgView {
        image_view(self.bytes())
    }
}

/// The width of a descriptor record of the kind that `tag` stands for.
pub fn descriptor_width_of(tag: u8) -> (w: usize)
    requires
        tag <= 3,
    ensures
        w == descriptor_width(tag),
{
    if tag == MACH_MSG_PORT_DESCRIPTOR {
        PORT_DESCRIPTOR_SIZE
    } else if tag == MACH_MSG_OOL_PORTS_DESCRIPTOR {
        OOL_PORTS_DESCRIPTOR_SIZE
    } else {
        OOL_DESCRIPTOR_SIZE
    }
}

/// Whether the first `len` bytes of `area` are a message in full, with a
/// trailer's width of room left after them.
pub open spec fn holds_message(area: Seq<u8>, len: int) -> bool {
    &&& 0 <= len
    &&& len + TRAILER_SIZE <= area.len() <= MAX_MSG_CAPACITY
    &&& image_wf(area.subrange(0, len))
}

/// The capacity of a buffer of `capacity` bytes once it has been emptied: as
/// before where that has room for the empty message and a trailer, else just
/// that room.
pub open spec fn emptied_capacity(capacity: int) -> int {
    if MSG_START_SIZE + TRAILER_SIZE <= capacity <= MAX_MSG_CAPACITY {
        capacity
    } else {
        MSG_START_SIZE + TRAILER_SIZE
    }
}

/// Whether a buffer of the bytes `area` has room for a message of `len`
/// bytes and a trailer after it.
pub open spec fn has_room(area: Seq<u8>, len: int) -> bool {
    MSG_START_SIZE <= len && len + TRAILER_SIZE <= area.len() <= MAX_MSG_CAPACITY
}

/// The size word as the kernel left it in `area`; 0 where `area` is too
/// short to have one.
pub open spec fn reported_size(area: Seq<u8>) -> u32 {
    if area.len() >= MSG_START_SIZE {
        le32(area, SIZE_OFFSET as int)
    } else {
        0
    }
}

/// `area` as it is left after a receive that failed, for a message of `len`
/// bytes: the size word says `len` again; and where the bytes are then not
/// a message in full, the descriptor count and the flag for descriptors are
/// cleared, so that all that follows the header is payload.
pub open spec fn restored_area(area: Seq<u8>, len: int) -> Seq<u8> {
    let sized = put32(area, SIZE_OFFSET as int, len as u32);
    if image_wf(sized.subrange(0, len)) {
        sized
    } else {
        put32(
            put32(sized, COUNT_OFFSET as int, 0),
            BITS_OFFSET as int,
            le32(area, BITS_OFFSET as int) & !MACH_MSGH_BITS_COMPLEX,
        )
    }
}

/// The length that the size word of a received header states.
pub open spec fn received_len(area: Seq<u8>) -> int {
    le32(area, SIZE_OFFSET as int) as int
}

/// Checks that the first `len` bytes of `storage` are a message in full:
/// the size word, every descriptor record in turn, and the flag word.
fn image_ok(storage: &Vec<u8>, len: usize) -> (ok: bool)
    ensures
        ok == holds_message(storage@, len as int),
{
    let cap = storage.len();
    if cap > MAX_MSG_CAPACITY || len < MSG_START_SIZE || len > cap || cap - len < TRAILER_SIZE {
        return false;
    }
    let ghost s = storage@.subrange(0, len as int);
    let size = read_u32(storage.as_slice(), SIZE_OFFSET);
    let count = read_u32(storage.as_slice(), COUNT_OFFSET);
    let bits = read_u32(storage.as_slice(), BITS_OFFSET);
    assert(size == le32(s, SIZE_OFFSET as int));
    assert(count == le32(s, COUNT_OFFSET as int));
    assert(bits == le32(s, BITS_OFFSET as int));
    if size as usize != len {
        return false;
    }
    if (bits & MACH_MSGH_BITS_COMPLEX != 0) != (count > 0) {
        return false;
    }
    let mut i: u32 = 0;
    let mut off: usize = MSG_START_SIZE;
    while i < count
        invariant
            s == storage@.subrange(0, len as int),
            len <= storage@.len(),
            count == image_count(s),
            i <= count,
            off == chain_end(s, i as nat),
            MSG_START_SIZE <= off <= len,
            chain_ok(s, i as nat, len as int),
        decreases count - i,
    {
        if len - off < PORT_DESCRIPTOR_SIZE {
            proof {
                if chain_ok(s, count as nat, len as int) {
                    lemma_chain_bounds(s, (i + 1) as nat, count as nat, len as int);
                }
            }
            return false;
        }
        let tag = storage[off + TAG_OFFSET];
        assert(tag == s[off + TAG_OFFSET]);
        if tag > 3 || len - off < descriptor_width_of(tag) {
            proof {
                if chain_ok(s, count as nat, len as int) {
                    lemma_chain_bounds(s, (i + 1) as nat, count as nat, len as int);
                }
            }
            return false;
        }
        off = off + descriptor_width_of(tag);
        i = i + 1;
    }
    true
}

/// Writes the header of the empty message over the first bytes of `storage`.
fn write_empty_header(storage: &mut Vec<u8>)
    requires
        MSG_START_SIZE <= old(storage)@.len(),
    ensures
        final(storage)@.len() == old(storage)@.len(),
        final(storage)@.subrange(0, MSG_START_SIZE as int) == empty_image(),
        final(storage)@.subrange(MSG_START_SIZE as int, old(storage)@.len() as int) == old(storage)@.subrange(MSG_START_SIZE as int, old(storage)@.len() as int),
{
    let ghost tail = storage@.subrange(MSG_START_SIZE as int, storage@.len() as int);
    let mut i: usize = 0;
    while i < MSG_START_SIZE
        invariant
            i <= MSG_START_SIZE <= storage@.len(),
            storage@.len() == old(storage)@.len(),
            forall|j: int| 0 <= j < i ==> storage@[j] == 0u8,
            storage@.subrange(MSG_START_SIZE as int, storage@.len() as int) == tail,
        decreases MSG_START_SIZE - i,
    {
        storage[i] = 0u8;
        i += 1;
        assert(storage@.subrange(MSG_START_SIZE as int, storage@.len() as int) =~= tail);
    }
    let ghost zeroed = storage@;
    assert(zeroed.subrange(0, MSG_START_SIZE as int) =~= Seq::new(
        MSG_START_SIZE as nat,
        |i: int| 0u8,
    ));
    write_u32(storage, BITS_OFFSET, MACH_MSG_TYPE_COPY_SEND);
    let ghost marked = storage@;
    write_u32(storage, SIZE_OFFSET, MSG_START_SIZE as u32);
    proof {
        lemma_put32(zeroed, BITS_OFFSET as int, MACH_MSG_TYPE_COPY_SEND);
        lemma_put32_prefix(
            zeroed,
            BITS_OFFSET as int,
            MACH_MSG_TYPE_COPY_SEND,
            MSG_START_SIZE as int,
        );
        lemma_put32_prefix(marked, SIZE_OFFSET as int, MSG_START_SIZE as u32, MSG_START_SIZE as int);
    }
}

impl Msg {
    /// The bytes of the message.
    pub closed spec fn bytes(&self) -> Seq<u8> {
        self.storage@.subrange(0, self.len as int)
    }

    /// Every byte of the buffer: the message, then the spare room.
    pub closed spec fn area(&self) -> Seq<u8> {
        self.storage@
    }

    pub closed spec fn spec_capacity(&self) -> usize {
        self.storage.len()
    }

    pub closed spec fn spec_len(&self) -> usize {
        self.len
    }

    /// The buffer holds a message in full and leaves a trailer's width of
    /// spare room after it.
    pub closed spec fn wf(&self) -> bool {
        &&& self.len + TRAILER_SIZE <= self.storage@.len() <= MAX_MSG_CAPACITY
        &&& image_wf(self.bytes())
    }

    /// What `wf` says in terms of the message, its length and the capacity.
    pub proof fn lemma_wf(&self)
        requires
            self.wf(),
        ensures
            self@.wf(),
            self@.size() == self.len(),
            self.bytes().len() == self.len(),
            self.area().len() == self.capacity(),
            self.area().subrange(0, self.len() as int) == self.bytes(),
            image_wf(self.bytes()),
            MSG_START_SIZE <= self.len(),
            self.len() + TRAILER_SIZE <= self.capacity() <= MAX_MSG_CAPACITY,
            MSG_START_SIZE + PORT_DESCRIPTOR_SIZE * self@.descriptors.len() + self@.inline_data.len()
                <= self.len(),
    {
        lemma_image_view(self.bytes());
        lemma_chain_bounds(
            self.bytes(),
            0,
            image_count(self.bytes()),
            self.bytes().len() as int,
        );
    }

    /// An empty message in a buffer with room for it and a trailer.
    pub(crate) fn new() -> (msg: Msg)
        ensures
            msg.wf(),
            msg@ == MsgView::empty(),
            msg.capacity() == MSG_START_SIZE + TRAILER_SIZE,
    {
        let mut storage: Vec<u8> = Vec::new();
        storage.resize(MSG_START_SIZE + TRAILER_SIZE, 0u8);
        write_empty_header(&mut storage);
        proof {
            lemma_empty_image();
        }
        Msg { storage, len: MSG_START_SIZE }
    }

    /// The bytes the message takes, which is what its header's size word says.
    #[verifier::when_used_as_spec(spec_len)]
    pub fn len(&self) -> (n: usize)
        ensures
            n == self.len(),
            self.wf() ==> n == self@.size(),
    {
        proof {
            if self.wf() {
                lemma_image_view(self.bytes());
            }
        }
        self.len
    }

    /// The bytes the buffer has, message and spare room together.
    #[verifier::when_used_as_spec(spec_capacity)]
    pub fn capacity(&self) -> (n: usize)
        ensures
            n == self.capacity(),
    {
        self.storage.len()
    }

    /// The bytes of the message, as the kernel is to read them.
    pub fn as_bytes(&self) -> (bytes: &[u8])
        requires
            self.wf(),
        ensures
            bytes@ == self.bytes(),
    {
        vstd::slice::slice_subrange(self.storage.as_slice(), 0, self.len)
    }

    /// Where descriptor `i` starts, counted from the start of the message.
    pub open spec fn descriptor_offset(&self, i: nat) -> int {
        chain_end(self.bytes(), i)
    }

    /// The byte at `off`.
    pub(crate) fn byte_at(&self, off: usize) -> (b: u8)
        requires
            self.wf(),
            off < self.len(),
        ensures
            b == self.bytes()[off as int],
    {
        self.storage[off]
    }

    /// The word at `off`.
    pub(crate) fn word_at(&self, off: usize) -> (x: u32)
        requires
            self.wf(),
            off + 4 <= self.len(),
        ensures
            x == le32(self.bytes(), off as int),
    {
        read_u32(self.storage.as_slice(), off)
    }

    /// Stores the null name where descriptor `i`, which starts at `off`,
    /// has its port name.
    pub(crate) fn clear_port_at(&mut self, Ghost(i): Ghost<nat>, off: usize)
        requires
            old(self).wf(),
            i < old(self)@.descriptors.len(),
            off == old(self).descriptor_offset(i),
        ensures
            final(self).wf(),
            final(self)@ == old(self)@.clear_port(i as int),
            final(self).capacity() == old(self).capacity(),
            final(self).len() == old(self).len(),
            forall|k: nat|
                k <= old(self)@.descriptors.len() ==> #[trigger] final(self).descriptor_offset(k)
                    == old(self).descriptor_offset(k),
    {
        let ghost s = self.bytes();
        let ghost before = self.storage@;
        proof {
            lemma_record_bytes(s, i, image_count(s), s.len() as int);
        }
        write_u32(&mut self.storage, off, MACH_PORT_NULL);
        proof {
            lemma_put32_prefix(before, off as int, MACH_PORT_NULL, self.len as int);
            lemma_image_clear_port(s, i);
        }
    }

    /// The header word at `off`.
    fn word(&self, off: usize) -> (x: u32)
        requires
            self.wf(),
            off + 4 <= MSG_START_SIZE,
        ensures
            x == le32(self.bytes(), off as int),
    {
        read_u32(self.storage.as_slice(), off)
    }

    /// The words of the header.
    pub fn header(&self) -> (h: MsgHeader)
        requires
            self.wf(),
        ensures
            h.bits == self@.bits,
            h.size == self.len(),
            h.remote_port == self@.remote_port,
            h.local_port == self@.local_port,
            h.voucher_port == self@.voucher_port,
            h.id == self@.id,
    {
        MsgHeader {
            bits: self.word(BITS_OFFSET),
            size: self.word(SIZE_OFFSET),
            remote_port: self.word(REMOTE_PORT_OFFSET),
            local_port: self.word(LOCAL_PORT_OFFSET),
            voucher_port: self.word(VOUCHER_PORT_OFFSET),
            id: self.word(ID_OFFSET),
        }
    }

    /// Whether the header marks the message as one that carries descriptors,
    /// which it does exactly when there is one.
    pub fn complex(&self) -> (c: bool)
        requires
            self.wf(),
        ensures
            c == self@.complex(),
            c == (self@.descriptors.len() > 0),
    {
        self.word(BITS_OFFSET) & MACH_MSGH_BITS_COMPLEX != 0
    }

    /// The number of descriptors, as the word after the header says it.
    pub fn descriptor_count(&self) -> (n: usize)
        requires
            self.wf(),
        ensures
            n == self@.descriptors.len(),
    {
        self.word(COUNT_OFFSET) as usize
    }

    /// The bytes that the descriptor records take together. The records are
    /// of different widths, so this walks them one by one.
    pub fn descriptors_byte_len(&self) -> (n: usize)
        requires
            self.wf(),
        ensures
            n == records_len(self@.descriptors),
            MSG_START_SIZE + n <= self.len(),
            MSG_START_SIZE + n == chain_end(self.bytes(), image_count(self.bytes())),
    {
        let count = self.word(COUNT_OFFSET);
        let ghost s = self.bytes();
        let mut i: u32 = 0;
        let mut off: usize = MSG_START_SIZE;
        proof {
            lemma_image_view(s);
        }
        while i < count
            invariant
                self.wf(),
                s == self.bytes(),
                count == image_count(s),
                i <= count,
                off == chain_end(s, i as nat),
            decreases count - i,
        {
            proof {
                lemma_chain_bounds(s, (i + 1) as nat, count as nat, s.len() as int);
            }
            let tag = self.storage[off + TAG_OFFSET];
            off = off + descriptor_width_of(tag);
            i = i + 1;
        }
        off - MSG_START_SIZE
    }

    /// The payload: the bytes after the last descriptor.
    pub fn inline_data(&self) -> (data: &[u8])
        requires
            self.wf(),
        ensures
            data@ == self@.inline_data,
    {
        let start = MSG_START_SIZE + self.descriptors_byte_len();
        let data = vstd::slice::slice_subrange(self.storage.as_slice(), start, self.len);
        assert(data@ =~= self@.inline_data);
        data
    }

    /// Restores the empty message in place. The buffer keeps its capacity.
    pub fn reset_on_send(&mut self)
        requires
            old(self).wf(),
        ensures
            final(self).wf(),
            final(self)@ == MsgView::empty(),
            final(self).capacity() == old(self).capacity(),
    {
        write_empty_header(&mut self.storage);
        self.len = MSG_START_SIZE;
        proof {
            lemma_empty_image();
        }
    }

    /// Stores `port` as the port the message is sent to.
    pub(crate) fn set_remote_port(&mut self, port: RawPort)
        requires
            old(self).wf(),
        ensures
            final(self).wf(),
            final(self)@ == old(self)@.with_remote_port(port),
            final(self).capacity() == old(self).capacity(),
            final(self).len() == old(self).len(),
    {
        let ghost before = self.storage@;
        write_u32(&mut self.storage, REMOTE_PORT_OFFSET, port);
        proof {
            lemma_put32_prefix(before, REMOTE_PORT_OFFSET as int, port, self.len as int);
            lemma_image_set_remote_port(old(self).bytes(), port);
        }
    }

    /// Adds `data` after the payload, growing the buffer where the spare
    /// room does not hold it.
    pub(crate) fn append_bytes(&mut self, data: &[u8])
        requires
            old(self).wf(),
            old(self).len() + data@.len() + TRAILER_SIZE <= MAX_MSG_CAPACITY,
        ensures
            final(self).wf(),
            final(self)@ == old(self)@.extend_inline(data@),
            final(self).len() == old(self).len() + data@.len(),
            final(self).capacity() == if old(self).len() + data@.len() + TRAILER_SIZE > old(self).capacity() {
                (old(self).len() + data@.len() + TRAILER_SIZE) as usize
            } else {
                old(self).capacity()
            },
    {
        let n = data.len();
        let start = self.len;
        self.grow_to(start + n + TRAILER_SIZE);
        let ghost s = self.bytes();
        let ghost orig = self.storage@;
        let mut i: usize = 0;
        while i < n
            invariant
                i <= n,
                n == data@.len(),
                start + n + TRAILER_SIZE <= self.storage@.len() <= MAX_MSG_CAPACITY,
                self.storage@.len() == orig.len(),
                forall|j: int| 0 <= j < start ==> self.storage@[j] == orig[j],
                forall|j: int| start <= j < start + i ==> self.storage@[j] == data@[j - start],
            decreases n - i,
        {
            self.storage[start + i] = data[i];
            i += 1;
        }
        let ghost filled = self.storage@;
        assert(filled.subrange(0, start + n) =~= s + data@) by {
            assert(s == orig.subrange(0, start as int));
        }
        self.len = start + n;
        write_u32(&mut self.storage, SIZE_OFFSET, self.len as u32);
        proof {
            lemma_put32_prefix(filled, SIZE_OFFSET as int, (start + n) as u32, start + n);
            lemma_image_extend(s, data@);
        }
    }

    /// Puts `record` in after the last descriptor, moving the payload up, and
    /// counts it in the header.
    pub(crate) fn insert_record(&mut self, record: &[u8])
        requires
            old(self).wf(),
            is_record(record@),
            old(self).len() + record@.len() + TRAILER_SIZE <= MAX_MSG_CAPACITY,
        ensures
            final(self).wf(),
            final(self)@ == old(self)@.append_descriptor(record@),
            final(self).len() == old(self).len() + record@.len(),
            final(self).capacity() == if old(self).len() + record@.len() + TRAILER_SIZE > old(self).capacity() {
                (old(self).len() + record@.len() + TRAILER_SIZE) as usize
            } else {
                old(self).capacity()
            },
    {
        let w = record.len();
        let end = self.len;
        let at = MSG_START_SIZE + self.descriptors_byte_len();
        let count = self.word(COUNT_OFFSET);
        let bits = self.word(BITS_OFFSET);
        self.grow_to(end + w + TRAILER_SIZE);
        let ghost s = self.bytes();
        let ghost orig = self.storage@;
        proof {
            lemma_chain_bounds(s, 0, count as nat, s.len() as int);
        }
        let mut i: usize = end;
        while i > at
            invariant
                at <= i <= end,
                end == self.len,
                end + w + TRAILER_SIZE <= self.storage@.len() <= MAX_MSG_CAPACITY,
                self.storage@.len() == orig.len(),
                forall|j: int| 0 <= j < i + w ==> self.storage@[j] == orig[j],
                forall|j: int| i <= j < end ==> self.storage@[j + w] == orig[j],
            decreases i,
        {
            i -= 1;
            let b = self.storage[i];
            self.storage[i + w] = b;
        }
        let mut k: usize = 0;
        while k < w
            invariant
                k <= w,
                w == record@.len(),
                at <= end,
                end == self.len,
                end + w + TRAILER_SIZE <= self.storage@.len() <= MAX_MSG_CAPACITY,
                self.storage@.len() == orig.len(),
                forall|j: int| 0 <= j < at ==> self.storage@[j] == orig[j],
                forall|j: int| 0 <= j < k ==> self.storage@[at + j] == record@[j],
                forall|j: int| at <= j < end ==> self.storage@[j + w] == orig[j],
            decreases w - k,
        {
            self.storage[at + k] = record[k];
            k += 1;
        }
        let ghost moved = self.storage@;
        assert(moved.subrange(0, end + w) =~= splice(s, at as int, record@)) by {
            reveal(splice);
            assert(s == orig.subrange(0, end as int));
        }
        self.len = end + w;
        write_u32(&mut self.storage, SIZE_OFFSET, self.len as u32);
        let ghost sized = self.storage@;
        write_u32(&mut self.storage, COUNT_OFFSET, count + 1);
        let ghost counted = self.storage@;
        write_u32(&mut self.storage, BITS_OFFSET, bits | MACH_MSGH_BITS_COMPLEX);
        proof {
            lemma_put32_prefix(moved, SIZE_OFFSET as int, (end + w) as u32, end + w);
            lemma_put32_prefix(sized, COUNT_OFFSET as int, (count + 1) as u32, end + w);
            lemma_put32_prefix(
                counted,
                BITS_OFFSET as int,
                bits | MACH_MSGH_BITS_COMPLEX,
                end + w,
            );
            lemma_image_insert(s, record@);
        }
    }

    /// The payload, for writing in place.
    ///
    /// A slice keeps its length, which the contract takes as its condition:
    /// then the message is what it was but for the payload written.
    pub fn inline_data_mut(&mut self) -> (data: &mut [u8])
        requires
            old(self).wf(),
        ensures
            data@ == old(self)@.inline_data,
            final(data)@.len() == data@.len() ==> {
                &&& final(self).wf()
                &&& final(self)@ == (MsgView { inline_data: final(data)@, ..old(self)@ })
                &&& final(self).capacity() == old(self).capacity()
                &&& final(self).len() == old(self).len()
            },
    {
        let start = MSG_START_SIZE + self.descriptors_byte_len();
        let len = self.len;
        let ghost s = self.bytes();
        let (head, tail) = self.storage.as_mut_slice().split_at_mut(len);
        let (fixed, data) = head.split_at_mut(start);
        proof {
            assert(data@ =~= old(self)@.inline_data);
            assert forall|d: Seq<u8>| d.len() == data@.len() implies #[trigger] image_wf(fixed@ + d)
                && image_view(fixed@ + d) == (MsgView { inline_data: d, ..old(self)@ }) && (fixed@
                + d + tail@).subrange(0, len as int) == fixed@ + d by {
                let t = fixed@ + d;
                assert((fixed@ + d + tail@).subrange(0, len as int) =~= t);
                assert(t.subrange(start as int, t.len() as int) =~= d);
                lemma_image_set_inline(s, t);
            }
        }
        assert(final(data)@.len() == data@.len() ==> image_wf(fixed@ + final(data)@));
        assert(final(data)@.len() == data@.len() ==> (final(fixed)@ + final(data)@ + final(tail)@).subrange(
            0,
            len as int,
        ) == fixed@ + final(data)@);
        data
    }

    /// Every byte of the buffer, for the kernel to receive into. What the
    /// buffer holds afterwards is a message again once `accept_received` or
    /// `restore` has looked at it.
    pub fn receive_area(&mut self) -> (area: &mut [u8])
        ensures
            area@ == old(self).area(),
            area@.len() == old(self).capacity(),
            final(self).area() == final(area)@,
            final(self).capacity() == final(area)@.len(),
            final(self).len() == old(self).len(),
    {
        self.storage.as_mut_slice()
    }

    /// The size word as it now stands in the buffer's header.
    pub fn reported_size(&self) -> (size: u32)
        ensures
            size == reported_size(self.area()),
    {
        if self.storage.len() >= MSG_START_SIZE {
            read_u32(self.storage.as_slice(), SIZE_OFFSET)
        } else {
            0
        }
    }

    /// Puts the empty message in place of whatever the buffer holds.
    fn clear(&mut self)
        ensures
            final(self).wf(),
            final(self)@ == MsgView::empty(),
            final(self).capacity() == emptied_capacity(old(self).area().len() as int),
    {
        if self.storage.len() >= MSG_START_SIZE + TRAILER_SIZE && self.storage.len()
            <= MAX_MSG_CAPACITY {
            write_empty_header(&mut self.storage);
            self.len = MSG_START_SIZE;
            proof {
                lemma_empty_image();
            }
        } else {
            *self = Msg::new();
        }
    }

    /// Takes what was received into the buffer as the message, at the length
    /// its header states, if that is a message in full; else the buffer is
    /// emptied and the message reported as corrupted.
    pub fn accept_received(&mut self) -> (res: Result<(), MachError>)
        ensures
            final(self).wf(),
            old(self).area().len() >= MSG_START_SIZE && holds_message(
                old(self).area(),
                received_len(old(self).area()),
            ) ==> res == Ok::<(), MachError>(()) && final(self).area() == old(self).area()
                && final(self).len() == received_len(old(self).area()),
            !(old(self).area().len() >= MSG_START_SIZE && holds_message(
                old(self).area(),
                received_len(old(self).area()),
            )) ==> res == Err::<(), MachError>(MachError::CorruptedMessage) && final(self)@
                == MsgView::empty() && final(self).capacity() == emptied_capacity(
                old(self).area().len() as int,
            ),
    {
        if self.storage.len() < MSG_START_SIZE {
            self.clear();
            return Err(MachError::CorruptedMessage);
        }
        let size = read_u32(self.storage.as_slice(), SIZE_OFFSET) as usize;
        if image_ok(&self.storage, size) {
            self.len = size;
            Ok(())
        } else {
            self.clear();
            Err(MachError::CorruptedMessage)
        }
    }

    /// Makes the buffer a message again after a receive that failed, at the
    /// length and capacity it had, and hands out the size word that the
    /// kernel left, which after a message too large is the size to make room
    /// for. A buffer that the kernel did not touch is left as it was.
    pub fn restore(&mut self) -> (reported: u32)
        ensures
            final(self).wf(),
            reported == reported_size(old(self).area()),
            has_room(old(self).area(), old(self).len() as int) ==> final(self).len() == old(self).len() && final(self).capacity() == old(self).capacity() && final(self).area()
                == restored_area(old(self).area(), old(self).len() as int),
            holds_message(old(self).area(), old(self).len() as int) ==> final(self).area() == old(self).area(),
            !has_room(old(self).area(), old(self).len() as int) ==> final(self)@
                == MsgView::empty() && final(self).capacity() == emptied_capacity(
                old(self).area().len() as int,
            ),
    {
        let cap = self.storage.len();
        let len = self.len;
        let reported = if cap >= MSG_START_SIZE {
            read_u32(self.storage.as_slice(), SIZE_OFFSET)
        } else {
            0
        };
        if len < MSG_START_SIZE || len > cap || cap - len < TRAILER_SIZE || cap > MAX_MSG_CAPACITY {
            self.clear();
            return reported;
        }
        let ghost area = self.storage@;
        proof {
            if holds_message(area, len as int) {
                assert(le32(area, SIZE_OFFSET as int) == le32(
                    area.subrange(0, len as int),
                    SIZE_OFFSET as int,
                ));
                lemma_put32_same(area, SIZE_OFFSET as int);
            }
        }
        write_u32(&mut self.storage, SIZE_OFFSET, len as u32);
        let ghost sized = self.storage@;
        if !image_ok(&self.storage, len) {
            let bits = read_u32(self.storage.as_slice(), BITS_OFFSET);
            write_u32(&mut self.storage, COUNT_OFFSET, 0);
            let ghost counted = self.storage@;
            write_u32(&mut self.storage, BITS_OFFSET, bits & !MACH_MSGH_BITS_COMPLEX);
            proof {
                let cleared = bits & !MACH_MSGH_BITS_COMPLEX;
                lemma_put32(area, SIZE_OFFSET as int, len as u32);
                lemma_put32_prefix(counted, BITS_OFFSET as int, cleared, len as int);
                lemma_put32_prefix(sized, COUNT_OFFSET as int, 0, len as int);
                lemma_put32_prefix(area, SIZE_OFFSET as int, len as u32, len as int);
                let s0 = area.subrange(0, len as int);
                let s1 = put32(s0, SIZE_OFFSET as int, len as u32);
                let s2 = put32(s1, COUNT_OFFSET as int, 0);
                lemma_put32(s0, SIZE_OFFSET as int, len as u32);
                lemma_put32(s1, COUNT_OFFSET as int, 0);
                lemma_put32(s2, BITS_OFFSET as int, cleared);
                lemma_complex_cleared(bits);
                assert(self.bytes() == put32(s2, BITS_OFFSET as int, cleared));
                assert(image_count(self.bytes()) == 0);
            }
        }
        reported
    }

    /// Makes the buffer at least `needed` bytes long; the message stays.
    pub(crate) fn grow_to(&mut self, needed: usize)
        requires
            old(self).wf(),
            needed <= MAX_MSG_CAPACITY,
        ensures
            final(self).wf(),
            final(self).bytes() == old(self).bytes(),
            final(self).len() == old(self).len(),
            final(self).capacity() == if needed > old(self).capacity() {
                needed
            } else {
                old(self).capacity()
            },
    {
        if needed > self.storage.len() {
            let ghost before = self.storage@;
            self.storage.resize(needed, 0u8);
            assert(self.storage@.subrange(0, self.len as int) =~= before.subrange(
                0,
                self.len as int,
            )) by {
                assert(self.storage@.subrange(0, before.len() as int) == before);
                assert forall|j: int| 0 <= j < self.len implies self.storage@[j] == before[j] by {
                    assert(self.storage@.subrange(0, before.len() as int)[j] == before[j]);
                }
            }
        }
    }
}

} // verus!
