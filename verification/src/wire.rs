//! The bytes of a message: where each word of the header lies, how the
//! descriptor records follow one another, and what the bytes mean.

use vstd::prelude::*;
use crate::abi::{
    RawPort, MACH_MSGH_BITS_COMPLEX, MACH_MSG_TYPE_COPY_SEND, MACH_PORT_NULL, MAX_MSG_CAPACITY,
    MSG_START_SIZE, TRAILER_SIZE,
};
use crate::model::{
    descriptor_width, is_complex, is_record, le32, le32_bytes, lemma_complex_set,
    lemma_empty_bits_plain, record_with_name, records_len, MsgView,
};

verus! {

pub const BITS_OFFSET: usize = 0;

pub const SIZE_OFFSET: usize = 4;

pub const REMOTE_PORT_OFFSET: usize = 8;

pub const LOCAL_PORT_OFFSET: usize = 12;

pub const VOUCHER_PORT_OFFSET: usize = 16;

pub const ID_OFFSET: usize = 20;

pub const COUNT_OFFSET: usize = 24;

/// Where, within a descriptor record, its kind tag lies.
pub const TAG_OFFSET: usize = 11;

/// Where, within a port descriptor record, its disposition lies.
pub const DISPOSITION_OFFSET: usize = 10;

/// `s` with the word `x` stored in the four bytes that start at `off`.
#[verifier::opaque]
pub open spec fn put32(s: Seq<u8>, off: int, x: u32) -> Seq<u8> {
    s.update(off, le32_bytes(x)[0]).update(off + 1, le32_bytes(x)[1]).update(
        off + 2,
        le32_bytes(x)[2],
    ).update(off + 3, le32_bytes(x)[3])
}

/// A stored word reads back, and storing it touches no other byte.
pub proof fn lemma_put32(s: Seq<u8>, off: int, x: u32)
    requires
        0 <= off,
        off + 4 <= s.len(),
    ensures
        put32(s, off, x).len() == s.len(),
        le32(put32(s, off, x), off) == x,
        put32(s, off, x).subrange(off, off + 4) == le32_bytes(x),
        forall|j: int|
            0 <= j < s.len() && !(off <= j < off + 4) ==> #[trigger] put32(s, off, x)[j] == s[j],
        forall|o: int|
            0 <= o && o + 4 <= s.len() && (o + 4 <= off || off + 4 <= o) ==> #[trigger] le32(
                put32(s, off, x),
                o,
            ) == le32(s, o),
{
    reveal(put32);
    assert(put32(s, off, x).subrange(off, off + 4) =~= le32_bytes(x));
}

/// Storing the word that is there changes nothing.
pub proof fn lemma_put32_same(s: Seq<u8>, off: int)
    requires
        0 <= off,
        off + 4 <= s.len(),
    ensures
        put32(s, off, le32(s, off)) == s,
{
    let x = le32(s, off);
    lemma_le32_parts(s[off], s[off + 1], s[off + 2], s[off + 3]);
    assert(le32_bytes(x)[0] == s[off]);
    assert(le32_bytes(x)[1] == s[off + 1]);
    assert(le32_bytes(x)[2] == s[off + 2]);
    assert(le32_bytes(x)[3] == s[off + 3]);
    assert(put32(s, off, x) =~= s) by {
        reveal(put32);
    }
}

/// Four bytes are the four parts of the word they hold.
pub proof fn lemma_le32_parts(b0: u8, b1: u8, b2: u8, b3: u8)
    ensures
        ({
            let x = b0 as int + 0x100 * (b1 as int) + 0x1_0000 * (b2 as int) + 0x100_0000 * (
            b3 as int);
            &&& 0 <= x <= 0xFFFF_FFFF
            &&& x % 0x100 == b0
            &&& (x / 0x100) % 0x100 == b1
            &&& (x / 0x1_0000) % 0x100 == b2
            &&& x / 0x100_0000 == b3
        }),
{
    let high = b3 as int;
    let upper = b2 as int + 0x100 * high;
    let most = b1 as int + 0x100 * upper;
    let x = b0 as int + 0x100 * most;
    assert(x / 0x100 == most && x % 0x100 == b0);
    assert(most / 0x100 == upper && most % 0x100 == b1);
    assert(upper / 0x100 == high && upper % 0x100 == b2);
    assert(x / 0x1_0000 == upper);
    assert(x / 0x100_0000 == high);
}

/// Storing a word within the first `k` bytes and then keeping the first `k`
/// is keeping them and then storing the word.
pub proof fn lemma_put32_prefix(s: Seq<u8>, off: int, x: u32, k: int)
    requires
        0 <= off,
        off + 4 <= k <= s.len(),
    ensures
        put32(s, off, x).subrange(0, k) == put32(s.subrange(0, k), off, x),
        put32(s, off, x).subrange(k, s.len() as int) == s.subrange(k, s.len() as int),
{
    reveal(put32);
    assert(put32(s, off, x).subrange(0, k) =~= put32(s.subrange(0, k), off, x));
    assert(put32(s, off, x).subrange(k, s.len() as int) =~= s.subrange(k, s.len() as int));
}

/// Reads the word that the four bytes at `off` hold.
pub fn read_u32(bytes: &[u8], off: usize) -> (x: u32)
    requires
        off + 4 <= bytes@.len(),
    ensures
        x == le32(bytes@, off as int),
{
    let b0: u32 = bytes[off] as u32;
    let b1: u32 = bytes[off + 1] as u32;
    let b2: u32 = bytes[off + 2] as u32;
    let b3: u32 = bytes[off + 3] as u32;
    b0 + 0x100 * b1 + 0x1_0000 * b2 + 0x100_0000 * b3
}

/// Stores the word `x` in the four bytes at `off`.
pub fn write_u32(bytes: &mut Vec<u8>, off: usize, x: u32)
    requires
        off + 4 <= old(bytes)@.len(),
    ensures
        final(bytes)@ == put32(old(bytes)@, off as int, x),
        final(bytes)@.len() == old(bytes)@.len(),
{
    proof {
        reveal(put32);
    }
    assert(bytes.len() == bytes@.len());
    bytes[off] = (x % 0x100) as u8;
    bytes[off + 1] = ((x / 0x100) % 0x100) as u8;
    bytes[off + 2] = ((x / 0x1_0000) % 0x100) as u8;
    bytes[off + 3] = (x / 0x100_0000) as u8;
}

/// Where the bytes of `s` have descriptor `n` start, counted from the start
/// of the message: right after the first `n` records, each as wide as its own
/// kind tag says.
pub open spec fn chain_end(s: Seq<u8>, n: nat) -> int
    decreases n,
{
    if n == 0 {
        MSG_START_SIZE as int
    } else {
        let p = chain_end(s, (n - 1) as nat);
        p + descriptor_width(s[p + TAG_OFFSET])
    }
}

/// Whether the first `n` records of `s` are whole: each has a kind tag of a
/// known kind and ends at or before `limit`.
pub open spec fn chain_ok(s: Seq<u8>, n: nat, limit: int) -> bool
    decreases n,
{
    if n == 0 {
        MSG_START_SIZE <= limit
    } else {
        let p = chain_end(s, (n - 1) as nat);
        &&& chain_ok(s, (n - 1) as nat, limit)
        &&& p + 12 <= limit
        &&& s[p + TAG_OFFSET] <= 3
        &&& p + descriptor_width(s[p + TAG_OFFSET]) <= limit
    }
}

/// The bytes of descriptor `i` of `s`.
pub open spec fn record_at(s: Seq<u8>, i: nat) -> Seq<u8> {
    s.subrange(chain_end(s, i), chain_end(s, i + 1))
}

/// The first `n` descriptor records of `s`, in order.
pub open spec fn records(s: Seq<u8>, n: nat) -> Seq<Seq<u8>> {
    Seq::new(n, |i: int| record_at(s, i as nat))
}

/// The descriptor count that the bytes of `s` state.
pub open spec fn image_count(s: Seq<u8>) -> nat {
    le32(s, COUNT_OFFSET as int) as nat
}

/// Whether `s` is a message in full: it is as long as its size word says,
/// its descriptor records are whole and lie within it, and its flag word
/// says whether there are any.
pub open spec fn image_wf(s: Seq<u8>) -> bool {
    &&& MSG_START_SIZE <= s.len()
    &&& s.len() + TRAILER_SIZE <= MAX_MSG_CAPACITY
    &&& le32(s, SIZE_OFFSET as int) == s.len()
    &&& chain_ok(s, image_count(s), s.len() as int)
    &&& is_complex(le32(s, BITS_OFFSET as int)) <==> image_count(s) > 0
}

/// What the bytes of `s` mean.
pub open spec fn image_view(s: Seq<u8>) -> MsgView {
    MsgView {
        bits: le32(s, BITS_OFFSET as int),
        remote_port: le32(s, REMOTE_PORT_OFFSET as int),
        local_port: le32(s, LOCAL_PORT_OFFSET as int),
        voucher_port: le32(s, VOUCHER_PORT_OFFSET as int),
        id: le32(s, ID_OFFSET as int),
        descriptors: records(s, image_count(s)),
        inline_data: s.subrange(chain_end(s, image_count(s)), s.len() as int),
    }
}

/// Whole records follow one another without gap, each at least twelve bytes
/// wide, from the end of the header to `limit` at most.
pub proof fn lemma_chain_bounds(s: Seq<u8>, k: nat, n: nat, limit: int)
    requires
        chain_ok(s, n, limit),
        k <= n,
    ensures
        chain_ok(s, k, limit),
        MSG_START_SIZE <= chain_end(s, k),
        chain_end(s, k) + 12 * (n - k) <= chain_end(s, n),
        chain_end(s, n) <= chain_end(s, k) + 16 * (n - k),
        chain_end(s, n) <= limit,
    decreases n,
{
    if n > 0 {
        if k < n {
            lemma_chain_bounds(s, k, (n - 1) as nat, limit);
        } else {
            lemma_chain_bounds(s, (n - 1) as nat, (n - 1) as nat, limit);
        }
    }
}

/// Where the records lie depends on their kind tags alone.
pub proof fn lemma_chain_same_tags(s1: Seq<u8>, s2: Seq<u8>, n: nat, limit: int)
    requires
        chain_ok(s1, n, limit),
        forall|k: nat| k < n ==> s2[#[trigger] chain_end(s1, k) + TAG_OFFSET] == s1[chain_end(s1, k) + TAG_OFFSET],
    ensures
        chain_ok(s2, n, limit),
        forall|k: nat| k <= n ==> #[trigger] chain_end(s2, k) == chain_end(s1, k),
    decreases n,
{
    if n > 0 {
        let m = (n - 1) as nat;
        lemma_chain_same_tags(s1, s2, m, limit);
        assert(chain_end(s2, m) == chain_end(s1, m));
        assert(s2[chain_end(s1, m) + TAG_OFFSET] == s1[chain_end(s1, m) + TAG_OFFSET]);
        assert forall|k: nat| k <= n implies #[trigger] chain_end(s2, k) == chain_end(s1, k) by {
            if k < n {
                assert(k <= m);
            }
        }
    }
}

/// Bytes that agree from the end of the header to the end of the last record
/// hold the same records.
pub proof fn lemma_records_frame(s1: Seq<u8>, s2: Seq<u8>, n: nat, limit1: int, limit2: int)
    requires
        chain_ok(s1, n, limit1),
        limit1 <= s1.len(),
        chain_end(s1, n) <= limit2 <= s2.len(),
        forall|j: int| MSG_START_SIZE <= j < chain_end(s1, n) ==> s1[j] == s2[j],
    ensures
        chain_ok(s2, n, limit2),
        forall|k: nat| k <= n ==> #[trigger] chain_end(s2, k) == chain_end(s1, k),
        records(s2, n) == records(s1, n),
{
    assert forall|k: nat| k < n implies s2[#[trigger] chain_end(s1, k) + TAG_OFFSET] == s1[chain_end(
        s1,
        k,
    ) + TAG_OFFSET] by {
        lemma_chain_bounds(s1, k, n, limit1);
    }
    lemma_chain_bounds(s1, n, n, limit1);
    lemma_chain_same_tags(s1, s2, n, limit1);
    lemma_chain_limit(s2, n, limit1, limit2);
    assert forall|i: int| 0 <= i < n implies records(s2, n)[i] == records(s1, n)[i] by {
        lemma_chain_bounds(s1, i as nat, n, limit1);
        lemma_chain_bounds(s1, (i + 1) as nat, n, limit1);
        assert(chain_end(s2, i as nat) == chain_end(s1, i as nat));
        assert(chain_end(s2, (i + 1) as nat) == chain_end(s1, (i + 1) as nat));
        assert(record_at(s2, i as nat) =~= record_at(s1, i as nat));
    }
    assert(records(s2, n) =~= records(s1, n));
}

/// Records that are whole within one limit are whole within any limit that
/// they end before.
pub proof fn lemma_chain_limit(s: Seq<u8>, n: nat, limit1: int, limit2: int)
    requires
        chain_ok(s, n, limit1),
        chain_end(s, n) <= limit2,
    ensures
        chain_ok(s, n, limit2),
    decreases n,
{
    if n > 0 {
        lemma_chain_bounds(s, (n - 1) as nat, n, limit1);
        lemma_chain_limit(s, (n - 1) as nat, limit1, limit2);
    } else {
    }
}

/// The records of a message are whole, and together they take the bytes from
/// the end of the header to where the last of them ends.
pub proof fn lemma_records_whole(s: Seq<u8>, n: nat, limit: int)
    requires
        chain_ok(s, n, limit),
        limit <= s.len(),
    ensures
        records(s, n).len() == n,
        forall|i: int| 0 <= i < n ==> is_record(#[trigger] records(s, n)[i]),
        records_len(records(s, n)) == chain_end(s, n) - MSG_START_SIZE,
    decreases n,
{
    if n > 0 {
        let m = (n - 1) as nat;
        lemma_records_whole(s, m, limit);
        lemma_chain_bounds(s, m, n, limit);
        assert(records(s, n).drop_last() =~= records(s, m));
        assert(records(s, n).last() == record_at(s, m));
        assert forall|i: int| 0 <= i < n implies is_record(#[trigger] records(s, n)[i]) by {
            if i < m {
                assert(records(s, n)[i] == records(s, m)[i]);
            } else {
                assert(record_at(s, m)[TAG_OFFSET as int] == s[chain_end(s, m) + TAG_OFFSET]);
            }
        }
    }
}

/// A record holds the bytes of the message from where it starts.
pub proof fn lemma_record_bytes(s: Seq<u8>, i: nat, n: nat, limit: int)
    requires
        chain_ok(s, n, limit),
        limit <= s.len(),
        i < n,
    ensures
        MSG_START_SIZE <= chain_end(s, i),
        chain_end(s, i) + record_at(s, i).len() <= limit,
        record_at(s, i).len() == descriptor_width(s[chain_end(s, i) + TAG_OFFSET]),
        record_at(s, i).len() >= 12,
        s[chain_end(s, i) + TAG_OFFSET] <= 3,
        forall|k: int| 0 <= k < record_at(s, i).len() ==> #[trigger] record_at(s, i)[k] == s[chain_end(s, i) + k],
        le32(record_at(s, i), 0) == le32(s, chain_end(s, i)),
{
    lemma_chain_bounds(s, i, n, limit);
    lemma_chain_bounds(s, i + 1, n, limit);
    lemma_chain_bounds(s, i, i + 1, limit);
}

/// A message in full means a well-formed message of the size it has.
pub proof fn lemma_image_view(s: Seq<u8>)
    requires
        image_wf(s),
    ensures
        image_view(s).wf(),
        image_view(s).size() == s.len(),
        image_view(s).descriptors.len() == image_count(s),
        records_len(image_view(s).descriptors) == chain_end(s, image_count(s)) - MSG_START_SIZE,
        MSG_START_SIZE <= chain_end(s, image_count(s)) <= s.len(),
{
    lemma_records_whole(s, image_count(s), s.len() as int);
    lemma_chain_bounds(s, image_count(s), image_count(s), s.len() as int);
}

/// The bytes of the message that a fresh or reset buffer holds.
pub open spec fn empty_image() -> Seq<u8> {
    put32(
        put32(Seq::new(MSG_START_SIZE as nat, |i: int| 0u8), BITS_OFFSET as int, MACH_MSG_TYPE_COPY_SEND),
        SIZE_OFFSET as int,
        MSG_START_SIZE as u32,
    )
}

/// The bytes of `s` with `data` added after the payload.
pub open spec fn image_extend(s: Seq<u8>, data: Seq<u8>) -> Seq<u8> {
    put32(s + data, SIZE_OFFSET as int, (s.len() + data.len()) as u32)
}

/// `s` with its flag word, size word and descriptor count replaced.
pub open spec fn set_header(s: Seq<u8>, bits: u32, size: u32, count: u32) -> Seq<u8> {
    put32(
        put32(put32(s, SIZE_OFFSET as int, size), COUNT_OFFSET as int, count),
        BITS_OFFSET as int,
        bits,
    )
}

/// `s` with `record` put in at `at`, what followed moved up.
#[verifier::opaque]
pub open spec fn splice(s: Seq<u8>, at: int, record: Seq<u8>) -> Seq<u8> {
    s.subrange(0, at) + record + s.subrange(at, s.len() as int)
}

/// The bytes of `s` with `record` put in after the last descriptor, before
/// the payload.
pub open spec fn image_insert(s: Seq<u8>, record: Seq<u8>) -> Seq<u8> {
    let n = image_count(s);
    let e = chain_end(s, n);
    set_header(
        splice(s, e, record),
        le32(s, BITS_OFFSET as int) | MACH_MSGH_BITS_COMPLEX,
        (s.len() + record.len()) as u32,
        (n + 1) as u32,
    )
}

/// The bytes of `s` with the null name in place of the port name of
/// descriptor `i`.
pub open spec fn image_clear_port(s: Seq<u8>, i: nat) -> Seq<u8> {
    put32(s, chain_end(s, i), MACH_PORT_NULL)
}

pub proof fn lemma_empty_image()
    ensures
        empty_image().len() == MSG_START_SIZE,
        image_wf(empty_image()),
        image_view(empty_image()) == MsgView::empty(),
{
    let z = Seq::new(MSG_START_SIZE as nat, |i: int| 0u8);
    let s1 = put32(z, BITS_OFFSET as int, MACH_MSG_TYPE_COPY_SEND);
    let s = empty_image();
    lemma_put32(z, BITS_OFFSET as int, MACH_MSG_TYPE_COPY_SEND);
    lemma_put32(s1, SIZE_OFFSET as int, MSG_START_SIZE as u32);
    assert(le32(s, BITS_OFFSET as int) == MACH_MSG_TYPE_COPY_SEND);
    lemma_empty_bits_plain();
    assert(image_count(s) == 0);
    assert(image_view(s).descriptors =~= Seq::<Seq<u8>>::empty());
    assert(image_view(s).inline_data =~= Seq::<u8>::empty());
}

pub proof fn lemma_image_extend(s: Seq<u8>, data: Seq<u8>)
    requires
        image_wf(s),
        s.len() + data.len() + TRAILER_SIZE <= MAX_MSG_CAPACITY,
    ensures
        image_extend(s, data).len() == s.len() + data.len(),
        image_wf(image_extend(s, data)),
        image_view(image_extend(s, data)) == image_view(s).extend_inline(data),
{
    let t = image_extend(s, data);
    let n = image_count(s);
    lemma_put32(s + data, SIZE_OFFSET as int, (s.len() + data.len()) as u32);
    lemma_chain_bounds(s, n, n, s.len() as int);
    assert(image_count(t) == n);
    lemma_records_frame(s, t, n, s.len() as int, t.len() as int);
    assert(le32(t, BITS_OFFSET as int) == le32(s, BITS_OFFSET as int));
    assert(image_view(t).inline_data =~= image_view(s).inline_data + data);
}

pub proof fn lemma_set_header(s: Seq<u8>, bits: u32, size: u32, count: u32)
    requires
        MSG_START_SIZE <= s.len(),
    ensures
        set_header(s, bits, size, count).len() == s.len(),
        le32(set_header(s, bits, size, count), BITS_OFFSET as int) == bits,
        le32(set_header(s, bits, size, count), SIZE_OFFSET as int) == size,
        le32(set_header(s, bits, size, count), COUNT_OFFSET as int) == count,
        le32(set_header(s, bits, size, count), REMOTE_PORT_OFFSET as int) == le32(
            s,
            REMOTE_PORT_OFFSET as int,
        ),
        le32(set_header(s, bits, size, count), LOCAL_PORT_OFFSET as int) == le32(
            s,
            LOCAL_PORT_OFFSET as int,
        ),
        le32(set_header(s, bits, size, count), VOUCHER_PORT_OFFSET as int) == le32(
            s,
            VOUCHER_PORT_OFFSET as int,
        ),
        le32(set_header(s, bits, size, count), ID_OFFSET as int) == le32(s, ID_OFFSET as int),
        forall|j: int|
            MSG_START_SIZE <= j < s.len() ==> #[trigger] set_header(s, bits, size, count)[j] == s[j],
{
    let t1 = put32(s, SIZE_OFFSET as int, size);
    let t2 = put32(t1, COUNT_OFFSET as int, count);
    lemma_put32(s, SIZE_OFFSET as int, size);
    lemma_put32(t1, COUNT_OFFSET as int, count);
    lemma_put32(t2, BITS_OFFSET as int, bits);
}

/// Byte by byte, what putting a record in and setting the header gives.
pub proof fn lemma_insert_bytes(
    s: Seq<u8>,
    at: int,
    record: Seq<u8>,
    bits: u32,
    size: u32,
    count: u32,
)
    requires
        MSG_START_SIZE <= at <= s.len(),
    ensures
        ({
            let t = set_header(splice(s, at, record), bits, size, count);
            &&& t.len() == s.len() + record.len()
            &&& le32(t, BITS_OFFSET as int) == bits
            &&& le32(t, SIZE_OFFSET as int) == size
            &&& le32(t, COUNT_OFFSET as int) == count
            &&& le32(t, REMOTE_PORT_OFFSET as int) == le32(s, REMOTE_PORT_OFFSET as int)
            &&& le32(t, LOCAL_PORT_OFFSET as int) == le32(s, LOCAL_PORT_OFFSET as int)
            &&& le32(t, VOUCHER_PORT_OFFSET as int) == le32(s, VOUCHER_PORT_OFFSET as int)
            &&& le32(t, ID_OFFSET as int) == le32(s, ID_OFFSET as int)
            &&& forall|j: int| MSG_START_SIZE <= j < at ==> #[trigger] t[j] == s[j]
            &&& forall|j: int| at <= j < at + record.len() ==> #[trigger] t[j] == record[j - at]
            &&& forall|j: int|
                at + record.len() <= j < t.len() ==> #[trigger] t[j] == s[j - record.len()]
        }),
{
    reveal(splice);
    let spliced = splice(s, at, record);
    lemma_set_header(spliced, bits, size, count);
    assert forall|j: int| 0 <= j < at implies #[trigger] spliced[j] == s[j] by {}
}

pub proof fn lemma_image_insert(s: Seq<u8>, record: Seq<u8>)
    requires
        image_wf(s),
        is_record(record),
        s.len() + record.len() + TRAILER_SIZE <= MAX_MSG_CAPACITY,
    ensures
        image_insert(s, record).len() == s.len() + record.len(),
        image_wf(image_insert(s, record)),
        image_view(image_insert(s, record)) == image_view(s).append_descriptor(record),
        chain_end(image_insert(s, record), image_count(s)) == chain_end(s, image_count(s)),
{
    let n = image_count(s);
    let e = chain_end(s, n);
    let bits = le32(s, BITS_OFFSET as int) | MACH_MSGH_BITS_COMPLEX;
    let t = image_insert(s, record);
    lemma_chain_bounds(s, 0, n, s.len() as int);
    lemma_insert_bytes(s, e, record, bits, (s.len() + record.len()) as u32, (n + 1) as u32);
    lemma_complex_set(le32(s, BITS_OFFSET as int));
    assert(image_count(t) == n + 1);
    lemma_records_frame(s, t, n, s.len() as int, t.len() as int);
    assert(chain_end(t, n) == e);
    assert(chain_end(t, n + 1) == e + record.len()) by {
        assert(t[e + TAG_OFFSET] == record[TAG_OFFSET as int]);
    }
    assert(chain_ok(t, n + 1, t.len() as int)) by {
        assert(t[e + TAG_OFFSET] == record[TAG_OFFSET as int]);
    }
    assert(record_at(t, n) =~= record);
    assert(records(t, n + 1) =~= records(s, n).push(record)) by {
        assert forall|i: int| 0 <= i < n + 1 implies records(t, n + 1)[i] == records(s, n).push(
            record,
        )[i] by {
            if i < n {
                assert(records(t, n + 1)[i] == records(t, n)[i]);
            }
        }
    }
    assert(image_view(t).inline_data =~= image_view(s).inline_data);
}

/// Other payload bytes of the same number leave the message what it was but
/// for its payload.
pub proof fn lemma_image_set_inline(s: Seq<u8>, t: Seq<u8>)
    requires
        image_wf(s),
        t.len() == s.len(),
        forall|j: int| 0 <= j < chain_end(s, image_count(s)) ==> s[j] == t[j],
    ensures
        image_wf(t),
        image_view(t) == (MsgView {
            inline_data: t.subrange(chain_end(s, image_count(s)), t.len() as int),
            ..image_view(s)
        }),
{
    let n = image_count(s);
    lemma_chain_bounds(s, n, n, s.len() as int);
    assert(image_count(t) == n);
    lemma_records_frame(s, t, n, s.len() as int, t.len() as int);
}

/// Storing a remote port name changes that name and nothing else.
pub proof fn lemma_image_set_remote_port(s: Seq<u8>, port: RawPort)
    requires
        image_wf(s),
    ensures
        image_wf(put32(s, REMOTE_PORT_OFFSET as int, port)),
        image_view(put32(s, REMOTE_PORT_OFFSET as int, port)) == image_view(s).with_remote_port(
            port,
        ),
        forall|k: nat| k <= image_count(s) ==> #[trigger] chain_end(put32(s, REMOTE_PORT_OFFSET as int, port), k)
            == chain_end(s, k),
{
    let t = put32(s, REMOTE_PORT_OFFSET as int, port);
    let n = image_count(s);
    lemma_put32(s, REMOTE_PORT_OFFSET as int, port);
    lemma_chain_bounds(s, n, n, s.len() as int);
    lemma_records_frame(s, t, n, s.len() as int, t.len() as int);
    assert(image_view(t).inline_data =~= image_view(s).inline_data);
}

/// Clearing the port name of one descriptor changes that name and nothing
/// else, and moves no record.
pub proof fn lemma_image_clear_port(s: Seq<u8>, i: nat)
    requires
        image_wf(s),
        i < image_count(s),
    ensures
        image_clear_port(s, i).len() == s.len(),
        image_wf(image_clear_port(s, i)),
        image_view(image_clear_port(s, i)) == image_view(s).clear_port(i as int),
        forall|k: nat| k <= image_count(s) ==> #[trigger] chain_end(image_clear_port(s, i), k)
            == chain_end(s, k),
{
    let t = image_clear_port(s, i);
    let n = image_count(s);
    let p = chain_end(s, i);
    lemma_chain_bounds(s, i, n, s.len() as int);
    lemma_chain_bounds(s, i + 1, n, s.len() as int);
    lemma_chain_bounds(s, i, i + 1, s.len() as int);
    lemma_put32(s, p, MACH_PORT_NULL);
    assert forall|k: nat| k < n implies t[#[trigger] chain_end(s, k) + TAG_OFFSET] == s[chain_end(s, k)
        + TAG_OFFSET] by {
        lemma_chain_bounds(s, k, n, s.len() as int);
        if k < i {
            lemma_chain_bounds(s, k + 1, i, s.len() as int);
            lemma_chain_bounds(s, k, k + 1, s.len() as int);
        } else if k > i {
            lemma_chain_bounds(s, i + 1, k, s.len() as int);
        }
    }
    lemma_chain_same_tags(s, t, n, s.len() as int);
    assert(image_count(t) == n);
    assert forall|j: int| 0 <= j < n implies records(t, n)[j] == image_view(s).clear_port(
        i as int,
    ).descriptors[j] by {
        lemma_chain_bounds(s, j as nat, n, s.len() as int);
        lemma_chain_bounds(s, (j + 1) as nat, n, s.len() as int);
        lemma_chain_bounds(s, j as nat, (j + 1) as nat, s.len() as int);
        assert(chain_end(t, j as nat) == chain_end(s, j as nat));
        assert(chain_end(t, (j + 1) as nat) == chain_end(s, (j + 1) as nat));
        if j == i {
            assert(record_at(t, i) =~= record_with_name(record_at(s, i), MACH_PORT_NULL));
        } else {
            if j < i {
                lemma_chain_bounds(s, (j + 1) as nat, i, s.len() as int);
            } else {
                lemma_chain_bounds(s, i + 1, j as nat, s.len() as int);
            }
            assert(record_at(t, j as nat) =~= record_at(s, j as nat));
        }
    }
    assert(records(t, n) =~= image_view(s).clear_port(i as int).descriptors);
    assert(image_view(t).inline_data =~= image_view(s).inline_data);
}

} // verus!
