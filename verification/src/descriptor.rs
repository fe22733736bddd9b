//! The descriptors of a message, read one after another: each record says
//! by its kind tag how wide it is, so they can only be walked in order.

use vstd::prelude::*;
use crate::abi::{
    RawPort, MACH_MSG_OOL_DESCRIPTOR, MACH_MSG_OOL_PORTS_DESCRIPTOR,
    MACH_MSG_OOL_VOLATILE_DESCRIPTOR, MACH_MSG_PORT_DESCRIPTOR, MACH_PORT_DEAD, MACH_PORT_NULL,
    MSG_START_SIZE,
};
use crate::model::{descriptor_width, record_disposition, record_name, record_tag, record_with_name};
use crate::msg::{descriptor_width_of, Msg};
use crate::wire::{
    image_count, lemma_image_view, lemma_record_bytes, DISPOSITION_OFFSET, TAG_OFFSET,
};

verus! {

/// A port descriptor as it was read: where it lies in its message, the port
/// name it carried then, and the disposition.
#[derive(Clone, Copy, Debug, PartialEq, Eq, Structural)]
pub struct MsgPortDescriptor {
    index: usize,
    offset: usize,
    name: RawPort,
    disposition: u8,
}

/// A descriptor as it was read: where it lies in its message and of which
/// kind it is.
#[derive(Clone, Copy, Debug, PartialEq, Eq, Structural)]
pub struct MsgDescriptor {
    port: MsgPortDescriptor,
    type_tag: u8,
}

/// A descriptor by its kind.
pub enum MsgDescriptorKind<'a> {
    Port(&'a MsgPortDescriptor),
    Ool(&'a MsgDescriptor),
    OolPorts(&'a MsgDescriptor),
    OolVolatile(&'a MsgDescriptor),
}

/// A descriptor by its kind, for taking out what it carries.
pub enum MsgDescriptorKindMut<'a> {
    Port(&'a mut MsgPortDescriptor),
    Ool(&'a mut MsgDescriptor),
    OolPorts(&'a mut MsgDescriptor),
    OolVolatile(&'a mut MsgDescriptor),
}

impl MsgPortDescriptor {
    /// The place of the descriptor among those of its message.
    pub closed spec fn index(&self) -> nat {
        self.index as nat
    }

    /// Where the record starts, counted from the start of the message.
    pub closed spec fn offset(&self) -> int {
        self.offset as int
    }

    pub closed spec fn spec_name(&self) -> RawPort {
        self.name
    }

    pub closed spec fn spec_disposition(&self) -> u8 {
        self.disposition
    }

    /// Whether this is where `msg` has a port descriptor.
    pub open spec fn designates(&self, msg: &Msg) -> bool {
        &&& self.index() < msg@.descriptors.len()
        &&& self.offset() == msg.descriptor_offset(self.index())
        &&& record_tag(msg@.descriptors[self.index() as int]) == MACH_MSG_PORT_DESCRIPTOR
    }

    /// The port name the descriptor carried when it was read, or the null
    /// name once it has been taken.
    #[verifier::when_used_as_spec(spec_name)]
    pub fn name(&self) -> (name: RawPort)
        ensures
            name == self.name(),
    {
        self.name
    }

    /// How the right is handed over.
    #[verifier::when_used_as_spec(spec_disposition)]
    pub fn disposition(&self) -> (d: u8)
        ensures
            d == self.disposition(),
    {
        self.disposition
    }

    /// Whether this is where `msg` has a port descriptor: exactly then
    /// `take_raw_port` may be called with `msg`. The records before it are
    /// walked to find where it would start.
    pub fn belongs_to(&self, msg: &Msg) -> (ok: bool)
        requires
            msg.wf(),
        ensures
            ok == self.designates(msg),
    {
        proof {
            msg.lemma_wf();
            lemma_image_view(msg.bytes());
        }
        if self.index >= msg.descriptor_count() {
            return false;
        }
        let mut i: usize = 0;
        let mut offset: usize = MSG_START_SIZE;
        while i < self.index
            invariant
                msg.wf(),
                i <= self.index < msg@.descriptors.len(),
                msg@.descriptors.len() == image_count(msg.bytes()),
                offset == msg.descriptor_offset(i as nat),
            decreases self.index - i,
        {
            proof {
                msg.lemma_wf();
                lemma_record_bytes(
                    msg.bytes(),
                    i as nat,
                    image_count(msg.bytes()),
                    msg.bytes().len() as int,
                );
            }
            offset = offset + descriptor_width_of(msg.byte_at(offset + TAG_OFFSET));
            i = i + 1;
        }
        proof {
            msg.lemma_wf();
            lemma_record_bytes(
                msg.bytes(),
                self.index as nat,
                image_count(msg.bytes()),
                msg.bytes().len() as int,
            );
        }
        offset == self.offset && msg.byte_at(offset + TAG_OFFSET) == MACH_MSG_PORT_DESCRIPTOR
    }

    /// Takes the port name out of the descriptor in `msg`, leaving the null
    /// name there, so that no name is handed out twice. Nothing is taken
    /// where the descriptor in `msg` carries the null or the dead name.
    pub fn take_raw_port(&mut self, msg: &mut Msg) -> (taken: Option<RawPort>)
        requires
            old(msg).wf(),
            old(self).designates(old(msg)),
        ensures
            final(msg).wf(),
            final(msg).capacity() == old(msg).capacity(),
            final(msg).len() == old(msg).len(),
            final(self).designates(final(msg)),
            final(self).index() == old(self).index(),
            forall|k: nat|
                k <= old(msg)@.descriptors.len() ==> #[trigger] final(msg).descriptor_offset(k)
                    == old(msg).descriptor_offset(k),
            ({
                let i = old(self).index() as int;
                let name = record_name(old(msg)@.descriptors[i]);
                if name == MACH_PORT_NULL || name == MACH_PORT_DEAD {
                    &&& taken == None::<RawPort>
                    &&& final(msg)@ == old(msg)@
                    &&& final(self).name() == name
                } else {
                    &&& taken == Some(name)
                    &&& final(msg)@ == old(msg)@.clear_port(i)
                    &&& final(self).name() == MACH_PORT_NULL
                }
            }),
    {
        proof {
            msg.lemma_wf();
            lemma_image_view(msg.bytes());
            lemma_record_bytes(
                msg.bytes(),
                self.index as nat,
                image_count(msg.bytes()),
                msg.bytes().len() as int,
            );
        }
        let name = msg.word_at(self.offset);
        self.name = name;
        if name == MACH_PORT_NULL || name == MACH_PORT_DEAD {
            return None;
        }
        msg.clear_port_at(Ghost(self.index as nat), self.offset);
        self.name = MACH_PORT_NULL;
        proof {
            let rec = old(msg)@.descriptors[self.index as int];
            assert(record_tag(record_with_name(rec, MACH_PORT_NULL)) == record_tag(rec));
        }
        Some(name)
    }
}

impl MsgDescriptor {
    pub closed spec fn index(&self) -> nat {
        self.port.index as nat
    }

    pub closed spec fn offset(&self) -> int {
        self.port.offset as int
    }

    pub closed spec fn spec_type_tag(&self) -> u8 {
        self.type_tag
    }

    /// The descriptor seen as a port descriptor, which it is where its kind
    /// tag says so.
    pub closed spec fn port(&self) -> MsgPortDescriptor {
        self.port
    }

    /// The kind tag is of a known kind.
    pub closed spec fn wf(&self) -> bool {
        self.type_tag <= 3
    }

    /// Whether this is descriptor `index()` of `msg` as `msg` now has it.
    pub open spec fn reads(&self, msg: &Msg) -> bool {
        &&& self.wf()
        &&& self.index() < msg@.descriptors.len()
        &&& self.offset() == msg.descriptor_offset(self.index())
        &&& self.type_tag() == record_tag(msg@.descriptors[self.index() as int])
        &&& self.port().index() == self.index()
        &&& self.port().offset() == self.offset()
        &&& self.port().name() == record_name(msg@.descriptors[self.index() as int])
        &&& self.port().disposition() == record_disposition(msg@.descriptors[self.index() as int])
    }

    /// The kind tag of the record.
    #[verifier::when_used_as_spec(spec_type_tag)]
    pub fn type_tag(&self) -> (tag: u8)
        ensures
            tag == self.type_tag(),
    {
        self.type_tag
    }

    /// The descriptor by its kind.
    pub fn kind(&self) -> (kind: MsgDescriptorKind<'_>)
        requires
            self.wf(),
        ensures
            match kind {
                MsgDescriptorKind::Port(p) => self.type_tag() == MACH_MSG_PORT_DESCRIPTOR && *p
                    == self.port(),
                MsgDescriptorKind::Ool(d) => self.type_tag() == MACH_MSG_OOL_DESCRIPTOR && *d
                    == *self,
                MsgDescriptorKind::OolPorts(d) => self.type_tag() == MACH_MSG_OOL_PORTS_DESCRIPTOR
                    && *d == *self,
                MsgDescriptorKind::OolVolatile(d) => self.type_tag()
                    == MACH_MSG_OOL_VOLATILE_DESCRIPTOR && *d == *self,
            },
    {
        if self.type_tag == MACH_MSG_PORT_DESCRIPTOR {
            MsgDescriptorKind::Port(&self.port)
        } else if self.type_tag == MACH_MSG_OOL_DESCRIPTOR {
            MsgDescriptorKind::Ool(self)
        } else if self.type_tag == MACH_MSG_OOL_PORTS_DESCRIPTOR {
            MsgDescriptorKind::OolPorts(self)
        } else {
            MsgDescriptorKind::OolVolatile(self)
        }
    }

    /// The descriptor by its kind, for taking out what it carries.
    pub fn kind_mut(&mut self) -> (kind: MsgDescriptorKindMut<'_>)
        requires
            old(self).wf(),
        ensures
            match kind {
                MsgDescriptorKindMut::Port(p) => old(self).type_tag() == MACH_MSG_PORT_DESCRIPTOR
                    && *p == old(self).port() && final(self).port() == *final(p) && final(self).type_tag() == old(self).type_tag(),
                MsgDescriptorKindMut::Ool(d) => old(self).type_tag() == MACH_MSG_OOL_DESCRIPTOR
                    && *d == *old(self) && *final(self) == *final(d),
                MsgDescriptorKindMut::OolPorts(d) => old(self).type_tag()
                    == MACH_MSG_OOL_PORTS_DESCRIPTOR && *d == *old(self) && *final(self) == *final(d),
                MsgDescriptorKindMut::OolVolatile(d) => old(self).type_tag()
                    == MACH_MSG_OOL_VOLATILE_DESCRIPTOR && *d == *old(self) && *final(self)
                    == *final(d),
            },
    {
        if self.type_tag == MACH_MSG_PORT_DESCRIPTOR {
            MsgDescriptorKindMut::Port(&mut self.port)
        } else if self.type_tag == MACH_MSG_OOL_DESCRIPTOR {
            MsgDescriptorKindMut::Ool(self)
        } else if self.type_tag == MACH_MSG_OOL_PORTS_DESCRIPTOR {
            MsgDescriptorKindMut::OolPorts(self)
        } else {
            MsgDescriptorKindMut::OolVolatile(self)
        }
    }

    /// The bytes the record takes, which its kind decides.
    pub fn size(&self) -> (n: usize)
        requires
            self.wf(),
        ensures
            n == descriptor_width(self.type_tag()),
    {
        descriptor_width_of(self.type_tag)
    }
}

/// Reads descriptor `index` of `msg`, which starts at `offset`.
fn read_descriptor(msg: &Msg, index: usize, offset: usize) -> (d: MsgDescriptor)
    requires
        msg.wf(),
        index < msg@.descriptors.len(),
        offset == msg.descriptor_offset(index as nat),
    ensures
        d.reads(msg),
        d.index() == index,
        offset + descriptor_width(d.type_tag()) == msg.descriptor_offset((index + 1) as nat),
        offset + descriptor_width(d.type_tag()) <= msg.len(),
{
    proof {
        msg.lemma_wf();
        lemma_image_view(msg.bytes());
        lemma_record_bytes(
            msg.bytes(),
            index as nat,
            image_count(msg.bytes()),
            msg.bytes().len() as int,
        );
    }
    let name = msg.word_at(offset);
    let disposition = msg.byte_at(offset + DISPOSITION_OFFSET);
    let type_tag = msg.byte_at(offset + TAG_OFFSET);
    MsgDescriptor { port: MsgPortDescriptor { index, offset, name, disposition }, type_tag }
}

/// The descriptors of a message that is only read, from the next one on.
pub struct MsgDescriptorIter<'a> {
    msg: &'a Msg,
    offset: usize,
    rem_count: usize,
}

impl<'a> MsgDescriptorIter<'a> {
    /// The message whose descriptors these are.
    pub closed spec fn msg(&self) -> &'a Msg {
        self.msg
    }

    pub closed spec fn spec_len(&self) -> usize {
        self.rem_count
    }

    /// The message is well formed, and the iterator stands where the first
    /// of the descriptors still to come starts.
    pub closed spec fn wf(&self) -> bool {
        &&& self.msg.wf()
        &&& self.rem_count <= self.msg@.descriptors.len()
        &&& self.offset == self.msg.descriptor_offset(
            (self.msg@.descriptors.len() - self.rem_count) as nat,
        )
    }

    /// The records still to come, in order.
    pub open spec fn remaining(&self) -> Seq<Seq<u8>> {
        self.msg()@.descriptors.subrange(
            self.msg()@.descriptors.len() - self.len(),
            self.msg()@.descriptors.len() as int,
        )
    }

    /// The next descriptor, or none after the last.
    pub fn next(&mut self) -> (next: Option<MsgDescriptor>)
        requires
            old(self).wf(),
        ensures
            final(self).wf(),
            final(self).msg() == old(self).msg(),
            old(self).len() == 0 ==> next.is_none() && final(self).len() == 0,
            old(self).len() > 0 ==> final(self).remaining() == old(self).remaining().skip(1),
            old(self).len() > 0 ==> next.is_some() && final(self).len() == old(self).len() - 1
                && next.unwrap().reads(old(self).msg()) && next.unwrap().index() == old(self).msg()@.descriptors.len() - old(self).len(),
    {
        if self.rem_count == 0 {
            return None;
        }
        let index = self.msg.descriptor_count() - self.rem_count;
        let d = read_descriptor(self.msg, index, self.offset);
        self.offset = self.offset + d.size();
        self.rem_count = self.rem_count - 1;
        assert(self.remaining() =~= old(self).remaining().skip(1));
        Some(d)
    }

    /// How many descriptors are still to come.
    #[verifier::when_used_as_spec(spec_len)]
    pub fn len(&self) -> (n: usize)
        ensures
            n == self.len(),
    {
        self.rem_count
    }
}

/// The descriptors of a message whose ports are to be taken, from the next
/// one on. The iterator holds no borrow of the message, which is handed to
/// each step, so that a port can be taken between two steps.
pub struct MsgDescriptorIterMut {
    offset: usize,
    rem_count: usize,
}

impl MsgDescriptorIterMut {
    pub closed spec fn spec_len(&self) -> usize {
        self.rem_count
    }

    pub closed spec fn offset(&self) -> int {
        self.offset as int
    }

    /// The iterator stands where the first of the descriptors of `msg`
    /// still to come starts.
    pub open spec fn wf(&self, msg: &Msg) -> bool {
        &&& msg.wf()
        &&& self.len() <= msg@.descriptors.len()
        &&& self.offset() == msg.descriptor_offset((msg@.descriptors.len() - self.len()) as nat)
    }

    /// The next descriptor of `msg`, or none after the last.
    pub fn next(&mut self, msg: &Msg) -> (next: Option<MsgDescriptor>)
        requires
            old(self).wf(msg),
        ensures
            final(self).wf(msg),
            old(self).len() == 0 ==> next.is_none() && final(self).len() == 0,
            old(self).len() > 0 ==> next.is_some() && final(self).len() == old(self).len() - 1
                && next.unwrap().reads(msg) && next.unwrap().index() == msg@.descriptors.len()
                - old(self).len(),
    {
        if self.rem_count == 0 {
            return None;
        }
        let index = msg.descriptor_count() - self.rem_count;
        let d = read_descriptor(msg, index, self.offset);
        self.offset = self.offset + d.size();
        self.rem_count = self.rem_count - 1;
        Some(d)
    }

    /// How many descriptors are still to come.
    #[verifier::when_used_as_spec(spec_len)]
    pub fn len(&self) -> (n: usize)
        ensures
            n == self.len(),
    {
        self.rem_count
    }
}

impl Msg {
    /// The descriptors, first to last.
    pub fn descriptors(&self) -> (iter: MsgDescriptorIter<'_>)
        requires
            self.wf(),
        ensures
            iter.wf(),
            *iter.msg() == *self,
            iter.len() == self@.descriptors.len(),
            iter.remaining() == self@.descriptors,
    {
        let rem_count = self.descriptor_count();
        let iter = MsgDescriptorIter { msg: self, offset: MSG_START_SIZE, rem_count };
        assert(iter.remaining() =~= self@.descriptors);
        iter
    }

    /// The descriptors, first to last, for taking out what they carry.
    pub fn descriptors_mut(&mut self) -> (iter: MsgDescriptorIterMut)
        requires
            old(self).wf(),
        ensures
            *final(self) == *old(self),
            iter.wf(final(self)),
            iter.len() == old(self)@.descriptors.len(),
    {
        let rem_count = self.descriptor_count();
        MsgDescriptorIterMut { offset: MSG_START_SIZE, rem_count }
    }
}

} // verus!
