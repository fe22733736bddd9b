use std::time::Duration;

use mach_port::abi::{
    KERN_SUCCESS, MACH_MSG_TYPE_PORT_SEND, MACH_PORT_DEAD, MACH_PORT_NULL, MACH_PORT_TYPE_RECEIVE,
    MACH_RCV_TIMED_OUT,
};
use mach_port::{
    MachError, Msg, MsgBuffer, MsgDescriptorKind, MsgDescriptorKindMut, Port, PortCopyMode,
    PortMoveMode, RecvFailure,
};

/// Stands in for the kernel: what was sent arrives in the receiver's buffer,
/// followed by a trailer.
fn deliver(wire: &[u8], to: &mut Msg) {
    let area = to.receive_area();
    assert!(wire.len() + 8 <= area.len());
    area[..wire.len()].copy_from_slice(wire);
    area[wire.len()..wire.len() + 8].copy_from_slice(&[0, 0, 0, 0, 8, 0, 0, 0]);
}

#[test]
fn self_loop() {
    let p = Port::new(KERN_SUCCESS, 0x1203).unwrap();
    let s = p.make_sender(KERN_SUCCESS, 0x1203, MACH_MSG_TYPE_PORT_SEND).unwrap();

    let mut out = MsgBuffer::new();
    out.extend_inline_data(&[1, 2, 3, 4]);
    let call = s.begin_send(out.as_msg_mut(), None);
    assert_eq!(call.options, 1);
    assert_eq!(call.send_size, 32);
    assert_eq!(call.timeout, 0);
    let mut wire = out.as_msg().as_bytes().to_vec();
    assert_eq!(wire.len(), 32);
    assert_eq!(&wire[8..12], &[0x03, 0x12, 0, 0]);
    assert_eq!(s.finish_send(out.as_msg_mut(), KERN_SUCCESS), Ok(()));
    assert_eq!(out.as_msg().len(), 28);

    // The receiver sees its own name as the local port.
    wire[8..12].copy_from_slice(&[0, 0, 0, 0]);
    wire[12..16].copy_from_slice(&[0x03, 0x12, 0, 0]);

    let mut inbox = MsgBuffer::new();
    inbox.reserve_inline_data(64);
    let call = p.begin_recv(inbox.as_msg(), None);
    assert_eq!(call.options, 6);
    assert_eq!(call.rcv_name, 0x1203);
    assert_eq!(call.rcv_size as usize, inbox.as_msg().capacity());
    deliver(&wire, inbox.as_msg_mut());
    assert_eq!(p.finish_recv(inbox.as_msg_mut(), KERN_SUCCESS), Ok(()));
    let msg = inbox.as_msg();
    assert_eq!(msg.inline_data(), &[1, 2, 3, 4]);
    assert_eq!(msg.descriptor_count(), 0);
    assert_eq!(msg.len(), 32);
    assert_eq!(msg.header().local_port, 0x1203);
}

#[test]
fn right_transfer() {
    let a = Port::new(KERN_SUCCESS, 0xA03).unwrap();
    let b = Port::new(KERN_SUCCESS, 0xB03).unwrap();
    let sa = a.make_sender(KERN_SUCCESS, 0xA03, MACH_MSG_TYPE_PORT_SEND).unwrap();

    let mut out = MsgBuffer::new();
    out.move_right(PortMoveMode::Receive, b);
    sa.begin_send(out.as_msg_mut(), None);
    let mut wire = out.as_msg().as_bytes().to_vec();
    assert_eq!(sa.finish_send(out.as_msg_mut(), KERN_SUCCESS), Ok(()));
    assert_eq!(out.as_msg().descriptor_count(), 0);

    // The kernel hands the right over under a name of the receiver's task.
    wire[28..32].copy_from_slice(&[0x07, 0x0C, 0, 0]);

    let mut inbox = MsgBuffer::new();
    inbox.reserve_descriptors(4);
    deliver(&wire, inbox.as_msg_mut());
    assert_eq!(a.finish_recv(inbox.as_msg_mut(), KERN_SUCCESS), Ok(()));
    assert_eq!(inbox.as_msg().descriptor_count(), 1);
    assert!(inbox.as_msg().complex());

    let msg = inbox.as_msg_mut();
    let mut iter = msg.descriptors_mut();
    let mut d = iter.next(msg).unwrap();
    let raw = match d.kind_mut() {
        MsgDescriptorKindMut::Port(p) => {
            assert_eq!(p.disposition(), 16);
            p.take_raw_port(msg)
        }
        _ => panic!("a port descriptor was sent"),
    };
    assert_eq!(raw, Some(0xC07));
    assert!(iter.next(msg).is_none());
    let received = Port::from_raw_port(0xC07, KERN_SUCCESS, MACH_PORT_TYPE_RECEIVE).unwrap();
    assert!(received.has_receive());
    assert!(!received.has_send());
    assert_eq!(received.as_raw_port(), 0xC07);
    assert_eq!(received.release().len(), 1);
}

#[test]
fn a_port_is_taken_once() {
    let mut buffer = MsgBuffer::new();
    buffer.copy_right_raw(PortCopyMode::Send, 0x44);
    buffer.extend_inline_data(&[1, 2]);
    let msg = buffer.as_msg_mut();
    let mut iter = msg.descriptors_mut();
    let mut first = iter.next(msg).unwrap();
    let mut again = first;
    match first.kind_mut() {
        MsgDescriptorKindMut::Port(p) => {
            assert_eq!(p.name(), 0x44);
            assert_eq!(p.take_raw_port(msg), Some(0x44));
            assert_eq!(p.name(), MACH_PORT_NULL);
            assert_eq!(p.take_raw_port(msg), None);
        }
        _ => panic!("a port descriptor was attached"),
    }
    match again.kind_mut() {
        MsgDescriptorKindMut::Port(p) => assert_eq!(p.take_raw_port(msg), None),
        _ => panic!("a port descriptor was attached"),
    }
    assert_eq!(&msg.as_bytes()[28..40], &[0, 0, 0, 0, 0, 0, 0, 0, 0, 0, 19, 0]);
    assert_eq!(msg.inline_data(), &[1, 2]);
    assert_eq!(msg.descriptor_count(), 1);
    let mut reread = msg.descriptors();
    match reread.next().unwrap().kind() {
        MsgDescriptorKind::Port(p) => assert_eq!(p.name(), MACH_PORT_NULL),
        _ => panic!("a port descriptor was attached"),
    }
}

#[test]
fn null_and_dead_names_are_not_taken() {
    let mut buffer = MsgBuffer::new();
    buffer.copy_right_raw(PortCopyMode::Send, MACH_PORT_NULL);
    buffer.copy_right_raw(PortCopyMode::Send, MACH_PORT_DEAD);
    buffer.copy_right_raw(PortCopyMode::Send, 0x99);
    let msg = buffer.as_msg_mut();
    let before = msg.as_bytes().to_vec();
    let mut iter = msg.descriptors_mut();
    let mut taken = Vec::new();
    while let Some(mut d) = iter.next(msg) {
        if let MsgDescriptorKindMut::Port(p) = d.kind_mut() {
            taken.push(p.take_raw_port(msg));
        }
    }
    assert_eq!(taken, vec![None, None, Some(0x99)]);
    let after = msg.as_bytes();
    assert_eq!(&after[..52], &before[..52]);
    assert_eq!(&after[52..56], &[0, 0, 0, 0]);
    assert_eq!(&after[56..], &before[56..]);
}

#[test]
fn receive_times_out() {
    let p = Port::new(KERN_SUCCESS, 0x1203).unwrap();
    let mut inbox = MsgBuffer::new();
    let call = p.begin_recv(inbox.as_msg(), Some(Duration::from_millis(10)));
    assert_eq!(call.options, 0x106);
    assert_eq!(call.timeout, 10);
    assert_eq!(call.rcv_name, 0x1203);
    let capacity = inbox.as_msg().capacity();
    assert_eq!(
        p.finish_recv(inbox.as_msg_mut(), MACH_RCV_TIMED_OUT),
        Err(RecvFailure { error: MachError::Timeout, reported_size: 28 })
    );
    assert_eq!(inbox.as_msg().len(), 28);
    assert_eq!(inbox.as_msg().capacity(), capacity);
    assert_eq!(inbox.as_msg().descriptor_count(), 0);
}

#[test]
fn failed_receive_keeps_the_message() {
    let p = Port::new(KERN_SUCCESS, 0x1203).unwrap();
    let mut inbox = MsgBuffer::new();
    inbox.extend_inline_data(&[5, 6, 7]);
    inbox.copy_right_raw(PortCopyMode::Send, 3);
    let capacity = inbox.as_msg().capacity();
    let before = inbox.as_msg().as_bytes().to_vec();
    assert_eq!(
        p.finish_recv(inbox.as_msg_mut(), 0x1000_4002),
        Err(RecvFailure {
            error: MachError::KernelCallFailed { code: 0x1000_4002 },
            reported_size: 43,
        })
    );
    assert_eq!(inbox.as_msg().as_bytes(), before.as_slice());
    assert_eq!(inbox.as_msg().len(), 43);
    assert_eq!(inbox.as_msg().inline_data(), &[5, 6, 7]);
    assert_eq!(inbox.as_msg().descriptor_count(), 1);
    assert_eq!(inbox.as_msg().capacity(), capacity);
}

#[test]
fn a_message_too_large_leaves_the_buffer_as_it_was_and_reports_its_size() {
    let p = Port::new(KERN_SUCCESS, 0x1203).unwrap();
    let mut inbox = MsgBuffer::new();
    inbox.extend_inline_data(&[5, 6, 7]);
    let capacity = inbox.as_msg().capacity();
    let before = inbox.as_msg().as_bytes().to_vec();
    // The kernel reports a message too large and leaves its size behind.
    inbox.as_msg_mut().receive_area()[4..8].copy_from_slice(&[0, 4, 0, 0]);
    assert_eq!(
        p.finish_recv(inbox.as_msg_mut(), 0x1000_4004),
        Err(RecvFailure {
            error: MachError::KernelCallFailed { code: 0x1000_4004 },
            reported_size: 1024,
        })
    );
    assert_eq!(inbox.as_msg().len(), 31);
    assert_eq!(inbox.as_msg().header().size, 31);
    assert_eq!(inbox.as_msg().capacity(), capacity);
    assert_eq!(inbox.as_msg().inline_data(), &[5, 6, 7]);
    assert_eq!(inbox.as_msg().as_bytes(), before.as_slice());
}

#[test]
fn the_caller_grows_the_buffer_by_the_reported_size_and_receives_again() {
    let p = Port::new(KERN_SUCCESS, 0x1203).unwrap();
    let mut out = MsgBuffer::new();
    out.extend_inline_data(&[9; 100]);
    let wire = out.as_msg().as_bytes().to_vec();

    let mut inbox = MsgBuffer::new();
    let call = p.begin_recv(inbox.as_msg(), None);
    assert_eq!(call.rcv_size, 36);
    inbox.as_msg_mut().receive_area()[..8].copy_from_slice(&wire[..8]);
    let failure = p.finish_recv(inbox.as_msg_mut(), 0x1000_4004).unwrap_err();
    assert_eq!(failure.error, MachError::KernelCallFailed { code: 0x1000_4004 });
    assert_eq!(failure.reported_size, 128);
    assert_eq!(inbox.as_msg().len(), 28);
    assert_eq!(inbox.as_msg().capacity(), 36);

    let wanted = failure.reported_size as usize - 28;
    assert!(inbox.can_reserve_inline_data(wanted));
    inbox.reserve_inline_data(wanted);
    let call = p.begin_recv(inbox.as_msg(), None);
    assert_eq!(call.rcv_size, 128 + 8);
    deliver(&wire, inbox.as_msg_mut());
    assert_eq!(p.finish_recv(inbox.as_msg_mut(), KERN_SUCCESS), Ok(()));
    assert_eq!(inbox.as_msg().inline_data(), &[9; 100]);
}

#[test]
fn a_failed_receive_that_spoiled_a_descriptor_keeps_the_length() {
    let p = Port::new(KERN_SUCCESS, 0x1203).unwrap();
    let mut inbox = MsgBuffer::new();
    inbox.copy_right_raw(PortCopyMode::Send, 0x10);
    inbox.extend_inline_data(&[1, 2]);
    let capacity = inbox.as_msg().capacity();
    inbox.as_msg_mut().receive_area()[28 + 11] = 0xFF;
    assert_eq!(
        p.finish_recv(inbox.as_msg_mut(), 0x1000_4002),
        Err(RecvFailure {
            error: MachError::KernelCallFailed { code: 0x1000_4002 },
            reported_size: 42,
        })
    );
    let msg = inbox.as_msg();
    assert_eq!(msg.len(), 42);
    assert_eq!(msg.capacity(), capacity);
    assert_eq!(msg.header().size, 42);
    assert_eq!(msg.descriptor_count(), 0);
    assert!(!msg.complex());
    assert_eq!(msg.header().bits, 19);
    assert_eq!(msg.inline_data(), &[0x10, 0, 0, 0, 0, 0, 0, 0, 0, 0, 19, 0xFF, 1, 2]);
}

#[test]
fn corrupted_tag() {
    let mut out = MsgBuffer::new();
    out.copy_right_raw(PortCopyMode::Send, 0x10);
    out.copy_right_raw(PortCopyMode::Send, 0x20);
    out.extend_inline_data(&[1, 2, 3]);
    let mut wire = out.as_msg().as_bytes().to_vec();
    wire[28 + 12 + 11] = 9;

    let p = Port::new(KERN_SUCCESS, 0x1203).unwrap();
    let mut inbox = MsgBuffer::new();
    inbox.reserve_inline_data(64);
    deliver(&wire, inbox.as_msg_mut());
    assert_eq!(
        p.finish_recv(inbox.as_msg_mut(), KERN_SUCCESS),
        Err(RecvFailure { error: MachError::CorruptedMessage, reported_size: 55 })
    );
    let msg = inbox.as_msg();
    assert_eq!(msg.len(), 28);
    assert_eq!(msg.descriptor_count(), 0);
    assert!(msg.descriptors().next().is_none());
}

#[test]
fn corrupted_tag_through_accept_received() {
    let mut buffer = MsgBuffer::new();
    buffer.copy_right_raw(PortCopyMode::Send, 0x10);
    buffer.as_msg_mut().receive_area()[28 + 11] = 4;
    assert_eq!(buffer.as_msg_mut().accept_received(), Err(MachError::CorruptedMessage));
    assert_eq!(buffer.as_msg().descriptor_count(), 0);
}

#[test]
fn a_size_beyond_the_buffer_is_corrupted() {
    let mut inbox = MsgBuffer::new();
    inbox.as_msg_mut().receive_area()[4..8].copy_from_slice(&[29, 0, 0, 0]);
    assert_eq!(inbox.as_msg_mut().accept_received(), Err(MachError::CorruptedMessage));
    let mut inbox = MsgBuffer::new();
    inbox.as_msg_mut().receive_area()[4..8].copy_from_slice(&[27, 0, 0, 0]);
    assert_eq!(inbox.as_msg_mut().accept_received(), Err(MachError::CorruptedMessage));
    let mut inbox = MsgBuffer::new();
    inbox.as_msg_mut().receive_area()[4..8].copy_from_slice(&[0xFF, 0xFF, 0xFF, 0xFF]);
    assert_eq!(inbox.as_msg_mut().accept_received(), Err(MachError::CorruptedMessage));
    assert_eq!(inbox.as_msg().len(), 28);
}

#[test]
fn a_count_beyond_the_message_is_corrupted() {
    let mut inbox = MsgBuffer::new();
    inbox.reserve_inline_data(16);
    {
        let area = inbox.as_msg_mut().receive_area();
        area[3] = 0x80;
        area[4] = 40;
        area[24] = 2;
    }
    assert_eq!(inbox.as_msg_mut().accept_received(), Err(MachError::CorruptedMessage));
}

#[test]
fn a_flag_that_disagrees_with_the_count_is_corrupted() {
    let mut out = MsgBuffer::new();
    out.copy_right_raw(PortCopyMode::Send, 0x10);
    let mut wire = out.as_msg().as_bytes().to_vec();
    wire[3] = 0;
    let mut inbox = MsgBuffer::new();
    inbox.reserve_inline_data(16);
    deliver(&wire, inbox.as_msg_mut());
    assert_eq!(inbox.as_msg_mut().accept_received(), Err(MachError::CorruptedMessage));

    let mut plain = MsgBuffer::new().as_msg().as_bytes().to_vec();
    plain[3] = 0x80;
    let mut inbox = MsgBuffer::new();
    deliver(&plain, inbox.as_msg_mut());
    assert_eq!(inbox.as_msg_mut().accept_received(), Err(MachError::CorruptedMessage));
}

#[test]
fn received_descriptors_of_every_kind_are_walked_by_their_width() {
    let mut wire = vec![0u8; 28];
    wire[0] = 19;
    wire[3] = 0x80;
    wire[24] = 4;
    let mut port = vec![0x21, 0, 0, 0, 0, 0, 0, 0, 0, 0, 17, 0];
    let mut ool = vec![0u8; 16];
    ool[11] = 1;
    let mut ool_ports = vec![0u8; 16];
    ool_ports[11] = 2;
    let mut volatile = vec![0u8; 16];
    volatile[11] = 3;
    wire.append(&mut ool);
    wire.append(&mut port);
    wire.append(&mut volatile);
    wire.append(&mut ool_ports);
    wire.extend_from_slice(&[0xAA, 0xBB]);
    let size = wire.len() as u32;
    wire[4..8].copy_from_slice(&size.to_le_bytes());

    let mut inbox = MsgBuffer::new();
    inbox.reserve_inline_data(128);
    deliver(&wire, inbox.as_msg_mut());
    assert_eq!(inbox.as_msg_mut().accept_received(), Ok(()));
    let msg = inbox.as_msg();
    assert_eq!(msg.len(), 28 + 16 + 12 + 16 + 16 + 2);
    assert_eq!(msg.descriptor_count(), 4);
    assert_eq!(msg.descriptors_byte_len(), 60);
    assert_eq!(msg.inline_data(), &[0xAA, 0xBB]);
    let mut kinds = Vec::new();
    let mut iter = msg.descriptors();
    while let Some(d) = iter.next() {
        kinds.push(match d.kind() {
            MsgDescriptorKind::Port(p) => {
                assert_eq!(p.name(), 0x21);
                assert_eq!(p.disposition(), 17);
                (0, d.size())
            }
            MsgDescriptorKind::Ool(_) => (1, d.size()),
            MsgDescriptorKind::OolPorts(_) => (2, d.size()),
            MsgDescriptorKind::OolVolatile(_) => (3, d.size()),
        });
    }
    assert_eq!(kinds, vec![(1, 16), (0, 12), (3, 16), (2, 16)]);
}

#[test]
fn a_received_message_can_be_extended() {
    let mut out = MsgBuffer::new();
    out.copy_right_raw(PortCopyMode::Send, 1);
    out.copy_right_raw(PortCopyMode::Send, 2);
    out.extend_inline_data(&[1]);
    let wire = out.as_msg().as_bytes().to_vec();
    let mut inbox = MsgBuffer::new();
    inbox.reserve_inline_data(25);
    deliver(&wire, inbox.as_msg_mut());
    assert_eq!(inbox.as_msg_mut().accept_received(), Ok(()));
    assert_eq!(inbox.capacity_descriptors(), 0);
    inbox.extend_inline_data(&[2; 30]);
    assert_eq!(inbox.as_msg().inline_data().len(), 31);
    assert_eq!(inbox.as_msg().descriptor_count(), 2);
    assert_eq!(inbox.as_msg().len(), 28 + 24 + 31);
    assert!(inbox.as_msg().capacity() >= 28 + 24 + 31 + 8);
}

#[test]
fn a_descriptor_belongs_to_the_message_it_was_read_from() {
    let mut buffer = MsgBuffer::new();
    let mut ool = [0u8; 16];
    ool[11] = 1;
    buffer.append_descriptor(&ool);
    buffer.copy_right_raw(PortCopyMode::Send, 0x44);
    let mut other = MsgBuffer::new();
    other.copy_right_raw(PortCopyMode::Send, 0x55);
    other.copy_right_raw(PortCopyMode::Send, 0x66);
    let empty = MsgBuffer::new();

    let mut iter = buffer.descriptors();
    let first = iter.next().unwrap();
    let second = iter.next().unwrap();
    match second.kind() {
        MsgDescriptorKind::Port(p) => {
            assert!(p.belongs_to(buffer.as_msg()));
            assert!(!p.belongs_to(other.as_msg()));
            assert!(!p.belongs_to(empty.as_msg()));
        }
        _ => panic!("the second descriptor is a port descriptor"),
    }
    assert!(matches!(first.kind(), MsgDescriptorKind::Ool(_)));
    let mut iter = other.descriptors();
    match iter.next().unwrap().kind() {
        MsgDescriptorKind::Port(p) => {
            assert!(p.belongs_to(other.as_msg()));
            assert!(!p.belongs_to(buffer.as_msg()));
        }
        _ => panic!("the first descriptor is a port descriptor"),
    }
}
