use std::time::Duration;

use mach_port::abi::{
    KERN_INVALID_RIGHT, KERN_SUCCESS, MACH_MSG_TYPE_PORT_SEND, MACH_PORT_NULL,
    MACH_PORT_RIGHT_RECEIVE, MACH_PORT_RIGHT_SEND, MACH_PORT_TYPE, MACH_PORT_TYPE_RECEIVE,
    MACH_PORT_TYPE_SEND, MACH_RCV_TIMED_OUT, MACH_SEND_TIMED_OUT,
};
use mach_port::error::{mach_call, mach_kern_call, rust_from_mach_error, rust_from_mach_kern_error};
use mach_port::port::timeout_from_parts;
use mach_port::{
    convert_timeout, MachError, MsgBuffer, MsgCall, Port, PortRight, ReleaseRequest,
};

#[test]
fn timeout_codes_are_told_apart() {
    assert_eq!(rust_from_mach_error(MACH_SEND_TIMED_OUT), MachError::Timeout);
    assert_eq!(rust_from_mach_error(MACH_RCV_TIMED_OUT), MachError::Timeout);
    assert_eq!(rust_from_mach_error(0x1000_0004), MachError::Timeout);
    assert_eq!(rust_from_mach_error(0x1000_4003), MachError::Timeout);
    assert_eq!(rust_from_mach_error(5), MachError::KernelCallFailed { code: 5 });
    assert_eq!(rust_from_mach_error(-1), MachError::KernelCallFailed { code: -1 });
    assert_eq!(
        rust_from_mach_error(0x1000_4004),
        MachError::KernelCallFailed { code: 0x1000_4004 }
    );
}

#[test]
fn kernel_errors_are_not_told_apart() {
    assert_eq!(
        rust_from_mach_kern_error(MACH_RCV_TIMED_OUT),
        MachError::KernelCallFailed { code: MACH_RCV_TIMED_OUT }
    );
    assert_eq!(rust_from_mach_kern_error(17), MachError::KernelCallFailed { code: 17 });
}

#[test]
fn a_call_succeeds_on_zero_alone() {
    assert_eq!(mach_call(0), Ok(()));
    assert_eq!(mach_call(MACH_SEND_TIMED_OUT), Err(MachError::Timeout));
    assert_eq!(mach_call(4), Err(MachError::KernelCallFailed { code: 4 }));
    assert_eq!(mach_kern_call(0), Ok(()));
    assert_eq!(
        mach_kern_call(MACH_SEND_TIMED_OUT),
        Err(MachError::KernelCallFailed { code: MACH_SEND_TIMED_OUT })
    );
}

#[test]
fn port_type_masks() {
    assert_eq!(MACH_PORT_TYPE(MACH_PORT_RIGHT_SEND), 0x1_0000);
    assert_eq!(MACH_PORT_TYPE(MACH_PORT_RIGHT_RECEIVE), 0x2_0000);
    assert_eq!(MACH_PORT_TYPE(MACH_PORT_RIGHT_SEND), MACH_PORT_TYPE_SEND);
    assert_eq!(MACH_PORT_TYPE(MACH_PORT_RIGHT_RECEIVE), MACH_PORT_TYPE_RECEIVE);
    assert_eq!(MACH_PORT_TYPE(2), 0x4_0000);
}

#[test]
fn timeouts_are_counted_in_milliseconds() {
    assert_eq!(convert_timeout(Duration::from_millis(10)), 10);
    assert_eq!(convert_timeout(Duration::from_millis(0)), 0);
    assert_eq!(convert_timeout(Duration::new(2, 345_678_901)), 2345);
    assert_eq!(convert_timeout(Duration::from_micros(999)), 0);
    assert_eq!(timeout_from_parts(3, 7), 3007);
}

#[test]
fn timeouts_stop_at_the_longest_wait() {
    assert_eq!(convert_timeout(Duration::from_millis(0x7FFF_FFFF)), 0x7FFF_FFFF);
    assert_eq!(convert_timeout(Duration::from_millis(0x8000_0000)), 0x7FFF_FFFF);
    assert_eq!(convert_timeout(Duration::from_secs(u64::MAX)), 0x7FFF_FFFF);
    assert_eq!(convert_timeout(Duration::new(u64::MAX / 1000, 999_000_000)), 0x7FFF_FFFF);
    assert_eq!(timeout_from_parts(2_147_483, 647), 2_147_483_647);
    assert_eq!(timeout_from_parts(2_147_483, 648), 2_147_483_647);
    assert_eq!(timeout_from_parts(u64::MAX, 999), 2_147_483_647);
    assert_eq!(timeout_from_parts(18_446_744_073_709_551, 999), 2_147_483_647);
}

#[test]
fn fresh_port_holds_the_receive_right() {
    let port = Port::new(KERN_SUCCESS, 0x1503).unwrap();
    assert_eq!(port.as_raw_port(), 0x1503);
    assert!(port.has_receive());
    assert!(!port.has_send());
    assert_eq!(port.into_raw_port(), 0x1503);
}

#[test]
fn failed_allocation_is_an_error() {
    assert_eq!(Port::new(3, 0).unwrap_err(), MachError::KernelCallFailed { code: 3 });
    assert_eq!(
        Port::new(MACH_SEND_TIMED_OUT, 9).unwrap_err(),
        MachError::KernelCallFailed { code: MACH_SEND_TIMED_OUT }
    );
    assert_eq!(
        Port::new(MACH_RCV_TIMED_OUT, 9).unwrap_err(),
        MachError::KernelCallFailed { code: MACH_RCV_TIMED_OUT }
    );
}

#[test]
fn adopted_port_holds_what_the_kernel_says() {
    let both = Port::from_raw_port(7, KERN_SUCCESS, MACH_PORT_TYPE_SEND | MACH_PORT_TYPE_RECEIVE)
        .unwrap();
    assert!(both.has_send() && both.has_receive());
    assert_eq!(both.as_raw_port(), 7);
    let send = Port::from_raw_port(8, KERN_SUCCESS, MACH_PORT_TYPE_SEND).unwrap();
    assert!(send.has_send() && !send.has_receive());
    let receive = Port::from_raw_port(9, KERN_SUCCESS, MACH_PORT_TYPE_RECEIVE).unwrap();
    assert!(!receive.has_send() && receive.has_receive());
    let once = Port::from_raw_port(10, KERN_SUCCESS, 0x4_0000).unwrap();
    assert!(!once.has_send() && !once.has_receive());
    assert_eq!(
        Port::from_raw_port(11, 15, MACH_PORT_TYPE_SEND).unwrap_err(),
        MachError::KernelCallFailed { code: 15 }
    );
}

#[test]
fn sender_needs_a_send_right_from_the_kernel() {
    let port = Port::new(KERN_SUCCESS, 20).unwrap();
    let sender = port.make_sender(KERN_SUCCESS, 20, MACH_MSG_TYPE_PORT_SEND).unwrap();
    assert_eq!(sender.as_raw_port(), 20);
    assert!(sender.has_send());
    assert!(!sender.has_receive());
    assert_eq!(
        port.make_sender(KERN_SUCCESS, 20, 16).unwrap_err(),
        MachError::UnexpectedRightType
    );
    assert_eq!(
        port.make_sender(KERN_SUCCESS, 20, 18).unwrap_err(),
        MachError::UnexpectedRightType
    );
    assert_eq!(
        port.make_sender(6, 20, MACH_MSG_TYPE_PORT_SEND).unwrap_err(),
        MachError::KernelCallFailed { code: 6 }
    );
    assert_eq!(port.make_sender(6, 20, 16).unwrap_err(), MachError::KernelCallFailed { code: 6 });
}

#[test]
fn each_held_right_is_released_once() {
    let receive = Port::new(KERN_SUCCESS, 5).unwrap();
    assert_eq!(
        receive.release(),
        vec![ReleaseRequest { name: 5, right: PortRight::Receive, delta: -1 }]
    );
    let send = Port::from_raw_port(6, KERN_SUCCESS, MACH_PORT_TYPE_SEND).unwrap();
    assert_eq!(send.release(), vec![ReleaseRequest { name: 6, right: PortRight::Send, delta: -1 }]);
    let both = Port::from_raw_port(7, KERN_SUCCESS, MACH_PORT_TYPE_SEND | MACH_PORT_TYPE_RECEIVE)
        .unwrap();
    assert_eq!(
        both.release(),
        vec![
            ReleaseRequest { name: 7, right: PortRight::Receive, delta: -1 },
            ReleaseRequest { name: 7, right: PortRight::Send, delta: -1 },
        ]
    );
    let none = Port::from_raw_port(8, KERN_SUCCESS, 0).unwrap();
    assert_eq!(none.release(), vec![]);
}

#[test]
fn right_codes() {
    assert_eq!(PortRight::Send.code(), 0);
    assert_eq!(PortRight::Receive.code(), 1);
}

#[test]
fn a_send_right_whose_port_is_gone_counts_as_released() {
    assert_eq!(Port::release_outcome(PortRight::Send, KERN_SUCCESS), Ok(()));
    assert_eq!(Port::release_outcome(PortRight::Send, KERN_INVALID_RIGHT), Ok(()));
    assert_eq!(
        Port::release_outcome(PortRight::Send, 15),
        Err(MachError::KernelCallFailed { code: 15 })
    );
    assert_eq!(Port::release_outcome(PortRight::Receive, KERN_SUCCESS), Ok(()));
    assert_eq!(
        Port::release_outcome(PortRight::Receive, KERN_INVALID_RIGHT),
        Err(MachError::KernelCallFailed { code: KERN_INVALID_RIGHT })
    );
}

#[test]
fn begin_send_binds_the_destination() {
    let port = Port::from_raw_port(0x77, KERN_SUCCESS, MACH_PORT_TYPE_SEND).unwrap();
    let mut buffer = MsgBuffer::new();
    buffer.extend_inline_data(&[1, 2, 3, 4]);
    let call = port.begin_send(buffer.as_msg_mut(), None);
    assert_eq!(
        call,
        MsgCall {
            options: 1,
            send_size: 32,
            rcv_size: 0,
            rcv_name: MACH_PORT_NULL,
            timeout: 0,
            notify: MACH_PORT_NULL,
        }
    );
    assert_eq!(buffer.as_msg().header().remote_port, 0x77);
    assert_eq!(buffer.as_msg().inline_data(), &[1, 2, 3, 4]);
}

#[test]
fn begin_send_with_a_timeout() {
    let port = Port::from_raw_port(0x77, KERN_SUCCESS, MACH_PORT_TYPE_SEND).unwrap();
    let mut buffer = MsgBuffer::new();
    let call = port.begin_send(buffer.as_msg_mut(), Some(Duration::from_millis(1500)));
    assert_eq!(call.options, 0x101);
    assert_eq!(call.timeout, 1500);
    assert_eq!(call.send_size, 28);
}

#[test]
fn finish_send_empties_the_buffer_on_success() {
    let port = Port::from_raw_port(0x77, KERN_SUCCESS, MACH_PORT_TYPE_SEND).unwrap();
    let mut buffer = MsgBuffer::new();
    buffer.extend_inline_data(&[1, 2, 3, 4]);
    buffer.move_right_raw(mach_port::PortMoveMode::Send, 9);
    let capacity = buffer.as_msg().capacity();
    port.begin_send(buffer.as_msg_mut(), None);
    assert_eq!(port.finish_send(buffer.as_msg_mut(), KERN_SUCCESS), Ok(()));
    let msg = buffer.as_msg();
    assert_eq!(msg.len(), 28);
    assert_eq!(msg.descriptor_count(), 0);
    assert!(!msg.complex());
    assert_eq!(msg.header().remote_port, MACH_PORT_NULL);
    assert_eq!(msg.capacity(), capacity);
}

#[test]
fn finish_send_keeps_the_message_on_failure() {
    let port = Port::from_raw_port(0x77, KERN_SUCCESS, MACH_PORT_TYPE_SEND).unwrap();
    let mut buffer = MsgBuffer::new();
    buffer.extend_inline_data(&[1, 2, 3, 4]);
    port.begin_send(buffer.as_msg_mut(), Some(Duration::from_millis(5)));
    assert_eq!(
        port.finish_send(buffer.as_msg_mut(), MACH_SEND_TIMED_OUT),
        Err(MachError::Timeout)
    );
    assert_eq!(buffer.as_msg().header().remote_port, MACH_PORT_NULL);
    assert_eq!(buffer.as_msg().inline_data(), &[1, 2, 3, 4]);
    port.begin_send(buffer.as_msg_mut(), None);
    assert_eq!(
        port.finish_send(buffer.as_msg_mut(), 0x1000_0003),
        Err(MachError::KernelCallFailed { code: 0x1000_0003 })
    );
    assert_eq!(buffer.as_msg().len(), 32);
}

#[test]
fn begin_recv_offers_the_whole_buffer() {
    let port = Port::new(KERN_SUCCESS, 0x33).unwrap();
    let mut buffer = MsgBuffer::new();
    buffer.reserve_inline_data(100);
    let call = port.begin_recv(buffer.as_msg(), None);
    assert_eq!(
        call,
        MsgCall {
            options: 6,
            send_size: 0,
            rcv_size: 136,
            rcv_name: 0x33,
            timeout: 0,
            notify: MACH_PORT_NULL,
        }
    );
}
