use mach_port::{MsgBuffer, PortCopyMode};

#[test]
fn a_buffer_reads_as_its_message() {
    let mut buffer = MsgBuffer::new();
    buffer.extend_inline_data(&[1, 2, 3]);
    buffer.copy_right_raw(PortCopyMode::Send, 4);
    assert_eq!(buffer.inline_data(), &[1, 2, 3]);
    assert_eq!(buffer.descriptor_count(), 1);
    assert_eq!(buffer.len(), 43);
    assert!(buffer.complex());
    assert_eq!(buffer.descriptors().len(), 1);
}
