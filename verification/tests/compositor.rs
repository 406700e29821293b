use wlc::compositor::{buffer_to_release, frame_time, svg_buffer_len, BufferAssignment};

#[test]
fn frame_time_wraps() {
    assert_eq!(frame_time(5), 5);
    assert_eq!(frame_time(0x1_0000_0000), 0);
    assert_eq!(frame_time(0x1_0000_0007), 7);
    assert_eq!(frame_time(1_700_000_000_123), (1_700_000_000_123u128 % 0x1_0000_0000) as u32);
}

#[test]
fn new_buffer_is_released() {
    assert_eq!(buffer_to_release(Some(BufferAssignment::NewBuffer(9u8))), Some(9));
    assert_eq!(buffer_to_release::<u8>(Some(BufferAssignment::Removed)), None);
    assert_eq!(buffer_to_release::<u8>(None), None);
}

#[test]
fn svg_buffer_holds_four_bytes_per_pixel() {
    assert_eq!(svg_buffer_len(3, 2), 24);
    assert_eq!(svg_buffer_len(0, 100), 0);
    assert_eq!(svg_buffer_len(0x8000, 0x7fff), 0x8000 * 0x7fff * 4);
}
