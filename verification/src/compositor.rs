//! Small decisions of the compositor loop: which buffer a commit releases,
//! the time stamp that frame callbacks carry, and the size of the pixel
//! buffer an SVG icon is rendered into.
use vstd::prelude::*;

verus! {

/// What a commit finds attached to a surface.
pub enum BufferAssignment<B> {
    /// A new buffer was attached.
    NewBuffer(B),
    /// The buffer was detached.
    Removed,
}

/// The buffer to release when a surface commits. This compositor draws
/// nothing, so a newly attached buffer is handed back at once; a removal, or
/// no attachment at all, releases nothing. Either way the attachment is
/// consumed.
pub fn buffer_to_release<B>(assignment: Option<BufferAssignment<B>>) -> (released: Option<B>)
    ensures
        released == match assignment {
            Some(BufferAssignment::NewBuffer(b)) => Some(b),
            _ => None,
        },
{
    match assignment {
        Some(BufferAssignment::NewBuffer(b)) => Some(b),
        Some(BufferAssignment::Removed) => None,
        None => None,
    }
}

/// Converts a millisecond timestamp into the 32-bit time that frame callbacks
/// carry: the timestamp wraps around modulo 2^32.
pub fn frame_time(millis: u128) -> (time: u32)
    ensures
        time == millis % 0x1_0000_0000,
{
    let t = millis as u32;
    assert(t == millis % 0x1_0000_0000) by (bit_vector)
        requires
            t == millis as u32,
    ;
    t
}

/// The number of bytes of an RGBA pixel buffer of `width` by `height`
/// pixels, four bytes per pixel. The size is computed in 32 bits, so it must
/// fit there.
pub fn svg_buffer_len(width: u32, height: u32) -> (len: usize)
    requires
        width * height * 4 <= u32::MAX,
    ensures
        len == width * height * 4,
{
    assert(width * height <= u32::MAX) by (nonlinear_arith)
        requires
            width * height * 4 <= u32::MAX,
    ;
    let len: u32 = width * height * 4;
    len as usize
}

} // verus!
