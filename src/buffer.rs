use vstd::prelude::*;

use bytebuffer::ByteBuffer;

verus! {

#[verifier::external_type_specification]
#[verifier::external_body]
pub struct ExByteBuffer(ByteBuffer);

/// The bytes that a `ByteBuffer` holds.
pub uninterp spec fn byte_buffer_data(b: ByteBuffer) -> Seq<u8>;

/// Whether the write cursor of a `ByteBuffer` stands at the end of its bytes
/// with no bits pending, so that a write appends.
pub uninterp spec fn byte_buffer_at_end(b: ByteBuffer) -> bool;

/// Relies on `ByteBuffer::new`: no bytes, cursors at zero.
#[verifier::external_body]
pub(crate) fn buffer_new() -> (r: ByteBuffer)
    ensures
        byte_buffer_data(r) == Seq::<u8>::empty(),
        byte_buffer_at_end(r),
{
    ByteBuffer::new()
}

/// Relies on `ByteBuffer::write_bytes`: with the write cursor at the end and no
/// bits pending, it appends the bytes and moves the cursor to the new end.
#[verifier::external_body]
pub(crate) fn buffer_write(b: &mut ByteBuffer, bytes: &[u8])
    requires
        byte_buffer_at_end(*old(b)),
    ensures
        byte_buffer_data(*final(b)) == byte_buffer_data(*old(b)) + bytes@,
        byte_buffer_at_end(*final(b)),
{
    b.write_bytes(bytes)
}

/// Relies on `ByteBuffer::as_bytes`: the bytes the buffer holds.
#[verifier::external_body]
pub(crate) fn buffer_bytes(b: &ByteBuffer) -> (r: &[u8])
    ensures
        r@ == byte_buffer_data(*b),
{
    b.as_bytes()
}

/// Relies on `ByteBuffer::into_vec`: the bytes the buffer holds.
#[verifier::external_body]
pub(crate) fn buffer_into_vec(b: ByteBuffer) -> (r: Vec<u8>)
    ensures
        r@ == byte_buffer_data(b),
{
    b.into_vec()
}

} // verus!
