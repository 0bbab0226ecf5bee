//! Sizes and access flags of graphics buffers.
//!
//! A buffer is allocated for one kind of use, which decides the access flags
//! of its storage and of a persistent mapping of it. A slice of a buffer is
//! a range of bytes, read as elements of one size. The flag values are
//! those of the OpenGL API.

use vstd::prelude::*;

verus! {

/// OpenGL's `GL_MAP_READ_BIT`.
pub const MAP_READ_BIT: u32 = 0x0001;

/// OpenGL's `GL_MAP_WRITE_BIT`.
pub const MAP_WRITE_BIT: u32 = 0x0002;

/// OpenGL's `GL_MAP_UNSYNCHRONIZED_BIT`.
pub const MAP_UNSYNCHRONIZED_BIT: u32 = 0x0020;

/// OpenGL's `GL_MAP_PERSISTENT_BIT`.
pub const MAP_PERSISTENT_BIT: u32 = 0x0040;

/// OpenGL's `GL_MAP_COHERENT_BIT`.
pub const MAP_COHERENT_BIT: u32 = 0x0080;

/// What a buffer is used for.
#[allow(non_camel_case_types)]
#[derive(Clone, Copy, Debug, PartialEq, Eq, Structural)]
pub enum BufferUsage {
    /// Written by the host, read by the device.
    UPLOAD,
    /// Used by the device alone.
    DEFAULT,
    /// Written by the device, read by the host.
    READBACK,
}

/// The access flags of the storage of a buffer for `usage`.
pub open spec fn storage_flags_of(usage: BufferUsage) -> u32 {
    match usage {
        BufferUsage::READBACK => 0x00c1,
        BufferUsage::UPLOAD => 0x00c2,
        BufferUsage::DEFAULT => 0,
    }
}

/// The access flags of a persistent, unsynchronized mapping of a buffer for
/// `usage`; a buffer for `DEFAULT` use cannot be mapped.
pub open spec fn mapping_flags_of(usage: BufferUsage) -> Option<u32> {
    match usage {
        BufferUsage::READBACK => Some(0x00e1),
        BufferUsage::UPLOAD => Some(0x00e2),
        BufferUsage::DEFAULT => None,
    }
}

/// The access flags with which the storage of a buffer is allocated:
/// readable or writable by the host, persistently and coherently mapped, for
/// a buffer that the host reads back or uploads to; none otherwise.
pub fn storage_flags(usage: BufferUsage) -> (flags: u32)
    ensures
        flags == storage_flags_of(usage),
        usage == BufferUsage::READBACK ==> flags == MAP_READ_BIT | MAP_PERSISTENT_BIT
            | MAP_COHERENT_BIT,
        usage == BufferUsage::UPLOAD ==> flags == MAP_WRITE_BIT | MAP_PERSISTENT_BIT
            | MAP_COHERENT_BIT,
{
    proof {
        assert(0x0001u32 | 0x0040u32 | 0x0080u32 == 0x00c1u32) by (bit_vector);
        assert(0x0002u32 | 0x0040u32 | 0x0080u32 == 0x00c2u32) by (bit_vector);
    }
    match usage {
        BufferUsage::READBACK => MAP_READ_BIT | MAP_PERSISTENT_BIT | MAP_COHERENT_BIT,
        BufferUsage::UPLOAD => MAP_WRITE_BIT | MAP_PERSISTENT_BIT | MAP_COHERENT_BIT,
        BufferUsage::DEFAULT => 0,
    }
}

/// The access flags with which a buffer is mapped persistently and without
/// synchronization, or `None` for a buffer that cannot be mapped.
pub fn mapping_flags(usage: BufferUsage) -> (flags: Option<u32>)
    ensures
        flags == mapping_flags_of(usage),
        flags matches Some(f) ==> f == storage_flags_of(usage) | MAP_UNSYNCHRONIZED_BIT,
{
    proof {
        assert(0x0020u32 | 0x0001u32 | 0x0040u32 | 0x0080u32 == 0x00e1u32) by (bit_vector);
        assert(0x0020u32 | 0x0002u32 | 0x0040u32 | 0x0080u32 == 0x00e2u32) by (bit_vector);
        assert(0x00c1u32 | 0x0020u32 == 0x00e1u32) by (bit_vector);
        assert(0x00c2u32 | 0x0020u32 == 0x00e2u32) by (bit_vector);
    }
    match usage {
        BufferUsage::READBACK => Some(
            MAP_UNSYNCHRONIZED_BIT | MAP_READ_BIT | MAP_PERSISTENT_BIT | MAP_COHERENT_BIT,
        ),
        BufferUsage::UPLOAD => Some(
            MAP_UNSYNCHRONIZED_BIT | MAP_WRITE_BIT | MAP_PERSISTENT_BIT | MAP_COHERENT_BIT,
        ),
        BufferUsage::DEFAULT => None,
    }
}

/// A range of bytes of a buffer.
#[derive(Clone, Copy, Debug, PartialEq, Eq, Structural)]
pub struct ByteRange {
    /// Offset of the first byte.
    pub offset: usize,
    /// Number of bytes.
    pub byte_size: usize,
}

impl ByteRange {
    /// The range of `byte_size` bytes from `offset` on.
    pub fn new(offset: usize, byte_size: usize) -> (range: ByteRange)
        ensures
            range.offset == offset,
            range.byte_size == byte_size,
    {
        ByteRange { offset, byte_size }
    }

    /// The range that covers a whole buffer of `byte_size` bytes.
    pub fn full(byte_size: usize) -> (range: ByteRange)
        ensures
            range.offset == 0,
            range.byte_size == byte_size,
    {
        ByteRange { offset: 0, byte_size }
    }

    /// The range lies within a buffer of `buffer_size` bytes.
    pub open spec fn within(&self, buffer_size: usize) -> bool {
        self.offset + self.byte_size <= buffer_size
    }

    /// Whether the range lies within a buffer of `buffer_size` bytes.
    pub fn is_within(&self, buffer_size: usize) -> (ok: bool)
        ensures
            ok == self.within(buffer_size),
    {
        self.offset <= buffer_size && self.byte_size <= buffer_size - self.offset
    }

    /// Whether the range holds a whole number of elements of `elem_size`
    /// bytes, so that it can be read as a slice of them.
    pub fn is_typed(&self, elem_size: usize) -> (ok: bool)
        requires
            elem_size > 0,
        ensures
            ok == (self.byte_size as int % elem_size as int == 0),
    {
        self.byte_size % elem_size == 0
    }

    /// Number of elements of `elem_size` bytes that the range holds.
    pub fn len(&self, elem_size: usize) -> (n: usize)
        requires
            elem_size > 0,
        ensures
            n == self.byte_size as int / elem_size as int,
    {
        self.byte_size / elem_size
    }
}

} // verus!
