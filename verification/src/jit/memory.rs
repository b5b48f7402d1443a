//! Code regions: fixed-size byte blocks that take bounds-checked writes.

use vstd::prelude::*;

verus! {

/// Why a region was not granted or a write not made.
#[derive(Debug, Clone, Copy, PartialEq, Eq, Structural)]
pub enum MemoryError {
    /// The request was larger than any region can be.
    AllocationFailed,
    /// A region of no bytes was asked for.
    InvalidSize,
    /// The write would have gone past the end of the region.
    OutOfBounds,
}

/// The largest region that is granted: what a 32-bit displacement can span.
pub const MAX_REGION_SIZE: usize = 0x7FFF_FFFF;

/// What a region holds after `data` has been written at `offset` into `before`.
pub open spec fn overwritten(before: Seq<u8>, offset: int, data: Seq<u8>) -> Seq<u8>
    recommends
        0 <= offset,
        offset + data.len() <= before.len(),
{
    before.subrange(0, offset) + data + before.subrange(offset + data.len(), before.len() as int)
}

/// An exclusively owned block of bytes whose size is fixed when it is made.
/// It cannot be copied, only moved.
#[derive(Debug)]
pub struct ExecutableMemory {
    bytes: Vec<u8>,
}

impl View for ExecutableMemory {
    type V = Seq<u8>;

    closed spec fn view(&self) -> Seq<u8> {
        self.bytes@
    }
}

impl ExecutableMemory {
    /// A region of `size` zero bytes. A size of 0 is refused as `InvalidSize`,
    /// one above `MAX_REGION_SIZE` as `AllocationFailed`.
    pub fn allocate(size: usize) -> (r: Result<Self, MemoryError>)
        ensures
            match r {
                Ok(region) => 0 < size <= MAX_REGION_SIZE && region@ == Seq::new(
                    size as nat,
                    |i: int| 0u8,
                ),
                Err(error) => error == (if size == 0 {
                    MemoryError::InvalidSize
                } else {
                    MemoryError::AllocationFailed
                }) && (size == 0 || size > MAX_REGION_SIZE),
            },
    {
        if size == 0 {
            return Err(MemoryError::InvalidSize);
        }
        if size > MAX_REGION_SIZE {
            return Err(MemoryError::AllocationFailed);
        }
        let bytes = vec![0u8; size];
        assert(bytes@ =~= Seq::new(size as nat, |i: int| 0u8));
        Ok(Self { bytes })
    }

    /// The number of bytes in the region.
    pub fn size(&self) -> (r: usize)
        ensures
            r == self@.len(),
    {
        self.bytes.len()
    }

    /// The bytes of the region.
    pub fn as_slice(&self) -> (r: &[u8])
        ensures
            r@ == self@,
    {
        self.bytes.as_slice()
    }

    /// Ends the writing: the bytes of the region as code that can be read
    /// and no longer changed.
    pub fn finalize(self) -> (r: FinalizedCode)
        ensures
            r@ == self@,
    {
        FinalizedCode { bytes: self.bytes }
    }

    /// Copies `data` into the region at `offset`. A write that would pass the
    /// end of the region is refused and leaves every byte as it was.
    pub fn write(&mut self, offset: usize, data: &[u8]) -> (r: Result<(), MemoryError>)
        ensures
            match r {
                Ok(()) => offset + data@.len() <= old(self)@.len() <= usize::MAX && final(self)@
                    == overwritten(
                    old(self)@,
                    offset as int,
                    data@,
                ),
                Err(error) => error == MemoryError::OutOfBounds && offset + data@.len() > old(
                    self,
                )@.len() && final(self)@ == old(self)@,
            },
    {
        let size = self.bytes.len();
        let count = data.len();
        if count > size || offset > size - count {
            return Err(MemoryError::OutOfBounds);
        }
        let mut i: usize = 0;
        while i < count
            invariant
                i <= count,
                count == data@.len(),
                offset + count <= size,
                size == old(self)@.len(),
                self.bytes@ == overwritten(old(self)@, offset as int, data@.subrange(0, i as int)),
            decreases count - i,
        {
            self.bytes.set(offset + i, data[i]);
            i = i + 1;
        }
        assert(data@.subrange(0, count as int) == data@);
        Ok(())
    }
}

/// Complete code: what a region held when its writing ended. It offers no
/// way to write, so code that has been handed out to run stays as it is.
#[derive(Debug)]
pub struct FinalizedCode {
    bytes: Vec<u8>,
}

impl View for FinalizedCode {
    type V = Seq<u8>;

    closed spec fn view(&self) -> Seq<u8> {
        self.bytes@
    }
}

impl FinalizedCode {
    /// The number of bytes of code.
    pub fn size(&self) -> (r: usize)
        ensures
            r == self@.len(),
    {
        self.bytes.len()
    }

    /// The bytes of the code.
    pub fn as_slice(&self) -> (r: &[u8])
        ensures
            r@ == self@,
    {
        self.bytes.as_slice()
    }
}

} // verus!
