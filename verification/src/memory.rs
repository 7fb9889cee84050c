//! Regions of a contract's linear memory.
use vstd::prelude::*;

verus! {

/// A region of a contract's linear memory: where it starts and how many
/// bytes it holds. The region of no bytes at offset zero stands for "none".
#[derive(Clone, Copy, Debug, PartialEq, Eq, Structural)]
pub struct HostRegion {
    pub offset: u32,
    pub length: u32,
}

impl HostRegion {
    /// The region as one 64-bit value: the length in the upper half, the
    /// offset in the lower.
    pub open spec fn spec_packed(self) -> u64 {
        (self.length * 0x1_0000_0000 + self.offset) as u64
    }

    /// The region that a 64-bit value stands for.
    pub open spec fn spec_from_packed(packed: u64) -> HostRegion {
        HostRegion {
            offset: (packed % 0x1_0000_0000) as u32,
            length: (packed / 0x1_0000_0000) as u32,
        }
    }

    /// Packing a region and unpacking the value gives the region back, and
    /// the other way round.
    pub proof fn lemma_packed_round_trip(region: HostRegion, packed: u64)
        ensures
            HostRegion::spec_from_packed(region.spec_packed()) == region,
            HostRegion::spec_from_packed(packed).spec_packed() == packed,
    {
    }

    /// The region that stands for "none".
    pub fn absent() -> (region: HostRegion)
        ensures
            region.offset == 0,
            region.length == 0,
            region.spec_packed() == 0,
    {
        HostRegion { offset: 0, length: 0 }
    }

    /// Whether the region stands for "none".
    pub fn is_absent(&self) -> (absent: bool)
        ensures
            absent == (self.offset == 0 && self.length == 0),
            absent == (self.spec_packed() == 0),
    {
        self.offset == 0 && self.length == 0
    }

    /// The region as one 64-bit value.
    pub fn to_packed(&self) -> (packed: u64)
        ensures
            packed == self.spec_packed(),
    {
        (self.length as u64) * 0x1_0000_0000 + (self.offset as u64)
    }

    /// The region that a 64-bit value stands for.
    pub fn from_packed(packed: u64) -> (region: HostRegion)
        ensures
            region == HostRegion::spec_from_packed(packed),
    {
        HostRegion {
            offset: (packed % 0x1_0000_0000) as u32,
            length: (packed / 0x1_0000_0000) as u32,
        }
    }

    /// The region that answers a request for a value: the region where the
    /// value was put, and the region that stands for "none" where there is no
    /// value.
    pub fn for_value(placed: Option<HostRegion>) -> (region: HostRegion)
        ensures
            placed is None ==> region.offset == 0 && region.length == 0,
            placed matches Some(r) ==> region == r,
    {
        match placed {
            Some(region) => region,
            None => HostRegion::absent(),
        }
    }

    /// Whether the region lies within a memory of the given size.
    pub open spec fn spec_within(self, size: nat) -> bool {
        self.offset + self.length <= size
    }

    /// Whether the region lies within a memory of the given size.
    pub fn within(&self, size: usize) -> (inside: bool)
        ensures
            inside == self.spec_within(size as nat),
    {
        (self.offset as u64) + (self.length as u64) <= size as u64
    }

    /// The region that holds `length` bytes at `offset`, where such a
    /// region can be told: offset and length each fit in 32 bits.
    pub fn from_slice_bounds(offset: usize, length: usize) -> (region: Option<HostRegion>)
        ensures
            region is Some <==> offset <= u32::MAX && length <= u32::MAX,
            region matches Some(r) ==> r.offset == offset && r.length == length,
    {
        if offset > u32::MAX as usize || length > u32::MAX as usize {
            return None;
        }
        Some(HostRegion { offset: offset as u32, length: length as u32 })
    }

    /// Copies the bytes of the region out of the memory; there are none to
    /// copy where the region does not lie within the memory.
    pub fn read(&self, memory: &[u8]) -> (bytes: Option<Vec<u8>>)
        ensures
            bytes is Some <==> self.spec_within(memory@.len()),
            bytes matches Some(b) ==> b@ == memory@.subrange(
                self.offset as int,
                self.offset + self.length,
            ),
    {
        if !self.within(memory.len()) {
            return None;
        }
        let start: usize = self.offset as usize;
        let end: usize = start + self.length as usize;
        let mut bytes: Vec<u8> = Vec::new();
        let mut i: usize = start;
        while i < end
            invariant
                start <= i <= end <= memory@.len(),
                bytes@ == memory@.subrange(start as int, i as int),
            decreases end - i,
        {
            bytes.push(memory[i]);
            i += 1;
            assert(bytes@ =~= memory@.subrange(start as int, i as int));
        }
        Some(bytes)
    }

    /// Copies the data into the region of the memory. Nothing is written,
    /// and `false` is returned, where the region does not lie within the
    /// memory or does not have the length of the data.
    pub fn write(&self, memory: &mut Vec<u8>, data: &[u8]) -> (written: bool)
        ensures
            written == (self.spec_within(old(memory)@.len()) && self.length == data@.len()),
            !written ==> final(memory)@ == old(memory)@,
            written ==> final(memory)@ == old(memory)@.subrange(0, self.offset as int) + data@
                + old(memory)@.subrange(
                self.offset + self.length,
                old(memory)@.len() as int,
            ),
    {
        if !self.within(memory.len()) || self.length as usize != data.len() {
            return false;
        }
        let start: usize = self.offset as usize;
        let mut i: usize = 0;
        proof {
            assert(memory@ =~= old(memory)@.subrange(0, start as int) + data@.take(0) + old(
                memory,
            )@.subrange(start as int, old(memory)@.len() as int));
        }
        while i < data.len()
            invariant
                i <= data.len(),
                start == self.offset,
                data@.len() == self.length,
                start + data@.len() <= old(memory)@.len(),
                memory@.len() == old(memory)@.len(),
                memory@.len() <= usize::MAX,
                memory@ == old(memory)@.subrange(0, start as int) + data@.take(i as int) + old(
                    memory,
                )@.subrange(start + i, old(memory)@.len() as int),
            decreases data.len() - i,
        {
            memory.set(start + i, data[i]);
            i += 1;
            assert(memory@ =~= old(memory)@.subrange(0, start as int) + data@.take(i as int)
                + old(memory)@.subrange(start + i, old(memory)@.len() as int));
        }
        proof {
            assert(data@.take(i as int) =~= data@);
        }
        true
    }
}

} // verus!
