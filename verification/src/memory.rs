use vstd::prelude::*;

verus! {

/// A fixed-size block of byte-addressable memory holding exactly `N` bytes.
#[derive(Debug, Clone, PartialEq, Eq)]
pub struct MemoryRegion<const N: usize> {
    bytes: Vec<u8>,
}

impl<const N: usize> MemoryRegion<N> {
    /// The bytes of the region, in address order.
    pub closed spec fn view(&self) -> Seq<u8> {
        self.bytes@
    }

    /// The region holds exactly `N` bytes.
    pub open spec fn inv(&self) -> bool {
        self@.len() == N
    }

    /// A region whose bytes are all zero.
    pub fn zeroed() -> (region: Self)
        ensures
            region.inv(),
            region@ == Seq::new(N as nat, |i: int| 0u8),
    {
        let bytes = vec![0u8; N];
        assert(bytes@ =~= Seq::new(N as nat, |i: int| 0u8));
        MemoryRegion { bytes }
    }

    pub fn read(&self, offset: usize) -> (value: Option<u8>)
        requires
            self.inv(),
        ensures
            offset < N ==> value == Some(self@[offset as int]),
            offset >= N ==> value.is_none(),
    {
        if offset < self.bytes.len() {
            Some(self.bytes[offset])
        } else {
            None
        }
    }

    pub fn write(&mut self, offset: usize, value: u8) -> (written: bool)
        requires
            old(self).inv(),
        ensures
            final(self).inv(),
            written == (offset < N),
            written ==> final(self)@ == old(self)@.update(offset as int, value),
            !written ==> final(self)@ == old(self)@,
            !written ==> *final(self) == *old(self),
    {
        if offset < self.bytes.len() {
            self.bytes.set(offset, value);
            true
        } else {
            false
        }
    }

    /// A region holding `bytes`, when there are exactly `N` of them (as a
    /// stored region is read back); `None` for any other length.
    pub fn from_bytes(bytes: &[u8]) -> (region: Option<Self>)
        ensures
            bytes@.len() == N ==> (region matches Some(r) && r.inv() && r@ == bytes@),
            bytes@.len() != N ==> region is None,
    {
        if bytes.len() != N {
            return None;
        }
        let mut copy: Vec<u8> = Vec::new();
        let mut i: usize = 0;
        while i < bytes.len()
            invariant
                i <= bytes@.len(),
                copy@ == bytes@.take(i as int),
            decreases bytes.len() - i,
        {
            copy.push(bytes[i]);
            i += 1;
            assert(copy@ =~= bytes@.take(i as int));
        }
        assert(copy@ =~= bytes@);
        Some(MemoryRegion { bytes: copy })
    }

    pub fn as_slice(&self) -> (bytes: &[u8])
        ensures
            bytes@ == self@,
    {
        self.bytes.as_slice()
    }
}

impl<const N: usize> Default for MemoryRegion<N> {
    fn default() -> (region: Self)
        ensures
            region.inv(),
            region@ == Seq::new(N as nat, |i: int| 0u8),
    {
        Self::zeroed()
    }
}

} // verus!
