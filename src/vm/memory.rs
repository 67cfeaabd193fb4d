use vstd::prelude::*;

use super::error::Error;
use super::text::{hex_cells, push_hex_cell};

verus! {

/// Number of bytes in a memory image.
pub const MEMORY_SIZE: u8 = 20;

/// The offsets of a memory image, in order.
pub open spec fn offsets() -> Seq<u8> {
    Seq::new(MEMORY_SIZE as nat, |i: int| i as u8)
}

/// A two-line hex dump of the image `bytes`: the offsets, a rule, the byte
/// values, and a line that labels the regions of the sample program.
pub open spec fn dump(bytes: Seq<u8>) -> Seq<char> {
    hex_cells(offsets()) + "\n-----------------------------------------------------------\n"@
        + hex_cells(bytes) + "\nINSTRUCTIONS ---------------------------^ OUT-^ IN-1^ IN-2^"@
}

/// A memory image borrowed for the length of a run; every byte access is bounds-checked.
pub struct Memory<'a>(pub &'a mut [u8; 20]);

impl<'a> Memory<'a> {
    /// The bytes of the image, in order.
    pub open spec fn view(&self) -> Seq<u8> {
        self.0@
    }

    pub fn new(data: &'a mut [u8; 20]) -> (r: Self)
        ensures
            r@ == old(data)@,
            final(data)@ == final(r.0)@,
    {
        Memory(data)
    }

    /// A reference to the byte at offset `i`, or `OutOfBounds(i)` past the end.
    pub fn get_mut(&mut self, i: u8) -> (r: Result<&mut u8, Error>)
        ensures
            (i as int) < MEMORY_SIZE ==> r is Ok && *r->Ok_0 == old(self)@[i as int]
                && final(self)@ == old(self)@.update(i as int, *final(r->Ok_0)),
            (i as int) >= MEMORY_SIZE ==> r == Err::<&mut u8, Error>(Error::OutOfBounds(i as u16))
                && final(self)@ == old(self)@,
    {
        if i < MEMORY_SIZE {
            Ok(&mut self.0[i as usize])
        } else {
            Err(Error::OutOfBounds(i as u16))
        }
    }

    /// The hex dump of the image, for diagnostics.
    pub fn to_string(&self) -> (r: String)
        ensures
            r@ == dump(self@),
    {
        let mut acc = String::new();
        let mut i: u8 = 0;
        while i < MEMORY_SIZE
            invariant
                i <= MEMORY_SIZE,
                acc@ == hex_cells(offsets().take(i as int)),
            decreases MEMORY_SIZE - i,
        {
            assert(offsets().take(i + 1).drop_last() =~= offsets().take(i as int));
            push_hex_cell(&mut acc, i);
            i = i + 1;
        }
        assert(offsets().take(i as int) =~= offsets());
        acc.append("\n-----------------------------------------------------------\n");
        let header = Ghost(acc@);
        let mut j: usize = 0;
        while j < self.0.len()
            invariant
                j <= self@.len(),
                acc@ == header@ + hex_cells(self@.take(j as int)),
            decreases self@.len() - j,
        {
            assert(self@.take(j + 1).drop_last() =~= self@.take(j as int));
            push_hex_cell(&mut acc, self.0[j]);
            j = j + 1;
            assert(acc@ =~= header@ + hex_cells(self@.take(j as int)));
        }
        assert(self@.take(j as int) =~= self@);
        acc.append("\nINSTRUCTIONS ---------------------------^ OUT-^ IN-1^ IN-2^");
        acc
    }

    pub fn size(&self) -> (r: u8)
        ensures
            r == MEMORY_SIZE,
    {
        MEMORY_SIZE
    }
}

} // verus!
