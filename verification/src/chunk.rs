//! Subroutine chunks: a block of instructions with the symbols it captures.

use vstd::prelude::*;
use crate::error::EncodeError;
use crate::opcode::{block_bytes, block_fits, encode_block, OpCode};
use crate::wire::{be16, put_bytes, put_u16, MAX_FIELD};

verus! {

/// 16-bit indices on the wire, one after the other, in order.
pub open spec fn indices_bytes(indices: Seq<u16>) -> Seq<u8>
    decreases indices.len(),
{
    if indices.len() == 0 {
        Seq::empty()
    } else {
        indices_bytes(indices.drop_last()) + be16(indices.last())
    }
}

/// A subroutine: its instructions, and the symbol indices it captures from the
/// enclosing scope. The captures are addressed by position, so their order counts.
#[derive(Clone, Debug)]
pub struct Chunk {
    pub instructions: Vec<OpCode>,
    pub reference: Vec<u16>,
}

/// A chunk as a mathematical value: its two sequences.
pub struct ChunkView {
    pub instructions: Seq<OpCode>,
    pub reference: Seq<u16>,
}

impl View for Chunk {
    type V = ChunkView;

    open spec fn view(&self) -> ChunkView {
        ChunkView { instructions: self.instructions@, reference: self.reference@ }
    }
}

impl ChunkView {
    /// Whether both the number of captures and the byte length of the
    /// instructions fit their 16-bit prefixes.
    pub open spec fn fits(self) -> bool {
        self.reference.len() <= MAX_FIELD && block_fits(self.instructions)
    }

    /// The chunk on the wire: the number of captures, the captures, then the
    /// instructions as a block. Meant for chunks that `fits` accepts.
    pub open spec fn encoding(self) -> Seq<u8> {
        be16(self.reference.len() as u16) + indices_bytes(self.reference) + block_bytes(
            self.instructions,
        )
    }
}

impl Chunk {
    /// Encodes the chunk: the count of captured symbols, their indices, the
    /// byte length of the encoded instructions, and those instructions.
    /// Refused where a count or the byte length exceeds 65535.
    pub fn serialize(&self) -> (r: Result<Vec<u8>, EncodeError>)
        ensures
            self@.fits() ==> r is Ok && r->Ok_0@ == self@.encoding(),
            !self@.fits() ==> r == Err::<Vec<u8>, EncodeError>(EncodeError::CapacityExceeded),
    {
        let n: usize = self.reference.len();
        if n > MAX_FIELD {
            return Err(EncodeError::CapacityExceeded);
        }
        let block = match encode_block(&self.instructions) {
            Ok(block) => block,
            Err(e) => {
                return Err(e);
            },
        };
        let mut out: Vec<u8> = Vec::new();
        put_u16(&mut out, n as u16);
        let mut i: usize = 0;
        while i < n
            invariant
                i <= n,
                n == self.reference@.len(),
                out@ == be16(n as u16) + indices_bytes(self.reference@.take(i as int)),
            decreases n - i,
        {
            put_u16(&mut out, self.reference[i]);
            proof {
                let next = self.reference@.take(i + 1);
                assert(next.drop_last() =~= self.reference@.take(i as int));
                assert(next.last() == self.reference@[i as int]);
                assert(out@ =~= be16(n as u16) + indices_bytes(next));
            }
            i += 1;
        }
        proof {
            assert(self.reference@.take(i as int) =~= self.reference@);
        }
        put_bytes(&mut out, &block);
        Ok(out)
    }
}

} // verus!
