//! What holds of every container and every chunk, stated over the byte
//! streams that the encoders are specified to produce.

use vstd::prelude::*;
use crate::chunk::{indices_bytes, ChunkView};
use crate::container::{magic, stamp_of, Bytecode, BytecodeView};
use crate::error::EncodeError;
use crate::opcode::stream_bytes;
use crate::wire::{be16, be32, MAX_FIELD};

verus! {

/// An empty container can always be written, and its stream is nineteen
/// bytes: the signature, the timestamp, then a zero count for each of the
/// symbol table, the constant pool, the constructor table and the chunk
/// table, and a zero byte length for the top-level instructions.
pub proof fn lemma_empty_container(bytecode: BytecodeView, stamp: u32)
    requires
        bytecode.is_empty(),
    ensures
        bytecode.failure() is None,
        bytecode.image(stamp) == magic() + be32(stamp) + Seq::new(10, |i: int| 0u8),
        bytecode.image(stamp).len() == 19,
{
    assert(bytecode.sections() =~= Seq::new(10, |i: int| 0u8));
}

/// The timestamp is the only thing the time changes: two streams of one
/// container have the same length and agree on every byte but the four that
/// follow the signature, which are the timestamps themselves.
pub proof fn lemma_only_the_stamp_varies(bytecode: BytecodeView, first: u32, second: u32)
    ensures
        bytecode.image(first).len() == bytecode.image(second).len(),
        bytecode.image(first).subrange(0, 5) == magic(),
        bytecode.image(first).subrange(5, 9) == be32(first),
        bytecode.image(second).subrange(5, 9) == be32(second),
        forall|i: int|
            0 <= i < bytecode.image(first).len() && !(5 <= i < 9) ==> bytecode.image(first)[i]
                == bytecode.image(second)[i],
{
    assert(bytecode.image(first).subrange(0, 5) =~= magic());
    assert(bytecode.image(first).subrange(5, 9) =~= be32(first));
    assert(bytecode.image(second).subrange(5, 9) =~= be32(second));
}

/// Two containers with the same contents, written within the same second,
/// give the same outcome: the same error, or the same stream byte for byte.
pub proof fn lemma_same_second_same_stream(first: Bytecode, second: Bytecode, seconds: u64)
    requires
        first@ == second@,
    ensures
        first@.failure() == second@.failure(),
        first@.image(stamp_of(seconds)) == second@.image(stamp_of(seconds)),
{
}

/// The match table is reserved and unwritten: two containers that differ
/// in their matches alone give the same outcome at the same time.
pub proof fn lemma_matches_are_not_written(first: BytecodeView, second: BytecodeView, stamp: u32)
    requires
        first.chunks == second.chunks,
        first.symbols == second.symbols,
        first.constants == second.constants,
        first.instructions == second.instructions,
        first.constructors == second.constructors,
    ensures
        first.failure() == second.failure(),
        first.image(stamp) == second.image(stamp),
{
}

/// A container with more than 65535 symbols is refused for its size,
/// whatever else it holds.
pub proof fn lemma_too_many_symbols(bytecode: BytecodeView)
    requires
        bytecode.symbols.len() > MAX_FIELD,
    ensures
        bytecode.failure() == Some(EncodeError::CapacityExceeded),
{
}

/// A container that can be written has no table, and no instruction block,
/// beyond what a 16-bit prefix can announce: no count in its stream is a
/// wrapped one.
pub proof fn lemma_written_counts_are_exact(bytecode: BytecodeView)
    requires
        bytecode.failure() is None,
    ensures
        bytecode.symbols.len() <= MAX_FIELD,
        bytecode.constants.len() <= MAX_FIELD,
        bytecode.constructors.len() <= MAX_FIELD,
        bytecode.chunks.len() <= MAX_FIELD,
        stream_bytes(bytecode.instructions).len() <= MAX_FIELD,
        forall|i: int|
            0 <= i < bytecode.chunks.len() ==> (#[trigger] bytecode.chunks[i]).reference.len()
                <= MAX_FIELD && stream_bytes(bytecode.chunks[i].instructions).len()
                <= MAX_FIELD,
{
}

/// Captured indices take two bytes each.
pub proof fn lemma_indices_len(indices: Seq<u16>)
    ensures
        indices_bytes(indices).len() == 2 * indices.len(),
    decreases indices.len(),
{
    if indices.len() > 0 {
        lemma_indices_len(indices.drop_last());
    }
}

/// In a chunk's encoding the field that precedes the instructions holds the
/// byte length of their encodings, not their number, and the encodings are
/// all that follows it.
pub proof fn lemma_chunk_length_prefix(chunk: ChunkView)
    requires
        chunk.fits(),
    ensures
        ({
            let at: int = 2 + 2 * (chunk.reference.len() as int);
            let body = stream_bytes(chunk.instructions);
            &&& chunk.encoding().len() == at + 2 + body.len()
            &&& chunk.encoding().subrange(at, at + 2) == be16(body.len() as u16)
            &&& chunk.encoding().subrange(at + 2, chunk.encoding().len() as int) == body
            &&& be16(body.len() as u16)[0] * 256 + be16(body.len() as u16)[1] == body.len()
        }),
{
    lemma_indices_len(chunk.reference);
    let at: int = 2 + 2 * (chunk.reference.len() as int);
    let body = stream_bytes(chunk.instructions);
    assert(chunk.encoding().subrange(at, at + 2) =~= be16(body.len() as u16));
    assert(chunk.encoding().subrange(at + 2, chunk.encoding().len() as int) =~= body);
}

} // verus!
