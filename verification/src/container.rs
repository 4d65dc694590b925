//! The top-level container and its canonical byte stream.
//!
//! The stream is, in this order and with nothing between: the magic
//! signature, the build timestamp, the symbol table, the constant pool, the
//! constructor table, the chunk table and the top-level instructions. The
//! match table is a reserved section at the end of the stream: nothing is
//! written for it, whatever the container's `matches` hold.

use vstd::prelude::*;
use crate::chunk::{Chunk, ChunkView};
use crate::clock::unix_seconds;
use crate::error::EncodeError;
use crate::literal::{encode_text, text_bytes, text_fits, Literal, LiteralView};
use crate::matching::{match_views, Match, MatchView};
use crate::opcode::{block_bytes, block_fits, encode_block, OpCode};
use crate::wire::{be16, be32, put_bytes, put_u16, put_u32, MAX_FIELD};

verus! {

/// The signature that opens every stream: the ASCII letters of "orion".
pub open spec fn magic() -> Seq<u8> {
    seq![0x6fu8, 0x72u8, 0x69u8, 0x6fu8, 0x6eu8]
}

/// The 32-bit timestamp for a count of seconds since the Unix epoch: its low 32 bits.
pub open spec fn stamp_of(seconds: u64) -> u32 {
    (seconds % 0x1_0000_0000) as u32
}

/// The names of a symbol table as sequences of characters.
pub open spec fn symbol_views(symbols: Seq<String>) -> Seq<Seq<char>> {
    Seq::new(symbols.len(), |i: int| symbols[i]@)
}

/// The entries of a constant pool as mathematical values.
pub open spec fn constant_views(constants: Seq<Literal>) -> Seq<LiteralView> {
    Seq::new(constants.len(), |i: int| constants[i]@)
}

/// The chunks of a chunk table as mathematical values.
pub open spec fn chunk_views(chunks: Seq<Chunk>) -> Seq<ChunkView> {
    Seq::new(chunks.len(), |i: int| chunks[i]@)
}

/// The names of a symbol table on the wire, each closed by a zero byte.
pub open spec fn symbols_bytes(symbols: Seq<Seq<char>>) -> Seq<u8>
    decreases symbols.len(),
{
    if symbols.len() == 0 {
        Seq::empty()
    } else {
        symbols_bytes(symbols.drop_last()) + text_bytes(symbols.last())
    }
}

/// Whether every name of a symbol table fits one byte per character.
pub open spec fn symbols_fit(symbols: Seq<Seq<char>>) -> bool {
    forall|i: int| 0 <= i < symbols.len() ==> text_fits(#[trigger] symbols[i])
}

/// Why a symbol table cannot be written, if it cannot: too many names, or
/// else a name with a character that does not fit in one byte.
pub open spec fn symbols_failure(symbols: Seq<Seq<char>>) -> Option<EncodeError> {
    if symbols.len() > MAX_FIELD {
        Some(EncodeError::CapacityExceeded)
    } else if !symbols_fit(symbols) {
        Some(EncodeError::UnsupportedCharacter)
    } else {
        None
    }
}

/// The symbol table section: the number of names, then the names.
pub open spec fn symbols_section(symbols: Seq<Seq<char>>) -> Seq<u8> {
    be16(symbols.len() as u16) + symbols_bytes(symbols)
}

/// The entries of a constant pool on the wire, one after the other.
pub open spec fn constants_bytes(constants: Seq<LiteralView>) -> Seq<u8>
    decreases constants.len(),
{
    if constants.len() == 0 {
        Seq::empty()
    } else {
        constants_bytes(constants.drop_last()) + constants.last().encoding()
    }
}

/// Whether every entry of a constant pool can be written.
pub open spec fn constants_fit(constants: Seq<LiteralView>) -> bool {
    forall|i: int| 0 <= i < constants.len() ==> (#[trigger] constants[i]).fits()
}

/// Why a constant pool cannot be written, if it cannot: too many entries, or
/// else a text constant with a character that does not fit in one byte.
pub open spec fn constants_failure(constants: Seq<LiteralView>) -> Option<EncodeError> {
    if constants.len() > MAX_FIELD {
        Some(EncodeError::CapacityExceeded)
    } else if !constants_fit(constants) {
        Some(EncodeError::UnsupportedCharacter)
    } else {
        None
    }
}

/// The constant pool section: the number of entries, then the entries.
pub open spec fn constants_section(constants: Seq<LiteralView>) -> Seq<u8> {
    be16(constants.len() as u16) + constants_bytes(constants)
}

/// The constructor table section: the number of tag bytes, then the bytes as they are.
pub open spec fn constructors_section(constructors: Seq<u8>) -> Seq<u8> {
    be16(constructors.len() as u16) + constructors
}

/// The chunks of a chunk table on the wire, one after the other.
pub open spec fn chunks_bytes(chunks: Seq<ChunkView>) -> Seq<u8>
    decreases chunks.len(),
{
    if chunks.len() == 0 {
        Seq::empty()
    } else {
        chunks_bytes(chunks.drop_last()) + chunks.last().encoding()
    }
}

/// Whether a chunk table can be written: no more than 65535 chunks, each of
/// which fits.
pub open spec fn chunks_fit(chunks: Seq<ChunkView>) -> bool {
    chunks.len() <= MAX_FIELD && forall|i: int|
        0 <= i < chunks.len() ==> (#[trigger] chunks[i]).fits()
}

/// The chunk table section: the number of chunks, then the chunks.
pub open spec fn chunks_section(chunks: Seq<ChunkView>) -> Seq<u8> {
    be16(chunks.len() as u16) + chunks_bytes(chunks)
}

/// Taking one more name of a symbol table appends that name's bytes, and the
/// longer prefix fits where the shorter one and the new name do.
proof fn lemma_symbols_step(symbols: Seq<Seq<char>>, i: int)
    requires
        0 <= i < symbols.len(),
    ensures
        symbols_bytes(symbols.take(i + 1)) == symbols_bytes(symbols.take(i)) + text_bytes(
            symbols[i],
        ),
        symbols_fit(symbols.take(i)) && text_fits(symbols[i]) ==> symbols_fit(
            symbols.take(i + 1),
        ),
{
    let next = symbols.take(i + 1);
    assert(next.drop_last() =~= symbols.take(i));
    assert(next.last() == symbols[i]);
    if symbols_fit(symbols.take(i)) && text_fits(symbols[i]) {
        assert forall|k: int| 0 <= k < next.len() implies text_fits(#[trigger] next[k]) by {
            if k < i {
                assert(next[k] == symbols.take(i)[k]);
            }
        }
    }
}

/// Taking one more entry of a constant pool appends that entry's encoding,
/// and the longer prefix fits where the shorter one and the new entry do.
proof fn lemma_constants_step(constants: Seq<LiteralView>, i: int)
    requires
        0 <= i < constants.len(),
    ensures
        constants_bytes(constants.take(i + 1)) == constants_bytes(constants.take(i))
            + constants[i].encoding(),
        constants_fit(constants.take(i)) && constants[i].fits() ==> constants_fit(
            constants.take(i + 1),
        ),
{
    let next = constants.take(i + 1);
    assert(next.drop_last() =~= constants.take(i));
    assert(next.last() == constants[i]);
    if constants_fit(constants.take(i)) && constants[i].fits() {
        assert forall|k: int| 0 <= k < next.len() implies (#[trigger] next[k]).fits() by {
            if k < i {
                assert(next[k] == constants.take(i)[k]);
            }
        }
    }
}

/// Taking one more chunk of a chunk table appends that chunk's encoding, and
/// every chunk of the longer prefix fits where those of the shorter one and
/// the new chunk do.
proof fn lemma_chunks_step(chunks: Seq<ChunkView>, i: int)
    requires
        0 <= i < chunks.len(),
    ensures
        chunks_bytes(chunks.take(i + 1)) == chunks_bytes(chunks.take(i)) + chunks[i].encoding(),
        chunks_fit(chunks.take(i)) && chunks[i].fits() && i < MAX_FIELD ==> chunks_fit(
            chunks.take(i + 1),
        ),
{
    let next = chunks.take(i + 1);
    assert(next.drop_last() =~= chunks.take(i));
    assert(next.last() == chunks[i]);
    if chunks_fit(chunks.take(i)) && chunks[i].fits() && i < MAX_FIELD {
        assert forall|k: int| 0 <= k < next.len() implies (#[trigger] next[k]).fits() by {
            if k < i {
                assert(next[k] == chunks.take(i)[k]);
            }
        }
    }
}

/// Encodes a symbol table: the number of names, then each name with one byte
/// per character and a closing zero byte.
pub fn encode_symbols(symbols: &Vec<String>) -> (r: Result<Vec<u8>, EncodeError>)
    ensures
        match symbols_failure(symbol_views(symbols@)) {
            Some(e) => r == Err::<Vec<u8>, EncodeError>(e),
            None => r is Ok && r->Ok_0@ == symbols_section(symbol_views(symbols@)),
        },
{
    let ghost names = symbol_views(symbols@);
    let n: usize = symbols.len();
    if n > MAX_FIELD {
        return Err(EncodeError::CapacityExceeded);
    }
    let mut out: Vec<u8> = Vec::new();
    put_u16(&mut out, n as u16);
    let mut i: usize = 0;
    while i < n
        invariant
            i <= n,
            n == symbols@.len(),
            n <= MAX_FIELD,
            names == symbol_views(symbols@),
            out@ == be16(n as u16) + symbols_bytes(names.take(i as int)),
            symbols_fit(names.take(i as int)),
        decreases n - i,
    {
        match encode_text(symbols[i].as_str()) {
            Ok(name) => put_bytes(&mut out, &name),
            Err(e) => {
                assert(!text_fits(names[i as int]));
                return Err(e);
            },
        }
        proof {
            lemma_symbols_step(names, i as int);
        }
        i += 1;
    }
    proof {
        assert(names.take(i as int) =~= names);
    }
    Ok(out)
}

/// Encodes a constant pool: the number of entries, then each entry as its
/// tag byte and payload.
pub fn encode_constants(constants: &Vec<Literal>) -> (r: Result<Vec<u8>, EncodeError>)
    ensures
        match constants_failure(constant_views(constants@)) {
            Some(e) => r == Err::<Vec<u8>, EncodeError>(e),
            None => r is Ok && r->Ok_0@ == constants_section(constant_views(constants@)),
        },
{
    let ghost entries = constant_views(constants@);
    let n: usize = constants.len();
    if n > MAX_FIELD {
        return Err(EncodeError::CapacityExceeded);
    }
    let mut out: Vec<u8> = Vec::new();
    put_u16(&mut out, n as u16);
    let mut i: usize = 0;
    while i < n
        invariant
            i <= n,
            n == constants@.len(),
            n <= MAX_FIELD,
            entries == constant_views(constants@),
            out@ == be16(n as u16) + constants_bytes(entries.take(i as int)),
            constants_fit(entries.take(i as int)),
        decreases n - i,
    {
        match constants[i].serialize() {
            Ok(entry) => put_bytes(&mut out, &entry),
            Err(e) => {
                assert(!entries[i as int].fits());
                return Err(e);
            },
        }
        proof {
            lemma_constants_step(entries, i as int);
        }
        i += 1;
    }
    proof {
        assert(entries.take(i as int) =~= entries);
    }
    Ok(out)
}

/// Encodes a constructor table: the number of tag bytes, then the bytes as
/// they are. Refused where there are more than 65535.
pub fn encode_constructors(constructors: &Vec<u8>) -> (r: Result<Vec<u8>, EncodeError>)
    ensures
        constructors@.len() <= MAX_FIELD ==> r is Ok && r->Ok_0@ == constructors_section(
            constructors@,
        ),
        constructors@.len() > MAX_FIELD ==> r == Err::<Vec<u8>, EncodeError>(
            EncodeError::CapacityExceeded,
        ),
{
    let n: usize = constructors.len();
    if n > MAX_FIELD {
        return Err(EncodeError::CapacityExceeded);
    }
    let mut out: Vec<u8> = Vec::new();
    put_u16(&mut out, n as u16);
    put_bytes(&mut out, constructors);
    Ok(out)
}

/// Encodes a chunk table: the number of chunks, then each chunk. Refused
/// where there are more than 65535 chunks or one of them does not fit.
pub fn encode_chunks(chunks: &Vec<Chunk>) -> (r: Result<Vec<u8>, EncodeError>)
    ensures
        chunks_fit(chunk_views(chunks@)) ==> r is Ok && r->Ok_0@ == chunks_section(
            chunk_views(chunks@),
        ),
        !chunks_fit(chunk_views(chunks@)) ==> r == Err::<Vec<u8>, EncodeError>(
            EncodeError::CapacityExceeded,
        ),
{
    let ghost entries = chunk_views(chunks@);
    let n: usize = chunks.len();
    if n > MAX_FIELD {
        return Err(EncodeError::CapacityExceeded);
    }
    let mut out: Vec<u8> = Vec::new();
    put_u16(&mut out, n as u16);
    let mut i: usize = 0;
    while i < n
        invariant
            i <= n,
            n == chunks@.len(),
            n <= MAX_FIELD,
            entries == chunk_views(chunks@),
            out@ == be16(n as u16) + chunks_bytes(entries.take(i as int)),
            chunks_fit(entries.take(i as int)),
        decreases n - i,
    {
        match chunks[i].serialize() {
            Ok(entry) => put_bytes(&mut out, &entry),
            Err(e) => {
                assert(!entries[i as int].fits());
                return Err(e);
            },
        }
        proof {
            lemma_chunks_step(entries, i as int);
        }
        i += 1;
    }
    proof {
        assert(entries.take(i as int) =~= entries);
    }
    Ok(out)
}

/// A compiled program: the tables that its instructions index, its
/// subroutines and its top-level instructions. A compiler appends to the
/// tables; an entry's position is its index.
#[derive(Clone, Debug)]
pub struct Bytecode {
    pub chunks: Vec<Chunk>,
    pub matches: Vec<Match>,
    pub symbols: Vec<String>,
    pub constants: Vec<Literal>,
    pub instructions: Vec<OpCode>,
    pub constructors: Vec<u8>,
}

/// A container as a mathematical value: each table as a sequence.
pub struct BytecodeView {
    pub chunks: Seq<ChunkView>,
    pub matches: Seq<MatchView>,
    pub symbols: Seq<Seq<char>>,
    pub constants: Seq<LiteralView>,
    pub instructions: Seq<OpCode>,
    pub constructors: Seq<u8>,
}

impl View for Bytecode {
    type V = BytecodeView;

    open spec fn view(&self) -> BytecodeView {
        BytecodeView {
            chunks: chunk_views(self.chunks@),
            matches: match_views(self.matches@),
            symbols: symbol_views(self.symbols@),
            constants: constant_views(self.constants@),
            instructions: self.instructions@,
            constructors: self.constructors@,
        }
    }
}

impl BytecodeView {
    /// Whether every table and the top-level instructions are empty.
    pub open spec fn is_empty(self) -> bool {
        &&& self.chunks.len() == 0
        &&& self.matches.len() == 0
        &&& self.symbols.len() == 0
        &&& self.constants.len() == 0
        &&& self.instructions.len() == 0
        &&& self.constructors.len() == 0
    }

    /// Whether no two symbols have the same name, so that a name stands for
    /// one index.
    pub open spec fn symbols_unique(self) -> bool {
        forall|i: int, j: int|
            0 <= i < j < self.symbols.len() ==> self.symbols[i] != self.symbols[j]
    }

    /// Whether each index operand of `op` points into its table.
    pub open spec fn operands_in_range(self, op: OpCode) -> bool {
        match op {
            OpCode::LoadConst(id) => id < self.constants.len(),
            OpCode::LoadSym(id) => id < self.symbols.len(),
            OpCode::Def(id, _) => id < self.symbols.len(),
            OpCode::Lambda(id) => id < self.chunks.len(),
            OpCode::Constructor(idx, _) => idx < self.constructors.len(),
            OpCode::Call(_) | OpCode::Builtin(_, _) | OpCode::Tuple(_) => true,
        }
    }

    /// Whether every instruction of `instrs` has its index operands in range.
    pub open spec fn all_in_range(self, instrs: Seq<OpCode>) -> bool {
        forall|i: int| 0 <= i < instrs.len() ==> self.operands_in_range(#[trigger] instrs[i])
    }

    /// What a compiler owes of a container it hands over: symbols are
    /// unique, captures name symbols, and every index operand, wherever the
    /// instruction stands, points into its table. The encoders ask for none
    /// of this and check none of it.
    pub open spec fn well_formed(self) -> bool {
        &&& self.symbols_unique()
        &&& self.all_in_range(self.instructions)
        &&& forall|c: int|
            0 <= c < self.chunks.len() ==> {
                &&& self.all_in_range((#[trigger] self.chunks[c]).instructions)
                &&& forall|k: int|
                    0 <= k < self.chunks[c].reference.len() ==> self.chunks[c].reference[k]
                        < self.symbols.len()
            }
        &&& forall|m: int|
            0 <= m < self.matches.len() ==> {
                &&& self.all_in_range((#[trigger] self.matches[m]).expression)
                &&& forall|p: int|
                    0 <= p < self.matches[m].patterns.len() ==> self.all_in_range(
                        (#[trigger] self.matches[m].patterns[p]).to_exec,
                    )
            }
    }

    /// Why the container cannot be written, if it cannot: the complaint of
    /// the first section, in stream order, that has one.
    pub open spec fn failure(self) -> Option<EncodeError> {
        if symbols_failure(self.symbols) is Some {
            symbols_failure(self.symbols)
        } else if constants_failure(self.constants) is Some {
            constants_failure(self.constants)
        } else if self.constructors.len() > MAX_FIELD {
            Some(EncodeError::CapacityExceeded)
        } else if !chunks_fit(self.chunks) {
            Some(EncodeError::CapacityExceeded)
        } else if !block_fits(self.instructions) {
            Some(EncodeError::CapacityExceeded)
        } else {
            None
        }
    }

    /// Everything that follows the timestamp: the five sections, in stream
    /// order. Meant for containers without a `failure`.
    pub open spec fn sections(self) -> Seq<u8> {
        symbols_section(self.symbols) + constants_section(self.constants) + constructors_section(
            self.constructors,
        ) + chunks_section(self.chunks) + block_bytes(self.instructions)
    }

    /// The whole stream with the given timestamp. Meant for containers
    /// without a `failure`.
    pub open spec fn image(self, stamp: u32) -> Seq<u8> {
        magic() + be32(stamp) + self.sections()
    }
}

impl Bytecode {
    /// A container with nothing in it.
    pub fn new() -> (bytecode: Bytecode)
        ensures
            bytecode@.is_empty(),
            bytecode@.well_formed(),
            bytecode@.failure() is None,
    {
        Bytecode {
            chunks: Vec::new(),
            symbols: Vec::new(),
            constants: Vec::new(),
            instructions: Vec::new(),
            constructors: Vec::new(),
            matches: Vec::new(),
        }
    }

    /// Writes the container as its canonical byte stream, stamped with the
    /// low 32 bits of `seconds`, a count of seconds since the Unix epoch.
    /// Either the whole stream comes back or an error and no bytes.
    pub fn serialize_at(&self, seconds: u64) -> (r: Result<Vec<u8>, EncodeError>)
        ensures
            match self@.failure() {
                Some(e) => r == Err::<Vec<u8>, EncodeError>(e),
                None => r is Ok && r->Ok_0@ == self@.image(stamp_of(seconds)),
            },
    {
        let symbols = match encode_symbols(&self.symbols) {
            Ok(section) => section,
            Err(e) => {
                return Err(e);
            },
        };
        let constants = match encode_constants(&self.constants) {
            Ok(section) => section,
            Err(e) => {
                return Err(e);
            },
        };
        let constructors = match encode_constructors(&self.constructors) {
            Ok(section) => section,
            Err(e) => {
                return Err(e);
            },
        };
        let chunks = match encode_chunks(&self.chunks) {
            Ok(section) => section,
            Err(e) => {
                return Err(e);
            },
        };
        let instructions = match encode_block(&self.instructions) {
            Ok(section) => section,
            Err(e) => {
                return Err(e);
            },
        };
        let mut out: Vec<u8> = vec![0x6fu8, 0x72u8, 0x69u8, 0x6fu8, 0x6eu8];
        put_u32(&mut out, (seconds % 0x1_0000_0000) as u32);
        put_bytes(&mut out, &symbols);
        put_bytes(&mut out, &constants);
        put_bytes(&mut out, &constructors);
        put_bytes(&mut out, &chunks);
        put_bytes(&mut out, &instructions);
        proof {
            assert(out@ =~= self@.image(stamp_of(seconds)));
        }
        Ok(out)
    }

    /// Writes the container as its canonical byte stream, stamped with the
    /// current time. The clock is read first: where it stands before the
    /// Unix epoch the answer is `ClockBeforeEpoch`; otherwise it is what
    /// `serialize_at` gives for some count of seconds.
    pub fn serialize(&self) -> (r: Result<Vec<u8>, EncodeError>)
        ensures
            r == Err::<Vec<u8>, EncodeError>(EncodeError::ClockBeforeEpoch) || match self@.failure() {
                Some(e) => r == Err::<Vec<u8>, EncodeError>(e),
                None => r is Ok && exists|stamp: u32| r->Ok_0@ == self@.image(stamp),
            },
    {
        match unix_seconds() {
            Some(seconds) => self.serialize_at(seconds),
            None => Err(EncodeError::ClockBeforeEpoch),
        }
    }
}

} // verus!
