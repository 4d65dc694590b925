//! The instruction set and the byte layout of one instruction.

use vstd::prelude::*;
use crate::error::EncodeError;
use crate::wire::{be16, hi, lo, lemma_be16_injective, put_bytes, put_u16, MAX_FIELD};

verus! {

/// One instruction of the virtual machine, with its operands.
#[derive(Copy, Clone, Debug, PartialEq, Eq, Structural)]
pub enum OpCode {
    /// Push the constant at this index of the constant pool.
    LoadConst(u16),
    /// Push the value bound to the symbol at this index of the symbol table.
    LoadSym(u16),
    /// Pop a callee and this many arguments, and invoke.
    Call(u16),
    /// Invoke the built-in with this id on this many popped arguments.
    Builtin(u8, u8),
    /// Bind a value to a symbol; the second operand counts the instructions
    /// that follow and make up the definition's body.
    Def(u16, u16),
    /// Build a closure over the chunk at this index of the chunk table.
    Lambda(u16),
    /// Build a value of this constructor from this many popped fields.
    Constructor(u16, u16),
    /// Pack this many popped values into a tuple.
    Tuple(u16),
}

impl OpCode {
    /// The tag byte that opens the instruction's encoding.
    pub open spec fn tag(self) -> u8 {
        match self {
            OpCode::LoadConst(_) => 0,
            OpCode::LoadSym(_) => 1,
            OpCode::Call(_) => 2,
            OpCode::Builtin(_, _) => 3,
            OpCode::Def(_, _) => 4,
            OpCode::Lambda(_) => 5,
            OpCode::Constructor(_, _) => 6,
            OpCode::Tuple(_) => 7,
        }
    }

    /// The operands' bytes, in declaration order, each at its own width.
    pub open spec fn operand_bytes(self) -> Seq<u8> {
        match self {
            OpCode::LoadConst(id) => be16(id),
            OpCode::LoadSym(id) => be16(id),
            OpCode::Call(argc) => be16(argc),
            OpCode::Builtin(id, argc) => seq![id, argc],
            OpCode::Def(id, len) => be16(id) + be16(len),
            OpCode::Lambda(id) => be16(id),
            OpCode::Constructor(idx, n) => be16(idx) + be16(n),
            OpCode::Tuple(n) => be16(n),
        }
    }

    /// The instruction's encoding: the tag, then the operands.
    pub open spec fn encoding(self) -> Seq<u8> {
        seq![self.tag()] + self.operand_bytes()
    }

    /// Encodes the instruction as its tag byte followed by its operands.
    pub fn serialize(&self) -> (bytes: Vec<u8>)
        ensures
            bytes@ == self.encoding(),
            bytes@.len() == 3 || bytes@.len() == 5,
    {
        let bytes = match *self {
            OpCode::LoadConst(id) => vec![0u8, hi(id), lo(id)],
            OpCode::LoadSym(id) => vec![1u8, hi(id), lo(id)],
            OpCode::Call(argc) => vec![2u8, hi(argc), lo(argc)],
            OpCode::Builtin(id, argc) => vec![3u8, id, argc],
            OpCode::Def(id, len) => vec![4u8, hi(id), lo(id), hi(len), lo(len)],
            OpCode::Lambda(id) => vec![5u8, hi(id), lo(id)],
            OpCode::Constructor(idx, n) => vec![6u8, hi(idx), lo(idx), hi(n), lo(n)],
            OpCode::Tuple(n) => vec![7u8, hi(n), lo(n)],
        };
        proof {
            assert(bytes@ =~= self.encoding());
        }
        bytes
    }

    /// Two instructions with the same encoding are the same instruction.
    pub proof fn lemma_encoding_injective(a: OpCode, b: OpCode)
        requires
            a.encoding() == b.encoding(),
        ensures
            a == b,
    {
        let ea = a.encoding();
        let eb = b.encoding();
        assert(ea[0] == a.tag() && eb[0] == b.tag());
        assert(ea.len() == eb.len());
        assert(a.operand_bytes() =~= ea.subrange(1, ea.len() as int));
        assert(b.operand_bytes() =~= eb.subrange(1, eb.len() as int));
        match (a, b) {
            (OpCode::LoadConst(x), OpCode::LoadConst(y)) => lemma_be16_injective(x, y),
            (OpCode::LoadSym(x), OpCode::LoadSym(y)) => lemma_be16_injective(x, y),
            (OpCode::Call(x), OpCode::Call(y)) => lemma_be16_injective(x, y),
            (OpCode::Lambda(x), OpCode::Lambda(y)) => lemma_be16_injective(x, y),
            (OpCode::Tuple(x), OpCode::Tuple(y)) => lemma_be16_injective(x, y),
            (OpCode::Builtin(x, p), OpCode::Builtin(y, q)) => {
                assert(a.operand_bytes()[0] == b.operand_bytes()[0]);
                assert(a.operand_bytes()[1] == b.operand_bytes()[1]);
            },
            (OpCode::Def(x, p), OpCode::Def(y, q)) => {
                assert(be16(x) =~= a.operand_bytes().subrange(0, 2));
                assert(be16(y) =~= b.operand_bytes().subrange(0, 2));
                assert(be16(p) =~= a.operand_bytes().subrange(2, 4));
                assert(be16(q) =~= b.operand_bytes().subrange(2, 4));
                lemma_be16_injective(x, y);
                lemma_be16_injective(p, q);
            },
            (OpCode::Constructor(x, p), OpCode::Constructor(y, q)) => {
                assert(be16(x) =~= a.operand_bytes().subrange(0, 2));
                assert(be16(y) =~= b.operand_bytes().subrange(0, 2));
                assert(be16(p) =~= a.operand_bytes().subrange(2, 4));
                assert(be16(q) =~= b.operand_bytes().subrange(2, 4));
                lemma_be16_injective(x, y);
                lemma_be16_injective(p, q);
            },
            _ => {},
        }
    }
}

/// The encodings of a sequence of instructions, one after the other.
pub open spec fn stream_bytes(instrs: Seq<OpCode>) -> Seq<u8>
    decreases instrs.len(),
{
    if instrs.len() == 0 {
        Seq::empty()
    } else {
        stream_bytes(instrs.drop_last()) + instrs.last().encoding()
    }
}

/// Whether the byte length of the instructions' encodings fits a 16-bit prefix.
pub open spec fn block_fits(instrs: Seq<OpCode>) -> bool {
    stream_bytes(instrs).len() <= MAX_FIELD
}

/// An instruction block: the byte length of the encodings as a 16-bit field,
/// then the encodings. Meant for sequences that `block_fits` accepts.
pub open spec fn block_bytes(instrs: Seq<OpCode>) -> Seq<u8> {
    be16(stream_bytes(instrs).len() as u16) + stream_bytes(instrs)
}

/// A prefix of a sequence of instructions encodes to no more bytes than the whole.
pub proof fn lemma_stream_prefix_len(instrs: Seq<OpCode>, n: int)
    requires
        0 <= n <= instrs.len(),
    ensures
        stream_bytes(instrs.take(n)).len() <= stream_bytes(instrs).len(),
    decreases instrs.len(),
{
    if n == instrs.len() {
        assert(instrs.take(n) =~= instrs);
    } else {
        assert(instrs.drop_last().take(n) =~= instrs.take(n));
        lemma_stream_prefix_len(instrs.drop_last(), n);
    }
}

/// Every instruction takes three or five bytes, so a sequence of `n`
/// instructions takes between `3 * n` and `5 * n`.
pub proof fn lemma_stream_len_bounds(instrs: Seq<OpCode>)
    ensures
        3 * instrs.len() <= stream_bytes(instrs).len() <= 5 * instrs.len(),
    decreases instrs.len(),
{
    if instrs.len() > 0 {
        lemma_stream_len_bounds(instrs.drop_last());
    }
}

/// The encodings of a sequence of instructions start with that of the first
/// instruction, and those of the others follow.
pub proof fn lemma_stream_front(instrs: Seq<OpCode>)
    requires
        instrs.len() > 0,
    ensures
        stream_bytes(instrs) == instrs.first().encoding() + stream_bytes(instrs.drop_first()),
    decreases instrs.len(),
{
    let init = instrs.drop_last();
    let rest = instrs.drop_first();
    if instrs.len() == 1 {
        assert(stream_bytes(init) =~= Seq::<u8>::empty());
        assert(stream_bytes(rest) =~= Seq::<u8>::empty());
        assert(stream_bytes(instrs) =~= instrs.first().encoding() + stream_bytes(rest));
    } else {
        lemma_stream_front(init);
        assert(rest.drop_last() =~= init.drop_first());
        assert(rest.last() == instrs.last());
        assert(init.first() == instrs.first());
        assert(stream_bytes(instrs) =~= instrs.first().encoding() + stream_bytes(rest));
    }
}

/// The bytes of a sequence of instructions determine the sequence: no two
/// sequences encode to the same bytes, so a reader that knows the layout
/// recovers exactly what was written.
pub proof fn lemma_stream_injective(a: Seq<OpCode>, b: Seq<OpCode>)
    requires
        stream_bytes(a) == stream_bytes(b),
    ensures
        a == b,
    decreases a.len(),
{
    lemma_stream_len_bounds(a);
    lemma_stream_len_bounds(b);
    if a.len() == 0 {
        assert(a =~= b);
    } else {
        lemma_stream_front(a);
        lemma_stream_front(b);
        let x = a.first();
        let y = b.first();
        let bytes = stream_bytes(a);
        let n = x.encoding().len() as int;
        assert(bytes[0] == x.tag());
        assert(bytes[0] == y.tag());
        assert(y.encoding().len() == n);
        assert(x.encoding() =~= bytes.subrange(0, n));
        assert(y.encoding() =~= bytes.subrange(0, n));
        OpCode::lemma_encoding_injective(x, y);
        assert(stream_bytes(a.drop_first()) =~= bytes.subrange(n, bytes.len() as int));
        assert(stream_bytes(b.drop_first()) =~= bytes.subrange(n, bytes.len() as int));
        lemma_stream_injective(a.drop_first(), b.drop_first());
        assert(a =~= seq![x] + a.drop_first());
        assert(b =~= seq![y] + b.drop_first());
    }
}

/// Encodes a sequence of instructions as a block: the byte length of their
/// encodings, then the encodings. Refused where that length exceeds 65535.
pub fn encode_block(instrs: &Vec<OpCode>) -> (r: Result<Vec<u8>, EncodeError>)
    ensures
        block_fits(instrs@) ==> r is Ok && r->Ok_0@ == block_bytes(instrs@),
        !block_fits(instrs@) ==> r == Err::<Vec<u8>, EncodeError>(EncodeError::CapacityExceeded),
{
    let mut body: Vec<u8> = Vec::new();
    let mut i: usize = 0;
    while i < instrs.len()
        invariant
            i <= instrs.len(),
            body@ == stream_bytes(instrs@.take(i as int)),
            body@.len() <= MAX_FIELD,
        decreases instrs.len() - i,
    {
        let enc = instrs[i].serialize();
        proof {
            assert(instrs@.take(i + 1).drop_last() =~= instrs@.take(i as int));
            assert(instrs@.take(i + 1).last() == instrs@[i as int]);
        }
        if body.len() + enc.len() > MAX_FIELD {
            proof {
                lemma_stream_prefix_len(instrs@, i + 1);
            }
            return Err(EncodeError::CapacityExceeded);
        }
        put_bytes(&mut body, &enc);
        i += 1;
    }
    proof {
        assert(instrs@.take(i as int) =~= instrs@);
    }
    let mut out: Vec<u8> = Vec::new();
    put_u16(&mut out, body.len() as u16);
    put_bytes(&mut out, &body);
    Ok(out)
}

} // verus!
