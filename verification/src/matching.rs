//! Pattern matches: a scrutinee and the arms tried against it, and the layout
//! of a match table.
//!
//! A match table is the number of matches, then each match. A match is the
//! block of the instructions that compute the scrutinee, the number of arms,
//! then each arm. An arm is its pattern shape followed by the block of the
//! instructions to run.

use vstd::prelude::*;
use crate::error::EncodeError;
use crate::opcode::{block_bytes, block_fits, encode_block, OpCode};
use crate::wire::{be16, put_bytes, put_u16, MAX_FIELD};

verus! {

/// One arm of a match: a pattern shape, and the instructions to run where
/// the scrutinee has that shape. The shape is the front end's own and is
/// held here as the bytes the front end gave it.
#[derive(Clone, Debug)]
pub struct Pattern {
    pub pat: Vec<u8>,
    pub to_exec: Vec<OpCode>,
}

/// A match: the instructions that compute the scrutinee, and the arms, which
/// are tried in order.
#[derive(Clone, Debug)]
pub struct Match {
    pub expression: Vec<OpCode>,
    pub patterns: Vec<Pattern>,
}

/// An arm as a mathematical value.
pub struct PatternView {
    pub pat: Seq<u8>,
    pub to_exec: Seq<OpCode>,
}

impl View for Pattern {
    type V = PatternView;

    open spec fn view(&self) -> PatternView {
        PatternView { pat: self.pat@, to_exec: self.to_exec@ }
    }
}

impl PatternView {
    /// Whether the arm can be written: its instructions must fit a block.
    pub open spec fn fits(self) -> bool {
        block_fits(self.to_exec)
    }

    /// The arm on the wire: the shape's bytes as they are, then the
    /// instructions as a block. Meant for arms that `fits` accepts.
    pub open spec fn encoding(self) -> Seq<u8> {
        self.pat + block_bytes(self.to_exec)
    }
}

/// The arms of a match on the wire, one after the other.
pub open spec fn patterns_bytes(patterns: Seq<PatternView>) -> Seq<u8>
    decreases patterns.len(),
{
    if patterns.len() == 0 {
        Seq::empty()
    } else {
        patterns_bytes(patterns.drop_last()) + patterns.last().encoding()
    }
}

/// Whether every arm can be written.
pub open spec fn patterns_fit(patterns: Seq<PatternView>) -> bool {
    forall|i: int| 0 <= i < patterns.len() ==> (#[trigger] patterns[i]).fits()
}

/// A match as a mathematical value.
pub struct MatchView {
    pub expression: Seq<OpCode>,
    pub patterns: Seq<PatternView>,
}

impl View for Match {
    type V = MatchView;

    open spec fn view(&self) -> MatchView {
        MatchView {
            expression: self.expression@,
            patterns: Seq::new(self.patterns@.len(), |i: int| self.patterns@[i]@),
        }
    }
}

impl MatchView {
    /// Whether the match can be written: the scrutinee's instructions fit a
    /// block, there are no more than 65535 arms, and every arm fits.
    pub open spec fn fits(self) -> bool {
        &&& block_fits(self.expression)
        &&& self.patterns.len() <= MAX_FIELD
        &&& patterns_fit(self.patterns)
    }

    /// The match on the wire: the scrutinee's instructions as a block, the
    /// number of arms, then the arms. Meant for matches that `fits` accepts.
    pub open spec fn encoding(self) -> Seq<u8> {
        block_bytes(self.expression) + be16(self.patterns.len() as u16) + patterns_bytes(
            self.patterns,
        )
    }
}

/// The matches of a match table as mathematical values.
pub open spec fn match_views(matches: Seq<Match>) -> Seq<MatchView> {
    Seq::new(matches.len(), |i: int| matches[i]@)
}

/// The matches of a match table on the wire, one after the other.
pub open spec fn matches_bytes(matches: Seq<MatchView>) -> Seq<u8>
    decreases matches.len(),
{
    if matches.len() == 0 {
        Seq::empty()
    } else {
        matches_bytes(matches.drop_last()) + matches.last().encoding()
    }
}

/// Whether a match table can be written: no more than 65535 matches, each of
/// which fits.
pub open spec fn matches_fit(matches: Seq<MatchView>) -> bool {
    matches.len() <= MAX_FIELD && forall|i: int|
        0 <= i < matches.len() ==> (#[trigger] matches[i]).fits()
}

/// A match table: the number of matches, then the matches.
pub open spec fn matches_section(matches: Seq<MatchView>) -> Seq<u8> {
    be16(matches.len() as u16) + matches_bytes(matches)
}

/// Taking one more arm appends that arm's encoding, and the longer prefix
/// fits where the shorter one and the new arm do.
proof fn lemma_patterns_step(patterns: Seq<PatternView>, i: int)
    requires
        0 <= i < patterns.len(),
    ensures
        patterns_bytes(patterns.take(i + 1)) == patterns_bytes(patterns.take(i))
            + patterns[i].encoding(),
        patterns_fit(patterns.take(i)) && patterns[i].fits() ==> patterns_fit(
            patterns.take(i + 1),
        ),
{
    let next = patterns.take(i + 1);
    assert(next.drop_last() =~= patterns.take(i));
    assert(next.last() == patterns[i]);
    if patterns_fit(patterns.take(i)) && patterns[i].fits() {
        assert forall|k: int| 0 <= k < next.len() implies (#[trigger] next[k]).fits() by {
            if k < i {
                assert(next[k] == patterns.take(i)[k]);
            }
        }
    }
}

/// Taking one more match appends that match's encoding, and every match of
/// the longer prefix fits where those of the shorter one and the new match do.
proof fn lemma_matches_step(matches: Seq<MatchView>, i: int)
    requires
        0 <= i < matches.len(),
    ensures
        matches_bytes(matches.take(i + 1)) == matches_bytes(matches.take(i))
            + matches[i].encoding(),
        matches_fit(matches.take(i)) && matches[i].fits() && i < MAX_FIELD ==> matches_fit(
            matches.take(i + 1),
        ),
{
    let next = matches.take(i + 1);
    assert(next.drop_last() =~= matches.take(i));
    assert(next.last() == matches[i]);
    if matches_fit(matches.take(i)) && matches[i].fits() && i < MAX_FIELD {
        assert forall|k: int| 0 <= k < next.len() implies (#[trigger] next[k]).fits() by {
            if k < i {
                assert(next[k] == matches.take(i)[k]);
            }
        }
    }
}

impl Pattern {
    /// Encodes the arm: the shape's bytes, then the byte length of the
    /// encoded instructions and those instructions. Refused where that
    /// length exceeds 65535.
    pub fn serialize(&self) -> (r: Result<Vec<u8>, EncodeError>)
        ensures
            self@.fits() ==> r is Ok && r->Ok_0@ == self@.encoding(),
            !self@.fits() ==> r == Err::<Vec<u8>, EncodeError>(EncodeError::CapacityExceeded),
    {
        let block = match encode_block(&self.to_exec) {
            Ok(block) => block,
            Err(e) => {
                return Err(e);
            },
        };
        let mut out: Vec<u8> = Vec::new();
        put_bytes(&mut out, &self.pat);
        put_bytes(&mut out, &block);
        Ok(out)
    }
}

impl Match {
    /// Encodes the match: the scrutinee's instructions as a block, the
    /// number of arms, then each arm. Refused where a block's byte length or
    /// the number of arms exceeds 65535.
    pub fn serialize(&self) -> (r: Result<Vec<u8>, EncodeError>)
        ensures
            self@.fits() ==> r is Ok && r->Ok_0@ == self@.encoding(),
            !self@.fits() ==> r == Err::<Vec<u8>, EncodeError>(EncodeError::CapacityExceeded),
    {
        let ghost arms = self@.patterns;
        let mut out = match encode_block(&self.expression) {
            Ok(block) => block,
            Err(e) => {
                return Err(e);
            },
        };
        let n: usize = self.patterns.len();
        if n > MAX_FIELD {
            return Err(EncodeError::CapacityExceeded);
        }
        put_u16(&mut out, n as u16);
        let mut i: usize = 0;
        while i < n
            invariant
                i <= n,
                n == self.patterns@.len(),
                n <= MAX_FIELD,
                arms == self@.patterns,
                block_fits(self.expression@),
                out@ == block_bytes(self.expression@) + be16(n as u16) + patterns_bytes(
                    arms.take(i as int),
                ),
                patterns_fit(arms.take(i as int)),
            decreases n - i,
        {
            match self.patterns[i].serialize() {
                Ok(arm) => put_bytes(&mut out, &arm),
                Err(e) => {
                    assert(!arms[i as int].fits());
                    return Err(e);
                },
            }
            proof {
                lemma_patterns_step(arms, i as int);
            }
            i += 1;
        }
        proof {
            assert(arms.take(i as int) =~= arms);
        }
        Ok(out)
    }
}

/// Encodes a match table: the number of matches, then each match. Refused
/// where there are more than 65535 matches or one of them does not fit.
pub fn encode_matches(matches: &Vec<Match>) -> (r: Result<Vec<u8>, EncodeError>)
    ensures
        matches_fit(match_views(matches@)) ==> r is Ok && r->Ok_0@ == matches_section(
            match_views(matches@),
        ),
        !matches_fit(match_views(matches@)) ==> r == Err::<Vec<u8>, EncodeError>(
            EncodeError::CapacityExceeded,
        ),
{
    let ghost entries = match_views(matches@);
    let n: usize = matches.len();
    if n > MAX_FIELD {
        return Err(EncodeError::CapacityExceeded);
    }
    let mut out: Vec<u8> = Vec::new();
    put_u16(&mut out, n as u16);
    let mut i: usize = 0;
    while i < n
        invariant
            i <= n,
            n == matches@.len(),
            n <= MAX_FIELD,
            entries == match_views(matches@),
            out@ == be16(n as u16) + matches_bytes(entries.take(i as int)),
            matches_fit(entries.take(i as int)),
        decreases n - i,
    {
        match matches[i].serialize() {
            Ok(entry) => put_bytes(&mut out, &entry),
            Err(e) => {
                assert(!entries[i as int].fits());
                return Err(e);
            },
        }
        proof {
            lemma_matches_step(entries, i as int);
        }
        i += 1;
    }
    proof {
        assert(entries.take(i as int) =~= entries);
    }
    Ok(out)
}

} // verus!
