//! Why an encoding is refused.

use vstd::prelude::*;

verus! {

/// The reasons for which no byte stream is produced.
#[derive(Copy, Clone, Debug, PartialEq, Eq, Structural)]
pub enum EncodeError {
    /// A table has more entries, or an instruction block more bytes, than a
    /// 16-bit prefix can announce.
    CapacityExceeded,
    /// A symbol or a string constant holds a character that does not fit in one byte.
    UnsupportedCharacter,
    /// The system clock stands before the Unix epoch, so there is no second
    /// count to stamp the stream with.
    ClockBeforeEpoch,
}

} // verus!
