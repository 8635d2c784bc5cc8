//! Ordinals: signed integers that are ordered as the quantities they stand for.

use vstd::prelude::*;

verus! {

/// The weight of the sign bit of a 64-bit sign-and-magnitude word.
pub const SIGN: u64 = 0x8000_0000_0000_0000;

/// Whether the sign bit of `word` is set.
pub open spec fn negative(word: u64) -> bool {
    word >= SIGN
}

/// The 63 low bits of `word`, read as a number.
pub open spec fn magnitude(word: u64) -> int {
    if negative(word) {
        word - SIGN
    } else {
        word as int
    }
}

/// The integer that a sign-and-magnitude word denotes: its magnitude, negated
/// where the sign bit is set. Both zeros denote 0.
pub open spec fn ordinal_spec(word: u64) -> int {
    if negative(word) {
        -magnitude(word)
    } else {
        magnitude(word)
    }
}

/// Turns a sign-and-magnitude word into the ordinal it denotes.
///
/// Words whose magnitudes grow with the quantities they encode (as the
/// binary64 encoding of a number that is not a NaN does) get ordinals that
/// compare as those quantities do, the two zeros being equal.
pub fn ordinal(word: u64) -> (key: i64)
    ensures
        key == ordinal_spec(word),
{
    if word >= SIGN {
        let m: u64 = word - SIGN;
        -(m as i64)
    } else {
        word as i64
    }
}

/// Ordinals order words as sign and magnitude do: a word without sign is
/// above one with sign unless both are zero, two words without sign compare as
/// their magnitudes, two words with sign the other way round.
pub proof fn lemma_ordinal_order(a: u64, b: u64)
    ensures
        !negative(a) && !negative(b) ==> (ordinal_spec(a) <= ordinal_spec(b) <==> magnitude(a)
            <= magnitude(b)),
        negative(a) && negative(b) ==> (ordinal_spec(a) <= ordinal_spec(b) <==> magnitude(a)
            >= magnitude(b)),
        negative(a) && !negative(b) ==> ordinal_spec(a) <= ordinal_spec(b),
        ordinal_spec(a) == ordinal_spec(b) <==> a == b || (magnitude(a) == 0 && magnitude(b) == 0),
{
}

} // verus!
