//! Engineering-unit suffixes and the exact numeric values they scale.

use vstd::prelude::*;

verus! {

/// The power of ten that a unit suffix character stands for.
///
/// `f` scales by 10^-12 rather than the SI femto (10^-15): netlists written
/// for this reader rely on that factor, so it is kept as it is.
pub open spec fn scale_of(c: char) -> Option<int> {
    if c == 'f' {
        Some(-12)
    } else if c == 'u' {
        Some(-6)
    } else if c == 'm' {
        Some(-3)
    } else if c == 'k' {
        Some(3)
    } else if c == 'M' {
        Some(6)
    } else if c == 'G' {
        Some(9)
    } else {
        None
    }
}

/// The power of ten for an optional suffix: no suffix scales by 10^0.
pub open spec fn prefix_scale(p: Option<char>) -> Option<int> {
    match p {
        None => Some(0),
        Some(c) => scale_of(c),
    }
}

/// The power of ten for the text that follows the digits of a value: empty,
/// or exactly one suffix character.
pub open spec fn suffix_scale(sfx: Seq<char>) -> Option<int> {
    if sfx.len() == 0 {
        Some(0)
    } else if sfx.len() == 1 {
        scale_of(sfx[0])
    } else {
        None
    }
}

/// The exponents that some suffix (or its absence) gives.
pub open spec fn is_scale(e: int) -> bool {
    e == 0 || e == -12 || e == -6 || e == -3 || e == 3 || e == 6 || e == 9
}

/// The suffix text written for exponent `e`.
pub open spec fn suffix_text(e: int) -> Seq<char> {
    if e == -12 {
        seq!['f']
    } else if e == -6 {
        seq!['u']
    } else if e == -3 {
        seq!['m']
    } else if e == 3 {
        seq!['k']
    } else if e == 6 {
        seq!['M']
    } else if e == 9 {
        seq!['G']
    } else {
        Seq::empty()
    }
}

/// Each exponent has exactly one suffix text, and a suffix text names one exponent.
pub proof fn lemma_suffix_text(sfx: Seq<char>, e: int)
    ensures
        suffix_scale(sfx) == Some(e) <==> (is_scale(e) && sfx == suffix_text(e)),
{
    if sfx.len() == 0 {
        assert(sfx =~= Seq::<char>::empty());
    } else if sfx.len() == 1 {
        assert(sfx =~= seq![sfx[0]]);
    }
    if is_scale(e) && sfx == suffix_text(e) {
        assert(suffix_text(e).len() <= 1);
        if e != 0 {
            assert(suffix_text(e).len() == 1);
        }
    }
}

/// An exact value: the decimal number written by `digits`, times ten to the
/// power `exponent`.
#[derive(Debug, PartialEq)]
pub struct Quantity {
    /// The decimal digits of the literal, as written.
    pub digits: String,
    /// The power of ten given by the unit suffix.
    pub exponent: i8,
}

/// Resolves an optional unit suffix to its power of ten; `None` for a
/// character that is not a unit suffix.
pub fn match_prefix(prefix: Option<char>) -> (r: Option<i8>)
    ensures
        match r {
            Some(e) => prefix_scale(prefix) == Some(e as int),
            None => prefix_scale(prefix) is None,
        },
{
    match prefix {
        None => Some(0),
        Some('f') => Some(-12),
        Some('u') => Some(-6),
        Some('m') => Some(-3),
        Some('k') => Some(3),
        Some('M') => Some(6),
        Some('G') => Some(9),
        Some(_) => None,
    }
}

} // verus!
