//! Character classes and maximal runs over the characters of a line.

use vstd::prelude::*;

verus! {

/// The classes of characters that make up the tokens of a component line.
#[derive(PartialEq, Eq, Structural, Clone, Copy, Debug)]
pub enum CharClass {
    /// ASCII letters and digits: identifications and node names.
    Alnum,
    /// Spaces and tabs: the separators between tokens.
    Space,
    /// ASCII decimal digits: numeric literals.
    Digit,
}

pub open spec fn is_ascii_digit(c: char) -> bool {
    '0' <= c && c <= '9'
}

pub open spec fn is_ascii_alnum(c: char) -> bool {
    is_ascii_digit(c) || ('a' <= c && c <= 'z') || ('A' <= c && c <= 'Z')
}

pub open spec fn is_separator(c: char) -> bool {
    c == ' ' || c == '\t'
}

pub open spec fn in_class(c: char, k: CharClass) -> bool {
    match k {
        CharClass::Alnum => is_ascii_alnum(c),
        CharClass::Space => is_separator(c),
        CharClass::Digit => is_ascii_digit(c),
    }
}

/// Every character of `s` is in class `k`.
pub open spec fn all_in_class(s: Seq<char>, k: CharClass) -> bool {
    forall|j: int| 0 <= j < s.len() ==> #[trigger] in_class(s[j], k)
}

/// A non-empty token whose characters all lie in class `k`.
pub open spec fn is_token(s: Seq<char>, k: CharClass) -> bool {
    s.len() > 0 && all_in_class(s, k)
}

/// The end of the longest run of class-`k` characters of `s` that starts at `i`.
pub open spec fn run_end(s: Seq<char>, i: int, k: CharClass) -> int
    decreases s.len() - i,
{
    if i < 0 || i >= s.len() || !in_class(s[i], k) {
        i
    } else {
        run_end(s, i + 1, k)
    }
}

/// What `run_end` is: the run is inside `s`, all in the class, and stops at
/// the end of `s` or at a character outside the class.
pub proof fn lemma_run_end(s: Seq<char>, i: int, k: CharClass)
    requires
        0 <= i <= s.len(),
    ensures
        i <= run_end(s, i, k) <= s.len(),
        forall|j: int| i <= j < run_end(s, i, k) ==> #[trigger] in_class(s[j], k),
        run_end(s, i, k) == s.len() || !in_class(s[run_end(s, i, k)], k),
    decreases s.len() - i,
{
    if i < s.len() && in_class(s[i], k) {
        lemma_run_end(s, i + 1, k);
    }
}

/// A run of class-`k` characters from `i` to `e` that cannot be extended
/// ends exactly at `e`.
pub proof fn lemma_run_end_at(s: Seq<char>, i: int, e: int, k: CharClass)
    requires
        0 <= i <= e <= s.len(),
        forall|j: int| i <= j < e ==> #[trigger] in_class(s[j], k),
        e == s.len() || !in_class(s[e], k),
    ensures
        run_end(s, i, k) == e,
    decreases e - i,
{
    if i < e {
        lemma_run_end_at(s, i + 1, e, k);
    }
}

/// Whether `c` counts as white space around a line: the characters with the
/// Unicode `White_Space` property.
pub open spec fn is_blank(c: char) -> bool {
    ('\u{9}' <= c && c <= '\u{d}') || c == ' ' || c == '\u{85}' || c == '\u{a0}'
        || c == '\u{1680}' || ('\u{2000}' <= c && c <= '\u{200a}') || c == '\u{2028}'
        || c == '\u{2029}' || c == '\u{202f}' || c == '\u{205f}' || c == '\u{3000}'
}

/// Number of blank characters at the start of `s`.
pub open spec fn leading_blanks(s: Seq<char>) -> nat
    decreases s.len(),
{
    if s.len() > 0 && is_blank(s[0]) {
        1 + leading_blanks(s.drop_first())
    } else {
        0
    }
}

/// Number of blank characters at the end of `s`.
pub open spec fn trailing_blanks(s: Seq<char>) -> nat
    decreases s.len(),
{
    if s.len() > 0 && is_blank(s.last()) {
        1 + trailing_blanks(s.drop_last())
    } else {
        0
    }
}

/// `s` without its leading and trailing white space.
pub open spec fn trimmed(s: Seq<char>) -> Seq<char> {
    let lead = leading_blanks(s) as int;
    let rest = s.subrange(lead, s.len() as int);
    rest.subrange(0, rest.len() - trailing_blanks(rest))
}

pub fn char_in_class(c: char, k: CharClass) -> (r: bool)
    ensures
        r == in_class(c, k),
{
    match k {
        CharClass::Alnum => ('0' <= c && c <= '9') || ('a' <= c && c <= 'z') || ('A' <= c
            && c <= 'Z'),
        CharClass::Space => c == ' ' || c == '\t',
        CharClass::Digit => '0' <= c && c <= '9',
    }
}

pub fn char_is_blank(c: char) -> (r: bool)
    ensures
        r == is_blank(c),
{
    ('\u{9}' <= c && c <= '\u{d}') || c == ' ' || c == '\u{85}' || c == '\u{a0}' || c
        == '\u{1680}' || ('\u{2000}' <= c && c <= '\u{200a}') || c == '\u{2028}' || c
        == '\u{2029}' || c == '\u{202f}' || c == '\u{205f}' || c == '\u{3000}'
}

/// Scans the run of class-`k` characters of `s` that starts at `start`.
/// `len` is the number of characters of `s`.
pub fn scan_run(s: &str, len: usize, start: usize, k: CharClass) -> (r: usize)
    requires
        len == s@.len(),
        start <= len,
    ensures
        start <= r <= len,
        r == run_end(s@, start as int, k),
{
    let mut i: usize = start;
    while i < len && char_in_class(s.get_char(i), k)
        invariant
            start <= i <= len,
            len == s@.len(),
            run_end(s@, i as int, k) == run_end(s@, start as int, k),
        decreases len - i,
    {
        i = i + 1;
    }
    i
}

/// Removes the white space at both ends of `s`.
pub fn trim_line(s: &str) -> (r: &str)
    ensures
        r@ == trimmed(s@),
{
    let len = s.unicode_len();
    let mut i: usize = 0;
    assert(s@.subrange(0, len as int) =~= s@);
    while i < len && char_is_blank(s.get_char(i))
        invariant
            i <= len,
            len == s@.len(),
            leading_blanks(s@) == i + leading_blanks(s@.subrange(i as int, len as int)),
        decreases len - i,
    {
        assert(s@.subrange(i as int, len as int).drop_first() =~= s@.subrange(
            i + 1,
            len as int,
        ));
        i = i + 1;
    }
    proof {
        if i < len {
            assert(leading_blanks(s@.subrange(i as int, len as int)) == 0);
        } else {
            assert(s@.subrange(i as int, len as int).len() == 0);
        }
    }
    let rest = s.substring_char(i, len);
    let ghost rv = rest@;
    let mut j: usize = len - i;
    assert(rv.subrange(0, j as int) =~= rv);
    while j > 0 && char_is_blank(rest.get_char(j - 1))
        invariant
            j <= rv.len(),
            rv == rest@,
            rv.len() == len - i,
            trailing_blanks(rv) == (rv.len() - j) + trailing_blanks(rv.subrange(0, j as int)),
        decreases j,
    {
        assert(rv.subrange(0, j as int).drop_last() =~= rv.subrange(0, j - 1));
        j = j - 1;
    }
    proof {
        if j > 0 {
            assert(trailing_blanks(rv.subrange(0, j as int)) == 0);
        }
    }
    rest.substring_char(0, j)
}

} // verus!
