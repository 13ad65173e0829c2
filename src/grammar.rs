//! The grammar of a component line,
//! `<letter><name> <node> <node> <digits>[<suffix>]`, and its decoding.

use vstd::prelude::*;
use crate::lexer::{CharClass, is_token, run_end, lemma_run_end, lemma_run_end_at, scan_run};
use crate::units::{is_scale, scale_of, suffix_scale, suffix_text, lemma_suffix_text, match_prefix};

verus! {

/// The fields written on a component line.
pub struct LineFields {
    /// The type letter in the first column.
    pub letter: char,
    /// The identification that follows the type letter.
    pub name: Seq<char>,
    pub node_1: Seq<char>,
    pub node_2: Seq<char>,
    /// The digits of the value.
    pub digits: Seq<char>,
    /// The power of ten of the value's unit suffix.
    pub exponent: int,
}

pub open spec fn fields_valid(f: LineFields) -> bool {
    &&& is_token(f.name, CharClass::Alnum)
    &&& is_token(f.node_1, CharClass::Alnum)
    &&& is_token(f.node_2, CharClass::Alnum)
    &&& is_token(f.digits, CharClass::Digit)
    &&& is_scale(f.exponent)
}

/// The separators between the tokens: runs of spaces and tabs.
pub open spec fn separators_valid(w1: Seq<char>, w2: Seq<char>, w3: Seq<char>) -> bool {
    is_token(w1, CharClass::Space) && is_token(w2, CharClass::Space) && is_token(
        w3,
        CharClass::Space,
    )
}

/// The line that writes `f` with the separators `w1`, `w2`, `w3`.
pub open spec fn render(f: LineFields, w1: Seq<char>, w2: Seq<char>, w3: Seq<char>) -> Seq<
    char,
> {
    seq![f.letter] + f.name + w1 + f.node_1 + w2 + f.node_2 + w3 + f.digits + suffix_text(
        f.exponent,
    )
}

/// `s` is a well-formed component line whose fields are `f`.
pub open spec fn line_grammar(s: Seq<char>, f: LineFields) -> bool {
    &&& fields_valid(f)
    &&& exists|w1: Seq<char>, w2: Seq<char>, w3: Seq<char>|
        separators_valid(w1, w2, w3) && s == #[trigger] render(f, w1, w2, w3)
}

/// Decodes a component line token by token, each token being the longest run
/// of its class; on failure, the column at which the line stops matching.
pub open spec fn decode(s: Seq<char>) -> Result<LineFields, nat> {
    let a = run_end(s, 1, CharClass::Alnum);
    let b = run_end(s, a, CharClass::Space);
    let c = run_end(s, b, CharClass::Alnum);
    let d = run_end(s, c, CharClass::Space);
    let e = run_end(s, d, CharClass::Alnum);
    let g = run_end(s, e, CharClass::Space);
    let h = run_end(s, g, CharClass::Digit);
    if s.len() == 0 {
        Err(0)
    } else if a == 1 {
        Err(1)
    } else if b == a {
        Err(a as nat)
    } else if c == b {
        Err(b as nat)
    } else if d == c {
        Err(c as nat)
    } else if e == d {
        Err(d as nat)
    } else if g == e {
        Err(e as nat)
    } else if h == g {
        Err(g as nat)
    } else {
        match suffix_scale(s.subrange(h, s.len() as int)) {
            Some(x) => Ok(
                LineFields {
                    letter: s[0],
                    name: s.subrange(1, a),
                    node_1: s.subrange(b, c),
                    node_2: s.subrange(d, e),
                    digits: s.subrange(g, h),
                    exponent: x,
                },
            ),
            None => Err(
                if scale_of(s[h]) is Some {
                    (h + 1) as nat
                } else {
                    h as nat
                },
            ),
        }
    }
}

proof fn lemma_decode_sound(s: Seq<char>)
    requires
        decode(s) is Ok,
    ensures
        line_grammar(s, decode(s)->Ok_0),
{
    let f = decode(s)->Ok_0;
    let a = run_end(s, 1, CharClass::Alnum);
    let b = run_end(s, a, CharClass::Space);
    let c = run_end(s, b, CharClass::Alnum);
    let d = run_end(s, c, CharClass::Space);
    let e = run_end(s, d, CharClass::Alnum);
    let g = run_end(s, e, CharClass::Space);
    let h = run_end(s, g, CharClass::Digit);
    lemma_run_end(s, 1, CharClass::Alnum);
    lemma_run_end(s, a, CharClass::Space);
    lemma_run_end(s, b, CharClass::Alnum);
    lemma_run_end(s, c, CharClass::Space);
    lemma_run_end(s, d, CharClass::Alnum);
    lemma_run_end(s, e, CharClass::Space);
    lemma_run_end(s, g, CharClass::Digit);
    let sfx = s.subrange(h, s.len() as int);
    lemma_suffix_text(sfx, f.exponent);
    let w1 = s.subrange(a, b);
    let w2 = s.subrange(c, d);
    let w3 = s.subrange(e, g);
    assert(s =~= render(f, w1, w2, w3));
    assert(separators_valid(w1, w2, w3));
}

proof fn lemma_decode_complete(f: LineFields, w1: Seq<char>, w2: Seq<char>, w3: Seq<char>)
    requires
        fields_valid(f),
        separators_valid(w1, w2, w3),
    ensures
        decode(render(f, w1, w2, w3)) == Ok::<LineFields, nat>(f),
{
    let s = render(f, w1, w2, w3);
    let a: int = 1 + f.name.len() as int;
    let b: int = a + w1.len();
    let c: int = b + f.node_1.len();
    let d: int = c + w2.len();
    let e: int = d + f.node_2.len();
    let g: int = e + w3.len();
    let h: int = g + f.digits.len();
    let sfx = suffix_text(f.exponent);
    assert(s.subrange(1, a) =~= f.name);
    assert(s.subrange(a, b) =~= w1);
    assert(s.subrange(b, c) =~= f.node_1);
    assert(s.subrange(c, d) =~= w2);
    assert(s.subrange(d, e) =~= f.node_2);
    assert(s.subrange(e, g) =~= w3);
    assert(s.subrange(g, h) =~= f.digits);
    assert(s.subrange(h, s.len() as int) =~= sfx);
    assert(crate::lexer::in_class(w1[0], CharClass::Space));
    assert(crate::lexer::in_class(f.node_1[0], CharClass::Alnum));
    assert(crate::lexer::in_class(w2[0], CharClass::Space));
    assert(crate::lexer::in_class(f.node_2[0], CharClass::Alnum));
    assert(crate::lexer::in_class(w3[0], CharClass::Space));
    assert(crate::lexer::in_class(f.digits[0], CharClass::Digit));
    assert(s[a] == w1[0]);
    assert(s[b] == f.node_1[0]);
    assert(s[c] == w2[0]);
    assert(s[d] == f.node_2[0]);
    assert(s[e] == w3[0]);
    assert(s[g] == f.digits[0]);
    assert forall|j: int| 1 <= j < a implies #[trigger] crate::lexer::in_class(
        s[j],
        CharClass::Alnum,
    ) by {
        assert(s[j] == s.subrange(1, a)[j - 1]);
    }
    lemma_run_end_at(s, 1, a, CharClass::Alnum);
    assert forall|j: int| a <= j < b implies #[trigger] crate::lexer::in_class(
        s[j],
        CharClass::Space,
    ) by {
        assert(s[j] == s.subrange(a, b)[j - a]);
    }
    lemma_run_end_at(s, a, b, CharClass::Space);
    assert forall|j: int| b <= j < c implies #[trigger] crate::lexer::in_class(
        s[j],
        CharClass::Alnum,
    ) by {
        assert(s[j] == s.subrange(b, c)[j - b]);
    }
    lemma_run_end_at(s, b, c, CharClass::Alnum);
    assert forall|j: int| c <= j < d implies #[trigger] crate::lexer::in_class(
        s[j],
        CharClass::Space,
    ) by {
        assert(s[j] == s.subrange(c, d)[j - c]);
    }
    lemma_run_end_at(s, c, d, CharClass::Space);
    assert forall|j: int| d <= j < e implies #[trigger] crate::lexer::in_class(
        s[j],
        CharClass::Alnum,
    ) by {
        assert(s[j] == s.subrange(d, e)[j - d]);
    }
    lemma_run_end_at(s, d, e, CharClass::Alnum);
    assert forall|j: int| e <= j < g implies #[trigger] crate::lexer::in_class(
        s[j],
        CharClass::Space,
    ) by {
        assert(s[j] == s.subrange(e, g)[j - e]);
    }
    lemma_run_end_at(s, e, g, CharClass::Space);
    assert forall|j: int| g <= j < h implies #[trigger] crate::lexer::in_class(
        s[j],
        CharClass::Digit,
    ) by {
        assert(s[j] == s.subrange(g, h)[j - g]);
    }
    if h < s.len() {
        assert(s[h] == sfx[0]);
    }
    lemma_run_end_at(s, g, h, CharClass::Digit);
    lemma_suffix_text(sfx, f.exponent);
    assert(s[0] == f.letter);
}

/// A line is well-formed with fields `f` exactly when decoding it gives `f`:
/// decoding succeeds on every well-formed line, and a well-formed line has
/// only one reading.
pub proof fn lemma_decode_grammar(s: Seq<char>)
    ensures
        forall|f: LineFields| #[trigger] line_grammar(s, f) <==> decode(s) == Ok::<
            LineFields,
            nat,
        >(f),
{
    assert forall|f: LineFields| #[trigger] line_grammar(s, f) <==> decode(s) == Ok::<
        LineFields,
        nat,
    >(f) by {
        if line_grammar(s, f) {
            let (w1, w2, w3) = choose|w1: Seq<char>, w2: Seq<char>, w3: Seq<char>|
                separators_valid(w1, w2, w3) && s == #[trigger] render(f, w1, w2, w3);
            lemma_decode_complete(f, w1, w2, w3);
        }
        if decode(s) == Ok::<LineFields, nat>(f) {
            lemma_decode_sound(s);
        }
    }
}

/// Where the tokens of a decoded component line begin and end, in characters,
/// and the power of ten of its unit suffix.
pub struct Cuts {
    pub name_end: usize,
    pub node_1_start: usize,
    pub node_1_end: usize,
    pub node_2_start: usize,
    pub node_2_end: usize,
    pub value_start: usize,
    pub digits_end: usize,
    pub exponent: i8,
}

/// The fields that the cuts `k` mark in `s`.
pub open spec fn fields_at(s: Seq<char>, k: Cuts) -> LineFields {
    LineFields {
        letter: s[0],
        name: s.subrange(1, k.name_end as int),
        node_1: s.subrange(k.node_1_start as int, k.node_1_end as int),
        node_2: s.subrange(k.node_2_start as int, k.node_2_end as int),
        digits: s.subrange(k.value_start as int, k.digits_end as int),
        exponent: k.exponent as int,
    }
}

/// Cuts that lie in order inside a line of `len` characters, with the
/// suffix text after the digits.
pub open spec fn cuts_fit(s: Seq<char>, k: Cuts) -> bool {
    &&& 1 < k.name_end < k.node_1_start < k.node_1_end < k.node_2_start
    &&& k.node_2_start < k.node_2_end < k.value_start < k.digits_end <= s.len()
    &&& s.subrange(k.digits_end as int, s.len() as int) == suffix_text(k.exponent as int)
}

/// Decodes the component line `s` of `len` characters into cuts, or gives
/// the column at which it stops matching.
pub fn scan_line(s: &str, len: usize) -> (r: Result<Cuts, usize>)
    requires
        len == s@.len(),
    ensures
        match r {
            Ok(k) => decode(s@) == Ok::<LineFields, nat>(fields_at(s@, k)) && cuts_fit(s@, k),
            Err(c) => decode(s@) == Err::<LineFields, nat>(c as nat),
        },
{
    if len == 0 {
        return Err(0);
    }
    let a = scan_run(s, len, 1, CharClass::Alnum);
    let b = scan_run(s, len, a, CharClass::Space);
    let c = scan_run(s, len, b, CharClass::Alnum);
    let d = scan_run(s, len, c, CharClass::Space);
    let e = scan_run(s, len, d, CharClass::Alnum);
    let g = scan_run(s, len, e, CharClass::Space);
    let h = scan_run(s, len, g, CharClass::Digit);
    proof {
        lemma_run_end(s@, 1, CharClass::Alnum);
        lemma_run_end(s@, a as int, CharClass::Space);
        lemma_run_end(s@, b as int, CharClass::Alnum);
        lemma_run_end(s@, c as int, CharClass::Space);
        lemma_run_end(s@, d as int, CharClass::Alnum);
        lemma_run_end(s@, e as int, CharClass::Space);
        lemma_run_end(s@, g as int, CharClass::Digit);
    }
    if a == 1 {
        return Err(1);
    } else if b == a {
        return Err(a);
    } else if c == b {
        return Err(b);
    } else if d == c {
        return Err(c);
    } else if e == d {
        return Err(d);
    } else if g == e {
        return Err(e);
    } else if h == g {
        return Err(g);
    }
    let ghost sfx = s@.subrange(h as int, len as int);
    let scale = if h == len {
        Some(0i8)
    } else if h + 1 == len {
        assert(sfx.len() == 1 && sfx[0] == s@[h as int]);
        match_prefix(Some(s.get_char(h)))
    } else {
        None
    };
    match scale {
        Some(x) => {
            proof {
                lemma_suffix_text(sfx, x as int);
            }
            Ok(
                Cuts {
                    name_end: a,
                    node_1_start: b,
                    node_1_end: c,
                    node_2_start: d,
                    node_2_end: e,
                    value_start: g,
                    digits_end: h,
                    exponent: x,
                },
            )
        },
        None => {
            if match_prefix(Some(s.get_char(h))).is_some() {
                Err(h + 1)
            } else {
                Err(h)
            }
        },
    }
}

} // verus!
