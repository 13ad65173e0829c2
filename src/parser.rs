//! Parsers for single component lines.

use vstd::prelude::*;
use crate::components::{
    Capacitor, Component, Resistor, VoltageSource, letter_type, type_of_letter,
};
use crate::grammar::{
    LineFields, decode, fields_valid, line_grammar, lemma_decode_grammar, render, scan_line,
    separators_valid,
};
use crate::lexer::{CharClass, run_end, scan_run};
use crate::units::{Quantity, suffix_text};

verus! {

/// A line that does not match its grammar; `column` is the character index
/// at which it stops matching.
#[derive(PartialEq, Eq, Structural, Clone, Copy, Debug)]
pub struct SyntaxError {
    pub column: usize,
}

/// Decoding of a line that must start with the type letter `letter`.
pub open spec fn parse_as(s: Seq<char>, letter: char) -> Result<LineFields, nat> {
    if s.len() > 0 && s[0] == letter {
        decode(s)
    } else {
        Err(0)
    }
}

/// Decoding of a line that must start with a known type letter.
pub open spec fn parse_any(s: Seq<char>) -> Result<LineFields, nat> {
    if s.len() > 0 && type_of_letter(s[0]) is Some {
        decode(s)
    } else {
        Err(0)
    }
}

/// `parse_as` succeeds exactly on the well-formed lines with the given type
/// letter, and gives their fields.
pub proof fn lemma_parse_as_grammar(s: Seq<char>, letter: char)
    ensures
        forall|f: LineFields|
            #![trigger line_grammar(s, f)]
            (line_grammar(s, f) && f.letter == letter) <==> parse_as(s, letter) == Ok::<
                LineFields,
                nat,
            >(f),
{
    lemma_decode_grammar(s);
}

/// Writing a component's fields as a line, with any separators, and parsing
/// that line with the parser for its type letter gives the same fields back:
/// the identification, both nodes, the digits of the value and the power of
/// ten of its suffix, so the value read is the digits times the suffix's scale.
pub proof fn lemma_round_trip(f: LineFields, w1: Seq<char>, w2: Seq<char>, w3: Seq<char>)
    requires
        fields_valid(f),
        separators_valid(w1, w2, w3),
    ensures
        parse_as(render(f, w1, w2, w3), f.letter) == Ok::<LineFields, nat>(f),
{
    let s = render(f, w1, w2, w3);
    lemma_decode_grammar(s);
    assert(line_grammar(s, f));
}

fn piece(s: &str, from: usize, to: usize) -> (r: String)
    requires
        from <= to <= s@.len(),
    ensures
        r@ == s@.subrange(from as int, to as int),
{
    String::from_str(s.substring_char(from, to))
}

/// Splits off the identification that starts `input`: the longest leading
/// run of ASCII letters and digits, which must not be empty. Gives the rest of
/// the input and the identification.
pub fn parse_component_name(input: &str) -> (r: Result<(&str, String), SyntaxError>)
    ensures
        ({
            let n = run_end(input@, 0, CharClass::Alnum);
            match r {
                Ok((rest, name)) => n > 0 && name@ == input@.subrange(0, n) && rest@
                    == input@.subrange(n, input@.len() as int),
                Err(e) => n == 0 && e.column == 0,
            }
        }),
{
    let len = input.unicode_len();
    let n = scan_run(input, len, 0, CharClass::Alnum);
    if n == 0 {
        Err(SyntaxError { column: 0 })
    } else {
        Ok((input.substring_char(n, len), piece(input, 0, n)))
    }
}

/// Parses a component line whose type letter must be `letter`, into its
/// identification, nodes and value.
fn parse_typed(input: &str, letter: char) -> (r: Result<(String, String, String, Quantity), SyntaxError>)
    ensures
        match r {
            Ok((id, n1, n2, v)) => parse_as(input@, letter) == Ok::<LineFields, nat>(
                LineFields {
                    letter,
                    name: id@,
                    node_1: n1@,
                    node_2: n2@,
                    digits: v.digits@,
                    exponent: v.exponent as int,
                },
            ),
            Err(e) => parse_as(input@, letter) == Err::<LineFields, nat>(e.column as nat),
        },
{
    let len = input.unicode_len();
    if len == 0 || input.get_char(0) != letter {
        return Err(SyntaxError { column: 0 });
    }
    match scan_line(input, len) {
        Ok(k) => Ok(
            (
                piece(input, 1, k.name_end),
                piece(input, k.node_1_start, k.node_1_end),
                piece(input, k.node_2_start, k.node_2_end),
                Quantity { digits: piece(input, k.value_start, k.digits_end), exponent: k.exponent },
            ),
        ),
        Err(c) => Err(SyntaxError { column: c }),
    }
}

/// Parses a resistor line `R<id> <node> <node> <digits>[<suffix>]`.
pub fn parse_resistor(input: &str) -> (r: Result<Resistor, SyntaxError>)
    ensures
        match r {
            Ok(x) => parse_as(input@, 'R') == Ok::<LineFields, nat>(x.fields()),
            Err(e) => parse_as(input@, 'R') == Err::<LineFields, nat>(e.column as nat),
        },
        r is Ok <==> exists|f: LineFields| line_grammar(input@, f) && f.letter == 'R',
        r is Ok ==> line_grammar(input@, r->Ok_0.fields()),
{
    let r = match parse_typed(input, 'R') {
        Ok((identification, node_1, node_2, value)) => Ok(
            Resistor { identification, node_1, node_2, value },
        ),
        Err(e) => Err(e),
    };
    proof {
        lemma_parse_as_grammar(input@, 'R');
        if r is Ok {
            assert(line_grammar(input@, r->Ok_0.fields()));
        }
    }
    r
}

/// Parses a capacitor line `C<id> <node> <node> <digits>[<suffix>]`.
pub fn parse_capacitor(input: &str) -> (r: Result<Capacitor, SyntaxError>)
    ensures
        match r {
            Ok(x) => parse_as(input@, 'C') == Ok::<LineFields, nat>(x.fields()),
            Err(e) => parse_as(input@, 'C') == Err::<LineFields, nat>(e.column as nat),
        },
        r is Ok <==> exists|f: LineFields| line_grammar(input@, f) && f.letter == 'C',
        r is Ok ==> line_grammar(input@, r->Ok_0.fields()),
{
    let r = match parse_typed(input, 'C') {
        Ok((identification, node_1, node_2, value)) => Ok(
            Capacitor { identification, node_1, node_2, value },
        ),
        Err(e) => Err(e),
    };
    proof {
        lemma_parse_as_grammar(input@, 'C');
        if r is Ok {
            assert(line_grammar(input@, r->Ok_0.fields()));
        }
    }
    r
}

/// Parses a voltage source line `V<id> <node> <node> <digits>[<suffix>]`.
pub fn parse_voltage_source(input: &str) -> (r: Result<VoltageSource, SyntaxError>)
    ensures
        match r {
            Ok(x) => parse_as(input@, 'V') == Ok::<LineFields, nat>(x.fields()),
            Err(e) => parse_as(input@, 'V') == Err::<LineFields, nat>(e.column as nat),
        },
        r is Ok <==> exists|f: LineFields| line_grammar(input@, f) && f.letter == 'V',
        r is Ok ==> line_grammar(input@, r->Ok_0.fields()),
{
    let r = match parse_typed(input, 'V') {
        Ok((identification, node_1, node_2, value)) => Ok(
            VoltageSource { identification, node_1, node_2, value },
        ),
        Err(e) => Err(e),
    };
    proof {
        lemma_parse_as_grammar(input@, 'V');
        if r is Ok {
            assert(line_grammar(input@, r->Ok_0.fields()));
        }
    }
    r
}

/// Parses a component line of any kind, keeping its value as written.
pub fn components(input: &str) -> (r: Result<Component, SyntaxError>)
    ensures
        match r {
            Ok(c) => parse_any(input@) is Ok && {
                let f = parse_any(input@)->Ok_0;
                &&& type_of_letter(f.letter) == Some(c._type)
                &&& c.name@ == f.name
                &&& c.node_1@ == f.node_1
                &&& c.node_2@ == f.node_2
                &&& c.parameters@ == f.digits + suffix_text(f.exponent)
            },
            Err(e) => parse_any(input@) == Err::<LineFields, nat>(e.column as nat),
        },
{
    let len = input.unicode_len();
    if len == 0 {
        return Err(SyntaxError { column: 0 });
    }
    let kind = match letter_type(input.get_char(0)) {
        Some(t) => t,
        None => {
            return Err(SyntaxError { column: 0 });
        },
    };
    match scan_line(input, len) {
        Ok(k) => {
            assert(input@.subrange(k.value_start as int, len as int) =~= input@.subrange(
                k.value_start as int,
                k.digits_end as int,
            ) + input@.subrange(k.digits_end as int, len as int));
            Ok(
                Component {
                    node_1: piece(input, k.node_1_start, k.node_1_end),
                    node_2: piece(input, k.node_2_start, k.node_2_end),
                    parameters: piece(input, k.value_start, len),
                    _type: kind,
                    name: piece(input, 1, k.name_end),
                },
            )
        },
        Err(c) => Err(SyntaxError { column: c }),
    }
}

} // verus!
