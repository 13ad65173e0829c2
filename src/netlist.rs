//! Reading a whole netlist: the title line, component lines, `.control`
//! blocks of analysis directives, and the `.end` terminator.

use vstd::prelude::*;
use crate::components::{Capacitor, Resistor, VoltageSource};
use crate::grammar::LineFields;
use crate::lexer::{trim_line, trimmed};
use crate::parser::{parse_as, parse_capacitor, parse_resistor, parse_voltage_source};

verus! {

/// An analysis requested inside a control block.
#[derive(PartialEq, Eq, Structural, Clone, Copy, Debug)]
pub enum Analysis {
    /// Operating-point analysis, requested by `op`.
    OperatingPoint,
}

/// A parsed component of the kinds a netlist may hold.
#[derive(Debug, PartialEq)]
pub enum Components {
    VoltageSource(VoltageSource),
    Resistor(Resistor),
    Capacitor(Capacitor),
}

impl Components {
    pub open spec fn fields(&self) -> LineFields {
        match self {
            Components::VoltageSource(x) => x.fields(),
            Components::Resistor(x) => x.fields(),
            Components::Capacitor(x) => x.fields(),
        }
    }
}

/// A circuit: its title, its components in line order, and its analyses in
/// line order.
#[derive(Debug, PartialEq)]
pub struct Spice {
    pub title: String,
    pub components: Vec<Components>,
    pub analysis: Vec<Analysis>,
}

/// Why a netlist was refused. `line` counts from 1, the title being line 1;
/// `column` counts characters of the line with its surrounding white space
/// removed, from 0.
#[derive(PartialEq, Eq, Structural, Clone, Copy, Debug)]
pub enum NetlistError {
    /// There is no title line.
    EmptyInput,
    /// A component line does not match its grammar, or a `.control` /
    /// `.endc` marker does not open or close a block.
    SyntaxError { line: usize, column: usize },
    /// A line outside a control block starts with an unknown type letter.
    UnsupportedComponent { line: usize, letter: char },
    /// A line inside a control block is not a known directive.
    UnknownDirective { line: usize },
}

/// Where reading stands after some lines.
pub struct ParseState {
    /// Inside a `.control` block.
    pub inside: bool,
    /// `.end` was read.
    pub done: bool,
    /// The fields of the components read so far.
    pub parts: Seq<LineFields>,
    pub analyses: Seq<Analysis>,
    pub error: Option<NetlistError>,
}

pub open spec fn initial_state() -> ParseState {
    ParseState {
        inside: false,
        done: false,
        parts: Seq::empty(),
        analyses: Seq::empty(),
        error: None,
    }
}

pub open spec fn with_error(st: ParseState, e: NetlistError) -> ParseState {
    ParseState { error: Some(e), ..st }
}

/// The effect of the line `t`, already trimmed, which is line `line` of the
/// netlist.
pub open spec fn apply_line(st: ParseState, t: Seq<char>, line: nat) -> ParseState {
    if t.len() == 0 {
        st
    } else if t == ".control"@ {
        if st.inside {
            with_error(st, NetlistError::SyntaxError { line: line as usize, column: 0 })
        } else {
            ParseState { inside: true, ..st }
        }
    } else if t == ".endc"@ {
        if st.inside {
            ParseState { inside: false, ..st }
        } else {
            with_error(st, NetlistError::SyntaxError { line: line as usize, column: 0 })
        }
    } else if st.inside {
        if t == "op"@ {
            ParseState { analyses: st.analyses.push(Analysis::OperatingPoint), ..st }
        } else if t == "print all"@ {
            st
        } else {
            with_error(st, NetlistError::UnknownDirective { line: line as usize })
        }
    } else if t[0] == 'R' || t[0] == 'C' || t[0] == 'V' {
        match parse_as(t, t[0]) {
            Ok(f) => ParseState { parts: st.parts.push(f), ..st },
            Err(c) => with_error(
                st,
                NetlistError::SyntaxError { line: line as usize, column: c as usize },
            ),
        }
    } else if t == ".end"@ {
        ParseState { done: true, ..st }
    } else {
        with_error(st, NetlistError::UnsupportedComponent { line: line as usize, letter: t[0] })
    }
}

/// The state after the first `n` lines, the title among them. Reading
/// stops at `.end` and at the first error.
pub open spec fn state_after(lines: Seq<Seq<char>>, n: nat) -> ParseState
    decreases n,
{
    if n <= 1 {
        initial_state()
    } else {
        let st = state_after(lines, (n - 1) as nat);
        if st.done || st.error is Some {
            st
        } else {
            apply_line(st, trimmed(lines[n - 1]), n)
        }
    }
}

pub open spec fn texts(lines: Seq<String>) -> Seq<Seq<char>> {
    lines.map_values(|l: String| l@)
}

pub open spec fn parts_of(cs: Seq<Components>) -> Seq<LineFields> {
    cs.map_values(|c: Components| c.fields())
}

/// Once reading has stopped, further lines change nothing.
pub proof fn lemma_stopped(lines: Seq<Seq<char>>, m: nat, n: nat)
    requires
        m <= n,
        state_after(lines, m).done || state_after(lines, m).error is Some,
    ensures
        state_after(lines, n) == state_after(lines, m),
    decreases n - m,
{
    if m < n {
        lemma_stopped(lines, m, (n - 1) as nat);
    }
}

/// Whether `a` and `b` hold the same characters.
fn same_text(a: &str, b: &str) -> (r: bool)
    ensures
        r == (a@ == b@),
{
    let n = a.unicode_len();
    if n != b.unicode_len() {
        return false;
    }
    let mut i: usize = 0;
    while i < n
        invariant
            i <= n,
            n == a@.len(),
            n == b@.len(),
            forall|j: int| 0 <= j < i ==> a@[j] == b@[j],
        decreases n - i,
    {
        if a.get_char(i) != b.get_char(i) {
            return false;
        }
        i = i + 1;
    }
    assert(a@ =~= b@);
    true
}

/// Reads a netlist given as its lines: the first line is the title, taken
/// as it stands; each later line is trimmed, and blank lines are skipped.
/// Outside a control block a line starting with `R`, `C` or `V` is a
/// component, `.end` ends the netlist, and `.control` opens a block; inside
/// one, `op` requests an operating-point analysis, `print all` is accepted
/// and ignored, and `.endc` closes the block. Running out of lines ends the
/// netlist as `.end` would.
pub fn parse_netlist(lines: &Vec<String>) -> (r: Result<Spice, NetlistError>)
    ensures
        lines@.len() == 0 ==> r == Err::<Spice, NetlistError>(NetlistError::EmptyInput),
        lines@.len() > 0 ==> ({
            let st = state_after(texts(lines@), lines@.len());
            match r {
                Ok(sp) => {
                    &&& st.error is None
                    &&& sp.title@ == lines@[0]@
                    &&& parts_of(sp.components@) == st.parts
                    &&& sp.analysis@ == st.analyses
                },
                Err(e) => st.error == Some(e),
            }
        }),
{
    let len = lines.len();
    if len == 0 {
        return Err(NetlistError::EmptyInput);
    }
    let ghost text = texts(lines@);
    let mut components: Vec<Components> = Vec::new();
    let mut analysis: Vec<Analysis> = Vec::new();
    let mut inside = false;
    let mut done = false;
    let mut i: usize = 1;
    assert(parts_of(components@) =~= Seq::<LineFields>::empty());
    while i < len && !done
        invariant
            1 <= i <= len,
            len == lines@.len(),
            text == texts(lines@),
            state_after(text, i as nat) == (ParseState {
                inside,
                done,
                parts: parts_of(components@),
                analyses: analysis@,
                error: None,
            }),
        decreases len - i,
    {
        let t = trim_line(lines[i].as_str());
        assert(text[i as int] == lines@[i as int]@);
        let line = i + 1;
        let mut error: Option<NetlistError> = None;
        let ghost old_components = components@;
        let ghost old_state = state_after(text, i as nat);
        if t.unicode_len() == 0 {
        } else if same_text(t, ".control") {
            if inside {
                error = Some(NetlistError::SyntaxError { line, column: 0 });
            } else {
                inside = true;
            }
        } else if same_text(t, ".endc") {
            if inside {
                inside = false;
            } else {
                error = Some(NetlistError::SyntaxError { line, column: 0 });
            }
        } else if inside {
            if same_text(t, "op") {
                analysis.push(Analysis::OperatingPoint);
            } else if !same_text(t, "print all") {
                error = Some(NetlistError::UnknownDirective { line });
            }
        } else {
            let c = t.get_char(0);
            if c == 'R' {
                match parse_resistor(t) {
                    Ok(x) => components.push(Components::Resistor(x)),
                    Err(e) => error = Some(NetlistError::SyntaxError { line, column: e.column }),
                }
            } else if c == 'C' {
                match parse_capacitor(t) {
                    Ok(x) => components.push(Components::Capacitor(x)),
                    Err(e) => error = Some(NetlistError::SyntaxError { line, column: e.column }),
                }
            } else if c == 'V' {
                match parse_voltage_source(t) {
                    Ok(x) => components.push(Components::VoltageSource(x)),
                    Err(e) => error = Some(NetlistError::SyntaxError { line, column: e.column }),
                }
            } else if same_text(t, ".end") {
                done = true;
            } else {
                error = Some(NetlistError::UnsupportedComponent { line, letter: c });
            }
        }
        proof {
            if components@.len() > old_components.len() {
                let c = components@.last();
                assert(components@ == old_components.push(c));
                assert(parts_of(components@) =~= parts_of(old_components).push(c.fields()));
            } else {
                assert(components@ == old_components);
            }
            assert(state_after(text, (i + 1) as nat) == apply_line(
                old_state,
                trimmed(text[i as int]),
                (i + 1) as nat,
            ));
        }
        assert(state_after(text, (i + 1) as nat) == (ParseState {
            inside,
            done,
            parts: parts_of(components@),
            analyses: analysis@,
            error,
        }));
        if let Some(e) = error {
            proof {
                lemma_stopped(text, (i + 1) as nat, len as nat);
            }
            return Err(e);
        }
        i = i + 1;
    }
    proof {
        if done {
            lemma_stopped(text, i as nat, len as nat);
        }
    }
    Ok(Spice { title: lines[0].clone(), components, analysis })
}

/// Components appear in the order of the lines they come from: each one was
/// parsed from a line of its own, and those lines are in increasing order.
/// The witness gives, for each component read after `n` lines, the index of
/// its line.
pub proof fn lemma_component_order(lines: Seq<Seq<char>>, n: nat) -> (idx: Seq<int>)
    requires
        n <= lines.len(),
    ensures
        idx.len() == state_after(lines, n).parts.len(),
        forall|k: int| 0 <= k < idx.len() ==> 1 <= #[trigger] idx[k] < n,
        forall|k: int, l: int| 0 <= k < l < idx.len() ==> idx[k] < idx[l],
        forall|k: int|
            0 <= k < idx.len() ==> parse_as(trimmed(lines[#[trigger] idx[k]]), trimmed(lines[idx[k]])[0])
                == Ok::<LineFields, nat>(state_after(lines, n).parts[k]),
    decreases n,
{
    if n <= 1 {
        Seq::empty()
    } else {
        let prev = lemma_component_order(lines, (n - 1) as nat);
        let st = state_after(lines, (n - 1) as nat);
        if st.done || st.error is Some {
            prev
        } else if state_after(lines, n).parts.len() == st.parts.len() + 1 {
            let r = prev.push(n - 1);
            assert(state_after(lines, n).parts == st.parts.push(state_after(lines, n).parts.last()));
            r
        } else {
            prev
        }
    }
}

/// Control blocks do not nest: outside a block `.endc` is a syntax error, and
/// inside one `.control` is a syntax error.
pub proof fn lemma_control_nesting(lines: Seq<Seq<char>>, n: nat)
    requires
        1 <= n < lines.len(),
        !state_after(lines, n).done,
        state_after(lines, n).error is None,
        (trimmed(lines[n as int]) == ".endc"@ && !state_after(lines, n).inside) || (trimmed(
            lines[n as int],
        ) == ".control"@ && state_after(lines, n).inside),
    ensures
        state_after(lines, n + 1).error == Some(
            NetlistError::SyntaxError { line: (n + 1) as usize, column: 0 },
        ),
{
    reveal_strlit(".endc");
    reveal_strlit(".control");
}

} // verus!
