use rust_spice::parser::{parse_capacitor, parse_component_name, parse_resistor, SyntaxError};
use rust_spice::units::{match_prefix, Quantity};

#[test]
fn suffix_scales() {
    assert_eq!(match_prefix(None), Some(0));
    assert_eq!(match_prefix(Some('f')), Some(-12));
    assert_eq!(match_prefix(Some('u')), Some(-6));
    assert_eq!(match_prefix(Some('m')), Some(-3));
    assert_eq!(match_prefix(Some('k')), Some(3));
    assert_eq!(match_prefix(Some('M')), Some(6));
    assert_eq!(match_prefix(Some('G')), Some(9));
    assert_eq!(match_prefix(Some('x')), None);
    assert_eq!(match_prefix(Some('K')), None);
}

#[test]
fn component_name_splits_identification() {
    assert_eq!(
        parse_component_name("A1 1 2 100"),
        Ok((" 1 2 100", "A1".to_string()))
    );
    assert_eq!(parse_component_name(" 1 2"), Err(SyntaxError { column: 0 }));
    assert_eq!(parse_component_name("xyz"), Ok(("", "xyz".to_string())));
}

#[test]
fn missing_fields_are_syntax_errors() {
    assert_eq!(parse_resistor(""), Err(SyntaxError { column: 0 }));
    assert_eq!(parse_resistor("R 1 2 5"), Err(SyntaxError { column: 1 }));
    assert_eq!(parse_resistor("R1"), Err(SyntaxError { column: 2 }));
    assert_eq!(parse_resistor("R1 1"), Err(SyntaxError { column: 4 }));
    assert_eq!(parse_resistor("R1 1 2"), Err(SyntaxError { column: 6 }));
    assert_eq!(parse_resistor("R1 1 2 abc"), Err(SyntaxError { column: 7 }));
}

#[test]
fn wrong_type_letter_is_syntax_error() {
    assert_eq!(parse_resistor("C1 1 2 5"), Err(SyntaxError { column: 0 }));
    assert_eq!(parse_capacitor("R1 1 2 5"), Err(SyntaxError { column: 0 }));
}

#[test]
fn bad_suffix_and_trailing_text_are_syntax_errors() {
    assert_eq!(parse_resistor("R1 1 2 10x"), Err(SyntaxError { column: 9 }));
    assert_eq!(parse_resistor("R1 1 2 10kk"), Err(SyntaxError { column: 10 }));
    assert_eq!(parse_resistor("R1 1 2 10 "), Err(SyntaxError { column: 9 }));
    assert_eq!(parse_resistor("R1 1 2 1.5"), Err(SyntaxError { column: 8 }));
}

#[test]
fn round_trip_with_tabs_and_wide_gaps() {
    let r = parse_resistor("Rload\tn1   n2 \t 470G").unwrap();
    assert_eq!(r.identification, "load");
    assert_eq!(r.node_1, "n1");
    assert_eq!(r.node_2, "n2");
    assert_eq!(r.value, Quantity { digits: "470".to_string(), exponent: 9 });
}

#[test]
fn short_component_is_legal() {
    let r = parse_resistor("R5 n n 0").unwrap();
    assert_eq!(r.node_1, r.node_2);
}
