use rust_spice::netlist::{parse_netlist, Analysis, Components, NetlistError};

fn netlist(text: &[&str]) -> Vec<String> {
    text.iter().map(|s| s.to_string()).collect()
}

fn letters(cs: &[Components]) -> String {
    cs.iter()
        .map(|c| match c {
            Components::Resistor(r) => format!("R{}", r.identification),
            Components::Capacitor(c) => format!("C{}", c.identification),
            Components::VoltageSource(v) => format!("V{}", v.identification),
        })
        .collect::<Vec<_>>()
        .join(",")
}

#[test]
fn unsupported_component_letter() {
    let input = netlist(&["title", "R1 1 2 5", "X1 1 2 5"]);
    assert_eq!(
        parse_netlist(&input),
        Err(NetlistError::UnsupportedComponent { line: 3, letter: 'X' })
    );
}

#[test]
fn empty_input_has_no_title() {
    assert_eq!(parse_netlist(&Vec::new()), Err(NetlistError::EmptyInput));
}

#[test]
fn endc_without_control() {
    let input = netlist(&["title", ".endc", ".end"]);
    assert_eq!(
        parse_netlist(&input),
        Err(NetlistError::SyntaxError { line: 2, column: 0 })
    );
}

#[test]
fn control_blocks_do_not_nest() {
    let input = netlist(&["title", ".control", ".control", ".endc", ".endc"]);
    assert_eq!(
        parse_netlist(&input),
        Err(NetlistError::SyntaxError { line: 3, column: 0 })
    );
}

#[test]
fn unknown_directive_inside_control() {
    let input = netlist(&["title", ".control", "print all", "tran 1n 1u", ".endc"]);
    assert_eq!(
        parse_netlist(&input),
        Err(NetlistError::UnknownDirective { line: 4 })
    );
}

#[test]
fn malformed_component_reports_line_and_column() {
    let input = netlist(&["title", "V1 in 0 1", "R1 1 2"]);
    assert_eq!(
        parse_netlist(&input),
        Err(NetlistError::SyntaxError { line: 3, column: 6 })
    );
}

#[test]
fn components_keep_line_order() {
    let input = netlist(&["t", "R2 a b 1", "V1 a 0 5", "C3 b 0 10u", "R1 a 0 2k", ".end"]);
    let spice = parse_netlist(&input).unwrap();
    assert_eq!(letters(&spice.components), "R2,V1,C3,R1");
}

#[test]
fn blank_lines_and_surrounding_space_are_skipped() {
    let input = netlist(&["  my circuit ", "", "   R1 1 2 5 \t", "  ", ".control", " op ", ".endc"]);
    let spice = parse_netlist(&input).unwrap();
    assert_eq!(spice.title, "  my circuit ");
    assert_eq!(spice.components.len(), 1);
    assert_eq!(spice.analysis, vec![Analysis::OperatingPoint]);
}

#[test]
fn missing_end_is_an_implicit_end() {
    let input = netlist(&["t", "R1 1 2 5"]);
    assert_eq!(parse_netlist(&input).unwrap().components.len(), 1);
}

#[test]
fn lines_after_end_are_not_read() {
    let input = netlist(&["t", "R1 1 2 5", ".end", "X9 garbage"]);
    let spice = parse_netlist(&input).unwrap();
    assert_eq!(letters(&spice.components), "R1");
    assert!(spice.analysis.is_empty());
}

#[test]
fn end_inside_control_is_unknown_directive() {
    let input = netlist(&["t", ".control", ".end"]);
    assert_eq!(
        parse_netlist(&input),
        Err(NetlistError::UnknownDirective { line: 3 })
    );
}

#[test]
fn title_only_gives_empty_circuit() {
    let spice = parse_netlist(&netlist(&["only a title"])).unwrap();
    assert_eq!(spice.title, "only a title");
    assert!(spice.components.is_empty());
    assert!(spice.analysis.is_empty());
}
