use rust_spice::components::{Resistor, VoltageSource};
use rust_spice::netlist::{parse_netlist, Analysis, Components, Spice};
use rust_spice::units::Quantity;

fn lines(text: &[&str]) -> Vec<String> {
    text.iter().map(|s| s.to_string()).collect()
}

fn q(digits: &str) -> Quantity {
    Quantity { digits: digits.to_string(), exponent: 0 }
}

#[test]
fn test_parser_voltage_divider() {
    let input = lines(&[
        "voltage divider",
        "V1 in 0 1",
        "R1 in out 1000",
        "R2 out 0 2000",
        ".control",
        "op",
        ".endc",
        ".end",
    ]);
    assert_eq!(
        parse_netlist(&input).unwrap(),
        Spice {
            title: "voltage divider".to_string(),
            components: vec![
                Components::VoltageSource(VoltageSource {
                    identification: "1".to_string(),
                    node_1: "in".to_string(),
                    node_2: "0".to_string(),
                    value: q("1"),
                }),
                Components::Resistor(Resistor {
                    identification: "1".to_string(),
                    node_1: "in".to_string(),
                    node_2: "out".to_string(),
                    value: q("1000"),
                }),
                Components::Resistor(Resistor {
                    identification: "2".to_string(),
                    node_1: "out".to_string(),
                    node_2: "0".to_string(),
                    value: q("2000"),
                })
            ],
            analysis: vec![Analysis::OperatingPoint]
        }
    );
}
