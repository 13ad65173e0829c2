use rust_spice::components::VoltageSource;
use rust_spice::parser::parse_voltage_source;
use rust_spice::units::Quantity;

#[test]
fn test_voltage_source_a() {
    let input = "V1 1 2 100";
    assert_eq!(
        parse_voltage_source(input),
        Ok(VoltageSource {
            node_1: "1".to_string(),
            node_2: "2".to_string(),
            value: Quantity { digits: "100".to_string(), exponent: 0 },
            identification: "1".to_string(),
        })
    );
    let v = parse_voltage_source(input).unwrap();
    assert_eq!(v.value.digits.parse::<f64>().unwrap(), 100.0);
}

#[test]
fn voltage_source_symbolic_nodes() {
    let v = parse_voltage_source("V1 in 0 1").unwrap();
    assert_eq!(v.identification, "1");
    assert_eq!(v.node_1, "in");
    assert_eq!(v.node_2, "0");
    assert_eq!(v.value, Quantity { digits: "1".to_string(), exponent: 0 });
}
