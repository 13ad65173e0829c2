use rust_spice::components::Resistor;
use rust_spice::parser::parse_resistor;
use rust_spice::units::Quantity;

fn ohms(q: &Quantity) -> f64 {
    let m: f64 = q.digits.parse().unwrap();
    if q.exponent >= 0 {
        m * 10f64.powi(q.exponent as i32)
    } else {
        m / 10f64.powi(-(q.exponent as i32))
    }
}

fn summary(r: Resistor) -> (String, String, f64, String) {
    let v = ohms(&r.value);
    (r.node_1, r.node_2, v, r.identification)
}

#[test]
fn test_resistor_a() {
    let input = "R1 1 2 100";
    assert_eq!(
        parse_resistor(input).map(summary),
        Ok(("1".to_string(), "2".to_string(), 100.0, "1".to_string()))
    );
}

#[test]
fn test_resistor_b() {
    let input = "RA1 1 2 100";
    assert_eq!(
        parse_resistor(input).map(summary),
        Ok(("1".to_string(), "2".to_string(), 100.0, "A1".to_string()))
    );
}

#[test]
fn test_resistor_c() {
    let input = "RA1 1 2 10k";
    assert_eq!(
        parse_resistor(input).map(summary),
        Ok(("1".to_string(), "2".to_string(), 10000.0, "A1".to_string()))
    );
}

#[test]
fn test_resistor_d() {
    let input = "R1 1 2 10M";
    assert_eq!(
        parse_resistor(input).map(summary),
        Ok(("1".to_string(), "2".to_string(), 10_000_000.0, "1".to_string()))
    );
}

#[test]
fn test_resistor_e() {
    let input = "R1 1 2 10M";
    assert_eq!(
        parse_resistor(input).map(summary),
        Ok(("1".to_string(), "2".to_string(), 10_000_000.0, "1".to_string()))
    );
}

#[test]
fn resistor_keeps_exact_digits_and_exponent() {
    assert_eq!(
        parse_resistor("RA1 1 2 10k"),
        Ok(Resistor {
            identification: "A1".to_string(),
            node_1: "1".to_string(),
            node_2: "2".to_string(),
            value: Quantity { digits: "10".to_string(), exponent: 3 },
        })
    );
}
