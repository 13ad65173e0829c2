use rust_spice::components::Capacitor;
use rust_spice::parser::parse_capacitor;
use rust_spice::units::Quantity;

fn farads(q: &Quantity) -> f64 {
    let m: f64 = q.digits.parse().unwrap();
    if q.exponent >= 0 {
        m * 10f64.powi(q.exponent as i32)
    } else {
        m / 10f64.powi(-(q.exponent as i32))
    }
}

#[test]
fn test_capacitor_a() {
    let input = "C1 1 2 100";
    let c: Capacitor = parse_capacitor(input).unwrap();
    assert_eq!(
        (c.node_1.as_str(), c.node_2.as_str(), farads(&c.value), c.identification.as_str()),
        ("1", "2", 100.0, "1")
    );
}

#[test]
fn capacitor_micro_suffix() {
    let c = parse_capacitor("C2 a b 47u").unwrap();
    assert_eq!(c.value, Quantity { digits: "47".to_string(), exponent: -6 });
    assert_eq!(farads(&c.value), 0.000047);
}

#[test]
fn capacitor_femto_scales_by_ten_to_minus_twelve() {
    let c = parse_capacitor("C3 1 0 5f").unwrap();
    assert_eq!(c.value.exponent, -12);
}
