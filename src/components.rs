//! The component records that parsed lines produce.

use vstd::prelude::*;
use crate::grammar::LineFields;
use crate::units::Quantity;

verus! {

/// The kinds of two-terminal component, each written with its own type letter.
#[derive(PartialEq, Eq, Structural, Clone, Copy, Debug)]
pub enum ComponentType {
    VoltageSource,
    CurrentSource,
    Resistor,
    Capacitor,
    Inductor,
    Diode,
}

/// The component kind of a type letter.
pub open spec fn type_of_letter(c: char) -> Option<ComponentType> {
    if c == 'V' {
        Some(ComponentType::VoltageSource)
    } else if c == 'I' {
        Some(ComponentType::CurrentSource)
    } else if c == 'R' {
        Some(ComponentType::Resistor)
    } else if c == 'C' {
        Some(ComponentType::Capacitor)
    } else if c == 'L' {
        Some(ComponentType::Inductor)
    } else if c == 'D' {
        Some(ComponentType::Diode)
    } else {
        None
    }
}

pub fn letter_type(c: char) -> (r: Option<ComponentType>)
    ensures
        r == type_of_letter(c),
{
    match c {
        'V' => Some(ComponentType::VoltageSource),
        'I' => Some(ComponentType::CurrentSource),
        'R' => Some(ComponentType::Resistor),
        'C' => Some(ComponentType::Capacitor),
        'L' => Some(ComponentType::Inductor),
        'D' => Some(ComponentType::Diode),
        _ => None,
    }
}

/// A component line of any kind, with its value kept as the text written.
#[derive(Debug, PartialEq)]
pub struct Component {
    pub node_1: String,
    pub node_2: String,
    /// The value as written: digits and an optional unit suffix.
    pub parameters: String,
    pub _type: ComponentType,
    pub name: String,
}

/// A resistor; its value is the resistance in ohms.
#[derive(Debug, PartialEq)]
pub struct Resistor {
    pub identification: String,
    pub node_1: String,
    pub node_2: String,
    pub value: Quantity,
}

/// A capacitor; its value is the capacitance in farads.
#[derive(Debug, PartialEq)]
pub struct Capacitor {
    pub identification: String,
    pub node_1: String,
    pub node_2: String,
    pub value: Quantity,
}

/// An independent voltage source; its value is the voltage in volts.
#[derive(Debug, PartialEq)]
pub struct VoltageSource {
    pub identification: String,
    pub node_1: String,
    pub node_2: String,
    pub value: Quantity,
}

/// The line fields of a component with type letter `letter`.
pub open spec fn fields_of(
    letter: char,
    identification: String,
    node_1: String,
    node_2: String,
    value: Quantity,
) -> LineFields {
    LineFields {
        letter,
        name: identification@,
        node_1: node_1@,
        node_2: node_2@,
        digits: value.digits@,
        exponent: value.exponent as int,
    }
}

impl Resistor {
    pub open spec fn fields(&self) -> LineFields {
        fields_of('R', self.identification, self.node_1, self.node_2, self.value)
    }
}

impl Capacitor {
    pub open spec fn fields(&self) -> LineFields {
        fields_of('C', self.identification, self.node_1, self.node_2, self.value)
    }
}

impl VoltageSource {
    pub open spec fn fields(&self) -> LineFields {
        fields_of('V', self.identification, self.node_1, self.node_2, self.value)
    }
}

} // verus!
