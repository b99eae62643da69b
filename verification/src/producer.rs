//! The producer of HM7044 driver instances: what it says of itself and the
//! properties an instance can be configured with.

use vstd::prelude::*;

verus! {

broadcast use vstd::string::group_string_axioms;

/// Producer of HM7044 driver instances.
pub struct Hm7044 {}

/// A text property of a driver instance, with its description and default.
pub struct StringProp {
    pub name: String,
    pub description: String,
    pub default: String,
}

pub struct StringPropView {
    pub name: Seq<char>,
    pub description: Seq<char>,
    pub default: Seq<char>,
}

impl View for StringProp {
    type V = StringPropView;

    open spec fn view(&self) -> StringPropView {
        StringPropView { name: self.name@, description: self.description@, default: self.default@ }
    }
}

pub open spec fn manufacturer_text() -> Seq<char> {
    seq!['h', 'a', 'm', 'e', 'g']
}

pub open spec fn model_text() -> Seq<char> {
    seq!['H', 'M', '7', '0', '4', '4']
}

pub open spec fn description_text() -> Seq<char> {
    seq![
        'D',
        'r',
        'i',
        'v',
        'e',
        'r',
        ' ',
        'f',
        'o',
        'r',
        ' ',
        'H',
        'M',
        '7',
        '0',
        '4',
        '4',
        ' ',
        'P',
        'o',
        'w',
        'e',
        'r',
        ' ',
        'S',
        'u',
        'p',
        'p',
        'l',
        'y',
    ]
}

/// The description of the serial port property.
pub open spec fn port_prop_description() -> Seq<char> {
    seq![
        'S',
        'e',
        't',
        ' ',
        'i',
        'f',
        ' ',
        'y',
        'o',
        'u',
        ' ',
        'w',
        'a',
        'n',
        't',
        ' ',
        't',
        'o',
        ' ',
        's',
        'e',
        't',
        ' ',
        'a',
        ' ',
        's',
        'p',
        'e',
        'c',
        'i',
        'f',
        'i',
        'c',
        ' ',
        'p',
        'o',
        'r',
        't',
        ' ',
        'n',
        'a',
        'm',
        'e',
        ',',
        ' ',
        'e',
        'l',
        's',
        'e',
        ' ',
        'l',
        'e',
        'a',
        'v',
        'e',
        ' ',
        'e',
        'm',
        'p',
        't',
        'y',
    ]
}

/// The name of the one property: the serial port to use.
pub open spec fn port_prop_name() -> Seq<char> {
    seq!['s', 'e', 'r', 'i', 'a', 'l', '_', 'p', 'o', 'r', 't', '_', 'n', 'a', 'm', 'e']
}

impl Hm7044 {
    /// A new producer, in a box.
    pub fn new() -> (r: Box<Hm7044>)
        ensures
            *r == (Hm7044 {}),
    {
        Box::new(Hm7044 {})
    }

    /// The manufacturer, `hameg`.
    pub fn manufacturer(&self) -> (r: String)
        ensures
            r@ == manufacturer_text(),
    {
        proof {
            reveal_strlit("hameg");
        }
        let r: String = String::from_str("hameg");
        assert(r@ =~= manufacturer_text());
        r
    }

    /// The model, `HM7044`.
    pub fn model(&self) -> (r: String)
        ensures
            r@ == model_text(),
    {
        proof {
            reveal_strlit("HM7044");
        }
        let r: String = String::from_str("HM7044");
        assert(r@ =~= model_text());
        r
    }

    /// The description of the driver.
    pub fn description(&self) -> (r: String)
        ensures
            r@ == description_text(),
    {
        proof {
            reveal_strlit("Driver for HM7044 Power Supply");
        }
        let r: String = String::from_str("Driver for HM7044 Power Supply");
        assert(r@ =~= description_text());
        r
    }

    /// The properties of an instance: only the serial port name, empty by
    /// default, so that the port is found from the USB ids.
    pub fn props(&self) -> (r: Vec<StringProp>)
        ensures
            r@.len() == 1,
            r@[0]@.name == port_prop_name(),
            r@[0]@.default == Seq::<char>::empty(),
            r@[0]@.description == port_prop_description(),
    {
        proof {
            reveal_strlit("serial_port_name");
            reveal_strlit("Set if you want to set a specific port name, else leave empty");
            reveal_strlit("");
        }
        let prop = StringProp {
            name: String::from_str("serial_port_name"),
            description: String::from_str(
                "Set if you want to set a specific port name, else leave empty",
            ),
            default: String::from_str(""),
        };
        assert(prop@.name =~= port_prop_name());
        assert(prop@.description =~= port_prop_description());
        let mut r: Vec<StringProp> = Vec::new();
        r.push(prop);
        r
    }
}

} // verus!
