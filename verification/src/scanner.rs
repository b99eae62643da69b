//! Discovery of HM7044 instruments: one production order per USB serial port.

use vstd::prelude::*;

verus! {

broadcast use vstd::string::group_string_axioms;

/// Scanner that looks for Hameg instruments behind USB serial ports.
pub struct HamegScanner {}

/// A USB serial port found on the machine.
pub struct UsbSerialPort {
    pub port_name: String,
    pub usb_vid: u16,
    pub usb_pid: u16,
    pub usb_serial: String,
}

/// The value of a setting of a production order.
pub enum SettingValue {
    Text(String),
    Number(u16),
}

/// One named setting of a production order.
pub struct OrderSetting {
    pub key: String,
    pub value: SettingValue,
}

/// A request to produce a driver instance: the driver reference, the
/// instance name, and the settings in the order in which they are added.
pub struct OrderRequest {
    pub dref: String,
    pub name: String,
    pub settings: Vec<OrderSetting>,
}

pub enum SettingValueView {
    Text(Seq<char>),
    Number(u16),
}

pub struct OrderSettingView {
    pub key: Seq<char>,
    pub value: SettingValueView,
}

pub struct OrderRequestView {
    pub dref: Seq<char>,
    pub name: Seq<char>,
    pub settings: Seq<OrderSettingView>,
}

impl View for OrderSetting {
    type V = OrderSettingView;

    open spec fn view(&self) -> OrderSettingView {
        OrderSettingView {
            key: self.key@,
            value: match self.value {
                SettingValue::Text(t) => SettingValueView::Text(t@),
                SettingValue::Number(n) => SettingValueView::Number(n),
            },
        }
    }
}

impl View for OrderRequest {
    type V = OrderRequestView;

    open spec fn view(&self) -> OrderRequestView {
        OrderRequestView {
            dref: self.dref@,
            name: self.name@,
            settings: self.settings@.map_values(|s: OrderSetting| s@),
        }
    }
}

/// The order produced for `port`: driver `hameg.HM7044`, instance `TBD`,
/// with the port name, vendor id, product id and serial number as settings.
pub open spec fn order_for_port(port: UsbSerialPort) -> OrderRequestView {
    OrderRequestView {
        dref: seq!['h', 'a', 'm', 'e', 'g', '.', 'H', 'M', '7', '0', '4', '4'],
        name: seq!['T', 'B', 'D'],
        settings: seq![
            OrderSettingView {
                key: seq![
                    's',
                    'e',
                    'r',
                    'i',
                    'a',
                    'l',
                    '_',
                    'p',
                    'o',
                    'r',
                    't',
                    '_',
                    'n',
                    'a',
                    'm',
                    'e',
                ],
                value: SettingValueView::Text(port.port_name@),
            },
            OrderSettingView {
                key: seq!['u', 's', 'b', '_', 'v', 'i', 'd'],
                value: SettingValueView::Number(port.usb_vid),
            },
            OrderSettingView {
                key: seq!['u', 's', 'b', '_', 'p', 'i', 'd'],
                value: SettingValueView::Number(port.usb_pid),
            },
            OrderSettingView {
                key: seq!['u', 's', 'b', '_', 's', 'e', 'r', 'i', 'a', 'l'],
                value: SettingValueView::Text(port.usb_serial@),
            },
        ],
    }
}

/// Each setting of the order for a port carries the port field that its key
/// names: the port name, the vendor id, the product id and the serial number,
/// under four different keys, for the driver `hameg.HM7044`.
pub proof fn lemma_order_settings_follow_keys(port: UsbSerialPort)
    ensures
        order_for_port(port).dref == seq!['h', 'a', 'm', 'e', 'g', '.', 'H', 'M', '7', '0', '4', '4'],
        order_for_port(port).settings.len() == 4,
        forall|i: int, j: int|
            0 <= i < j < 4 ==> #[trigger] order_for_port(port).settings[i].key
                != #[trigger] order_for_port(port).settings[j].key,
        forall|i: int|
            0 <= i < 4 ==> {
                let st = #[trigger] order_for_port(port).settings[i];
                &&& st.key == seq!['u', 's', 'b', '_', 'v', 'i', 'd'] ==> st.value
                    == SettingValueView::Number(port.usb_vid)
                &&& st.key == seq!['u', 's', 'b', '_', 'p', 'i', 'd'] ==> st.value
                    == SettingValueView::Number(port.usb_pid)
                &&& st.key == seq![
                    's',
                    'e',
                    'r',
                    'i',
                    'a',
                    'l',
                    '_',
                    'p',
                    'o',
                    'r',
                    't',
                    '_',
                    'n',
                    'a',
                    'm',
                    'e',
                ] ==> st.value == SettingValueView::Text(port.port_name@)
                &&& st.key == seq!['u', 's', 'b', '_', 's', 'e', 'r', 'i', 'a', 'l']
                    ==> st.value == SettingValueView::Text(port.usb_serial@)
            },
{
    let o = order_for_port(port);
    let k0 = o.settings[0].key;
    let k1 = o.settings[1].key;
    let k2 = o.settings[2].key;
    let k3 = o.settings[3].key;
    assert(k0.len() == 16 && k1.len() == 7 && k2.len() == 7 && k3.len() == 10);
    assert(k1[4] == 'v' && k2[4] == 'p');
    assert forall|i: int, j: int| 0 <= i < j < 4 implies #[trigger] o.settings[i].key
        != #[trigger] o.settings[j].key by {
        if i == 1 && j == 2 {
            assert(o.settings[i].key[4] != o.settings[j].key[4]);
        }
    }
}

/// The name of the scanner.
pub open spec fn scanner_name() -> Seq<char> {
    seq!['H', 'a', 'm', 'e', 'g']
}

fn text_setting(key: &str, value: String) -> (r: OrderSetting)
    ensures
        r@ == (OrderSettingView { key: key@, value: SettingValueView::Text(value@) }),
{
    OrderSetting { key: key.to_owned(), value: SettingValue::Text(value) }
}

fn number_setting(key: &str, value: u16) -> (r: OrderSetting)
    ensures
        r@ == (OrderSettingView { key: key@, value: SettingValueView::Number(value) }),
{
    OrderSetting { key: key.to_owned(), value: SettingValue::Number(value) }
}

/// The production order for one port.
pub fn order_request(port: &UsbSerialPort) -> (r: OrderRequest)
    ensures
        r@ == order_for_port(*port),
{
    proof {
        reveal_strlit("hameg.HM7044");
        reveal_strlit("TBD");
        reveal_strlit("serial_port_name");
        reveal_strlit("usb_vid");
        reveal_strlit("usb_pid");
        reveal_strlit("usb_serial");
    }
    let mut settings: Vec<OrderSetting> = Vec::new();
    settings.push(text_setting("serial_port_name", port.port_name.clone()));
    settings.push(number_setting("usb_vid", port.usb_vid));
    settings.push(number_setting("usb_pid", port.usb_pid));
    settings.push(text_setting("usb_serial", port.usb_serial.clone()));
    let r = OrderRequest {
        dref: String::from_str("hameg.HM7044"),
        name: String::from_str("TBD"),
        settings,
    };
    assert(r@.dref =~= order_for_port(*port).dref);
    assert(r@.name =~= order_for_port(*port).name);
    assert(r@.settings[0].key =~= order_for_port(*port).settings[0].key);
    assert(r@.settings[1].key =~= order_for_port(*port).settings[1].key);
    assert(r@.settings[2].key =~= order_for_port(*port).settings[2].key);
    assert(r@.settings[3].key =~= order_for_port(*port).settings[3].key);
    assert(r@.settings =~= order_for_port(*port).settings);
    r
}

impl Default for HamegScanner {
    fn default() -> (r: Self)
        ensures
            r == (HamegScanner {}),
    {
        HamegScanner {}
    }
}

impl HamegScanner {
    /// Puts the scanner in a box, unchanged.
    pub fn boxed(self) -> (r: Box<Self>)
        ensures
            *r == self,
    {
        Box::new(self)
    }

    /// The name of the scanner, `Hameg`.
    pub fn name(&self) -> (r: String)
        ensures
            r@ == scanner_name(),
    {
        proof {
            reveal_strlit("Hameg");
        }
        let r: String = String::from_str("Hameg");
        assert(r@ =~= scanner_name());
        r
    }

    /// The production orders for the USB serial ports found, one per port and
    /// in the same order; none when the ports could not be listed.
    pub fn scan(&self, ports: Option<Vec<UsbSerialPort>>) -> (r: Vec<OrderRequest>)
        ensures
            ports is None ==> r@.len() == 0,
            ports matches Some(p) ==> {
                &&& r@.len() == p@.len()
                &&& forall|i: int| 0 <= i < p@.len() ==> #[trigger] r@[i]@ == order_for_port(p@[i])
            },
    {
        let mut orders: Vec<OrderRequest> = Vec::new();
        match ports {
            None => {},
            Some(p) => {
                let mut i: usize = 0;
                while i < p.len()
                    invariant
                        i <= p@.len(),
                        orders@.len() == i,
                        forall|j: int| 0 <= j < i ==> #[trigger] orders@[j]@ == order_for_port(p@[j]),
                    decreases p@.len() - i,
                {
                    orders.push(order_request(&p[i]));
                    i = i + 1;
                }
            },
        }
        orders
    }
}

} // verus!
