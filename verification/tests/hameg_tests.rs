use hameg::error::Hm7044Error;
use hameg::number_text::number_text;
use hameg::output_state::{output_enabled, output_state_words};
use hameg::producer::Hm7044;
use hameg::protocol::{
    check_select_answer, identity_query, push_decimal, read_query, select_answer, select_command,
};
use hameg::scanner::{HamegScanner, SettingValue, UsbSerialPort};
use hameg::status::Hm7044Status;
use hameg::text::{drop_last_char, one_byte_last, split_text};

const GOOD_ANSWER: &str = "01.00V 02.50V 00.00V 12.34V ;0.100A 0.000A 0.000A 0.000A ;CV CC OFF OFF";

fn strings(v: &[&str]) -> Vec<String> {
    v.iter().map(|s| s.to_string()).collect()
}

#[test]
fn split_text_keeps_empty_pieces() {
    assert_eq!(split_text("a;b;;c", ';'), strings(&["a", "b", "", "c"]));
    assert_eq!(split_text("", ';'), strings(&[""]));
    assert_eq!(split_text(";", ';'), strings(&["", ""]));
    assert_eq!(split_text("no separator", ';'), strings(&["no separator"]));
}

#[test]
fn split_then_join_gives_back_the_text() {
    for text in ["a;b;;c", "", ";;", "x;", ";y", "é;ü;ß"] {
        let pieces = split_text(text, ';');
        assert_eq!(pieces.join(";"), text);
        assert!(pieces.iter().all(|p| !p.contains(';')));
    }
}

#[test]
fn split_text_agrees_with_std_split() {
    for text in ["1 2 3 4", " 1 2", "a  b", "", "é ü"] {
        let expected: Vec<String> = text.split(' ').map(|s| s.to_string()).collect();
        assert_eq!(split_text(text, ' '), expected);
    }
}

#[test]
fn one_byte_last_character() {
    assert!(one_byte_last("12.5V"));
    assert!(!one_byte_last(""));
    assert!(!one_byte_last("5µ"));
    assert_eq!(drop_last_char("12.5V"), "12.5");
    assert_eq!(drop_last_char("µV"), "µ");
}

#[test]
fn number_text_follows_the_float_grammar() {
    let accepted = [
        "0", "12.50", "-1e5", "+3.", ".5", "5.", "1E-7", "inf", "-Infinity", "NaN", "nan", "007",
        "1.5e+10",
    ];
    let refused = [
        "", ".", "1e", "1e+", "e5", "1.2.3", " 1", "1 ", "+-1", "infinit", "0x10", "1_0", "--1",
        "1e5.0", "V",
    ];
    for t in accepted {
        assert!(number_text(t), "{t}");
    }
    for t in refused {
        assert!(!number_text(t), "{t}");
    }
}

#[test]
fn number_text_agrees_with_f64_parsing() {
    let samples = [
        "0", "12.50", "-1e5", "+3.", ".5", "5.", "1E-7", "inf", "-Infinity", "NaN", "", ".", "1e",
        "1e+", "e5", "1.2.3", " 1", "+-1", "infinit", "0x10", "1_0", "INF", "+nan", "1e-0", "00.00",
    ];
    for t in samples {
        assert_eq!(number_text(t), t.parse::<f64>().is_ok(), "{t}");
    }
}

#[test]
fn state_words_are_found_case_insensitively() {
    assert_eq!(
        output_state_words("CV CC OFF off cvx"),
        strings(&["CV", "CC", "OFF", "off", "cv"])
    );
    assert_eq!(output_state_words("OFFCV"), strings(&["OFF", "CV"]));
    assert_eq!(output_state_words("OCV"), strings(&["CV"]));
    assert_eq!(output_state_words("CCV"), strings(&["CC"]));
    assert_eq!(output_state_words("nothing here"), Vec::<String>::new());
    assert_eq!(output_state_words("oFf"), strings(&["oFf"]));
}

#[test]
fn only_exact_state_words_are_known() {
    assert_eq!(output_enabled(&"CV".to_string()), Some(true));
    assert_eq!(output_enabled(&"CC".to_string()), Some(true));
    assert_eq!(output_enabled(&"OFF".to_string()), Some(false));
    assert_eq!(output_enabled(&"cv".to_string()), None);
    assert_eq!(output_enabled(&"Off".to_string()), None);
}

#[test]
fn new_status_is_all_zero_and_off() {
    let s = Hm7044Status::new(4);
    assert_eq!(s.channel_number, 4);
    assert_eq!(s.voltages, strings(&["0.0", "0.0", "0.0", "0.0"]));
    assert_eq!(s.enables, vec![false; 4]);
    let empty = Hm7044Status::new(0);
    assert!(empty.voltages.is_empty() && empty.enables.is_empty());
}

#[test]
fn refresh_reads_voltages_and_states() {
    let mut s = Hm7044Status::new(4);
    assert!(!s.refresh_would_fault(GOOD_ANSWER));
    assert!(s.refresh_from_answer(GOOD_ANSWER).is_ok());
    assert_eq!(s.voltages, strings(&["01.00", "02.50", "00.00", "12.34"]));
    assert_eq!(s.enables, vec![true, true, false, false]);
    let volts: Vec<f64> = s.voltages.iter().map(|v| v.parse::<f64>().unwrap()).collect();
    assert_eq!(volts, vec![1.0, 2.5, 0.0, 12.34]);
}

#[test]
fn refresh_follows_fewer_channels() {
    let mut s = Hm7044Status::new(2);
    assert!(s.refresh_from_answer(GOOD_ANSWER).is_ok());
    assert_eq!(s.voltages, strings(&["01.00", "02.50"]));
    assert_eq!(s.enables, vec![true, true]);
}

#[test]
fn refresh_twice_is_refresh_once() {
    for answer in [
        GOOD_ANSWER,
        "01.00V xxV 00.00V 12.34V ;0.1A 0A 0A 0A ;CV CC OFF OFF",
        "01.00V 02.50V 00.00V 12.34V ;0.1A 0A 0A 0A ;CV cv OFF OFF",
    ] {
        let mut once = Hm7044Status::new(4);
        let r1 = once.refresh_from_answer(answer);
        let mut twice = Hm7044Status::new(4);
        let _ = twice.refresh_from_answer(answer);
        let r2 = twice.refresh_from_answer(answer);
        assert_eq!(once.voltages, twice.voltages);
        assert_eq!(once.enables, twice.enables);
        assert_eq!(r1.is_ok(), r2.is_ok());
    }
}

#[test]
fn successful_refresh_forgets_the_old_state() {
    let mut a = Hm7044Status::new(4);
    let mut b = Hm7044Status::new(4);
    assert!(b
        .refresh_from_answer("9V 9V 9V 9V ;1A 1A 1A 1A ;OFF OFF CV CV")
        .is_ok());
    assert!(a.refresh_from_answer(GOOD_ANSWER).is_ok());
    assert!(b.refresh_from_answer(GOOD_ANSWER).is_ok());
    assert_eq!(a.voltages, b.voltages);
    assert_eq!(a.enables, b.enables);
}

#[test]
fn refresh_rejects_wrong_field_count() {
    let mut s = Hm7044Status::new(4);
    let answer = "01.00V 02.50V 00.00V 12.34V ;0.1A 0A 0A 0A";
    assert!(!s.refresh_would_fault(answer));
    match s.refresh_from_answer(answer) {
        Err(Hm7044Error::UnexpectedReadAnswer(a)) => assert_eq!(a, answer),
        _ => panic!("expected an unexpected-answer error"),
    }
    assert_eq!(s.voltages, strings(&["0.0", "0.0", "0.0", "0.0"]));
}

#[test]
fn refresh_rejects_wrong_value_count() {
    let mut s = Hm7044Status::new(4);
    let answer = "01.00V 02.50V 00.00V ;0.1A 0A 0A 0A ;CV CV CV CV";
    match s.refresh_from_answer(answer) {
        Err(Hm7044Error::UnexpectedReadAnswer(a)) => assert_eq!(a, answer),
        _ => panic!("expected an unexpected-answer error"),
    }
}

#[test]
fn refresh_rejects_a_bad_voltage_after_taking_the_ones_before() {
    let mut s = Hm7044Status::new(4);
    let answer = "01.00V 2,5V 00.00V 12.34V ;0.1A 0A 0A 0A ;CV CC OFF OFF";
    assert!(!s.refresh_would_fault(answer));
    match s.refresh_from_answer(answer) {
        Err(Hm7044Error::InvalidVoltage(v)) => assert_eq!(v, "2,5V"),
        _ => panic!("expected an invalid-voltage error"),
    }
    assert_eq!(s.voltages, strings(&["01.00", "0.0", "0.0", "0.0"]));
    assert_eq!(s.enables, vec![false; 4]);
}

#[test]
fn refresh_rejects_an_unknown_state_after_taking_the_ones_before() {
    let mut s = Hm7044Status::new(4);
    let answer = "01.00V 02.50V 00.00V 12.34V ;0.1A 0A 0A 0A ;CV cc OFF OFF";
    match s.refresh_from_answer(answer) {
        Err(Hm7044Error::InvalidOutputState(w)) => assert_eq!(w, "cc"),
        _ => panic!("expected an invalid-state error"),
    }
    assert_eq!(s.voltages, strings(&["01.00", "02.50", "00.00", "12.34"]));
    assert_eq!(s.enables, vec![true, false, false, false]);
}

#[test]
fn refresh_faults_are_detected() {
    let s4 = Hm7044Status::new(4);
    // an empty voltage field
    assert!(s4.refresh_would_fault(";0.1A 0A 0A 0A ;CV CV CV CV"));
    // a voltage field ending in a two-byte character
    assert!(s4.refresh_would_fault("1V 2V 3V 4µ;0.1A 0A 0A 0A ;CV CV CV CV"));
    // an empty voltage value
    assert!(s4.refresh_would_fault("1V  3V 4V ;0.1A 0A 0A 0A ;CV CV CV CV"));
    // too few state words
    assert!(s4.refresh_would_fault(GOOD_ANSWER.trim_end_matches(" OFF OFF")));
    // more channels than values
    let s5 = Hm7044Status::new(5);
    assert!(s5.refresh_would_fault(GOOD_ANSWER));
    // a bad voltage comes before a missing one: an error, not a fault
    assert!(!s5.refresh_would_fault("1V xV 3V 4V ;0.1A 0A 0A 0A ;CV CV CV CV"));
    // an unknown state word comes before a missing one
    assert!(!s4.refresh_would_fault("1V 2V 3V 4V ;0.1A 0A 0A 0A ;cv"));
}

#[test]
fn queries() {
    assert_eq!(identity_query(), "IDN?");
    assert_eq!(read_query(), "READ");
    assert_eq!(select_command(0), "SEL 1\r");
    assert_eq!(select_command(3), "SEL 4\r");
    assert_eq!(select_command(99), "SEL 100\r");
    assert_eq!(select_answer(0), "channel 1 selected\r");
}

#[test]
fn decimal_rendering() {
    for n in [0u64, 7, 10, 42, 1000, u64::MAX] {
        let mut out = String::from(">");
        push_decimal(&mut out, n);
        assert_eq!(out, format!(">{n}"));
    }
}

#[test]
fn select_answer_check() {
    assert!(check_select_answer(1, "channel 2 selected\r").is_ok());
    match check_select_answer(1, "channel 3 selected\r") {
        Err(Hm7044Error::BadSelectAnswer(a)) => assert_eq!(a, "channel 3 selected\r"),
        _ => panic!("expected a bad-select error"),
    }
    assert!(check_select_answer(1, "channel 2 selected").is_err());
    // the confirmation of one channel is refused for every other one
    for a in 0u32..12 {
        for b in 0u32..12 {
            let ans = select_answer(a);
            assert_eq!(check_select_answer(b, &ans).is_ok(), a == b);
        }
    }
}

#[test]
fn scanner_orders_one_request_per_port() {
    let scanner = HamegScanner {};
    assert_eq!(scanner.name(), "Hameg");
    assert!(scanner.scan(None).is_empty());
    let ports = vec![
        UsbSerialPort {
            port_name: "/dev/ttyUSB0".to_string(),
            usb_vid: 0x0416,
            usb_pid: 0x5011,
            usb_serial: "A1".to_string(),
        },
        UsbSerialPort {
            port_name: "/dev/ttyUSB1".to_string(),
            usb_vid: 1,
            usb_pid: 2,
            usb_serial: "B2".to_string(),
        },
    ];
    let orders = scanner.scan(Some(ports));
    assert_eq!(orders.len(), 2);
    assert_eq!(orders[0].dref, "hameg.HM7044");
    assert_eq!(orders[0].name, "TBD");
    let keys: Vec<&str> = orders[1].settings.iter().map(|s| s.key.as_str()).collect();
    assert_eq!(keys, vec!["serial_port_name", "usb_vid", "usb_pid", "usb_serial"]);
    match &orders[1].settings[0].value {
        SettingValue::Text(t) => assert_eq!(t, "/dev/ttyUSB1"),
        _ => panic!("port name is text"),
    }
    match &orders[1].settings[2].value {
        SettingValue::Number(n) => assert_eq!(*n, 2),
        _ => panic!("pid is a number"),
    }
    match &orders[0].settings[3].value {
        SettingValue::Text(t) => assert_eq!(t, "A1"),
        _ => panic!("serial is text"),
    }
}

#[test]
fn scanner_boxed_keeps_the_scanner() {
    let b = HamegScanner {}.boxed();
    assert_eq!(b.name(), "Hameg");
}

#[test]
fn producer_describes_itself() {
    let p = Hm7044::new();
    assert_eq!(p.manufacturer(), "hameg");
    assert_eq!(p.model(), "HM7044");
    assert_eq!(p.description(), "Driver for HM7044 Power Supply");
    let props = p.props();
    assert_eq!(props.len(), 1);
    assert_eq!(props[0].name, "serial_port_name");
    assert_eq!(props[0].default, "");
    assert_eq!(
        props[0].description,
        "Set if you want to set a specific port name, else leave empty"
    );
}

#[test]
fn scanner_default_is_the_empty_scanner() {
    let s = HamegScanner::default();
    assert_eq!(s.boxed().name(), "Hameg");
}
