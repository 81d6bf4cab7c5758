use phal::config::{ConfigRecord, ConfigValue};
use phal::limb::Error;
use phal::pin::{level_from_text, line_config_from_json, text_from_level, PinType};
use phal::port_settings::{
    port_settings_from_json, BaudRate, CharSize, FlowControl, Parity, PortSettings, StopBits,
};
use phal::serial::{serial_config_from_json, text_from_bytes};
use phal::text::{path_segments, same_text};

fn record(fields: &[(&str, ConfigValue)]) -> ConfigRecord {
    ConfigRecord {
        fields: fields
            .iter()
            .map(|(k, v)| {
                let v = match v {
                    ConfigValue::Null => ConfigValue::Null,
                    ConfigValue::Bool(b) => ConfigValue::Bool(*b),
                    ConfigValue::Number(n) => ConfigValue::Number(*n),
                    ConfigValue::Text(s) => ConfigValue::Text(s.clone()),
                    ConfigValue::Nested => ConfigValue::Nested,
                };
                (k.to_string(), v)
            })
            .collect(),
    }
}

fn text(s: &str) -> ConfigValue {
    ConfigValue::Text(s.to_string())
}

fn number(n: u64) -> ConfigValue {
    ConfigValue::Number(Some(n))
}

fn serial_record(baud: u64) -> ConfigRecord {
    record(&[
        ("device", text("/dev/ttyS0")),
        ("baud-rate", number(baud)),
        ("char-size", number(8)),
        ("parity", text("even")),
        ("stop-bits", number(2)),
        ("flow-control", text("hardware")),
    ])
}

#[test]
fn port_settings_are_read_from_every_field() {
    let s = port_settings_from_json(&serial_record(9600)).unwrap();
    assert_eq!(
        s,
        PortSettings {
            baud_rate: BaudRate::Baud9600,
            char_size: CharSize::Bits8,
            parity: Parity::ParityEven,
            stop_bits: StopBits::Stop2,
            flow_control: FlowControl::FlowHardware,
        }
    );
    let s = port_settings_from_json(&serial_record(250000)).unwrap();
    assert_eq!(s.baud_rate, BaudRate::BaudOther(250000));
    let s = port_settings_from_json(&serial_record(115200)).unwrap();
    assert_eq!(s.baud_rate, BaudRate::Baud115200);
}

#[test]
fn port_settings_refuse_any_invalid_field() {
    let mut r = serial_record(9600);
    r.fields[2].1 = number(9);
    assert!(port_settings_from_json(&r).is_none());
    let mut r = serial_record(9600);
    r.fields[3].1 = text("mark");
    assert!(port_settings_from_json(&r).is_none());
    let mut r = serial_record(9600);
    r.fields[4].1 = number(3);
    assert!(port_settings_from_json(&r).is_none());
    let mut r = serial_record(9600);
    r.fields[5].1 = text("both");
    assert!(port_settings_from_json(&r).is_none());
    let mut r = serial_record(9600);
    r.fields[1].1 = ConfigValue::Number(None);
    assert!(port_settings_from_json(&r).is_none());
    let mut r = serial_record(9600);
    r.fields.remove(1);
    assert!(port_settings_from_json(&r).is_none());
}

#[test]
fn serial_config_needs_a_device() {
    let c = serial_config_from_json(&serial_record(600)).unwrap();
    assert_eq!(c.device, "/dev/ttyS0");
    assert_eq!(c.settings.baud_rate, BaudRate::Baud600);
    let mut r = serial_record(600);
    r.fields[0].1 = number(1);
    assert!(serial_config_from_json(&r).is_none());
}

#[test]
fn line_config_is_read_from_its_fields() {
    let r = record(&[("chip", text("/dev/gpiochip0")), ("line", number(17)), ("pin-type", text("open-drain"))]);
    let c = line_config_from_json(&r).unwrap();
    assert_eq!(c.chip, "/dev/gpiochip0");
    assert_eq!(c.line, 17);
    assert_eq!(c.pin_type, PinType::OpenDrain);
    let r = record(&[("chip", text("c")), ("line", number(1)), ("pin-type", text("push-pull"))]);
    assert_eq!(line_config_from_json(&r).unwrap().pin_type, PinType::PushPull);
    let r = record(&[("chip", text("c")), ("line", number(1 << 32)), ("pin-type", text("push-pull"))]);
    assert!(line_config_from_json(&r).is_none());
    let r = record(&[("chip", text("c")), ("line", number(1)), ("pin-type", text("other"))]);
    assert!(line_config_from_json(&r).is_none());
}

#[test]
fn first_field_of_a_key_wins() {
    let r = record(&[("k", text("one")), ("k", text("two")), ("n", ConfigValue::Nested)]);
    assert_eq!(r.text("k"), Some("one"));
    assert_eq!(r.text("n"), None);
    assert_eq!(r.unsigned("k"), None);
    assert!(r.get("missing").is_none());
}

#[test]
fn levels_and_their_texts() {
    assert_eq!(level_from_text("High"), Ok(1));
    assert_eq!(level_from_text("Low"), Ok(0));
    assert_eq!(level_from_text("high"), Err(Error::InvalidValue));
    assert_eq!(text_from_level(1), Ok("High".to_string()));
    assert_eq!(text_from_level(0), Ok("Low".to_string()));
    assert_eq!(text_from_level(2), Err(Error::BrokenLimb));
}

#[test]
fn bytes_become_text_when_utf8() {
    assert_eq!(text_from_bytes(vec![0x68, 0xC3, 0xA9]), Ok("hé".to_string()));
    assert_eq!(text_from_bytes(vec![0xFF]), Err(Error::BrokenLimb));
    assert_eq!(text_from_bytes(vec![]), Ok(String::new()));
}

#[test]
fn paths_split_at_slashes() {
    assert_eq!(path_segments("/limb/bar"), vec!["limb".to_string(), "bar".to_string()]);
    assert_eq!(path_segments("//a///b/"), vec!["a".to_string(), "b".to_string()]);
    assert!(path_segments("/").is_empty());
    assert!(path_segments("").is_empty());
    assert_eq!(path_segments("é/ü"), vec!["é".to_string(), "ü".to_string()]);
}

#[test]
fn texts_compare_by_characters() {
    assert!(same_text("abc", "abc"));
    assert!(!same_text("abc", "abd"));
    assert!(!same_text("abc", "ab"));
    assert!(same_text("", ""));
}
