use vstd::prelude::*;

use crate::config::{text_field, ConfigRecord};
use crate::limb::Error;
use crate::port_settings::{port_settings_from_json, spec_port_settings, PortSettings};

verus! {

/// The serial device that a record names, with the settings to open it with.
pub struct SerialConfig {
    pub device: String,
    pub settings: PortSettings,
}

/// Reads the device path (field "device") and the port settings of a serial limb's record.
pub fn serial_config_from_json(config: &ConfigRecord) -> (r: Option<SerialConfig>)
    ensures
        match r {
            Some(s) => text_field(config@, "device"@) == Some(s.device@)
                && spec_port_settings(config@) == Some(s.settings),
            None => text_field(config@, "device"@) is None || spec_port_settings(config@) is None,
        },
{
    let device = match config.text("device") {
        Some(s) => s.to_owned(),
        None => return None,
    };
    match port_settings_from_json(config) {
        Some(settings) => Some(SerialConfig { device, settings }),
        None => None,
    }
}

/// The characters that a byte sequence encodes as UTF-8, where it is valid UTF-8.
pub uninterp spec fn utf8_decoded(bytes: Seq<u8>) -> Option<Seq<char>>;

/// Relies on String::from_utf8: the result depends on the bytes alone.
#[verifier::external_body]
fn decode_utf8(bytes: Vec<u8>) -> (r: Option<String>)
    ensures
        match r {
            Some(s) => utf8_decoded(bytes@) == Some(s@),
            None => utf8_decoded(bytes@) is None,
        },
{
    String::from_utf8(bytes).ok()
}

/// The text of the bytes read from a serial port: a broken limb where they are not UTF-8.
pub fn text_from_bytes(bytes: Vec<u8>) -> (r: Result<String, Error>)
    ensures
        match r {
            Ok(s) => utf8_decoded(bytes@) == Some(s@),
            Err(e) => utf8_decoded(bytes@) is None && e == Error::BrokenLimb,
        },
{
    match decode_utf8(bytes) {
        Some(s) => Ok(s),
        None => Err(Error::BrokenLimb),
    }
}

} // verus!
