use vstd::prelude::*;

use crate::config::{text_field, unsigned_field, ConfigRecord, RecordView};
use crate::limb::Error;
use crate::text::same_text;

verus! {

/// How a GPIO line drives its output.
#[derive(Clone, Copy, Debug, PartialEq, Eq, Structural)]
pub enum PinType {
    PushPull,
    OpenDrain,
}

/// The GPIO line that a pin limb's record names: a chip device, a line offset on it,
/// and how the line is driven.
pub struct LineConfig {
    pub chip: String,
    pub line: u32,
    pub pin_type: PinType,
}

pub open spec fn spec_pin_type(s: Seq<char>) -> Option<PinType> {
    if s == "push-pull"@ {
        Some(PinType::PushPull)
    } else if s == "open-drain"@ {
        Some(PinType::OpenDrain)
    } else {
        None
    }
}

/// The chip, the line and the pin type that a record gives in its fields "chip",
/// "line" and "pin-type", where all three are present and valid.
pub open spec fn spec_line_config(c: RecordView) -> Option<(Seq<char>, u32, PinType)> {
    match (text_field(c, "chip"@), unsigned_field(c, "line"@), text_field(c, "pin-type"@)) {
        (Some(chip), Some(line), Some(t)) => if line <= u32::MAX && spec_pin_type(t) is Some {
            Some((chip, line as u32, spec_pin_type(t)->0))
        } else {
            None
        },
        _ => None,
    }
}

/// Reads the GPIO line that a pin limb's record names.
pub fn line_config_from_json(config: &ConfigRecord) -> (r: Option<LineConfig>)
    ensures
        match r {
            Some(l) => spec_line_config(config@) == Some((l.chip@, l.line, l.pin_type)),
            None => spec_line_config(config@) is None,
        },
{
    let chip = match config.text("chip") {
        Some(s) => s,
        None => return None,
    };
    let line = match config.unsigned("line") {
        Some(n) => if n <= u32::MAX as u64 {
            n as u32
        } else {
            return None;
        },
        None => return None,
    };
    let pin_type = match config.text("pin-type") {
        Some(s) => if same_text(s, "push-pull") {
            PinType::PushPull
        } else if same_text(s, "open-drain") {
            PinType::OpenDrain
        } else {
            return None;
        },
        None => return None,
    };
    Some(LineConfig { chip: chip.to_owned(), line, pin_type })
}

/// The line level that an output pin is set to: "High" is 1, "Low" is 0, and any
/// other value is invalid.
pub fn level_from_text(value: &str) -> (r: Result<u8, Error>)
    ensures
        r == if value@ == "High"@ {
            Ok::<u8, Error>(1)
        } else if value@ == "Low"@ {
            Ok(0)
        } else {
            Err(Error::InvalidValue)
        },
{
    if same_text(value, "High") {
        Ok(1)
    } else if same_text(value, "Low") {
        Ok(0)
    } else {
        Err(Error::InvalidValue)
    }
}

/// The text of a level read from an input pin: 1 is "High", 0 is "Low", and any other
/// level means the line is broken.
pub fn text_from_level(level: u8) -> (r: Result<String, Error>)
    ensures
        match r {
            Ok(s) => (level == 1 && s@ == "High"@) || (level == 0 && s@ == "Low"@),
            Err(e) => level > 1 && e == Error::BrokenLimb,
        },
{
    match level {
        1 => Ok("High".to_owned()),
        0 => Ok("Low".to_owned()),
        _ => Err(Error::BrokenLimb),
    }
}

} // verus!
