use vstd::prelude::*;

use crate::config::{text_field, unsigned_field, ConfigRecord};
use crate::text::same_text;

verus! {

#[derive(Clone, Copy, Debug, PartialEq, Eq, Structural)]
pub enum BaudRate {
    Baud110,
    Baud300,
    Baud600,
    Baud1200,
    Baud2400,
    Baud4800,
    Baud9600,
    Baud19200,
    Baud38400,
    Baud57600,
    Baud115200,
    BaudOther(usize),
}

#[derive(Clone, Copy, Debug, PartialEq, Eq, Structural)]
pub enum CharSize {
    Bits5,
    Bits6,
    Bits7,
    Bits8,
}

#[derive(Clone, Copy, Debug, PartialEq, Eq, Structural)]
pub enum Parity {
    ParityNone,
    ParityOdd,
    ParityEven,
}

#[derive(Clone, Copy, Debug, PartialEq, Eq, Structural)]
pub enum StopBits {
    Stop1,
    Stop2,
}

#[derive(Clone, Copy, Debug, PartialEq, Eq, Structural)]
pub enum FlowControl {
    FlowNone,
    FlowSoftware,
    FlowHardware,
}

/// The line settings of a serial port.
#[derive(Clone, Copy, Debug, PartialEq, Eq, Structural)]
pub struct PortSettings {
    pub baud_rate: BaudRate,
    pub char_size: CharSize,
    pub parity: Parity,
    pub stop_bits: StopBits,
    pub flow_control: FlowControl,
}

/// A baud rate given as a number: one of the standard rates, or any other that fits in a `usize`.
pub open spec fn spec_baud_rate(n: u64) -> Option<BaudRate> {
    if n == 110 {
        Some(BaudRate::Baud110)
    } else if n == 300 {
        Some(BaudRate::Baud300)
    } else if n == 600 {
        Some(BaudRate::Baud600)
    } else if n == 1200 {
        Some(BaudRate::Baud1200)
    } else if n == 2400 {
        Some(BaudRate::Baud2400)
    } else if n == 4800 {
        Some(BaudRate::Baud4800)
    } else if n == 9600 {
        Some(BaudRate::Baud9600)
    } else if n == 19200 {
        Some(BaudRate::Baud19200)
    } else if n == 38400 {
        Some(BaudRate::Baud38400)
    } else if n == 57600 {
        Some(BaudRate::Baud57600)
    } else if n == 115200 {
        Some(BaudRate::Baud115200)
    } else if n <= usize::MAX {
        Some(BaudRate::BaudOther(n as usize))
    } else {
        None
    }
}

pub open spec fn spec_char_size(n: u64) -> Option<CharSize> {
    if n == 5 {
        Some(CharSize::Bits5)
    } else if n == 6 {
        Some(CharSize::Bits6)
    } else if n == 7 {
        Some(CharSize::Bits7)
    } else if n == 8 {
        Some(CharSize::Bits8)
    } else {
        None
    }
}

pub open spec fn spec_parity(s: Seq<char>) -> Option<Parity> {
    if s == "none"@ {
        Some(Parity::ParityNone)
    } else if s == "odd"@ {
        Some(Parity::ParityOdd)
    } else if s == "even"@ {
        Some(Parity::ParityEven)
    } else {
        None
    }
}

pub open spec fn spec_stop_bits(n: u64) -> Option<StopBits> {
    if n == 1 {
        Some(StopBits::Stop1)
    } else if n == 2 {
        Some(StopBits::Stop2)
    } else {
        None
    }
}

pub open spec fn spec_flow_control(s: Seq<char>) -> Option<FlowControl> {
    if s == "none"@ {
        Some(FlowControl::FlowNone)
    } else if s == "software"@ {
        Some(FlowControl::FlowSoftware)
    } else if s == "hardware"@ {
        Some(FlowControl::FlowHardware)
    } else {
        None
    }
}

/// Applies `f` to a value that may be missing.
pub open spec fn and_then<A, B>(a: Option<A>, f: spec_fn(A) -> Option<B>) -> Option<B> {
    match a {
        Some(x) => f(x),
        None => None,
    }
}

/// The port settings that a record describes: each of its five fields present and valid.
pub open spec fn spec_port_settings(c: crate::config::RecordView) -> Option<PortSettings> {
    match (
        and_then(unsigned_field(c, "baud-rate"@), |n: u64| spec_baud_rate(n)),
        and_then(unsigned_field(c, "char-size"@), |n: u64| spec_char_size(n)),
        and_then(text_field(c, "parity"@), |s: Seq<char>| spec_parity(s)),
        and_then(unsigned_field(c, "stop-bits"@), |n: u64| spec_stop_bits(n)),
        and_then(text_field(c, "flow-control"@), |s: Seq<char>| spec_flow_control(s)),
    ) {
        (Some(baud_rate), Some(char_size), Some(parity), Some(stop_bits), Some(flow_control)) => Some(
            PortSettings { baud_rate, char_size, parity, stop_bits, flow_control },
        ),
        _ => None,
    }
}

fn baud_rate_of(n: u64) -> (r: Option<BaudRate>)
    ensures
        r == spec_baud_rate(n),
{
    match n {
        110 => Some(BaudRate::Baud110),
        300 => Some(BaudRate::Baud300),
        600 => Some(BaudRate::Baud600),
        1200 => Some(BaudRate::Baud1200),
        2400 => Some(BaudRate::Baud2400),
        4800 => Some(BaudRate::Baud4800),
        9600 => Some(BaudRate::Baud9600),
        19200 => Some(BaudRate::Baud19200),
        38400 => Some(BaudRate::Baud38400),
        57600 => Some(BaudRate::Baud57600),
        115200 => Some(BaudRate::Baud115200),
        m => if m <= usize::MAX as u64 {
            Some(BaudRate::BaudOther(m as usize))
        } else {
            None
        },
    }
}

/// Reads the settings of a serial port from its configuration record: the fields
/// "baud-rate", "char-size", "parity", "stop-bits" and "flow-control".
pub fn port_settings_from_json(config: &ConfigRecord) -> (r: Option<PortSettings>)
    ensures
        r == spec_port_settings(config@),
{
    let baud_rate = match config.unsigned("baud-rate") {
        Some(n) => baud_rate_of(n),
        None => None,
    };
    let char_size = match config.unsigned("char-size") {
        Some(5) => Some(CharSize::Bits5),
        Some(6) => Some(CharSize::Bits6),
        Some(7) => Some(CharSize::Bits7),
        Some(8) => Some(CharSize::Bits8),
        _ => None,
    };
    let parity = match config.text("parity") {
        Some(s) => if same_text(s, "none") {
            Some(Parity::ParityNone)
        } else if same_text(s, "odd") {
            Some(Parity::ParityOdd)
        } else if same_text(s, "even") {
            Some(Parity::ParityEven)
        } else {
            None
        },
        None => None,
    };
    let stop_bits = match config.unsigned("stop-bits") {
        Some(1) => Some(StopBits::Stop1),
        Some(2) => Some(StopBits::Stop2),
        _ => None,
    };
    let flow_control = match config.text("flow-control") {
        Some(s) => if same_text(s, "none") {
            Some(FlowControl::FlowNone)
        } else if same_text(s, "software") {
            Some(FlowControl::FlowSoftware)
        } else if same_text(s, "hardware") {
            Some(FlowControl::FlowHardware)
        } else {
            None
        },
        None => None,
    };
    match (baud_rate, char_size, parity, stop_bits, flow_control) {
        (Some(baud_rate), Some(char_size), Some(parity), Some(stop_bits), Some(flow_control)) => Some(
            PortSettings { baud_rate, char_size, parity, stop_bits, flow_control },
        ),
        _ => None,
    }
}

} // verus!
