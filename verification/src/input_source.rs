use vstd::prelude::*;

verus! {

/// The physical input a monitor shows, as MCCS VCP feature 0x60 encodes it.
#[derive(Debug, PartialEq, Eq, Structural, Clone, Copy)]
pub enum MonitorInputSource {
    Vga1,
    Vga2,
    Dvi1,
    Dvi2,
    Hdmi1,
    Hdmi2,
    Dp1,
    Dp2,
    Other(u8),
}

/// The VCP feature code under which monitors report their input source.
pub const FEATURE_CODE_INPUT_SOURCE: u8 = 0x60;

/// The code written to a monitor to select `source`.
pub open spec fn spec_source_code(source: MonitorInputSource) -> u16 {
    match source {
        MonitorInputSource::Vga1 => 0x1,
        MonitorInputSource::Vga2 => 0x2,
        MonitorInputSource::Dvi1 => 0x3,
        MonitorInputSource::Dvi2 => 0x4,
        MonitorInputSource::Hdmi1 => 0xf,
        MonitorInputSource::Hdmi2 => 0x10,
        MonitorInputSource::Dp1 => 0x11,
        MonitorInputSource::Dp2 => 0x12,
        MonitorInputSource::Other(x) => x as u16,
    }
}

/// The source a monitor means when it reports `value`.
pub open spec fn spec_source_of_code(value: u8) -> MonitorInputSource {
    if value == 0x1 {
        MonitorInputSource::Vga1
    } else if value == 0x2 {
        MonitorInputSource::Vga2
    } else if value == 0x3 {
        MonitorInputSource::Dvi1
    } else if value == 0x4 {
        MonitorInputSource::Dvi2
    } else if value == 0xf {
        MonitorInputSource::Dp1
    } else if value == 0x10 {
        MonitorInputSource::Dp2
    } else if value == 0x11 {
        MonitorInputSource::Hdmi1
    } else if value == 0x12 {
        MonitorInputSource::Hdmi2
    } else {
        MonitorInputSource::Other(value)
    }
}

impl MonitorInputSource {
    /// The code that selects this source when written to a monitor.
    pub fn id(&self) -> (code: u16)
        ensures
            code == spec_source_code(*self),
    {
        match self {
            MonitorInputSource::Vga1 => 0x1,
            MonitorInputSource::Vga2 => 0x2,
            MonitorInputSource::Dvi1 => 0x3,
            MonitorInputSource::Dvi2 => 0x4,
            MonitorInputSource::Hdmi1 => 0xf,
            MonitorInputSource::Hdmi2 => 0x10,
            MonitorInputSource::Dp1 => 0x11,
            MonitorInputSource::Dp2 => 0x12,
            MonitorInputSource::Other(x) => *x as u16,
        }
    }
}

impl From<u8> for MonitorInputSource {
    fn from(value: u8) -> (source: Self) {
        match value {
            0x1 => MonitorInputSource::Vga1,
            0x2 => MonitorInputSource::Vga2,
            0x3 => MonitorInputSource::Dvi1,
            0x4 => MonitorInputSource::Dvi2,
            0xf => MonitorInputSource::Dp1,
            0x10 => MonitorInputSource::Dp2,
            0x11 => MonitorInputSource::Hdmi1,
            0x12 => MonitorInputSource::Hdmi2,
            _ => MonitorInputSource::Other(value),
        }
    }
}

impl vstd::std_specs::convert::FromSpecImpl<u8> for MonitorInputSource {
    open spec fn obeys_from_spec() -> bool {
        true
    }

    open spec fn from_spec(v: u8) -> MonitorInputSource {
        spec_source_of_code(v)
    }
}


/// A number as a YAML document holds it.
#[derive(Debug, Clone, Copy, PartialEq, Eq, Structural)]
pub enum YamlNumber {
    /// A number that fits a `u64`.
    Unsigned(u64),
    /// A negative integer.
    Signed(i64),
    /// A number with a fraction or an exponent.
    Float,
}

/// Why a number does not name an input source.
#[derive(Debug, Clone, Copy, PartialEq, Eq, Structural)]
pub enum InputSourceError {
    /// An unsigned number above 255.
    OutOfRange(u64),
    /// A negative number.
    Signed(i64),
    /// A number that is not an integer.
    Float,
}

impl MonitorInputSource {
    /// The source that a number in a configuration names: an unsigned
    /// number up to 255 is read as the code a monitor reports.
    pub fn from_yaml_number(number: YamlNumber) -> (r: Result<MonitorInputSource, InputSourceError>)
        ensures
            match number {
                YamlNumber::Unsigned(n) => if n <= 255 {
                    r == Ok::<_, InputSourceError>(spec_source_of_code(n as u8))
                } else {
                    r == Err::<MonitorInputSource, _>(InputSourceError::OutOfRange(n))
                },
                YamlNumber::Signed(v) => r == Err::<MonitorInputSource, _>(InputSourceError::Signed(v)),
                YamlNumber::Float => r == Err::<MonitorInputSource, _>(InputSourceError::Float),
            },
    {
        match number {
            YamlNumber::Unsigned(n) => {
                if n <= 255 {
                    Ok(MonitorInputSource::from(n as u8))
                } else {
                    Err(InputSourceError::OutOfRange(n))
                }
            },
            YamlNumber::Signed(v) => Err(InputSourceError::Signed(v)),
            YamlNumber::Float => Err(InputSourceError::Float),
        }
    }
}

/// Reading a reported code and writing back the code of what was read
/// gives the same code, for every code but those of the HDMI and
/// DisplayPort inputs (0x0f to 0x12), which are read and written under
/// swapped names.
pub proof fn lemma_code_round_trip(value: u8)
    requires
        !(0x0f <= value <= 0x12),
    ensures
        spec_source_code(spec_source_of_code(value)) == value as u16,
{
}

/// Writing the code of a source and reading it back gives the same source,
/// for every source but the HDMI and DisplayPort inputs and the `Other`
/// codes that name a known input.
pub proof fn lemma_source_round_trip(source: MonitorInputSource)
    requires
        !(source is Hdmi1 || source is Hdmi2 || source is Dp1 || source is Dp2),
        source matches MonitorInputSource::Other(x) ==> !(0x1 <= x <= 0x4 || 0x0f <= x <= 0x12),
    ensures
        spec_source_of_code(spec_source_code(source) as u8) == source,
{
}

} // verus!
