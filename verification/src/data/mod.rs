//! The two trackers that follow the lines of the input stream: the desktops
//! that the window manager reports, and the telemetry of the system.

use vstd::prelude::*;

pub mod desktop;
pub mod system;

pub use self::desktop::{
    desktop_report, desktop_text, desktops_after, desktops_text, flags_of,
    lemma_desktop_report_repeats, lemma_desktops_only_grow, overlaid, parse_status, status_flags, Desktop, WindowManager,
};
pub use self::system::{
    bat_time, battery_reading, battery_reading_from, battery_text, charge_icon, clock_face,
    clock_part, clock_text, core_readings, core_words, cpu_text, frequency_fields,
    frequency_words, gauges, lemma_telemetry_repeats, parse_bat_time, read_battery,
    read_battery_from, slashed, status_of, system_after, system_update, telemetry,
    unknown_system, usage_after, BatStatus, Battery, BatteryView, Cpu, CpuView, DateTime,
    DateTimeView, System, SystemView,
};

verus! {

/// Why a line was refused. A refused line leaves the tracker as it was.
#[derive(Debug, Clone, Copy, PartialEq, Eq, Structural)]
pub enum ParseError {
    /// A telemetry line holds no `=`.
    MissingSeparator,
    /// A delimiter that encloses the data is not there: one of the two `:`
    /// round the list of a desktop report, or the `%` of a battery status.
    MissingDelimiter,
    /// A status code is asked for where the text is empty.
    EmptyStatus,
    /// A number is asked for where the text denotes none that fits.
    NotANumber,
    /// A battery percentage is above one hundred.
    OutOfRange,
}

/// What is wrong with a line that was refused for the reason `error`, in
/// words.
pub open spec fn refusal(error: ParseError) -> Seq<char> {
    match error {
        ParseError::MissingSeparator => "no `=` between key and value"@,
        ParseError::MissingDelimiter => "no delimiter round the data"@,
        ParseError::EmptyStatus => "no status code"@,
        ParseError::NotANumber => "no number where one is needed"@,
        ParseError::OutOfRange => "a percentage above one hundred"@,
    }
}

impl ParseError {
    /// What is wrong with the line, in words.
    pub fn to_string(&self) -> (text: String)
        ensures
            text@ == refusal(*self),
    {
        let text = match self {
            ParseError::MissingSeparator => "no `=` between key and value",
            ParseError::MissingDelimiter => "no delimiter round the data",
            ParseError::EmptyStatus => "no status code",
            ParseError::NotANumber => "no number where one is needed",
            ParseError::OutOfRange => "a percentage above one hundred",
        };
        String::from_str(text)
    }
}

/// A source of lines that follows what its lines report.
pub trait Provider {
    /// Whether `data` is a line of this source.
    fn is_data(&self, data: &str) -> bool;

    /// Takes in the line `data`. A line that is refused changes nothing.
    fn consume(&mut self, data: &str) -> Result<(), ParseError>;
}

/// Whether `line` is a report of the window manager: it begins with `WM`.
pub open spec fn is_desktop_report(line: Seq<char>) -> bool {
    line.len() >= 2 && line[0] == 'W' && line[1] == 'M'
}

pub(crate) fn starts_with_wm(chars: &[char]) -> (b: bool)
    ensures
        b == is_desktop_report(chars@),
{
    chars.len() >= 2 && chars[0] == 'W' && chars[1] == 'M'
}

} // verus!
