//! The telemetry of the system: battery, clock and processor.

use vstd::prelude::*;
use vstd::slice::slice_subrange;
use vstd::std_specs::convert::FromSpecImpl;
use crate::data::{is_desktop_report, starts_with_wm, ParseError, Provider};
use crate::format::{utf8, Format, Formatter};
use crate::numeral::{machine_number, padded, parse_usize, push_padded};
use crate::style::{icon_char, Icon};
use crate::text::{
    chars_of, find, find_numeric, first_numeric, push_char, rfind, same_text, split_words,
    string_of, trim, trimmed, words,
};
use crate::util::Error;

verus! {

/// Whether a battery takes or gives charge.
#[derive(Debug, Clone, Copy, PartialEq, Eq, Structural)]
pub enum BatStatus {
    Charging,
    Discharging,
    Full,
    Empty,
    Unknown,
}

/// The status that the code `c` names: `C`, `D`, `F` or `E`; any other
/// character names none, which is `Unknown`.
pub open spec fn status_of(c: char) -> BatStatus {
    if c == 'C' {
        BatStatus::Charging
    } else if c == 'D' {
        BatStatus::Discharging
    } else if c == 'F' {
        BatStatus::Full
    } else if c == 'E' {
        BatStatus::Empty
    } else {
        BatStatus::Unknown
    }
}

impl From<char> for BatStatus {
    fn from(c: char) -> (status: BatStatus) {
        match c {
            'C' => BatStatus::Charging,
            'D' => BatStatus::Discharging,
            'F' => BatStatus::Full,
            'E' => BatStatus::Empty,
            _ => BatStatus::Unknown,
        }
    }
}

impl FromSpecImpl<char> for BatStatus {
    open spec fn obeys_from_spec() -> bool {
        true
    }

    open spec fn from_spec(c: char) -> BatStatus {
        status_of(c)
    }
}

/// What one word of a remaining time adds to the clock text. A word with an
/// `h` adds what stands before its last `h`. A word without `h` but with an
/// `m` adds `:` and what stands before its last `m`, after a `0` where that
/// takes less than two bytes. Any other word adds nothing.
pub open spec fn clock_part(word: Seq<char>) -> Seq<char> {
    match word.index_of_last('h') {
        Some(h) => word.take(h),
        None => match word.index_of_last('m') {
            Some(m) => {
                let minutes = word.take(m);
                if vstd::utf8::encode_utf8(minutes).len() < 2 {
                    seq![':', '0'] + minutes
                } else {
                    seq![':'] + minutes
                }
            },
            None => Seq::empty(),
        },
    }
}

/// What the words `parts` add to the clock text, one after the other.
pub open spec fn clock_text(parts: Seq<Seq<char>>) -> Seq<char>
    decreases parts.len(),
{
    if parts.len() == 0 {
        Seq::empty()
    } else {
        clock_text(parts.drop_last()) + clock_part(parts.last())
    }
}

/// The remaining time that `value` reports, as clock text: `3h 45m` gives
/// `3:45`.
pub open spec fn bat_time(value: Seq<char>) -> Seq<char> {
    clock_text(words(value))
}

fn clock_of(value: &[char]) -> (time: String)
    ensures
        time@ == bat_time(value@),
{
    let parts = split_words(value);
    let ghost all = words(value@);
    let mut time = String::new();
    let mut i: usize = 0;
    while i < parts.len()
        invariant
            i <= parts.len(),
            parts@.len() == all.len(),
            forall|k: int| 0 <= k < parts@.len() ==> (#[trigger] parts@[k])@ == all[k],
            time@ == clock_text(all.take(i as int)),
        decreases parts.len() - i,
    {
        let word = parts[i].as_slice();
        proof {
            assert(all.take(i + 1).drop_last() == all.take(i as int));
            word@.index_of_last_ensures('h');
            word@.index_of_last_ensures('m');
        }
        if let Some(h) = rfind(word, 'h') {
            let hours = string_of(slice_subrange(word, 0, h));
            time.append(hours.as_str());
        } else if let Some(m) = rfind(word, 'm') {
            let minutes = string_of(slice_subrange(word, 0, m));
            time.append(":");
            if minutes.as_str().as_bytes().len() < 2 {
                time.append("0");
            }
            time.append(minutes.as_str());
            proof {
                reveal_strlit(":");
                reveal_strlit("0");
            }
        }
        i += 1;
    }
    assert(all.take(i as int) == all);
    time
}

/// Reads a remaining time, such as `3h 45m`, into clock text, such as
/// `3:45`.
pub fn parse_bat_time(data: &str) -> (time: String)
    ensures
        time@ == bat_time(data@),
{
    let chars = chars_of(data);
    clock_of(chars.as_slice())
}

/// What a battery is known to hold.
pub struct BatteryView {
    /// The charge, in hundredths of the whole.
    pub pct: nat,
    /// The time that remains, as clock text.
    pub time: Seq<char>,
    pub status: BatStatus,
}

/// The battery: its charge, the time that remains, and what it does. The
/// charge is a percentage, so never above one hundred.
#[derive(Debug)]
pub struct Battery {
    pct: usize,
    time: String,
    status: BatStatus,
}

impl View for Battery {
    type V = BatteryView;

    closed spec fn view(&self) -> BatteryView {
        BatteryView { pct: self.pct as nat, time: self.time@, status: self.status }
    }
}

impl Battery {
    #[verifier::type_invariant]
    spec fn in_range(self) -> bool {
        self.pct <= 100
    }

    /// The charge, as a percentage.
    pub fn percentage(&self) -> (pct: usize)
        ensures
            pct == self@.pct,
            pct <= 100,
    {
        proof {
            use_type_invariant(self);
        }
        self.pct
    }

    /// The time that remains, as clock text.
    pub fn time(&self) -> (time: &str)
        ensures
            time@ == self@.time,
    {
        self.time.as_str()
    }

    pub fn status(&self) -> (status: BatStatus)
        ensures
            status == self@.status,
    {
        self.status
    }
}

impl Clone for Battery {
    fn clone(&self) -> (copy: Battery)
        ensures
            copy@ == self@,
    {
        proof {
            use_type_invariant(self);
        }
        Battery { pct: self.pct, time: self.time.clone(), status: self.status }
    }
}

impl Default for Battery {
    /// A battery of which nothing is known yet: no charge, `0:00`, status
    /// unknown.
    fn default() -> (battery: Battery)
        ensures
            battery@ == (BatteryView { pct: 0, time: "0:00"@, status: BatStatus::Unknown }),
    {
        Battery { pct: 0, time: String::from_str("0:00"), status: BatStatus::Unknown }
    }
}

/// What a clock is known to show.
pub struct DateTimeView {
    pub date: Seq<char>,
    pub time: Seq<char>,
}

/// The clock: the date and the time of day, each as the text that was
/// reported.
#[derive(Debug)]
pub struct DateTime {
    date: String,
    time: String,
}

impl View for DateTime {
    type V = DateTimeView;

    closed spec fn view(&self) -> DateTimeView {
        DateTimeView { date: self.date@, time: self.time@ }
    }
}

impl DateTime {
    pub fn date(&self) -> (date: &str)
        ensures
            date@ == self@.date,
    {
        self.date.as_str()
    }

    pub fn time(&self) -> (time: &str)
        ensures
            time@ == self@.time,
    {
        self.time.as_str()
    }
}

impl Clone for DateTime {
    fn clone(&self) -> (copy: DateTime)
        ensures
            copy@ == self@,
    {
        DateTime { date: self.date.clone(), time: self.time.clone() }
    }
}

impl Default for DateTime {
    /// A clock of which nothing is known yet: `Mon Jan 1`, `00:00`.
    fn default() -> (clock: DateTime)
        ensures
            clock@ == (DateTimeView { date: "Mon Jan 1"@, time: "00:00"@ }),
    {
        DateTime { date: String::from_str("Mon Jan 1"), time: String::from_str("00:00") }
    }
}

/// What a processor is known to do.
pub struct CpuView {
    pub temp: nat,
    /// The load of each of the four cores.
    pub usage: Seq<nat>,
}

/// The processor: its temperature and the load of its four cores.
#[derive(Debug, Clone, Copy)]
pub struct Cpu {
    temp: usize,
    usage: [usize; 4],
}

impl View for Cpu {
    type V = CpuView;

    closed spec fn view(&self) -> CpuView {
        CpuView { temp: self.temp as nat, usage: Seq::new(4, |i: int| self.usage@[i] as nat) }
    }
}

impl Cpu {
    pub fn temp(&self) -> (temp: usize)
        ensures
            temp == self@.temp,
    {
        self.temp
    }

    /// The load of each of the four cores.
    pub fn usage(&self) -> (usage: [usize; 4])
        ensures
            self@.usage.len() == 4,
            forall|i: int| 0 <= i < 4 ==> usage@[i] == self@.usage[i],
    {
        self.usage
    }
}

impl Default for Cpu {
    /// A processor of which nothing is known yet: all zero.
    fn default() -> (cpu: Cpu)
        ensures
            cpu@ == (CpuView { temp: 0, usage: seq![0, 0, 0, 0] }),
    {
        let cpu = Cpu { temp: 0, usage: [0, 0, 0, 0] };
        assert(cpu@.usage =~= seq![0, 0, 0, 0]);
        cpu
    }
}

/// The key and the value of the telemetry line `line`: what stands before
/// its first `=` and what stands after it, each without the white space at
/// its ends. A line without `=` has neither.
pub open spec fn telemetry(line: Seq<char>) -> Option<(Seq<char>, Seq<char>)> {
    match line.index_of_first('=') {
        Some(mid) => Some((trimmed(line.take(mid)), trimmed(line.skip(mid + 1)))),
        None => None,
    }
}

/// The status and the charge that the battery status `value` reports, given
/// the index `start` of its first numeral. The first character is the
/// status code. The charge stands between the first numeral and the last
/// `%`, white space at its ends apart, and is a percentage.
pub open spec fn battery_reading_from(value: Seq<char>, start: Option<int>) -> Result<
    (BatStatus, nat),
    ParseError,
> {
    if value.len() == 0 {
        Err(ParseError::EmptyStatus)
    } else {
        match start {
            None => Err(ParseError::NotANumber),
            Some(start) => match value.index_of_last('%') {
                None => Err(ParseError::MissingDelimiter),
                Some(end) => if start > end {
                    Err(ParseError::NotANumber)
                } else {
                    match machine_number(trimmed(value.subrange(start, end))) {
                        None => Err(ParseError::NotANumber),
                        Some(pct) => if pct > 100 {
                            Err(ParseError::OutOfRange)
                        } else {
                            Ok((status_of(value[0]), pct))
                        },
                    }
                },
            },
        }
    }
}

/// The status and the charge that the battery status `value` reports.
pub open spec fn battery_reading(value: Seq<char>) -> Result<(BatStatus, nat), ParseError> {
    battery_reading_from(value, first_numeric(value))
}

/// The words of `value` that report the load of a core: the first four, or
/// all where there are fewer.
pub open spec fn core_words(value: Seq<char>) -> Seq<Seq<char>> {
    let all = words(value);
    if all.len() < 4 {
        all
    } else {
        all.take(4)
    }
}

/// The loads that `value` reports, core by core, or `None` where one of its
/// [`core_words`] denotes no number that fits.
pub open spec fn core_readings(value: Seq<char>) -> Option<Seq<nat>> {
    let first = core_words(value);
    if forall|i: int| 0 <= i < first.len() ==> machine_number(#[trigger] first[i]) is Some {
        Some(Seq::new(first.len(), |i: int| machine_number(first[i])->Some_0))
    } else {
        None
    }
}

/// The words of the telemetry line `line` that report the frequency of a
/// core: the [`core_words`] of its value where its key is `CPU_FREQ`, and
/// none for any other line.
pub open spec fn frequency_words(line: Seq<char>) -> Option<Seq<Seq<char>>> {
    match telemetry(line) {
        Some((key, value)) => if key == "CPU_FREQ"@ {
            Some(core_words(value))
        } else {
            None
        },
        None => None,
    }
}

/// The loads `usage` after the report `readings`: each core that the report
/// covers takes its reading, the others keep theirs.
pub open spec fn usage_after(usage: Seq<nat>, readings: Seq<nat>) -> Seq<nat> {
    Seq::new(
        usage.len(),
        |i: int|
            if i < readings.len() {
                readings[i]
            } else {
                usage[i]
            },
    )
}

/// What is known of the system.
pub struct SystemView {
    pub bat: BatteryView,
    pub datetime: DateTimeView,
    pub cpu: CpuView,
}

/// The state `state` after the telemetry line `line`, or why the line is
/// refused. The key decides what the value means:
/// `BAT_TIME` the time that remains, `BAT_STATUS` status and charge, `TIME`
/// and `DATE` the clock, `TEMP` the temperature, `CPU` the load of the
/// cores. A line with any other key is accepted and dropped; so is a line
/// on the frequencies, `CPU_FREQ`, which are no part of this state (see
/// [`frequency_words`]).
pub open spec fn system_update(state: SystemView, line: Seq<char>) -> Result<
    SystemView,
    ParseError,
> {
    match telemetry(line) {
        None => Err(ParseError::MissingSeparator),
        Some((key, value)) => if key == "BAT_TIME"@ {
            Ok(SystemView { bat: BatteryView { time: bat_time(value), ..state.bat }, ..state })
        } else if key == "BAT_STATUS"@ {
            match battery_reading(value) {
                Ok((status, pct)) => Ok(
                    SystemView { bat: BatteryView { pct, status, ..state.bat }, ..state },
                ),
                Err(e) => Err(e),
            }
        } else if key == "TIME"@ {
            Ok(SystemView { datetime: DateTimeView { time: value, ..state.datetime }, ..state })
        } else if key == "DATE"@ {
            Ok(SystemView { datetime: DateTimeView { date: value, ..state.datetime }, ..state })
        } else if key == "TEMP"@ {
            match machine_number(value) {
                Some(temp) => Ok(SystemView { cpu: CpuView { temp, ..state.cpu }, ..state }),
                None => Err(ParseError::NotANumber),
            }
        } else if key == "CPU"@ {
            match core_readings(value) {
                Some(readings) => Ok(
                    SystemView {
                        cpu: CpuView { usage: usage_after(state.cpu.usage, readings), ..state.cpu },
                        ..state
                    },
                ),
                None => Err(ParseError::NotANumber),
            }
        } else {
            Ok(state)
        },
    }
}

/// The state `state` after the line `line`. A line that is refused changes
/// nothing.
pub open spec fn system_after(state: SystemView, line: Seq<char>) -> SystemView {
    match system_update(state, line) {
        Ok(next) => next,
        Err(_) => state,
    }
}

/// The telemetry of the system: battery, clock and processor, each as the
/// last line on it left it.
#[derive(Debug)]
pub struct System {
    pub bat: Battery,
    pub datetime: DateTime,
    pub cpu: Cpu,
}

impl View for System {
    type V = SystemView;

    open spec fn view(&self) -> SystemView {
        SystemView { bat: self.bat@, datetime: self.datetime@, cpu: self.cpu@ }
    }
}

impl Clone for System {
    fn clone(&self) -> (copy: System)
        ensures
            copy@ == self@,
    {
        System { bat: self.bat.clone(), datetime: self.datetime.clone(), cpu: self.cpu }
    }
}

fn key_and_value(line: &[char]) -> (pair: Option<(&[char], &[char])>)
    ensures
        match telemetry(line@) {
            Some((key, value)) => pair is Some && pair->Some_0.0@ == key && pair->Some_0.1@
                == value,
            None => pair is None,
        },
{
    let mid = match find(line, '=') {
        Some(i) => i,
        None => {
            return None;
        },
    };
    proof {
        line@.index_of_first_ensures('=');
    }
    let end = line.len();
    let key = trim(slice_subrange(line, 0, mid));
    let value = trim(slice_subrange(line, mid + 1, end));
    Some((key, value))
}

/// Reads the battery status `value`, given the index `start` of its first
/// numeral, or `None` where it holds none.
pub fn read_battery_from(value: &[char], start: Option<usize>) -> (reading: Result<
    (BatStatus, usize),
    ParseError,
>)
    ensures
        match battery_reading_from(
            value@,
            match start {
                Some(i) => Some(i as int),
                None => None,
            },
        ) {
            Ok((status, pct)) => reading == Ok::<(BatStatus, usize), ParseError>(
                (status, pct as usize),
            ) && pct <= 100,
            Err(e) => reading == Err::<(BatStatus, usize), ParseError>(e),
        },
{
    if value.len() == 0 {
        return Err(ParseError::EmptyStatus);
    }
    let status = BatStatus::from(value[0]);
    let start = match start {
        Some(i) => i,
        None => {
            return Err(ParseError::NotANumber);
        },
    };
    let end = match rfind(value, '%') {
        Some(i) => i,
        None => {
            return Err(ParseError::MissingDelimiter);
        },
    };
    if start > end {
        return Err(ParseError::NotANumber);
    }
    proof {
        value@.index_of_last_ensures('%');
    }
    match parse_usize(trim(slice_subrange(value, start, end))) {
        Some(pct) => if pct > 100 {
            Err(ParseError::OutOfRange)
        } else {
            Ok((status, pct))
        },
        None => Err(ParseError::NotANumber),
    }
}

/// Reads the battery status `value`.
pub fn read_battery(value: &[char]) -> (reading: Result<(BatStatus, usize), ParseError>)
    ensures
        match battery_reading(value@) {
            Ok((status, pct)) => reading == Ok::<(BatStatus, usize), ParseError>(
                (status, pct as usize),
            ) && pct <= 100,
            Err(e) => reading == Err::<(BatStatus, usize), ParseError>(e),
        },
{
    read_battery_from(value, find_numeric(value))
}

fn read_cores(value: &[char]) -> (readings: Option<Vec<usize>>)
    ensures
        match core_readings(value@) {
            Some(loads) => readings is Some && readings->Some_0@.len() == loads.len()
                && loads.len() <= 4 && forall|i: int|
                0 <= i < loads.len() ==> (#[trigger] readings->Some_0@[i]) == loads[i],
            None => readings is None,
        },
{
    let all = split_words(value);
    let ghost first = core_words(value@);
    let n: usize = if all.len() < 4 {
        all.len()
    } else {
        4
    };
    let mut loads: Vec<usize> = Vec::new();
    let mut i: usize = 0;
    while i < n
        invariant
            i <= n,
            n == first.len(),
            n <= all@.len(),
            first == core_words(value@),
            forall|k: int| 0 <= k < n ==> (#[trigger] all@[k])@ == first[k],
            loads@.len() == i,
            forall|k: int| 0 <= k < i ==> machine_number(#[trigger] first[k]) == Some(
                loads@[k] as nat,
            ),
        decreases n - i,
    {
        match parse_usize(all[i].as_slice()) {
            Some(load) => {
                loads.push(load);
            },
            None => {
                return None;
            },
        }
        i += 1;
    }
    Some(loads)
}

/// What is known of a system before its first line: no charge, `0:00`
/// and status unknown; `Mon Jan 1` and `00:00`; a processor at zero.
pub open spec fn unknown_system() -> SystemView {
    SystemView {
        bat: BatteryView { pct: 0, time: "0:00"@, status: BatStatus::Unknown },
        datetime: DateTimeView { date: "Mon Jan 1"@, time: "00:00"@ },
        cpu: CpuView { temp: 0, usage: seq![0, 0, 0, 0] },
    }
}

/// The words of the line `data` that report the frequency of a core, where
/// it is a line on the frequencies. Frequencies are fractions, which this
/// library does not compute with: it finds the words, and their reader does
/// the rest.
pub fn frequency_fields(data: &str) -> (fields: Option<Vec<String>>)
    ensures
        match frequency_words(data@) {
            Some(found) => fields is Some && fields->Some_0@.len() == found.len() && forall|i: int|
                0 <= i < found.len() ==> (#[trigger] fields->Some_0@[i])@ == found[i],
            None => fields is None,
        },
{
    let chars = chars_of(data);
    let (key, value) = match key_and_value(chars.as_slice()) {
        Some(pair) => pair,
        None => {
            return None;
        },
    };
    if !same_text(key, "CPU_FREQ") {
        return None;
    }
    let all = split_words(value);
    let ghost found = core_words(value@);
    let n: usize = if all.len() < 4 {
        all.len()
    } else {
        4
    };
    let mut fields: Vec<String> = Vec::new();
    let mut i: usize = 0;
    while i < n
        invariant
            i <= n,
            n == found.len(),
            n <= all@.len(),
            forall|k: int| 0 <= k < n ==> (#[trigger] all@[k])@ == found[k],
            fields@.len() == i,
            forall|k: int| 0 <= k < i ==> (#[trigger] fields@[k])@ == found[k],
        decreases n - i,
    {
        fields.push(string_of(all[i].as_slice()));
        i += 1;
    }
    Some(fields)
}

impl System {
    /// A system of which nothing is known yet.
    pub fn new() -> (system: System)
        ensures
            system@ == unknown_system(),
    {
        System { bat: Battery::default(), datetime: DateTime::default(), cpu: Cpu::default() }
    }
}

impl Provider for System {
    /// Every line that is no report of the window manager is telemetry.
    fn is_data(&self, data: &str) -> (owned: bool)
        ensures
            owned == !is_desktop_report(data@),
    {
        let chars = chars_of(data);
        !starts_with_wm(chars.as_slice())
    }

    fn consume(&mut self, data: &str) -> (done: Result<(), ParseError>)
        ensures
            final(self)@ == system_after(old(self)@, data@),
            done == match system_update(old(self)@, data@) {
                Ok(_) => Ok::<(), ParseError>(()),
                Err(e) => Err(e),
            },
    {
        proof {
            use_type_invariant(&self.bat);
        }
        let chars = chars_of(data);
        let (key, value) = match key_and_value(chars.as_slice()) {
            Some(pair) => pair,
            None => {
                return Err(ParseError::MissingSeparator);
            },
        };
        if same_text(key, "BAT_TIME") {
            self.bat.time = clock_of(value);
        } else if same_text(key, "BAT_STATUS") {
            let (status, pct) = match read_battery(value) {
                Ok(reading) => reading,
                Err(e) => {
                    return Err(e);
                },
            };
            self.bat.status = status;
            self.bat.pct = pct;
        } else if same_text(key, "TIME") {
            self.datetime.time = string_of(value);
        } else if same_text(key, "DATE") {
            self.datetime.date = string_of(value);
        } else if same_text(key, "TEMP") {
            self.cpu.temp = match parse_usize(value) {
                Some(temp) => temp,
                None => {
                    return Err(ParseError::NotANumber);
                },
            };
        } else if same_text(key, "CPU") {
            let loads = match read_cores(value) {
                Some(loads) => loads,
                None => {
                    return Err(ParseError::NotANumber);
                },
            };
            let ghost readings = core_readings(value@)->Some_0;
            let mut i: usize = 0;
            while i < loads.len()
                invariant
                    i <= loads.len() <= 4,
                    loads@.len() == readings.len(),
                    forall|k: int| 0 <= k < loads@.len() ==> (#[trigger] loads@[k]) == readings[k],
                    self.bat == old(self).bat,
                    self.datetime == old(self).datetime,
                    self.cpu.temp == old(self).cpu.temp,
                    self.cpu@.usage == usage_after(old(self).cpu@.usage, readings.take(i as int)),
                decreases loads.len() - i,
            {
                let ghost before = self.cpu@.usage;
                self.cpu.usage[i] = loads[i];
                proof {
                    let after = usage_after(old(self).cpu@.usage, readings.take(i + 1));
                    assert forall|k: int| 0 <= k < 4 implies self.cpu@.usage[k] == after[k] by {
                        if k != i {
                            assert(self.cpu@.usage[k] == before[k]);
                        }
                    }
                }
                i += 1;
            }
            assert(readings.take(i as int) == readings);
        }
        Ok(())
    }
}

/// How a clock is drawn: the date, a blank, the time, a blank.
pub open spec fn clock_face(clock: DateTimeView) -> Seq<char> {
    clock.date + " "@ + clock.time + " "@
}

impl Format for DateTime {
    open spec fn rendered(&self) -> Seq<u8> {
        utf8(clock_face(self@))
    }

    open spec fn renders(&self) -> bool {
        true
    }

    fn fmt(&self, fmt: &mut Formatter) -> (done: Result<(), Error>)
        ensures
            done is Ok,
    {
        let mut text = self.date.clone();
        text.append(" ");
        text.append(self.time.as_str());
        text.append(" ");
        text.as_str().fmt(fmt)
    }
}

/// The icon that shows a charge of `pct` hundredths: the full battery above
/// 75, the half battery above 25, the low battery above 10, and the empty
/// battery from there down.
pub open spec fn charge_icon(pct: nat) -> Icon {
    if pct > 75 {
        Icon::BatFull
    } else if pct > 50 {
        Icon::BatHalf
    } else if pct > 25 {
        Icon::BatHalf
    } else if pct > 10 {
        Icon::BatLow
    } else {
        Icon::BatEmpty
    }
}

/// How a battery is drawn: a blank, the icon of its charge, a blank, and the
/// charge in three digits.
pub open spec fn battery_text(battery: BatteryView) -> Seq<char> {
    " "@ + seq![icon_char(charge_icon(battery.pct))] + " "@ + padded(battery.pct, 3)
}

impl Battery {
    /// The icon that shows the charge.
    pub fn icon(&self) -> (icon: Icon)
        ensures
            icon == charge_icon(self@.pct),
    {
        if self.pct > 75 {
            Icon::BatFull
        } else if self.pct > 50 {
            Icon::BatHalf
        } else if self.pct > 25 {
            Icon::BatHalf
        } else if self.pct > 10 {
            Icon::BatLow
        } else {
            Icon::BatEmpty
        }
    }
}

impl Format for Battery {
    open spec fn rendered(&self) -> Seq<u8> {
        utf8(battery_text(self@))
    }

    open spec fn renders(&self) -> bool {
        true
    }

    fn fmt(&self, fmt: &mut Formatter) -> (done: Result<(), Error>)
        ensures
            done is Ok,
    {
        let mut text = String::from_str(" ");
        push_char(&mut text, self.icon().glyph());
        assert(text@ == " "@ + seq![icon_char(charge_icon(self@.pct))]);
        text.append(" ");
        push_padded(&mut text, self.pct, 3);
        text.as_str().fmt(fmt)
    }
}

/// The numbers `values` in three digits each, with `/` between them.
pub open spec fn gauges(values: Seq<nat>) -> Seq<char>
    decreases values.len(),
{
    if values.len() == 0 {
        Seq::empty()
    } else if values.len() == 1 {
        padded(values[0], 3)
    } else {
        gauges(values.drop_last()) + "/"@ + padded(values.last(), 3)
    }
}

/// The texts `texts` with `/` between them.
pub open spec fn slashed(texts: Seq<Seq<char>>) -> Seq<char>
    decreases texts.len(),
{
    if texts.len() == 0 {
        Seq::empty()
    } else if texts.len() == 1 {
        texts[0]
    } else {
        slashed(texts.drop_last()) + "/"@ + texts.last()
    }
}

/// How a processor is drawn, given the text of the frequency of each core:
/// the temperature in three digits, the frequencies, and the load of each
/// core in three digits.
pub open spec fn cpu_text(cpu: CpuView, freq: Seq<Seq<char>>) -> Seq<char> {
    " temp: "@ + padded(cpu.temp, 3) + " freq: "@ + slashed(freq) + " use: "@ + gauges(cpu.usage)
}

impl Cpu {
    /// Writes how this processor is drawn at the end of `fmt`. The
    /// frequencies are no part of this state: `freq` holds the text of the
    /// frequency of each core.
    pub fn fmt_with(&self, fmt: &mut Formatter, freq: &[String; 4]) -> (done: Result<(), Error>)
        ensures
            done is Ok,
            final(fmt)@ == old(fmt)@ + utf8(
                cpu_text(self@, Seq::new(4, |i: int| freq@[i]@)),
            ),
    {
        let ghost texts = Seq::new(4, |i: int| freq@[i]@);
        let mut text = String::from_str(" temp: ");
        push_padded(&mut text, self.temp, 3);
        text.append(" freq: ");
        let ghost head = text@;
        let mut i: usize = 0;
        while i < 4
            invariant
                i <= 4,
                texts == Seq::new(4, |i: int| freq@[i]@),
                text@ == head + slashed(texts.take(i as int)),
            decreases 4 - i,
        {
            if i > 0 {
                text.append("/");
            }
            text.append(freq[i].as_str());
            assert(texts.take(i + 1).drop_last() == texts.take(i as int));
            i += 1;
        }
        assert(texts.take(4) == texts);
        text.append(" use: ");
        let ghost head = text@;
        let ghost loads = self@.usage;
        let mut i: usize = 0;
        while i < 4
            invariant
                i <= 4,
                loads == self@.usage,
                loads.len() == 4,
                text@ == head + gauges(loads.take(i as int)),
            decreases 4 - i,
        {
            if i > 0 {
                text.append("/");
            }
            push_padded(&mut text, self.usage[i], 3);
            assert(loads.take(i + 1).drop_last() == loads.take(i as int));
            i += 1;
        }
        assert(loads.take(4) == loads);
        text.as_str().fmt(fmt)
    }
}

/// A telemetry line that comes a second time changes nothing: where the
/// line `line` is accepted and leaves the state `once`, it is accepted
/// again and leaves `once`; where it is refused, it is refused again for
/// the same reason.
pub proof fn lemma_telemetry_repeats(state: SystemView, line: Seq<char>)
    ensures
        match system_update(state, line) {
            Ok(once) => system_update(once, line) == Ok::<SystemView, ParseError>(once),
            Err(e) => system_update(state, line) == Err::<SystemView, ParseError>(e),
        },
        system_after(system_after(state, line), line) == system_after(state, line),
{
    match system_update(state, line) {
        Ok(once) => {
            let (key, value) = telemetry(line)->Some_0;
            if key == "CPU"@ && key != "BAT_TIME"@ && key != "BAT_STATUS"@ && key != "TIME"@ && key
                != "DATE"@ && key != "TEMP"@ {
                let readings = core_readings(value)->Some_0;
                assert(usage_after(usage_after(state.cpu.usage, readings), readings)
                    =~= usage_after(state.cpu.usage, readings));
            }
        },
        Err(_) => {},
    }
}

} // verus!
