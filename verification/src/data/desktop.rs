//! The desktops of the window manager.

use vstd::prelude::*;
use vstd::slice::slice_subrange;
use crate::data::{is_desktop_report, starts_with_wm, ParseError, Provider};
use crate::format::{lemma_utf8_concat, utf8, Format, Formatter};
use crate::numeral::{hex, push_hex};
use crate::style::{color_code, Color};
use crate::text::{chars_of, find, pieces, push_char, rfind, split};
use crate::util::Error;

verus! {

/// What a status code says of a desktop: whether it is occupied, and whether
/// it has the focus. Any character but `o`, `O`, `f` and `F` says neither.
pub open spec fn status_flags(status: char) -> (bool, bool) {
    if status == 'o' {
        (true, false)
    } else if status == 'O' {
        (true, true)
    } else if status == 'F' {
        (false, true)
    } else {
        (false, false)
    }
}

/// Reads a status code: `(occupied, focused)`.
pub fn parse_status(status: char) -> (flags: (bool, bool))
    ensures
        flags == status_flags(status),
        status != 'o' && status != 'O' && status != 'f' && status != 'F' ==> flags == (
            false,
            false,
        ),
{
    match status {
        'o' => (true, false),
        'O' => (true, true),
        'f' => (false, false),
        'F' => (false, true),
        _ => (false, false),
    }
}

/// One desktop of the window manager.
#[derive(Debug, Clone, Copy, PartialEq, Eq)]
pub struct Desktop {
    occupied: bool,
    focused: bool,
}

impl View for Desktop {
    type V = (bool, bool);

    /// `(occupied, focused)`
    closed spec fn view(&self) -> (bool, bool) {
        (self.occupied, self.focused)
    }
}

impl Desktop {
    pub fn new(occupied: bool, focused: bool) -> (desktop: Desktop)
        ensures
            desktop@ == (occupied, focused),
    {
        Desktop { occupied, focused }
    }

    pub fn is_focused(&self) -> (focused: bool)
        ensures
            focused == self@.1,
    {
        self.focused
    }

    pub fn is_occupied(&self) -> (occupied: bool)
        ensures
            occupied == self@.0,
    {
        self.occupied
    }
}

/// The flags of the status codes `codes`, or `None` where one of them is
/// empty. Of each code the first character counts.
pub open spec fn flags_of(codes: Seq<Seq<char>>) -> Option<Seq<(bool, bool)>> {
    if forall|i: int| 0 <= i < codes.len() ==> (#[trigger] codes[i]).len() > 0 {
        Some(Seq::new(codes.len(), |i: int| status_flags(codes[i][0])))
    } else {
        None
    }
}

/// The desktops that the report `line` lists, as `(occupied, focused)`. The
/// list stands between the first and the last `:` of the line, its codes
/// parted by `:`.
pub open spec fn desktop_report(line: Seq<char>) -> Result<Seq<(bool, bool)>, ParseError> {
    match (line.index_of_first(':'), line.index_of_last(':')) {
        (Some(first), Some(last)) => if first < last {
            match flags_of(pieces(line.subrange(first + 1, last), ':')) {
                Some(flags) => Ok(flags),
                None => Err(ParseError::EmptyStatus),
            }
        } else {
            Err(ParseError::MissingDelimiter)
        },
        _ => Err(ParseError::MissingDelimiter),
    }
}

/// The desktops `known` after the report `seen`: the report takes the place
/// of as many desktops as it lists, from the first on, and adds those that
/// were not known. What lies beyond the report stays.
pub open spec fn overlaid(known: Seq<(bool, bool)>, seen: Seq<(bool, bool)>) -> Seq<(bool, bool)> {
    if seen.len() >= known.len() {
        seen
    } else {
        seen + known.skip(seen.len() as int)
    }
}

/// The desktops `known` after the line `line`. A line that is refused
/// changes nothing.
pub open spec fn desktops_after(known: Seq<(bool, bool)>, line: Seq<char>) -> Seq<(bool, bool)> {
    match desktop_report(line) {
        Ok(seen) => overlaid(known, seen),
        Err(_) => known,
    }
}

/// The desktops of the window manager, in its order. Their number only
/// grows.
#[derive(Debug)]
pub struct WindowManager {
    dtops: Vec<Desktop>,
}

impl View for WindowManager {
    type V = Seq<(bool, bool)>;

    /// The desktops in order, each as `(occupied, focused)`.
    closed spec fn view(&self) -> Seq<(bool, bool)> {
        Seq::new(self.dtops@.len(), |i: int| self.dtops@[i]@)
    }
}

impl WindowManager {
    /// A window manager of which no desktop is known yet.
    pub fn new() -> (wm: WindowManager)
        ensures
            wm@ == Seq::<(bool, bool)>::empty(),
    {
        WindowManager { dtops: Vec::new() }
    }

    /// The desktops that are known, in order.
    pub fn desktops(&self) -> (all: Vec<Desktop>)
        ensures
            all@.len() == self@.len(),
            forall|i: int| 0 <= i < all@.len() ==> (#[trigger] all@[i])@ == self@[i],
    {
        let mut all: Vec<Desktop> = Vec::new();
        let mut i: usize = 0;
        while i < self.dtops.len()
            invariant
                i <= self.dtops.len(),
                all@ == self.dtops@.take(i as int),
            decreases self.dtops.len() - i,
        {
            all.push(self.dtops[i]);
            i += 1;
        }
        all
    }

    fn read_report(chars: &[char]) -> (report: Result<Vec<Desktop>, ParseError>)
        ensures
            match desktop_report(chars@) {
                Ok(seen) => report is Ok && report->Ok_0@.len() == seen.len() && forall|i: int|
                    0 <= i < seen.len() ==> (#[trigger] report->Ok_0@[i])@ == seen[i],
                Err(e) => report == Err::<Vec<Desktop>, ParseError>(e),
            },
    {
        let first = match find(chars, ':') {
            Some(i) => i,
            None => {
                return Err(ParseError::MissingDelimiter);
            },
        };
        let last = match rfind(chars, ':') {
            Some(i) => i,
            None => {
                return Err(ParseError::MissingDelimiter);
            },
        };
        if first >= last {
            return Err(ParseError::MissingDelimiter);
        }
        proof {
            chars@.index_of_last_ensures(':');
        }
        let codes = split(slice_subrange(chars, first + 1, last), ':');
        let ghost parts = pieces(chars@.subrange(first + 1, last as int), ':');
        let mut seen: Vec<Desktop> = Vec::new();
        let mut i: usize = 0;
        while i < codes.len()
            invariant
                i <= codes.len(),
                chars@.index_of_first(':') == Some(first as int),
                chars@.index_of_last(':') == Some(last as int),
                first < last,
                parts == pieces(chars@.subrange(first + 1, last as int), ':'),
                codes@.len() == parts.len(),
                forall|k: int| 0 <= k < codes@.len() ==> (#[trigger] codes@[k])@ == parts[k],
                seen@.len() == i,
                forall|k: int| 0 <= k < i ==> (#[trigger] parts[k]).len() > 0,
                forall|k: int| 0 <= k < i ==> (#[trigger] seen@[k])@ == status_flags(parts[k][0]),
            decreases codes.len() - i,
        {
            let code = &codes[i];
            if code.len() == 0 {
                return Err(ParseError::EmptyStatus);
            }
            let (occupied, focused) = parse_status(code[0]);
            seen.push(Desktop::new(occupied, focused));
            i += 1;
        }
        Ok(seen)
    }
}

impl Provider for WindowManager {
    fn is_data(&self, data: &str) -> (owned: bool)
        ensures
            owned == is_desktop_report(data@),
    {
        let chars = chars_of(data);
        starts_with_wm(chars.as_slice())
    }

    fn consume(&mut self, data: &str) -> (done: Result<(), ParseError>)
        ensures
            final(self)@ == desktops_after(old(self)@, data@),
            done == match desktop_report(data@) {
                Ok(_) => Ok::<(), ParseError>(()),
                Err(e) => Err(e),
            },
    {
        let chars = chars_of(data);
        let seen = match WindowManager::read_report(chars.as_slice()) {
            Ok(seen) => seen,
            Err(e) => {
                return Err(e);
            },
        };
        let ghost report = desktop_report(data@)->Ok_0;
        let mut i: usize = 0;
        while i < seen.len()
            invariant
                i <= seen.len(),
                seen@.len() == report.len(),
                forall|k: int| 0 <= k < seen@.len() ==> (#[trigger] seen@[k])@ == report[k],
                self@ == overlaid(old(self)@, report.take(i as int)),
            decreases seen.len() - i,
        {
            let ghost before = self@;
            assert(before.len() == self.dtops@.len());
            if self.dtops.len() > i {
                self.dtops.set(i, seen[i]);
            } else {
                self.dtops.push(seen[i]);
            }
            proof {
                let after = overlaid(old(self)@, report.take(i + 1));
                assert forall|k: int| 0 <= k < after.len() implies self@[k] == after[k] by {
                    if k != i {
                        assert(self@[k] == before[k]);
                    }
                }
            }
            i += 1;
        }
        Ok(())
    }
}

/// How a desktop is drawn: a dot, filled where the desktop is occupied and
/// empty where it is not, with a blank on each side; in violet where the
/// desktop has the focus.
pub open spec fn desktop_text(flags: (bool, bool)) -> Seq<char> {
    let dot = if flags.0 {
        '\u{f3a7}'
    } else {
        '\u{f3a6}'
    };
    if flags.1 {
        "%{F#"@ + hex(color_code(Color::Violet)) + "} "@ + seq![dot] + " %{F-}"@
    } else {
        " "@ + seq![dot] + " "@
    }
}

/// How the desktops `desktops` are drawn: one after the other, with
/// nothing between them.
pub open spec fn desktops_text(desktops: Seq<(bool, bool)>) -> Seq<char>
    decreases desktops.len(),
{
    if desktops.len() == 0 {
        Seq::empty()
    } else {
        desktops_text(desktops.drop_last()) + desktop_text(desktops.last())
    }
}

impl Format for Desktop {
    open spec fn rendered(&self) -> Seq<u8> {
        utf8(desktop_text(self@))
    }

    open spec fn renders(&self) -> bool {
        true
    }

    fn fmt(&self, fmt: &mut Formatter) -> (done: Result<(), Error>)
        ensures
            done is Ok,
    {
        let dot = if self.occupied {
            '\u{f3a7}'
        } else {
            '\u{f3a6}'
        };
        let mut text = String::new();
        if self.focused {
            text.append("%{F#");
            push_hex(&mut text, Color::Violet.code() as usize);
            text.append("} ");
            push_char(&mut text, dot);
            text.append(" %{F-}");
        } else {
            text.append(" ");
            push_char(&mut text, dot);
            text.append(" ");
        }
        assert(text@ == desktop_text(self@));
        text.as_str().fmt(fmt)
    }
}

impl Format for WindowManager {
    open spec fn rendered(&self) -> Seq<u8> {
        utf8(desktops_text(self@))
    }

    open spec fn renders(&self) -> bool {
        true
    }

    fn fmt(&self, fmt: &mut Formatter) -> (done: Result<(), Error>)
        ensures
            done is Ok,
    {
        let mut i: usize = 0;
        while i < self.dtops.len()
            invariant
                i <= self.dtops.len(),
                fmt@ == old(fmt)@ + utf8(desktops_text(self@.take(i as int))),
            decreases self.dtops.len() - i,
        {
            let _ = self.dtops[i].fmt(fmt);
            proof {
                let drawn = desktops_text(self@.take(i as int));
                let next = desktop_text(self@[i as int]);
                assert(self@.take(i + 1).drop_last() == self@.take(i as int));
                lemma_utf8_concat(drawn, next);
            }
            i += 1;
        }
        assert(self@.take(i as int) == self@);
        Ok(())
    }
}

/// No line takes a desktop away: the desktops after the line `line` are at
/// least as many as before, and those beyond the report are as they were.
pub proof fn lemma_desktops_only_grow(known: Seq<(bool, bool)>, line: Seq<char>)
    ensures
        desktops_after(known, line).len() >= known.len(),
        match desktop_report(line) {
            Ok(seen) => forall|i: int|
                seen.len() <= i < known.len() ==> desktops_after(known, line)[i] == known[i],
            Err(_) => desktops_after(known, line) == known,
        },
{
}

/// A report of the window manager that comes a second time changes
/// nothing: the desktops after the line `line` are the desktops after two
/// of it.
pub proof fn lemma_desktop_report_repeats(known: Seq<(bool, bool)>, line: Seq<char>)
    ensures
        desktops_after(desktops_after(known, line), line) == desktops_after(known, line),
{
}

} // verus!
