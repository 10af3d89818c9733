//! The step of the main loop: one line in, one line for the renderer out.

use vstd::prelude::*;
use crate::data::{
    battery_text, clock_face, desktop_report, desktops_text, is_desktop_report,
    lemma_desktop_report_repeats, lemma_telemetry_repeats, overlaid, system_update,
    unknown_system, ParseError, Provider, System, SystemView, WindowManager,
};
use crate::format::{utf8, Format, Formatter};
use crate::position::{Align, Position};
use crate::registry::{rendered_line, Bar};

verus! {

/// What the loop holds between two lines.
pub struct DispatcherView {
    /// The fragment of each place of the bar that holds one.
    pub bar: Map<(Align, nat), Seq<u8>>,
    /// The desktops, each as `(occupied, focused)`.
    pub wm: Seq<(bool, bool)>,
    pub sys: SystemView,
}

/// The two trackers after the line `line`, or why the line is refused. A
/// report of the window manager goes to the desktops, any other line to the
/// system.
pub open spec fn routed(wm: Seq<(bool, bool)>, sys: SystemView, line: Seq<char>) -> Result<
    (Seq<(bool, bool)>, SystemView),
    ParseError,
> {
    if is_desktop_report(line) {
        match desktop_report(line) {
            Ok(seen) => Ok((overlaid(wm, seen), sys)),
            Err(e) => Err(e),
        }
    } else {
        match system_update(sys, line) {
            Ok(next) => Ok((wm, next)),
            Err(e) => Err(e),
        }
    }
}

/// The registry `bar` after the trackers were rendered into it: the clock
/// at the start of the right zone, the battery at the start of the left
/// zone, the desktops at the start of the centre zone.
pub open spec fn refreshed(
    bar: Map<(Align, nat), Seq<u8>>,
    wm: Seq<(bool, bool)>,
    sys: SystemView,
) -> Map<(Align, nat), Seq<u8>> {
    bar.insert((Align::Right, 0), utf8(clock_face(sys.datetime))).insert(
        (Align::Left, 0),
        utf8(battery_text(sys.bat)),
    ).insert((Align::Center, 0), utf8(desktops_text(wm)))
}

/// The state `state` after the line `line`, or why the line is refused.
pub open spec fn dispatched(state: DispatcherView, line: Seq<char>) -> Result<
    DispatcherView,
    ParseError,
> {
    match routed(state.wm, state.sys, line) {
        Ok((wm, sys)) => Ok(DispatcherView { bar: refreshed(state.bar, wm, sys), wm, sys }),
        Err(e) => Err(e),
    }
}

/// The owner of the two trackers and of the registry. It takes the lines of
/// the input one by one and gives, for each, the line for the renderer.
pub struct Dispatcher {
    bar: Bar,
    wm: WindowManager,
    sys: System,
}

impl View for Dispatcher {
    type V = DispatcherView;

    closed spec fn view(&self) -> DispatcherView {
        DispatcherView { bar: self.bar@, wm: self.wm@, sys: self.sys@ }
    }
}

impl Dispatcher {
    /// A loop that has seen no line: the registry is empty, and nothing is
    /// known of the desktops and of the system.
    pub fn new() -> (fresh: Dispatcher)
        ensures
            fresh@.bar == Map::<(Align, nat), Seq<u8>>::empty(),
            fresh@.wm == Seq::<(bool, bool)>::empty(),
            fresh@.sys == unknown_system(),
    {
        Dispatcher { bar: Bar::new(), wm: WindowManager::new(), sys: System::new() }
    }

    /// The registry.
    pub fn bar(&self) -> (bar: &Bar)
        ensures
            bar@ == self@.bar,
    {
        &self.bar
    }

    /// The tracker of the desktops.
    pub fn wm(&self) -> (wm: &WindowManager)
        ensures
            wm@ == self@.wm,
    {
        &self.wm
    }

    /// The tracker of the system.
    pub fn sys(&self) -> (sys: &System)
        ensures
            sys@ == self@.sys,
    {
        &self.sys
    }

    /// Takes in the line `line`: hands it to the tracker that owns it,
    /// renders the trackers into the registry, and gives the line that the
    /// registry makes. A line that its tracker refuses changes nothing and
    /// gives the reason in place of a line.
    pub fn dispatch(&mut self, line: &str) -> (out: Result<Vec<u8>, ParseError>)
        ensures
            match dispatched(old(self)@, line@) {
                Ok(next) => final(self)@ == next && out is Ok && out->Ok_0@ == rendered_line(
                    next.bar,
                ),
                Err(e) => final(self)@ == old(self)@ && out is Err && out->Err_0 == e,
            },
    {
        if self.wm.is_data(line) {
            match self.wm.consume(line) {
                Ok(()) => {},
                Err(e) => {
                    return Err(e);
                },
            }
        } else if self.sys.is_data(line) {
            match self.sys.consume(line) {
                Ok(()) => {},
                Err(e) => {
                    return Err(e);
                },
            }
        }
        // Date.
        let mut date = Formatter::new();
        let _ = self.sys.datetime.fmt(&mut date);
        self.bar.upsert(Position::right(), date.into_bytes());

        // Battery.
        let mut battery = Formatter::new();
        let _ = self.sys.bat.fmt(&mut battery);
        self.bar.upsert(Position::left(), battery.into_bytes());

        let mut desktops = Formatter::new();
        let _ = self.wm.fmt(&mut desktops);
        self.bar.upsert(Position::center(), desktops.into_bytes());

        Ok(self.bar.render())
    }
}

/// A line that comes a second time changes nothing. Where the line `line`
/// is accepted and leaves the state `once`, it is accepted again and leaves
/// `once`: trackers and registry are the same, and so is the line for the
/// renderer. Where it is refused, the state is as before, so it is refused
/// again.
pub proof fn lemma_dispatch_repeats(state: DispatcherView, line: Seq<char>)
    ensures
        match dispatched(state, line) {
            Ok(once) => dispatched(once, line) == Ok::<DispatcherView, ParseError>(once)
                && rendered_line(dispatched(once, line)->Ok_0.bar) == rendered_line(once.bar),
            Err(e) => dispatched(state, line) == Err::<DispatcherView, ParseError>(e),
        },
{
    match dispatched(state, line) {
        Ok(once) => {
            lemma_telemetry_repeats(state.sys, line);
            lemma_desktop_report_repeats(state.wm, line);
            let (wm, sys) = routed(state.wm, state.sys, line)->Ok_0;
            assert(refreshed(refreshed(state.bar, wm, sys), wm, sys) =~= refreshed(
                state.bar,
                wm,
                sys,
            ));
        },
        Err(_) => {},
    }
}

} // verus!
