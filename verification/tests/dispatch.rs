use bar::data::{BatStatus, ParseError};
use bar::dispatch::Dispatcher;
use bar::{Align, Position};

fn text(bytes: Vec<u8>) -> String {
    String::from_utf8(bytes).unwrap()
}

#[test]
fn lines_end_to_end() {
    let mut loop_ = Dispatcher::new();
    let mut out = String::new();
    for line in ["WM:oF:", "BAT_STATUS= D 80%", "DATE = Tue Jan 2", "TIME = 09:30"] {
        out = text(loop_.dispatch(line).unwrap());
    }
    // one desktop: occupied, without the focus
    assert_eq!(out, "%{l} \u{f113} 080%{c} \u{f3a7} %{r}Tue Jan 2 09:30 \n");
    assert!(out.contains("80"));
    assert!(out.contains("Tue Jan 2"));
    assert!(out.contains("09:30"));
    assert_eq!(loop_.wm().desktops().len(), 1);
    assert!(loop_.wm().desktops()[0].is_occupied());
    assert!(!loop_.wm().desktops()[0].is_focused());
    assert_eq!(loop_.sys().bat.status(), BatStatus::Discharging);
    assert_eq!(loop_.sys().bat.percentage(), 80);
}

#[test]
fn first_line_renders_all_three_fragments() {
    let mut loop_ = Dispatcher::new();
    let out = text(loop_.dispatch("WM:O1:f2:").unwrap());
    assert_eq!(
        out,
        "%{l} \u{f112} 000%{c}%{F#6c71c4} \u{f3a7} %{F-} \u{f3a6} %{r}Mon Jan 1 00:00 \n"
    );
    assert!(loop_.bar().fragment(Position::left()).is_some());
    assert!(loop_.bar().fragment(Position::center()).is_some());
    assert!(loop_.bar().fragment(Position::right()).is_some());
    assert!(loop_.bar().fragment(Position::new(Align::Left, 1)).is_none());
}

#[test]
fn new_loop_holds_nothing() {
    let loop_ = Dispatcher::new();
    assert_eq!(text(loop_.bar().render()), "%{l}%{c}%{r}\n");
    assert_eq!(loop_.wm().desktops().len(), 0);
    assert_eq!(loop_.sys().datetime.time(), "00:00");
}

#[test]
fn identical_line_twice_renders_the_same() {
    for line in ["WM:oF:O2:", "BAT_STATUS= D 80%", "BAT_TIME = 2h 3m", "DATE = Tue Jan 2",
        "TIME = 09:30", "TEMP = 50", "CPU = 1 2", "NOISE = 1"] {
        let mut loop_ = Dispatcher::new();
        loop_.dispatch("WM:f1:f2:f3:").unwrap();
        let once = loop_.dispatch(line).unwrap();
        let twice = loop_.dispatch(line).unwrap();
        assert_eq!(once, twice);
    }
}

#[test]
fn refused_line_gives_the_reason_and_changes_nothing() {
    let mut loop_ = Dispatcher::new();
    let before = loop_.dispatch("TIME = 09:30").unwrap();
    assert_eq!(loop_.dispatch("no separator"), Err(ParseError::MissingSeparator));
    assert_eq!(loop_.dispatch("WM"), Err(ParseError::MissingDelimiter));
    assert_eq!(loop_.dispatch("WM::"), Err(ParseError::EmptyStatus));
    assert_eq!(loop_.dispatch("TEMP = hot"), Err(ParseError::NotANumber));
    assert_eq!(loop_.dispatch("BAT_STATUS = C 200%"), Err(ParseError::OutOfRange));
    assert_eq!(loop_.bar().render(), before);
    assert_eq!(loop_.dispatch("TIME = 09:30").unwrap(), before);
}

#[test]
fn desktop_reports_never_reach_the_system() {
    let mut loop_ = Dispatcher::new();
    loop_.dispatch("WM:TIME = 12:00:").unwrap();
    assert_eq!(loop_.sys().datetime.time(), "00:00");
    assert_eq!(loop_.wm().desktops().len(), 2);
}
