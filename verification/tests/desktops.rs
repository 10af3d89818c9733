use bar::data::{parse_status, Desktop, ParseError, Provider, WindowManager};
use bar::{Format, Formatter};

fn flags(wm: &WindowManager) -> Vec<(bool, bool)> {
    wm.desktops().iter().map(|d| (d.is_occupied(), d.is_focused())).collect()
}

fn drawn<T: Format>(value: &T) -> String {
    let mut fmt = Formatter::new();
    assert!(value.fmt(&mut fmt).is_ok());
    String::from_utf8(fmt.into_bytes()).unwrap()
}

#[test]
fn status_codes_map_to_flags() {
    assert_eq!(parse_status('o'), (true, false));
    assert_eq!(parse_status('O'), (true, true));
    assert_eq!(parse_status('f'), (false, false));
    assert_eq!(parse_status('F'), (false, true));
}

#[test]
fn any_other_status_code_says_neither() {
    for c in ['x', 'u', 'U', 'L', 'M', ' ', '0', ':', '\u{f3a7}', 'ö'] {
        assert_eq!(parse_status(c), (false, false));
    }
}

#[test]
fn desktop_keeps_its_flags() {
    let d = Desktop::new(true, false);
    assert!(d.is_occupied());
    assert!(!d.is_focused());
    let d = Desktop::new(false, true);
    assert!(!d.is_occupied());
    assert!(d.is_focused());
}

#[test]
fn window_manager_owns_lines_that_begin_with_wm() {
    let wm = WindowManager::new();
    assert!(wm.is_data("WM:oF:"));
    assert!(wm.is_data("WM"));
    assert!(!wm.is_data("W"));
    assert!(!wm.is_data(""));
    assert!(!wm.is_data(" WM:o:"));
    assert!(!wm.is_data("TIME = 09:30"));
}

#[test]
fn report_lists_one_desktop_per_code() {
    let mut wm = WindowManager::new();
    assert_eq!(wm.consume("WMeDP1:oI:OII:fIII:FIV:LT"), Ok(()));
    assert_eq!(
        flags(&wm),
        vec![(true, false), (true, true), (false, false), (false, true)]
    );
}

#[test]
fn only_the_first_character_of_a_code_counts() {
    let mut wm = WindowManager::new();
    assert_eq!(wm.consume("WM:oF:"), Ok(()));
    assert_eq!(flags(&wm), vec![(true, false)]);
}

#[test]
fn unknown_codes_degrade_to_neither() {
    let mut wm = WindowManager::new();
    assert_eq!(wm.consume("WM:x1:O2:?:"), Ok(()));
    assert_eq!(flags(&wm), vec![(false, false), (true, true), (false, false)]);
}

#[test]
fn shorter_report_keeps_the_desktops_beyond_it() {
    let mut wm = WindowManager::new();
    assert_eq!(wm.consume("WM:O1:o2:f3:"), Ok(()));
    assert_eq!(wm.consume("WM:f1:O2:"), Ok(()));
    assert_eq!(flags(&wm), vec![(false, false), (true, true), (false, false)]);
    assert_eq!(wm.consume("WM:F1:"), Ok(()));
    assert_eq!(flags(&wm), vec![(false, true), (true, true), (false, false)]);
}

#[test]
fn longer_report_adds_desktops() {
    let mut wm = WindowManager::new();
    assert_eq!(wm.consume("WM:O1:"), Ok(()));
    assert_eq!(wm.consume("WM:o1:F2:f3:"), Ok(()));
    assert_eq!(flags(&wm), vec![(true, false), (false, true), (false, false)]);
}

#[test]
fn report_without_colon_is_refused() {
    let mut wm = WindowManager::new();
    assert_eq!(wm.consume("WM:O1:"), Ok(()));
    assert_eq!(wm.consume("WM"), Err(ParseError::MissingDelimiter));
    assert_eq!(flags(&wm), vec![(true, true)]);
}

#[test]
fn report_with_one_colon_is_refused() {
    let mut wm = WindowManager::new();
    assert_eq!(wm.consume("WM:o1"), Err(ParseError::MissingDelimiter));
    assert_eq!(flags(&wm), vec![]);
}

#[test]
fn report_with_an_empty_code_is_refused() {
    let mut wm = WindowManager::new();
    assert_eq!(wm.consume("WM:O1:f2:"), Ok(()));
    assert_eq!(wm.consume("WM::"), Err(ParseError::EmptyStatus));
    assert_eq!(wm.consume("WM:o1::f3:"), Err(ParseError::EmptyStatus));
    assert_eq!(flags(&wm), vec![(true, true), (false, false)]);
}

#[test]
fn same_report_twice_changes_nothing() {
    let mut wm = WindowManager::new();
    assert_eq!(wm.consume("WM:O1:f2:o3:"), Ok(()));
    let once = flags(&wm);
    assert_eq!(wm.consume("WM:O1:f2:o3:"), Ok(()));
    assert_eq!(flags(&wm), once);
}

#[test]
fn desktops_are_drawn_by_their_flags() {
    assert_eq!(drawn(&Desktop::new(true, true)), "%{F#6c71c4} \u{f3a7} %{F-}");
    assert_eq!(drawn(&Desktop::new(false, true)), "%{F#6c71c4} \u{f3a6} %{F-}");
    assert_eq!(drawn(&Desktop::new(true, false)), " \u{f3a7} ");
    assert_eq!(drawn(&Desktop::new(false, false)), " \u{f3a6} ");
}

#[test]
fn window_manager_draws_its_desktops_in_order() {
    let mut wm = WindowManager::new();
    assert_eq!(drawn(&wm), "");
    assert_eq!(wm.consume("WM:o1:F2:"), Ok(()));
    assert_eq!(drawn(&wm), " \u{f3a7} %{F#6c71c4} \u{f3a6} %{F-}");
}
