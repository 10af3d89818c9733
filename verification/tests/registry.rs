use bar::{Align, Bar, Format, Formatter, Position};

fn text(bytes: Vec<u8>) -> String {
    String::from_utf8(bytes).unwrap()
}

#[test]
fn empty_registry_renders_the_three_markers() {
    let bar = Bar::new();
    assert_eq!(text(bar.render()), "%{l}%{c}%{r}\n");
}

#[test]
fn fragments_come_out_by_zone_and_slot() {
    let mut bar = Bar::new();
    bar.upsert(Position::new(Align::Right, 1), b"r1".to_vec());
    bar.upsert(Position::new(Align::Left, 7), b"l7".to_vec());
    bar.upsert(Position::new(Align::Center, 0), b"c0".to_vec());
    bar.upsert(Position::new(Align::Left, 2), b"l2".to_vec());
    bar.upsert(Position::new(Align::Right, 0), b"r0".to_vec());
    assert_eq!(text(bar.render()), "%{l}l2l7%{c}c0%{r}r0r1\n");
}

#[test]
fn markers_stand_even_where_only_one_zone_is_filled() {
    let mut bar = Bar::new();
    bar.upsert(Position::center(), b"mid".to_vec());
    let line = text(bar.render());
    assert_eq!(line, "%{l}%{c}mid%{r}\n");
    assert_eq!(line.matches("%{l}").count(), 1);
    assert_eq!(line.matches("%{c}").count(), 1);
    assert_eq!(line.matches("%{r}").count(), 1);
    assert!(line.find("%{l}").unwrap() < line.find("%{c}").unwrap());
    assert!(line.find("%{c}").unwrap() < line.find("%{r}").unwrap());
}

#[test]
fn later_upsert_replaces_the_earlier_one() {
    let mut bar = Bar::new();
    bar.upsert(Position::left(), b"first".to_vec());
    bar.upsert(Position::left(), b"2nd".to_vec());
    assert_eq!(bar.fragment(Position::left()), Some(&b"2nd".to_vec()));
    assert_eq!(text(bar.render()), "%{l}2nd%{c}%{r}\n");
}

#[test]
fn upsert_leaves_other_places_alone() {
    let mut bar = Bar::new();
    bar.upsert(Position::new(Align::Left, 0), b"a".to_vec());
    bar.upsert(Position::new(Align::Left, 1), b"b".to_vec());
    bar.upsert(Position::new(Align::Left, 0), b"c".to_vec());
    assert_eq!(bar.fragment(Position::new(Align::Left, 1)), Some(&b"b".to_vec()));
    assert_eq!(text(bar.render()), "%{l}cb%{c}%{r}\n");
}

#[test]
fn deregister_takes_the_fragment_away() {
    let mut bar = Bar::new();
    bar.upsert(Position::right(), b"clock".to_vec());
    bar.upsert(Position::left(), b"bat".to_vec());
    bar.deregister(Position::right());
    assert_eq!(bar.fragment(Position::right()), None);
    assert_eq!(text(bar.render()), "%{l}bat%{c}%{r}\n");
}

#[test]
fn deregister_of_an_empty_place_changes_nothing() {
    let mut bar = Bar::new();
    bar.upsert(Position::left(), b"bat".to_vec());
    bar.deregister(Position::new(Align::Left, 5));
    assert_eq!(text(bar.render()), "%{l}bat%{c}%{r}\n");
}

#[test]
fn register_renders_the_element() {
    let mut bar = Bar::new();
    assert!(bar.register(Position::center(), "plain").is_ok());
    assert!(bar.register(Position::new(Align::Center, 1), &'x').is_ok());
    assert_eq!(text(bar.render()), "%{l}%{c}plainx%{r}\n");
}

#[test]
fn register_at_the_same_place_replaces() {
    let mut bar = Bar::new();
    assert!(bar.register(Position::right(), "one").is_ok());
    assert!(bar.register(Position::right(), "two").is_ok());
    assert_eq!(text(bar.render()), "%{l}%{c}%{r}two\n");
}

#[test]
fn highest_slot_is_a_place_like_any_other() {
    let mut bar = Bar::new();
    bar.upsert(Position::new(Align::Left, usize::MAX), b"z".to_vec());
    bar.upsert(Position::new(Align::Left, 0), b"a".to_vec());
    assert_eq!(text(bar.render()), "%{l}az%{c}%{r}\n");
}

#[test]
fn formatter_collects_what_is_written() {
    let mut fmt = Formatter::new();
    assert!(fmt.write("ab").is_ok());
    assert!(fmt.write(&'\u{f3a7}').is_ok());
    assert!(fmt.write(&Align::Center).is_ok());
    fmt.write_bytes(b"!");
    assert_eq!(text(fmt.into_bytes()), "ab\u{f3a7}%{c}!");
}

#[test]
fn zones_write_their_markers() {
    let mut fmt = Formatter::new();
    assert!(Align::Left.fmt(&mut fmt).is_ok());
    assert!(Align::Center.fmt(&mut fmt).is_ok());
    assert!(Align::Right.fmt(&mut fmt).is_ok());
    assert_eq!(text(fmt.into_bytes()), "%{l}%{c}%{r}");
}

#[test]
fn position_constructors_and_getters() {
    let p = Position::new(Align::Center, 3);
    assert_eq!(p.align(), Align::Center);
    assert_eq!(p.slot(), 3);
    assert!(p.is_center());
    assert!(!p.is_left());
    assert!(!p.is_right());
    assert_eq!(Position::left(), Position::new(Align::Left, 0));
    assert_eq!(Position::center(), Position::new(Align::Center, 0));
    assert_eq!(Position::right(), Position::new(Align::Right, 0));
    assert!(Position::left().is_left());
    assert!(Position::right().is_right());
}

#[test]
fn position_setters_chain() {
    let mut p = Position::left();
    p.set_slot(4).set_align(Align::Right);
    assert_eq!(p, Position::new(Align::Right, 4));
}

#[test]
fn positions_are_ordered_by_zone_then_slot() {
    assert!(Position::new(Align::Left, 9) < Position::new(Align::Center, 0));
    assert!(Position::new(Align::Center, 9) < Position::new(Align::Right, 0));
    assert!(Position::new(Align::Left, 1) < Position::new(Align::Left, 2));
    assert!(Position::new(Align::Right, 0) > Position::new(Align::Left, 100));
    assert!(Position::new(Align::Center, 5) <= Position::new(Align::Center, 5));
    assert_eq!(
        Position::new(Align::Left, 1).cmp(&Position::new(Align::Left, 2)),
        std::cmp::Ordering::Less
    );
    assert_eq!(
        Position::new(Align::Right, 1).cmp(&Position::new(Align::Center, 2)),
        std::cmp::Ordering::Greater
    );
    assert_eq!(Align::Left.rank(), 0);
    assert_eq!(Align::Center.rank(), 1);
    assert_eq!(Align::Right.rank(), 2);
    assert!(Align::Left < Align::Center && Align::Center < Align::Right);
}
