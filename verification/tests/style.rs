use bar::style::{Color, Icon, Styled};
use bar::util::{Config, Error, Geometry};
use bar::util::config::gen_args;
use bar::{Format, Formatter};

fn drawn<T: Format>(value: &T) -> String {
    let mut fmt = Formatter::new();
    assert!(value.fmt(&mut fmt).is_ok());
    String::from_utf8(fmt.into_bytes()).unwrap()
}

#[test]
fn colors_have_their_codes() {
    assert_eq!(Color::Default.code(), 0);
    assert_eq!(Color::Base03.code(), 0x002b36);
    assert_eq!(Color::Base02.code(), 0x073642);
    assert_eq!(Color::Base01.code(), 0x586e75);
    assert_eq!(Color::Base00.code(), 0x657b83);
    assert_eq!(Color::Base0.code(), 0x839496);
    assert_eq!(Color::Base1.code(), 0x93a1a1);
    assert_eq!(Color::Base2.code(), 0xeee8d5);
    assert_eq!(Color::Base3.code(), 0xfdf6e3);
    assert_eq!(Color::Yellow.code(), 0xb58900);
    assert_eq!(Color::Orange.code(), 0xcb4b16);
    assert_eq!(Color::Red.code(), 0xdc322f);
    assert_eq!(Color::Magenta.code(), 0xd33682);
    assert_eq!(Color::Violet.code(), 0x6c71c4);
    assert_eq!(Color::Blue.code(), 0x268bd2);
    assert_eq!(Color::Cyan.code(), 0x2aa198);
    assert_eq!(Color::Green.code(), 0x859900);
}

#[test]
fn colors_are_written_in_hexadecimal() {
    assert_eq!(Color::Default.to_string(), "-");
    assert_eq!(Color::Violet.to_string(), "6c71c4");
    assert_eq!(Color::Base3.to_string(), "fdf6e3");
    // no leading zeros
    assert_eq!(Color::Base03.to_string(), "2b36");
    assert_eq!(Color::Base02.to_string(), "73642");
}

#[test]
fn colors_are_ordered_by_code() {
    let all = [
        Color::Default, Color::Base03, Color::Base02, Color::Base01, Color::Base00, Color::Base0,
        Color::Base1, Color::Base2, Color::Base3, Color::Yellow, Color::Orange, Color::Red,
        Color::Magenta, Color::Violet, Color::Blue, Color::Cyan, Color::Green,
    ];
    for a in all {
        for b in all {
            assert_eq!(a.cmp(&b), a.code().cmp(&b.code()));
            assert_eq!(a < b, a.code() < b.code());
        }
    }
}

#[test]
fn icons_have_their_code_points() {
    assert_eq!(Icon::DotOn.code(), 0xf3a6);
    assert_eq!(Icon::DotOff.code(), 0xf3a7);
    assert_eq!(Icon::BatEmpty.code(), 0xf112);
    assert_eq!(Icon::BatLow.code(), 0xf115);
    assert_eq!(Icon::BatHalf.code(), 0xf114);
    assert_eq!(Icon::BatFull.code(), 0xf113);
    assert_eq!(Icon::BatCharging.code(), 0xf111);
    assert_eq!(Icon::DotOn.glyph(), '\u{f3a6}');
}

#[test]
fn icons_are_ordered_by_code_point() {
    let all = [
        Icon::DotOn, Icon::DotOff, Icon::BatEmpty, Icon::BatLow, Icon::BatHalf, Icon::BatFull,
        Icon::BatCharging,
    ];
    for a in all {
        for b in all {
            assert_eq!(a.cmp(&b), a.code().cmp(&b.code()));
        }
    }
}

#[test]
fn icons_write_their_character() {
    assert_eq!(drawn(&Icon::BatFull), "\u{f113}");
    assert_eq!(drawn(&Icon::DotOff).as_bytes(), &[0xef, 0x8e, 0xa7]);
}

#[test]
fn text_and_characters_write_utf8() {
    let mut fmt = Formatter::new();
    assert!("aö".fmt(&mut fmt).is_ok());
    assert!('\u{1f600}'.fmt(&mut fmt).is_ok());
    assert!('\n'.fmt(&mut fmt).is_ok());
    assert_eq!(
        fmt.into_bytes(),
        vec![0x61, 0xc3, 0xb6, 0xf0, 0x9f, 0x98, 0x80, 0x0a]
    );
}

#[test]
fn styled_value_starts_in_the_default_colors() {
    let styled = Styled::from(Icon::BatLow);
    assert_eq!(styled.fg, Color::Default);
    assert_eq!(styled.bg, Color::Default);
    assert_eq!(styled.inner, Icon::BatLow);
    assert_eq!(drawn(&styled), "%{F- B-}\u{f115}%{F- B-}");
}

#[test]
fn styled_value_writes_its_colors_round_the_value() {
    let mut styled = Styled::from(Icon::DotOn);
    styled.set_fg(Color::Red).set_bg(Color::Base03);
    assert_eq!(styled.fg, Color::Red);
    assert_eq!(styled.bg, Color::Base03);
    assert_eq!(drawn(&styled), "%{Fdc322f B2b36}\u{f3a6}%{F- B-}");
    styled.set_bg(Color::Default);
    assert_eq!(drawn(&styled), "%{Fdc322f B-}\u{f3a6}%{F- B-}");
}

#[test]
fn styled_values_nest() {
    let mut inner = Styled::from(Icon::DotOff);
    inner.set_fg(Color::Blue);
    let outer: Styled<Styled<Icon>> = Styled::from(inner);
    assert_eq!(drawn(&outer), "%{F- B-}%{F268bd2 B-}\u{f3a7}%{F- B-}%{F- B-}");
}

#[test]
fn errors_carry_their_message() {
    let e = Error::new("failed to grab `lemonbar` stdin");
    assert_eq!(e.description(), "failed to grab `lemonbar` stdin");
    assert_eq!(e.to_string(), "failed to grab `lemonbar` stdin");
}

#[test]
fn arguments_for_the_renderer() {
    let conf = Config {
        fonts: vec![String::from("Terminus:size=9"), String::from("Ionicons:size=10")],
        geom: Geometry { size: [1920, 18], offset: [0, 4] },
        color: bar::util::Color { fg: String::from("#839496"), bg: String::from("#002b36") },
    };
    assert_eq!(
        gen_args(&conf),
        vec![
            "-g", "1920x18+0+4", "-f", "Terminus:size=9", "-f", "Ionicons:size=10", "-B", "#002b36",
            "-F", "#839496", "-u", "5",
        ]
    );
}

#[test]
fn arguments_without_fonts() {
    let conf = Config {
        fonts: vec![],
        geom: Geometry { size: [4294967295, 0], offset: [10, 4294967295] },
        color: bar::util::Color { fg: String::new(), bg: String::from("-") },
    };
    assert_eq!(
        gen_args(&conf),
        vec!["-g", "4294967295x0+10+4294967295", "-B", "-", "-F", "", "-u", "5"]
    );
}

#[test]
fn version_names_the_bar() {
    assert_eq!(bar::version(), "bar 0.1.0");
}
