//! The configuration of the bar, and the arguments that it gives the
//! renderer.

use vstd::prelude::*;
use crate::numeral::{decimal, push_decimal};
use crate::text::push_char;

verus! {

/// Size and place of the bar on the screen, in pixels.
#[derive(Debug, Clone)]
pub struct Geometry {
    /// Width and height.
    pub size: [u32; 2],
    /// Distance from the left and from the upper edge.
    pub offset: [u32; 2],
}

/// The two colours of the bar, each as the renderer wants it written.
#[derive(Debug, Clone)]
pub struct Color {
    pub fg: String,
    pub bg: String,
}

/// What the user has configured.
#[derive(Debug, Clone)]
pub struct Config {
    pub fonts: Vec<String>,
    pub geom: Geometry,
    pub color: Color,
}

/// The geometry as the renderer reads it: width `x` height `+` left `+`
/// top, each number in decimal.
pub open spec fn geometry_text(size: Seq<u32>, offset: Seq<u32>) -> Seq<char> {
    decimal(size[0] as nat) + seq!['x'] + decimal(size[1] as nat) + seq!['+'] + decimal(
        offset[0] as nat,
    ) + seq!['+'] + decimal(offset[1] as nat)
}

/// The arguments that select the fonts `fonts`: `-f` before each font.
pub open spec fn font_args(fonts: Seq<Seq<char>>) -> Seq<Seq<char>>
    decreases fonts.len(),
{
    if fonts.len() == 0 {
        Seq::empty()
    } else {
        font_args(fonts.drop_last()) + seq!["-f"@, fonts.last()]
    }
}

/// The arguments of the renderer for a configuration: the geometry after
/// `-g`, the fonts, the background after `-B`, the foreground after `-F`,
/// and an underline of five pixels, `-u 5`.
pub open spec fn renderer_args(
    size: Seq<u32>,
    offset: Seq<u32>,
    fonts: Seq<Seq<char>>,
    fg: Seq<char>,
    bg: Seq<char>,
) -> Seq<Seq<char>> {
    seq!["-g"@, geometry_text(size, offset)] + font_args(fonts) + seq![
        "-B"@,
        bg,
        "-F"@,
        fg,
        "-u"@,
        "5"@,
    ]
}

/// The fonts of `conf`, each as its text.
pub open spec fn font_names(conf: &Config) -> Seq<Seq<char>> {
    Seq::new(conf.fonts@.len(), |i: int| conf.fonts@[i]@)
}

/// The arguments with which the renderer is started for `conf`.
pub fn gen_args(conf: &Config) -> (args: Vec<String>)
    ensures
        args@.len() == renderer_args(
            conf.geom.size@,
            conf.geom.offset@,
            font_names(conf),
            conf.color.fg@,
            conf.color.bg@,
        ).len(),
        forall|i: int|
            0 <= i < args@.len() ==> (#[trigger] args@[i])@ == renderer_args(
                conf.geom.size@,
                conf.geom.offset@,
                font_names(conf),
                conf.color.fg@,
                conf.color.bg@,
            )[i],
{
    let mut args: Vec<String> = Vec::new();
    let ghost mut texts: Seq<Seq<char>> = Seq::empty();

    // Size
    args.push(String::from_str("-g"));
    let mut size_arg = String::new();
    push_decimal(&mut size_arg, conf.geom.size[0] as usize);
    push_char(&mut size_arg, 'x');
    push_decimal(&mut size_arg, conf.geom.size[1] as usize);
    push_char(&mut size_arg, '+');
    push_decimal(&mut size_arg, conf.geom.offset[0] as usize);
    push_char(&mut size_arg, '+');
    push_decimal(&mut size_arg, conf.geom.offset[1] as usize);
    args.push(size_arg);
    proof {
        texts = seq!["-g"@, geometry_text(conf.geom.size@, conf.geom.offset@)];
    }

    // Fonts
    let ghost fonts = font_names(conf);
    let mut i: usize = 0;
    while i < conf.fonts.len()
        invariant
            i <= conf.fonts.len(),
            fonts == font_names(conf),
            args@.len() == texts.len(),
            forall|k: int| 0 <= k < args@.len() ==> (#[trigger] args@[k])@ == texts[k],
            texts == seq!["-g"@, geometry_text(conf.geom.size@, conf.geom.offset@)] + font_args(
                fonts.take(i as int),
            ),
        decreases conf.fonts.len() - i,
    {
        args.push(String::from_str("-f"));
        args.push(conf.fonts[i].clone());
        proof {
            assert(fonts.take(i + 1).drop_last() == fonts.take(i as int));
            texts = texts + seq!["-f"@, conf.fonts@[i as int]@];
        }
        i += 1;
    }
    assert(fonts.take(i as int) == fonts);

    // Colors
    args.push(String::from_str("-B"));
    args.push(conf.color.bg.clone());
    args.push(String::from_str("-F"));
    args.push(conf.color.fg.clone());

    // Underline
    args.push(String::from_str("-u"));
    args.push(String::from_str("5"));
    proof {
        texts = texts + seq!["-B"@, conf.color.bg@, "-F"@, conf.color.fg@, "-u"@, "5"@];
    }
    args
}

} // verus!
