//! The banner: a logo, and beneath it, flush with the right edge of the
//! logo, a slogan with a copyright notice.
//!
//! Nothing is printed here. The slogan and the colour of the logo are drawn
//! at random; everything else is computed from them.

use crate::external::{pick_one, random_below};
use crate::text::{chars_of, cut, split_bounds, split_on};
use vstd::prelude::*;
use vstd::utf8::encode_utf8;

verus! {

/// The number of slogans.
pub const SLOGAN_COUNT: usize = 4;

/// The slogans, by index.
pub open spec fn slogan_text(index: int) -> Seq<char> {
    if index == 0 {
        "If not us, then who?"@
    } else if index == 1 {
        "Bad actor you can trust"@
    } else if index == 2 {
        "All your base belong to us"@
    } else {
        "Play with us, or lose the game"@
    }
}

/// The slogan at `index`.
pub fn slogan(index: usize) -> (s: &'static str)
    requires
        index < SLOGAN_COUNT,
    ensures
        s@ == slogan_text(index as int),
{
    if index == 0 {
        "If not us, then who?"
    } else if index == 1 {
        "Bad actor you can trust"
    } else if index == 2 {
        "All your base belong to us"
    } else {
        "Play with us, or lose the game"
    }
}

/// A colour for the logo.
#[derive(Debug, Clone, Copy, PartialEq, Eq, Structural)]
pub enum LogoColor {
    Red,
    Yellow,
    Blue,
    Magenta,
    Cyan,
}

/// The colours that a logo can have.
pub open spec fn palette() -> Seq<LogoColor> {
    seq![LogoColor::Red, LogoColor::Yellow, LogoColor::Blue, LogoColor::Magenta, LogoColor::Cyan]
}

/// The colours that a logo can have.
pub fn logo_colors() -> (colors: Vec<LogoColor>)
    ensures
        colors@ == palette(),
{
    let mut colors: Vec<LogoColor> = Vec::new();
    colors.push(LogoColor::Red);
    colors.push(LogoColor::Yellow);
    colors.push(LogoColor::Blue);
    colors.push(LogoColor::Magenta);
    colors.push(LogoColor::Cyan);
    assert(colors@ =~= palette());
    colors
}

/// The number of bytes that a text takes in UTF-8.
pub open spec fn byte_len(s: Seq<char>) -> nat {
    encode_utf8(s).len()
}

/// The line beneath the logo: the slogan and the copyright notice.
pub open spec fn copyright_text(slogan: Seq<char>) -> Seq<char> {
    slogan + " (c) 2023"@
}

/// The line beneath the logo for a slogan.
pub fn copyright_line(slogan: &str) -> (line: String)
    ensures
        line@ == copyright_text(slogan@),
{
    let mut line = slogan.to_owned();
    line.append(" (c) 2023");
    line
}

/// The greatest length, in bytes, among `lines`; zero where there are none.
pub open spec fn widest(lines: Seq<Seq<char>>) -> nat
    decreases lines.len(),
{
    if lines.len() == 0 {
        0
    } else {
        let rest = widest(lines.drop_last());
        let last = byte_len(lines.last());
        if last > rest {
            last
        } else {
            rest
        }
    }
}

/// The width of a logo: the length in bytes of its longest line.
pub open spec fn logo_width_of(logo: Seq<char>) -> nat {
    widest(split_on(logo, '\n'))
}

/// The width of a logo.
pub fn logo_width(logo: &str) -> (width: usize)
    ensures
        width == logo_width_of(logo@),
{
    let chars = chars_of(logo);
    let bounds = split_bounds(chars.as_slice(), '\n');
    let ghost lines = split_on(logo@, '\n');
    let mut width: usize = 0;
    let mut k: usize = 0;
    while k < bounds.len()
        invariant
            k <= bounds.len(),
            lines == cut(logo@, bounds@),
            forall|j: int|
                0 <= j < bounds.len() ==> (#[trigger] bounds[j]).0 <= bounds[j].1 <= logo@.len(),
            width == widest(lines.take(k as int)),
        decreases bounds.len() - k,
    {
        let (from, to) = bounds[k];
        let length = logo.substring_char(from, to).as_bytes().len();
        proof {
            let upto = lines.take(k + 1);
            assert(upto.drop_last() =~= lines.take(k as int));
            assert(upto.last() == logo@.subrange(from as int, to as int));
        }
        if length > width {
            width = length;
        }
        k += 1;
    }
    assert(lines.take(k as int) =~= lines);
    width
}

/// What is shown beneath and around a logo.
#[derive(Debug, Clone, PartialEq, Eq)]
pub struct Banner {
    /// The colour of the logo.
    pub color: LogoColor,
    /// The line beneath the logo.
    pub copyright: String,
    /// The number of spaces before that line.
    pub indent: usize,
}

/// The line for the slogan at `index` is no wider than the logo.
pub open spec fn slogan_fits(logo: Seq<char>, index: int) -> bool {
    byte_len(copyright_text(slogan_text(index))) <= logo_width_of(logo)
}

/// The banner for a logo, a slogan and a colour: the line beneath the logo
/// is indented so that it ends where the longest line of the logo ends.
pub fn banner(logo: &str, slogan_index: usize, color: LogoColor) -> (banner: Banner)
    requires
        slogan_index < SLOGAN_COUNT,
        slogan_fits(logo@, slogan_index as int),
    ensures
        banner.color == color,
        banner.copyright@ == copyright_text(slogan_text(slogan_index as int)),
        banner.indent == logo_width_of(logo@) - byte_len(banner.copyright@),
{
    let copyright = copyright_line(slogan(slogan_index));
    let indent = logo_width(logo) - copyright.as_str().as_bytes().len();
    Banner { color, copyright, indent }
}

/// Whether the line for every slogan is no wider than the logo.
pub fn fits_every_slogan(logo: &str) -> (r: bool)
    ensures
        r == forall|i: int| 0 <= i < SLOGAN_COUNT ==> slogan_fits(logo@, i),
{
    let width = logo_width(logo);
    let mut i: usize = 0;
    while i < SLOGAN_COUNT
        invariant
            i <= SLOGAN_COUNT,
            width == logo_width_of(logo@),
            forall|j: int| 0 <= j < i ==> slogan_fits(logo@, j),
        decreases SLOGAN_COUNT - i,
    {
        let line = copyright_line(slogan(i));
        if line.as_str().as_bytes().len() > width {
            assert(!slogan_fits(logo@, i as int));
            return false;
        }
        i += 1;
    }
    true
}

/// A banner with a slogan and a colour drawn at random.
pub fn random_banner(logo: &str) -> (banner: Banner)
    requires
        forall|i: int| 0 <= i < SLOGAN_COUNT ==> slogan_fits(logo@, i),
    ensures
        palette().contains(banner.color),
        exists|i: int|
            0 <= i < SLOGAN_COUNT && banner.copyright@ == copyright_text(#[trigger] slogan_text(i)),
        banner.indent == logo_width_of(logo@) - byte_len(banner.copyright@),
{
    let slogan_index = random_below(SLOGAN_COUNT);
    let colors = logo_colors();
    let color = match pick_one(colors.as_slice()) {
        Some(color) => color,
        None => vstd::pervasive::unreached(),
    };
    banner(logo, slogan_index, color)
}

} // verus!
