use vstd::prelude::*;

verus! {

/// Color-enable policy of one destination descriptor: `Never` suppresses
/// color regardless of terminal capability, `Always` forces it, `Auto`
/// defers to the ambient terminal-capability default.
#[derive(Clone, Copy, PartialEq, Eq, Structural, Debug)]
pub enum ColorMode {
    Auto,
    Always,
    Never,
}

/// The foreground colors the supervisor uses: `White` for ordinary output
/// lines, `Red` for error lines, `BrightBlack` for timestamp prefixes.
#[derive(Clone, Copy, PartialEq, Eq, Structural, Debug)]
pub enum TextColor {
    White,
    Red,
    BrightBlack,
}

/// The ANSI select-graphic-rendition code of a foreground color, as the
/// decimal digits that appear in its escape sequence.
pub open spec fn fg_code(c: TextColor) -> Seq<char> {
    match c {
        TextColor::White => seq!['3', '7'],
        TextColor::Red => seq!['3', '1'],
        TextColor::BrightBlack => seq!['9', '0'],
    }
}

/// Text free of the ASCII escape character, so that wrapping it in an ANSI
/// escape sequence needs no inner escaping.
pub open spec fn no_esc(s: Seq<char>) -> bool {
    forall|i: int| 0 <= i < s.len() ==> s[i] != '\u{1b}'
}

/// `s` wrapped in the ANSI escape sequence that paints it in color `c`:
/// ESC `[` code `m`, the text, then the reset sequence ESC `[0m`.
pub open spec fn ansi_wrap(s: Seq<char>, c: TextColor) -> Seq<char> {
    seq!['\u{1b}', '['] + fg_code(c) + seq!['m'] + s + seq!['\u{1b}', '[', '0', 'm']
}

/// One paint outcome: the text itself when colorization is off, the
/// ANSI-wrapped text when it is on.
pub open spec fn painted(s: Seq<char>, c: TextColor, colorized: bool) -> Seq<char> {
    if colorized {
        ansi_wrap(s, c)
    } else {
        s
    }
}

/// Which paint outcomes a color mode admits: `Never` only the plain text,
/// `Always` only the colorized text, `Auto` either, since the ambient
/// terminal-capability default decides.
pub open spec fn mode_admits(mode: ColorMode, colorized: bool) -> bool {
    match mode {
        ColorMode::Never => !colorized,
        ColorMode::Always => colorized,
        ColorMode::Auto => true,
    }
}

/// What colorizing `text` under `mode` may return: under `Never` exactly the
/// plain text; and, for text free of the escape character, always one of the
/// paint outcomes the mode admits.
pub open spec fn colorize_result(text: Seq<char>, c: TextColor, mode: ColorMode, r: Seq<char>) -> bool {
    &&& (mode == ColorMode::Never ==> r == text)
    &&& (no_esc(text) ==> exists|b: bool| mode_admits(mode, b) && r == painted(text, c, b))
}

/// Render `text` in color `c` under policy `mode`.
///
/// Relies on the `colored` crate: `control::set_override` pins the
/// process-wide colorization switch for the duration of the call (`Auto`
/// leaves the ambient default in force), `Colorize::color` attaches the
/// foreground color, and `ColoredString`'s `Display` then yields either the
/// text unchanged (colorization off) or, for text holding no escape
/// character, the text wrapped in the color's ANSI escape sequence
/// (colorization on); `control::unset_override` restores the ambient
/// default before returning.
#[verifier::external_body]
pub fn colorize(text: &str, c: TextColor, mode: ColorMode) -> (r: String)
    ensures
        colorize_result(text@, c, mode, r@),
{
    match mode {
        ColorMode::Auto => {},
        ColorMode::Always => colored::control::set_override(true),
        ColorMode::Never => colored::control::set_override(false),
    }
    let decorated = match c {
        TextColor::White => colored::Colorize::color(text, colored::Color::White),
        TextColor::Red => colored::Colorize::color(text, colored::Color::Red),
        TextColor::BrightBlack => colored::Colorize::color(text, colored::Color::BrightBlack),
    };
    let rendered = decorated.to_string();
    colored::control::unset_override();
    rendered
}

} // verus!
