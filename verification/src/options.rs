//! The colour options of the command line: a colour is named as ratatui reads
//! it (a name, an index or `#rrggbb`), or in tmux's spelling of an indexed
//! colour (`colour208`).
use ratatui::style::Color;
use vstd::prelude::*;

use crate::text::{parse_decimal, parse_u8, to_chars};

verus! {

/// ratatui's colour type, carried through as it is.
#[verifier::external_type_specification]
#[verifier::external_body]
pub struct ExColor(ratatui::style::Color);

/// The name for what ratatui's `Color::from_str` reads from a text: the
/// colour it names, or `None` where it names none.
pub uninterp spec fn named_color(value: Seq<char>) -> Option<Color>;

/// The name for ratatui's `Color::Indexed`: the colour of an index of the
/// 256-colour palette.
pub uninterp spec fn indexed_color(index: u8) -> Color;

/// The name for the `Debug` rendering of a string: the text in double quotes,
/// with its quotes, backslashes and control characters escaped.
pub uninterp spec fn debug_quoted(value: Seq<char>) -> Seq<char>;

/// `Color::from_str` (ratatui): the colour the text names, `None` where
/// ratatui reads no colour from it. Its result is a function of the text
/// alone; which texts ratatui accepts is not restated here.
#[verifier::external_body]
fn color_from_str(value: &str) -> (r: Option<Color>)
    ensures
        r == named_color(value@),
{
    <Color as std::str::FromStr>::from_str(value).ok()
}

/// `Color::Indexed` (ratatui): the palette colour of `index`.
#[verifier::external_body]
fn indexed(index: u8) -> (r: Color)
    ensures
        r == indexed_color(index),
{
    Color::Indexed(index)
}

/// The `Debug` rendering of `value` (`format!("{value:?}")`).
#[verifier::external_body]
fn debug_text(value: &str) -> (r: String)
    ensures
        r@ == debug_quoted(value@),
{
    format!("{value:?}")
}

/// The tmux spelling of an indexed colour, `colour` or `color` and a number
/// from 0 to 255, as the index; `None` for any other text. The longer prefix
/// is tried first.
pub open spec fn tmux_colour_index(value: Seq<char>) -> Option<u8> {
    if value.len() >= 6 && value.take(6) == "colour"@ {
        parse_u8(value.skip(6))
    } else if value.len() >= 5 && value.take(5) == "color"@ {
        parse_u8(value.skip(5))
    } else {
        None
    }
}

/// Whether `v` begins with `prefix`.
fn starts_with(v: &Vec<char>, prefix: &str) -> (r: bool)
    ensures
        r == (v@.len() >= prefix@.len() && v@.take(prefix@.len() as int) == prefix@),
{
    let p = to_chars(prefix);
    if p.len() > v.len() {
        return false;
    }
    let mut i: usize = 0;
    while i < p.len()
        invariant
            i <= p@.len() <= v@.len(),
            p@ == prefix@,
            forall|k: int| 0 <= k < i ==> v@[k] == p@[k],
        decreases p@.len() - i,
    {
        if v[i] != p[i] {
            assert(v@.take(p@.len() as int)[i as int] != p@[i as int]);
            return false;
        }
        i += 1;
    }
    assert(v@.take(p@.len() as int) =~= p@);
    true
}

/// Reads a tmux-style indexed colour such as `colour208` or `color208`.
pub fn parse_tmux_colour(value: &str) -> (r: Option<u8>)
    ensures
        r == tmux_colour_index(value@),
{
    let v = to_chars(value);
    proof {
        reveal_strlit("colour");
        reveal_strlit("color");
    }
    let n = v.len();
    let start: usize = if starts_with(&v, "colour") {
        6
    } else if starts_with(&v, "color") {
        5
    } else {
        return None;
    };
    assert(v@.subrange(start as int, n as int) =~= value@.skip(start as int));
    match parse_decimal(&v, start, n, 255) {
        Some(x) => Some(x as u8),
        None => None,
    }
}


/// The message for a text that names no colour.
pub open spec fn invalid_color_message(value: Seq<char>) -> Seq<char> {
    "invalid color "@ + debug_quoted(value)
        + "; expected a name (e.g. `yellow`), an index (`208` or `colour208`), or a hex value (`#rrggbb`)"@
}

/// The colour a text names, given what ratatui read from it (`named`): that
/// colour; else the indexed colour of tmux's spelling; else an error naming
/// the text.
pub fn choose_color(value: &str, named: Option<Color>) -> (r: Result<Color, String>)
    ensures
        match named {
            Some(c) => r == Ok::<Color, String>(c),
            None => match tmux_colour_index(value@) {
                Some(i) => r == Ok::<Color, String>(indexed_color(i)),
                None => r matches Err(m) && m@ == invalid_color_message(value@),
            },
        },
{
    match named {
        Some(c) => Ok(c),
        None => match parse_tmux_colour(value) {
            Some(i) => Ok(indexed(i)),
            None => {
                let mut m = String::from_str("invalid color ");
                let quoted = debug_text(value);
                m.append(quoted.as_str());
                m.append(
                    "; expected a name (e.g. `yellow`), an index (`208` or `colour208`), or a hex value (`#rrggbb`)",
                );
                Err(m)
            },
        },
    }
}

/// Reads a colour option: a colour ratatui reads (a name such as `yellow`, an
/// index such as `208`, or `#rrggbb`), or tmux's `colour208`/`color208`.
pub fn parse_color(value: &str) -> (r: Result<Color, String>)
    ensures
        match named_color(value@) {
            Some(c) => r == Ok::<Color, String>(c),
            None => match tmux_colour_index(value@) {
                Some(i) => r == Ok::<Color, String>(indexed_color(i)),
                None => r matches Err(m) && m@ == invalid_color_message(value@),
            },
        },
{
    let named = color_from_str(value);
    choose_color(value, named)
}

} // verus!
