//! Terminal styling sequences, taken from termion.
//!
//! Every sequence here is a "select graphic rendition" sequence: an escape
//! character, `[`, a list of parameters without any `m`, and a closing `m`.

use vstd::prelude::*;

verus! {

/// The escape sequence `ESC [ p m`.
pub open spec fn sgr(p: Seq<char>) -> Seq<char> {
    seq!['\u{1b}', '['] + p + seq!['m']
}

/// The sequence that sets the foreground to entry `d` of the 256-color palette.
pub open spec fn fg_palette(d: Seq<char>) -> Seq<char> {
    sgr(seq!['3', '8', ';', '5', ';'] + d)
}

/// Relies on termion's `color::LightBlack::fg_str`: palette entry 8.
#[verifier::external_body]
pub(crate) fn fg_light_black() -> (r: &'static str)
    ensures
        r@ == fg_palette(seq!['8']),
{
    termion::color::LightBlack.fg_str()
}

/// Relies on termion's `color::White::fg_str`: palette entry 7.
#[verifier::external_body]
pub(crate) fn fg_white() -> (r: &'static str)
    ensures
        r@ == fg_palette(seq!['7']),
{
    termion::color::White.fg_str()
}

/// Relies on termion's `color::LightBlue::fg_str`: palette entry 12.
#[verifier::external_body]
pub(crate) fn fg_light_blue() -> (r: &'static str)
    ensures
        r@ == fg_palette(seq!['1', '2']),
{
    termion::color::LightBlue.fg_str()
}

/// Relies on termion's `color::LightYellow::fg_str`: palette entry 11.
#[verifier::external_body]
pub(crate) fn fg_light_yellow() -> (r: &'static str)
    ensures
        r@ == fg_palette(seq!['1', '1']),
{
    termion::color::LightYellow.fg_str()
}

/// Relies on termion's `color::LightRed::fg_str`: palette entry 9.
#[verifier::external_body]
pub(crate) fn fg_light_red() -> (r: &'static str)
    ensures
        r@ == fg_palette(seq!['9']),
{
    termion::color::LightRed.fg_str()
}

/// Relies on termion's `color::LightWhite::fg_str`: palette entry 15.
#[verifier::external_body]
pub(crate) fn fg_light_white() -> (r: &'static str)
    ensures
        r@ == fg_palette(seq!['1', '5']),
{
    termion::color::LightWhite.fg_str()
}

/// Relies on termion's `color::Reset::fg_str`: `ESC [ 39 m`, the default foreground.
#[verifier::external_body]
pub(crate) fn fg_reset() -> (r: &'static str)
    ensures
        r@ == sgr(seq!['3', '9']),
{
    termion::color::Reset.fg_str()
}

/// Relies on termion's `style::Bold` as a string: `ESC [ 1 m`.
#[verifier::external_body]
pub(crate) fn bold() -> (r: &'static str)
    ensures
        r@ == sgr(seq!['1']),
{
    <termion::style::Bold as AsRef<str>>::as_ref(&termion::style::Bold)
}

/// Relies on termion's `style::Italic` as a string: `ESC [ 3 m`.
#[verifier::external_body]
pub(crate) fn italic() -> (r: &'static str)
    ensures
        r@ == sgr(seq!['3']),
{
    <termion::style::Italic as AsRef<str>>::as_ref(&termion::style::Italic)
}

/// Relies on termion's `style::Reset` as a string: `ESC [ m`, every attribute back to default.
#[verifier::external_body]
pub(crate) fn reset_all() -> (r: &'static str)
    ensures
        r@ == sgr(Seq::empty()),
{
    <termion::style::Reset as AsRef<str>>::as_ref(&termion::style::Reset)
}

} // verus!
