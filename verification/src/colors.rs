//! Coloured key-hint fragments for the interactive help lines: each
//! public function builds one bracketed, colour-coded key cue, and the
//! help-text builders join them into whole lines. Printing is left to the
//! caller.

use vstd::prelude::*;
use crate::text::{char_to_lower, char_to_upper, lower_char, push_char, upper_char};

verus! {

/// The red escape code.
pub open spec fn red_v() -> Seq<char> {
    "\x1b[31m"@
}

/// The magenta escape code.
pub open spec fn magenta_v() -> Seq<char> {
    "\x1b[35m"@
}

/// The blue escape code.
pub open spec fn blue_v() -> Seq<char> {
    "\x1b[34m"@
}

/// The reset escape code.
pub open spec fn reset_v() -> Seq<char> {
    "\x1b[39m"@
}

/// A key letter in magenta between red brackets.
pub open spec fn letter_with_brackets_v(letter: char) -> Seq<char> {
    red_v() + "["@ + magenta_v() + seq![letter] + red_v() + "]"@ + reset_v()
}

/// The blue `n` placeholder between red brackets.
pub open spec fn blue_n_v() -> Seq<char> {
    red_v() + "["@ + blue_v() + "n"@ + red_v() + "]"@ + reset_v()
}

/// The `{x}{y}` coordinate placeholder, braces red, letters blue.
pub open spec fn coords_v() -> Seq<char> {
    red_v() + "{"@ + blue_v() + "x"@ + red_v() + "}{"@ + blue_v() + "y"@ + red_v() + "}"@
        + reset_v()
}

/// A bracketed key letter followed by the blue `n` placeholder.
pub open spec fn letter_with_coords_v(letter: char) -> Seq<char> {
    red_v() + "["@ + magenta_v() + seq![letter] + red_v() + "]"@ + blue_n_v() + reset_v()
}

/// The two-form key cue: lower-case letter with coordinates, a bar, then
/// upper-case letter with the `n` placeholder.
pub open spec fn two_letter_with_coords_v(letter: char) -> Seq<char> {
    red_v() + "["@ + magenta_v() + seq![lower_char(letter)] + reset_v() + coords_v() + "|"@
        + magenta_v() + seq![upper_char(letter)] + blue_n_v() + red_v() + "]"@ + reset_v()
}

/// The blue `n` placeholder between red brackets.
#[allow(non_snake_case)]
pub fn BLUE_N() -> (r: String)
    ensures
        r@ == blue_n_v(),
{
    let r = String::from_str("\x1b[31m").concat("[").concat("\x1b[34m").concat("n").concat(
        "\x1b[31m",
    ).concat("]").concat("\x1b[39m");
    proof {
        assert(r@ =~= blue_n_v());
    }
    r
}

/// The `{x}{y}` coordinate placeholder.
#[allow(non_snake_case)]
pub fn COORDS() -> (r: String)
    ensures
        r@ == coords_v(),
{
    let r = String::from_str("\x1b[31m").concat("{").concat("\x1b[34m").concat("x").concat(
        "\x1b[31m",
    ).concat("}{").concat("\x1b[34m").concat("y").concat("\x1b[31m").concat("}").concat(
        "\x1b[39m",
    );
    proof {
        assert(r@ =~= coords_v());
    }
    r
}

/// One key letter in magenta between red brackets.
pub fn letter_with_brackets(letter: char) -> (r: String)
    ensures
        r@ == letter_with_brackets_v(letter),
{
    let mut s = String::from_str("\x1b[31m").concat("[").concat("\x1b[35m");
    push_char(&mut s, letter);
    let r = s.concat("\x1b[31m").concat("]").concat("\x1b[39m");
    proof {
        assert(r@ =~= letter_with_brackets_v(letter));
    }
    r
}

/// One bracketed key letter followed by the blue `n` placeholder.
pub fn letter_with_coords(letter: char) -> (r: String)
    ensures
        r@ == letter_with_coords_v(letter),
{
    let mut s = String::from_str("\x1b[31m").concat("[").concat("\x1b[35m");
    push_char(&mut s, letter);
    let with_n = s.concat("\x1b[31m").concat("]");
    let r = with_n.concat(BLUE_N().as_str()).concat("\x1b[39m");
    proof {
        assert(r@ =~= letter_with_coords_v(letter));
    }
    r
}

/// The two-form key cue for a letter that works with and without
/// coordinates.
pub fn two_letter_with_coords(letter: char) -> (r: String)
    ensures
        r@ == two_letter_with_coords_v(letter),
{
    let mut s = String::from_str("\x1b[31m").concat("[").concat("\x1b[35m");
    push_char(&mut s, char_to_lower(letter));
    let mut t = s.concat("\x1b[39m").concat(COORDS().as_str()).concat("|").concat("\x1b[35m");
    push_char(&mut t, char_to_upper(letter));
    let r = t.concat(BLUE_N().as_str()).concat("\x1b[31m").concat("]").concat("\x1b[39m");
    proof {
        assert(r@ =~= two_letter_with_coords_v(letter));
    }
    r
}

/// The `n`ext-page key cue.
pub fn n() -> (r: String)
    ensures
        r@ == letter_with_brackets_v('n'),
{
    letter_with_brackets('n')
}

/// The `p`revious-page key cue.
pub fn p() -> (r: String)
    ensures
        r@ == letter_with_brackets_v('p'),
{
    letter_with_brackets('p')
}

/// The `r`eload key cue.
pub fn r() -> (r: String)
    ensures
        r@ == letter_with_brackets_v('r'),
{
    letter_with_brackets('r')
}

/// The `q`uit key cue.
pub fn q() -> (r: String)
    ensures
        r@ == letter_with_brackets_v('q'),
{
    letter_with_brackets('q')
}

/// The `m`anual key cue.
pub fn m() -> (r: String)
    ensures
        r@ == letter_with_brackets_v('m'),
{
    letter_with_brackets('m')
}

/// The `b`ack key cue.
pub fn b() -> (r: String)
    ensures
        r@ == letter_with_brackets_v('b'),
{
    letter_with_brackets('b')
}

/// The `o`pen-in-browser key cue (plain form).
pub fn o_() -> (r: String)
    ensures
        r@ == letter_with_brackets_v('o'),
{
    letter_with_brackets('o')
}

/// The `d`ownload key cue (plain form).
pub fn d_() -> (r: String)
    ensures
        r@ == letter_with_brackets_v('d'),
{
    letter_with_brackets('d')
}

/// The `f`ull-resolution key cue.
pub fn f() -> (r: String)
    ensures
        r@ == letter_with_brackets_v('f'),
{
    letter_with_brackets('f')
}

/// The view-nth-image key cue.
pub fn i() -> (r: String)
    ensures
        r@ == letter_with_coords_v('i'),
{
    letter_with_coords('i')
}

/// The open-image key cue, coordinate and numbered forms.
pub fn a() -> (r: String)
    ensures
        r@ == two_letter_with_coords_v('a'),
{
    two_letter_with_coords('a')
}

/// The open-in-browser key cue, coordinate and numbered forms.
pub fn o() -> (r: String)
    ensures
        r@ == two_letter_with_coords_v('o'),
{
    two_letter_with_coords('o')
}

/// The download key cue, coordinate and numbered forms.
pub fn d() -> (r: String)
    ensures
        r@ == two_letter_with_coords_v('d'),
{
    two_letter_with_coords('d')
}

/// The first half of the gallery help line: coordinate, nth-image and
/// download cues with their captions.
pub fn base1() -> (r: [String; 8])
    ensures
        r@.len() == 8,
        r@[0]@ == coords_v(),
        r@[1]@ == " view image at (x, y); "@,
        r@[2]@ == letter_with_coords_v('i'),
        r@[3]@ == " view nth image; "@,
        r@[4]@ == two_letter_with_coords_v('d'),
        r@[5]@ == " download image;\n"@,
        r@[6]@ == two_letter_with_coords_v('o'),
        r@[7]@ == " open image in browser; "@,
{
    [
        COORDS(),
        String::from_str(" view image at (x, y); "),
        i(),
        String::from_str(" view nth image; "),
        d(),
        String::from_str(" download image;\n"),
        o(),
        String::from_str(" open image in browser; "),
    ]
}

/// The second half of the gallery help line: paging, reload and quit cues
/// with their captions.
pub fn base2() -> (r: [String; 8])
    ensures
        r@.len() == 8,
        r@[0]@ == letter_with_brackets_v('n'),
        r@[1]@ == "ext page; "@,
        r@[2]@ == letter_with_brackets_v('p'),
        r@[3]@ == "revious page;\n"@,
        r@[4]@ == letter_with_brackets_v('r'),
        r@[5]@ == "eload and re-download all; "@,
        r@[6]@ == letter_with_brackets_v('q'),
        r@[7]@ == "uit (with confirmation); "@,
{
    [
        n(),
        String::from_str("ext page; "),
        p(),
        String::from_str("revious page;\n"),
        r(),
        String::from_str("eload and re-download all; "),
        q(),
        String::from_str("uit (with confirmation); "),
    ]
}

/// The help line of the single-image view.
pub fn image_help_text() -> (t: String)
    ensures
        t@ == letter_with_brackets_v('b') + "ack; "@ + letter_with_brackets_v('n')
            + "ext image; "@ + letter_with_brackets_v('p') + "revious image; "@
            + letter_with_brackets_v('d') + "ownload image;"@ + letter_with_brackets_v('o')
            + "pen image in browser;\n"@ + "show image in"@ + letter_with_brackets_v('f')
            + "ull res; "@ + letter_with_brackets_v('q') + "uit (with confirmation); "@
            + "view "@ + letter_with_brackets_v('m') + "anual\n"@,
{
    let t = b().concat("ack; ").concat(n().as_str()).concat("ext image; ").concat(
        p().as_str(),
    ).concat("revious image; ").concat(d_().as_str()).concat("ownload image;").concat(
        o_().as_str(),
    ).concat("pen image in browser;\n").concat("show image in").concat(f().as_str()).concat(
        "ull res; ",
    ).concat(q().as_str()).concat("uit (with confirmation); ").concat("view ").concat(
        m().as_str(),
    ).concat("anual\n");
    proof {
        assert(t@ =~= letter_with_brackets_v('b') + "ack; "@ + letter_with_brackets_v('n')
            + "ext image; "@ + letter_with_brackets_v('p') + "revious image; "@
            + letter_with_brackets_v('d') + "ownload image;"@ + letter_with_brackets_v('o')
            + "pen image in browser;\n"@ + "show image in"@ + letter_with_brackets_v('f')
            + "ull res; "@ + letter_with_brackets_v('q') + "uit (with confirmation); "@
            + "view "@ + letter_with_brackets_v('m') + "anual\n"@);
    }
    t
}

/// The help line of the user-listing view.
pub fn user_help_text() -> (t: String)
    ensures
        t@ == "view "@ + blue_n_v() + "th artist's illusts "@ + letter_with_brackets_v('n')
            + "ext page; "@ + letter_with_brackets_v('p') + "revious page; "@
            + letter_with_brackets_v('r') + "eload and re-download all;\n"@
            + letter_with_brackets_v('q') + "uit (with confirmation);"@ + "view "@
            + letter_with_brackets_v('m') + "anual\n"@,
{
    let t = String::from_str("view ").concat(BLUE_N().as_str()).concat(
        "th artist's illusts ",
    ).concat(n().as_str()).concat("ext page; ").concat(p().as_str()).concat(
        "revious page; ",
    ).concat(r().as_str()).concat("eload and re-download all;\n").concat(q().as_str()).concat(
        "uit (with confirmation);",
    ).concat("view ").concat(m().as_str()).concat("anual\n");
    proof {
        assert(t@ =~= "view "@ + blue_n_v() + "th artist's illusts "@ + letter_with_brackets_v(
            'n',
        ) + "ext page; "@ + letter_with_brackets_v('p') + "revious page; "@
            + letter_with_brackets_v('r') + "eload and re-download all;\n"@
            + letter_with_brackets_v('q') + "uit (with confirmation);"@ + "view "@
            + letter_with_brackets_v('m') + "anual\n"@);
    }
    t
}

} // verus!
