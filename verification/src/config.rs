//! Configuration text: extracting sections and settings out of the raw
//! text of an INI-style configuration file, and the typed settings the
//! browser derives from them. Reading the file from disk is the caller's
//! business; everything here is pure text work. Matching is
//! case-insensitive over ASCII.

use vstd::prelude::*;
use crate::digits::{parse_i32, spec_parse_i32};
use crate::layout::{ncols, nrows, spec_ncols, spec_nrows, xcoords, ycoords};
use crate::text::{
    after_first_char, after_first_char_str, ascii_lowercase, before_first_char,
    before_first_char_str, char_first, find_char, find_sub, first_occur, last_occur,
    lemma_first_occur_at, lemma_first_occur_none, lemma_last_occur_at, lemma_last_occur_none,
    lower_char, rfind_sub, spec_trim, str_eq, trim_ascii,
};

verus! {

/// The string mapped to ASCII lower case.
pub open spec fn lower_seq(s: Seq<char>) -> Seq<char> {
    Seq::new(s.len(), |i: int| lower_char(s[i]))
}

/// The text of the named section: everything after the last `[name]`
/// heading up to the next heading, trimmed; matching is case-insensitive
/// and the result is in lower case.
pub open spec fn spec_get_section(file: Seq<char>, name: Seq<char>) -> Seq<char> {
    let f = lower_seq(file);
    let pat = seq!['['] + lower_seq(name) + seq![']'];
    let idx = last_occur(f, pat);
    let tail = if idx < 0 {
        f
    } else {
        f.skip(idx + pat.len())
    };
    spec_trim(before_first_char(tail, '['))
}

/// The raw value of a setting: within the named section, the text between
/// the first `=` of the setting's line and the line's next `=` or end.
/// Nothing when the setting does not occur, its line has no newline after
/// it, or the line carries no `=`.
pub open spec fn spec_get_setting(
    file: Seq<char>,
    section: Seq<char>,
    setting: Seq<char>,
) -> Option<Seq<char>> {
    let sec = spec_get_section(file, section);
    let pat = lower_seq(setting);
    let start = first_occur(sec, pat);
    if start < 0 {
        None
    } else {
        let rest = sec.skip(start);
        if char_first(rest, '\n') < 0 {
            None
        } else {
            let line = before_first_char(rest, '\n');
            if char_first(line, '=') < 0 {
                None
            } else {
                Some(before_first_char(after_first_char(line, '='), '='))
            }
        }
    }
}

/// A setting read as a decimal integer, or the fallback when it is absent
/// or does not parse.
pub open spec fn spec_setting_i32(
    file: Seq<char>,
    section: Seq<char>,
    setting: Seq<char>,
    fallback: int,
) -> int {
    match spec_get_setting(file, section, setting) {
        Some(v) => match spec_parse_i32(v) {
            Some(x) => x,
            None => fallback,
        },
        None => fallback,
    }
}

/// A setting read as a boolean, or the fallback when it is absent or is
/// neither `true` nor `false`.
pub open spec fn spec_setting_bool(
    file: Seq<char>,
    section: Seq<char>,
    setting: Seq<char>,
    fallback: bool,
) -> bool {
    match spec_get_setting(file, section, setting) {
        Some(v) => if v == "true"@ {
            true
        } else if v == "false"@ {
            false
        } else {
            fallback
        },
        None => fallback,
    }
}

/// Extracts the text of the named section of the configuration file.
pub fn get_section(file: &str, section_name: &str) -> (r: String)
    ensures
        r@ == spec_get_section(file@, section_name@),
{
    let f = ascii_lowercase(file);
    let lname = ascii_lowercase(section_name);
    let pat = String::from_str("[").concat(lname.as_str()).concat("]");
    proof {
        reveal_strlit("[");
        reveal_strlit("]");
        assert(f@ =~= lower_seq(file@));
        assert(pat@ =~= seq!['['] + lower_seq(section_name@) + seq![']']);
    }
    let flen = f.as_str().unicode_len();
    let plen = pat.as_str().unicode_len();
    let tail: &str = match rfind_sub(f.as_str(), pat.as_str()) {
        Some(i) => {
            proof {
                lemma_last_occur_at(f@, pat@, i as int);
                assert(f@.subrange(i as int + plen as int, flen as int) =~= f@.skip(
                    i as int + plen as int,
                ));
            }
            f.as_str().substring_char(i + plen, flen)
        },
        None => {
            proof {
                lemma_last_occur_none(f@, pat@);
            }
            f.as_str()
        },
    };
    let head = before_first_char_str(tail, '[');
    String::from_str(trim_ascii(head))
}

/// Extracts the raw value of a setting from the configuration file.
pub fn get_setting(file: &str, section_name: &str, setting_name: &str) -> (r: Option<String>)
    ensures
        match r {
            Some(v) => spec_get_setting(file@, section_name@, setting_name@) == Some(v@),
            None => spec_get_setting(file@, section_name@, setting_name@) is None,
        },
{
    let sec = get_section(file, section_name);
    let pat = ascii_lowercase(setting_name);
    proof {
        assert(pat@ =~= lower_seq(setting_name@));
    }
    let start = match find_sub(sec.as_str(), pat.as_str()) {
        Some(i) => {
            proof {
                lemma_first_occur_at(sec@, pat@, i as int);
            }
            i
        },
        None => {
            proof {
                lemma_first_occur_none(sec@, pat@);
            }
            return None;
        },
    };
    let slen = sec.as_str().unicode_len();
    let rest = sec.as_str().substring_char(start, slen);
    proof {
        assert(sec@.subrange(start as int, slen as int) =~= sec@.skip(start as int));
    }
    match find_char(rest, '\n') {
        Some(i) => {
            proof {
                crate::text::lemma_char_first_at(rest@, '\n', i as int);
            }
        },
        None => {
            proof {
                crate::text::lemma_char_first_none(rest@, '\n');
            }
            return None;
        },
    }
    let line = before_first_char_str(rest, '\n');
    match find_char(line, '=') {
        Some(i) => {
            proof {
                crate::text::lemma_char_first_at(line@, '=', i as int);
            }
        },
        None => {
            proof {
                crate::text::lemma_char_first_none(line@, '=');
            }
            return None;
        },
    }
    let after = after_first_char_str(line, '=');
    let val = before_first_char_str(after, '=');
    Some(String::from_str(val))
}

/// Reads a setting as a decimal integer, falling back when it is absent
/// or malformed.
fn parse_setting_i32(file: &str, section: &str, setting: &str, fallback: i32) -> (r: i32)
    ensures
        r as int == spec_setting_i32(file@, section@, setting@, fallback as int),
{
    match get_setting(file, section, setting) {
        Some(v) => match parse_i32(v.as_str()) {
            Some(x) => x,
            None => fallback,
        },
        None => fallback,
    }
}

/// Reads a setting as a boolean, falling back when it is absent or is
/// neither `true` nor `false`.
fn parse_setting_bool(file: &str, section: &str, setting: &str, fallback: bool) -> (r: bool)
    ensures
        r == spec_setting_bool(file@, section@, setting@, fallback),
{
    match get_setting(file, section, setting) {
        Some(v) => {
            if str_eq(v.as_str(), "true") {
                true
            } else if str_eq(v.as_str(), "false") {
                false
            } else {
                fallback
            }
        },
        None => fallback,
    }
}

/// Whether the experimental image-mode previews are switched on.
pub fn check_image_preview(file: &str) -> (r: bool)
    ensures
        r == spec_setting_bool(file@, "experimental"@, "image_mode_previews"@, false),
{
    parse_setting_bool(file, "experimental", "image_mode_previews", false)
}

/// Whether the info lines should be printed.
pub fn check_print_info(file: &str) -> (r: bool)
    ensures
        r == spec_setting_bool(file@, "misc"@, "print_info"@, true),
{
    parse_setting_bool(file, "misc", "print_info", true)
}

/// The configured tile size and spacing for one axis: the `image_{side}`
/// and `image_{dimension}_spacing` settings of the layout section.
pub fn width_padding(file: &str, side: &str, dimension: &str, fallbacks: (i32, i32)) -> (r: (
    i32,
    i32,
))
    ensures
        r.0 as int == spec_setting_i32(
            file@,
            "lscat"@,
            "image_"@ + side@,
            fallbacks.0 as int,
        ),
        r.1 as int == spec_setting_i32(
            file@,
            "lscat"@,
            "image_"@ + dimension@ + "_spacing"@,
            fallbacks.1 as int,
        ),
{
    let size_key = String::from_str("image_").concat(side);
    let spacing_key = String::from_str("image_").concat(dimension).concat("_spacing");
    proof {
        assert(size_key@ =~= "image_"@ + side@);
        assert(spacing_key@ =~= "image_"@ + dimension@ + "_spacing"@);
    }
    (
        parse_setting_i32(file, "lscat", size_key.as_str(), fallbacks.0),
        parse_setting_i32(file, "lscat", spacing_key.as_str(), fallbacks.1),
    )
}

/// A configured tile size and spacing, kept only when both lie within the
/// terminal's plausible pixel range; the fallbacks otherwise.
pub open spec fn spec_geometry(w: int, p: int, fw: int, fp: int) -> (int, int) {
    if 1 <= w <= 0xffff && 0 <= p <= 0xffff {
        (w, p)
    } else {
        (fw, fp)
    }
}

/// Applies `spec_geometry` to a parsed pair.
fn sanitize_geometry(w: i32, p: i32, fw: i32, fp: i32) -> (r: (i32, i32))
    requires
        1 <= fw <= 0xffff,
        0 <= fp <= 0xffff,
    ensures
        (r.0 as int, r.1 as int) == spec_geometry(w as int, p as int, fw as int, fp as int),
        1 <= r.0 <= 0xffff,
        0 <= r.1 <= 0xffff,
{
    if 1 <= w && w <= 0xffff && 0 <= p && p <= 0xffff {
        (w, p)
    } else {
        (fw, fp)
    }
}

/// The configured tile width and horizontal spacing, defaults 18 and 2,
/// held to the terminal's plausible pixel range.
pub open spec fn spec_tile_width(file: Seq<char>) -> (int, int) {
    spec_geometry(
        spec_setting_i32(file, "lscat"@, "image_"@ + "width"@, 18),
        spec_setting_i32(file, "lscat"@, "image_"@ + "x"@ + "_spacing"@, 2),
        18,
        2,
    )
}

/// The configured tile height and horizontal spacing (the layout reads
/// the horizontal spacing for both axes), defaults 8 and 2.
pub open spec fn spec_tile_height(file: Seq<char>) -> (int, int) {
    spec_geometry(
        spec_setting_i32(file, "lscat"@, "image_"@ + "height"@, 8),
        spec_setting_i32(file, "lscat"@, "image_"@ + "x"@ + "_spacing"@, 2),
        8,
        2,
    )
}

/// Number of grid columns for the configured tile geometry.
pub fn ncols_config(file: &str, term_width: u16) -> (r: i32)
    ensures
        r == spec_ncols(
            term_width as int,
            spec_tile_width(file@).0,
            spec_tile_width(file@).1,
        ),
        0 <= r <= term_width,
{
    let (w, p) = width_padding(file, "width", "x", (18, 2));
    let (w, p) = sanitize_geometry(w, p, 18, 2);
    proof {
        reveal_strlit("width");
        reveal_strlit("x");
    }
    ncols(term_width, w, p)
}

/// Number of grid rows for the configured tile geometry.
pub fn nrows_config(file: &str, term_height: u16) -> (r: i32)
    ensures
        r == spec_nrows(
            term_height as int,
            spec_tile_height(file@).0,
            spec_tile_height(file@).1,
        ),
        0 <= r <= term_height,
{
    let (h, p) = width_padding(file, "height", "x", (8, 2));
    let (h, p) = sanitize_geometry(h, p, 8, 2);
    proof {
        reveal_strlit("height");
        reveal_strlit("x");
    }
    nrows(term_height, h, p)
}

/// x-coordinate of every grid column for the configured tile geometry.
pub fn xcoords_config(file: &str, term_width: u16, offset: i32) -> (r: Vec<i32>)
    requires
        0 <= offset <= 0x3fff_0000,
    ensures
        r@.len() == spec_ncols(
            term_width as int,
            spec_tile_width(file@).0,
            spec_tile_width(file@).1,
        ),
        forall|c: int|
            0 <= c < r@.len() ==> r@[c] as int == c * spec_tile_width(file@).0
                + spec_tile_width(file@).1 + offset as int,
        forall|a: int, b: int| 0 <= a < b < r@.len() ==> r@[a] < r@[b],
{
    let (w, p) = width_padding(file, "width", "x", (18, 2));
    let (w, p) = sanitize_geometry(w, p, 18, 2);
    proof {
        reveal_strlit("width");
        reveal_strlit("x");
    }
    xcoords(term_width, w, p, offset)
}

/// y-coordinate of every grid row for the configured tile geometry.
pub fn ycoords_config(file: &str, term_height: u16) -> (r: Vec<i32>)
    ensures
        r@.len() == spec_nrows(
            term_height as int,
            spec_tile_height(file@).0,
            spec_tile_height(file@).1,
        ),
        forall|row: int|
            0 <= row < r@.len() ==> r@[row] as int == row * (spec_tile_height(file@).0
                + spec_tile_height(file@).1),
        forall|a: int, b: int| 0 <= a < b < r@.len() ==> r@[a] < r@[b],
{
    let (h, p) = width_padding(file, "height", "x", (8, 2));
    let (h, p) = sanitize_geometry(h, p, 8, 2);
    proof {
        reveal_strlit("height");
        reveal_strlit("x");
    }
    ycoords(term_height, h, p)
}

/// Blank lines printed between gallery pages, default 23.
pub fn gallery_page_spacing_config(file: &str) -> (r: i32)
    ensures
        r as int == spec_setting_i32(file@, "lscat"@, "page_spacing"@, 23),
{
    parse_setting_i32(file, "lscat", "page_spacing", 23)
}

/// Blank lines printed between user-listing pages: three fewer than the
/// gallery page spacing, held at `i32::MIN` when that would underflow.
pub fn users_page_spacing_config(file: &str) -> (r: i32)
    ensures
        spec_setting_i32(file@, "lscat"@, "page_spacing"@, 23) - 3 >= i32::MIN as int ==> r
            as int == spec_setting_i32(file@, "lscat"@, "page_spacing"@, 23) - 3,
        spec_setting_i32(file@, "lscat"@, "page_spacing"@, 23) - 3 < i32::MIN as int ==> r
            == i32::MIN,
{
    let v = gallery_page_spacing_config(file);
    if v >= i32::MIN + 3 {
        v - 3
    } else {
        i32::MIN
    }
}

/// Edge length of the displayed thumbnails, default 310.
pub fn thumbnail_size_config(file: &str) -> (r: i32)
    ensures
        r as int == spec_setting_i32(file@, "lscat"@, "image_thumbnail_size"@, 310),
{
    parse_setting_i32(file, "lscat", "image_thumbnail_size", 310)
}

/// The user-listing name column and image spacing, defaults 18 and 2.
pub fn get_gen_users_settings(file: &str) -> (r: (i32, i32))
    ensures
        r.0 as int == spec_setting_i32(file@, "lscat"@, "users_print_name_xcoord"@, 18),
        r.1 as int == spec_setting_i32(file@, "lscat"@, "images_x_spacing"@, 2),
{
    (
        parse_setting_i32(file, "lscat", "users_print_name_xcoord", 18),
        parse_setting_i32(file, "lscat", "images_x_spacing", 2),
    )
}

/// Vertical offset of the caption in image mode, default 4.
pub fn image_text_offset(file: &str) -> (r: i32)
    ensures
        r as int == spec_setting_i32(file@, "experimental"@, "image_mode_text_offset"@, 4),
{
    parse_setting_i32(file, "experimental", "image_mode_text_offset", 4)
}

/// The string split at every occurrence of the character; never empty,
/// and without the separators.
pub open spec fn split_char(s: Seq<char>, c: char) -> Seq<Seq<char>>
    decreases s.len(),
{
    let i = char_first(s, c);
    if 0 <= i && i < s.len() {
        seq![s.take(i)] + split_char(s.skip(i + 1), c)
    } else {
        seq![s]
    }
}

/// Splits a string at every comma.
fn split_commas(s: &str) -> (r: Vec<String>)
    ensures
        r@.len() == split_char(s@, ',').len(),
        forall|k: int| 0 <= k < r@.len() ==> r@[k]@ == split_char(s@, ',')[k],
    decreases s@.len(),
{
    let l = s.unicode_len();
    match find_char(s, ',') {
        None => {
            proof {
                crate::text::lemma_char_first_none(s@, ',');
            }
            let mut r: Vec<String> = Vec::new();
            r.push(String::from_str(s));
            r
        },
        Some(i) => {
            proof {
                crate::text::lemma_char_first_at(s@, ',', i as int);
            }
            let head = s.substring_char(0, i);
            let tail = s.substring_char(i + 1, l);
            proof {
                assert(s@.subrange(0, i as int) =~= s@.take(i as int));
                assert(s@.subrange(i as int + 1, l as int) =~= s@.skip(i as int + 1));
            }
            let rest = split_commas(tail);
            let mut r: Vec<String> = Vec::new();
            r.push(String::from_str(head));
            let mut k: usize = 0;
            while k < rest.len()
                invariant
                    0 <= k <= rest@.len(),
                    r@.len() == 1 + k as int,
                    r@[0]@ == s@.take(i as int),
                    forall|j: int| 0 <= j < k ==> r@[j + 1] == rest@[j],
                    rest@.len() == split_char(s@.skip(i as int + 1), ',').len(),
                    forall|j: int|
                        0 <= j < rest@.len() ==> rest@[j]@ == split_char(
                            s@.skip(i as int + 1),
                            ',',
                        )[j],
                decreases rest@.len() - k,
            {
                r.push(rest[k].clone());
                k = k + 1;
            }
            r
        },
    }
}

/// Every piece parsed as a decimal integer, or nothing when any piece
/// fails to parse.
pub open spec fn parse_all_i32(pieces: Seq<Seq<char>>) -> Option<Seq<int>>
    decreases pieces.len(),
{
    if pieces.len() == 0 {
        Some(Seq::empty())
    } else {
        match (parse_all_i32(pieces.drop_last()), spec_parse_i32(pieces.last())) {
            (Some(init), Some(v)) => Some(init.push(v)),
            _ => None,
        }
    }
}

/// A prefix that fails to parse makes the whole list fail.
proof fn lemma_parse_all_extends_none(pieces: Seq<Seq<char>>, i: int)
    requires
        0 <= i <= pieces.len(),
        parse_all_i32(pieces.take(i)) is None,
    ensures
        parse_all_i32(pieces) is None,
    decreases pieces.len() - i,
{
    if i == pieces.len() {
        assert(pieces.take(i) =~= pieces);
    } else {
        assert(pieces.take(i + 1).drop_last() =~= pieces.take(i));
        lemma_parse_all_extends_none(pieces, i + 1);
    }
}

/// The configured gallery print spacings: the comma-separated list of the
/// `gallery_print_spacing` setting, with `9,17,17,17,17` standing in when
/// the setting is absent or any piece fails to parse.
pub open spec fn spec_gallery_print_spacing(file: Seq<char>) -> Seq<int> {
    let txt = match spec_get_setting(file, "lscat"@, "gallery_print_spacing"@) {
        Some(v) => v,
        None => "9,17,17,17,17"@,
    };
    match parse_all_i32(split_char(txt, ',')) {
        Some(vals) => vals,
        None => seq![9, 17, 17, 17, 17],
    }
}

/// The default gallery print spacings.
fn default_print_spacing() -> (r: Vec<i32>)
    ensures
        r@.len() == 5,
        r@ =~= seq![9i32, 17i32, 17i32, 17i32, 17i32],
{
    let mut r: Vec<i32> = Vec::new();
    r.push(9);
    r.push(17);
    r.push(17);
    r.push(17);
    r.push(17);
    r
}

/// Reads the configured gallery print spacings.
pub fn gallery_print_spacing_config(file: &str) -> (r: Vec<i32>)
    ensures
        r@.len() == spec_gallery_print_spacing(file@).len(),
        forall|i: int|
            0 <= i < r@.len() ==> r@[i] as int == spec_gallery_print_spacing(file@)[i],
{
    let txt: String = match get_setting(file, "lscat", "gallery_print_spacing") {
        Some(v) => v,
        None => String::from_str("9,17,17,17,17"),
    };
    proof {
        assert((match spec_get_setting(file@, "lscat"@, "gallery_print_spacing"@) {
            Some(v) => v,
            None => "9,17,17,17,17"@,
        }) == txt@);
    }
    let pieces = split_commas(txt.as_str());
    let ghost spec_pieces = split_char(txt@, ',');
    let mut out: Vec<i32> = Vec::new();
    let mut i: usize = 0;
    while i < pieces.len()
        invariant
            0 <= i <= pieces@.len(),
            pieces@.len() == spec_pieces.len(),
            forall|j: int| 0 <= j < pieces@.len() ==> pieces@[j]@ == spec_pieces[j],
            spec_pieces == split_char(txt@, ','),
            (match spec_get_setting(file@, "lscat"@, "gallery_print_spacing"@) {
                Some(v) => v,
                None => "9,17,17,17,17"@,
            }) == txt@,
            out@.len() == i as int,
            parse_all_i32(spec_pieces.take(i as int)) == Some(
                Seq::new(i as nat, |j: int| out@[j] as int),
            ),
        decreases pieces@.len() - i,
    {
        proof {
            assert(spec_pieces.take(i as int + 1).drop_last() =~= spec_pieces.take(i as int));
            assert(spec_pieces.take(i as int + 1).last() == spec_pieces[i as int]);
        }
        match parse_i32(pieces[i].as_str()) {
            Some(v) => {
                out.push(v);
                proof {
                    assert(Seq::new(i as nat, |j: int| out@[j] as int).push(v as int)
                        =~= Seq::new((i + 1) as nat, |j: int| out@[j] as int));
                }
            },
            None => {
                proof {
                    assert(parse_all_i32(spec_pieces.take(i as int + 1)) is None);
                    lemma_parse_all_extends_none(spec_pieces, i as int + 1);
                    let sp = spec_gallery_print_spacing(file@);
                    assert(sp == seq![9int, 17int, 17int, 17int, 17int]);
                }
                return default_print_spacing();
            },
        }
        i = i + 1;
    }
    proof {
        assert(spec_pieces.take(spec_pieces.len() as int) =~= spec_pieces);
        let sp = spec_gallery_print_spacing(file@);
        assert(sp == Seq::new(pieces@.len() as nat, |j: int| out@[j] as int));
    }
    out
}

/// Login credentials held in the configuration file.
pub struct Credentials {
    pub username: String,
    pub password: String,
    pub your_id: String,
}

/// Reads the credentials out of the configuration text: present exactly
/// when the `Credentials` section carries all of `username`, `password`
/// and `ID`.
pub fn credentials_from_config(file: &str) -> (r: Option<Credentials>)
    ensures
        match r {
            Some(c) => {
                &&& spec_get_setting(file@, "Credentials"@, "username"@) == Some(c.username@)
                &&& spec_get_setting(file@, "Credentials"@, "password"@) == Some(c.password@)
                &&& spec_get_setting(file@, "Credentials"@, "ID"@) == Some(c.your_id@)
            },
            None => spec_get_setting(file@, "Credentials"@, "username"@) is None
                || spec_get_setting(file@, "Credentials"@, "password"@) is None
                || spec_get_setting(file@, "Credentials"@, "ID"@) is None,
        },
{
    let username = match get_setting(file, "Credentials", "username") {
        Some(v) => v,
        None => {
            return None;
        },
    };
    let password = match get_setting(file, "Credentials", "password") {
        Some(v) => v,
        None => {
            return None;
        },
    };
    let your_id = match get_setting(file, "Credentials", "ID") {
        Some(v) => v,
        None => {
            return None;
        },
    };
    Some(Credentials { username, password, your_id })
}

} // verus!
