//! Item identity and naming: filename extraction from URLs, stable
//! zero-indexed output filenames, gallery/artwork URL normalisation, and
//! the leading-ordinal convention that the reassembly pipeline reads back
//! out of filenames.

use vstd::prelude::*;
use crate::digits::{
    all_digits, is_ascii_digit, spec_parse_i32, spec_zero_padded, u64_to_zero_padded,
    parse_i32,
};
use crate::text::{
    after_last_char, after_last_char_str, before_first_char, before_first_char_str, contains_seq,
    contains_sub, first_occur, lemma_first_occur_when_contains, spec_replace, replace_all,
};

verus! {

/// Every character of the string is a decimal digit.
pub fn str_is_digit(s: &str) -> (r: bool)
    ensures
        r == all_digits(s@),
{
    let l = s.unicode_len();
    let mut i: usize = 0;
    while i < l
        invariant
            0 <= i <= l,
            l == s@.len(),
            forall|k: int| 0 <= k < i ==> is_ascii_digit(#[trigger] s@[k]),
        decreases l - i,
    {
        let cv: u32 = s.get_char(i) as u32;
        if cv < 48 || cv > 57 {
            proof {
                assert(!is_ascii_digit(s@[i as int]));
            }
            return false;
        }
        i = i + 1;
    }
    true
}

/// The path component after the last slash: the filename of a URL or path.
pub fn split_backslash_last<'a>(s: &'a str) -> (r: &'a str)
    ensures
        r@ == after_last_char(s@, '/'),
{
    after_last_char_str(s, '/')
}

/// The download destination of an explicitly saved file: the `Downloads`
/// directory of the given home directory.
pub fn generate_filepath(home: &str, filename: &str) -> (r: String)
    ensures
        r@ == home@ + "/Downloads/"@ + filename@,
{
    String::from_str(home).concat("/Downloads/").concat(filename)
}

/// An output filename: the zero-padded index, the display name, and the
/// extension of the original filename.
pub open spec fn spec_prefix_filename(
    oldname_with_ext: Seq<char>,
    newname: Seq<char>,
    number: int,
) -> Seq<char> {
    spec_zero_padded(number, 3) + seq!['_'] + newname + seq!['.'] + after_last_char(
        oldname_with_ext,
        '.',
    )
}

/// Builds `{number:03}_{newname}.{ext}` where `ext` is the extension of the
/// old filename.
pub fn prefix_filename(oldname_with_ext: &str, newname: &str, number: i32) -> (r: String)
    requires
        0 <= number,
    ensures
        r@ == spec_prefix_filename(oldname_with_ext@, newname@, number as int),
{
    let ext = after_last_char_str(oldname_with_ext, '.');
    let r = u64_to_zero_padded(number as u64, 3).concat("_").concat(newname).concat(".").concat(
        ext,
    );
    proof {
        reveal_strlit("_");
        reveal_strlit(".");
        assert(r@ =~= spec_prefix_filename(oldname_with_ext@, newname@, number as int));
    }
    r
}

/// A user-listing display name: the zero-padded row number, nineteen
/// spaces, then the artist's name.
pub fn prefix_artist_name(name: &str, number: i32) -> (r: String)
    requires
        0 <= number,
    ensures
        r@ == spec_zero_padded(number as int, 2) + crate::text::char_repeat(' ', 19) + name@,
{
    let pad = crate::text::repeat_char(' ', 19);
    let r = u64_to_zero_padded(number as u64, 2).concat(pad.as_str()).concat(name);
    proof {
        assert(r@ =~= spec_zero_padded(number as int, 2) + crate::text::char_repeat(' ', 19)
            + name@);
    }
    r
}

/// Zips filenames and display names into output filenames: entry `i` is
/// `{i:03}_{name_i}.{ext_i}`, so output names are stable, collision-free
/// and sortable whatever the display names.
pub fn newnames_with_ext(
    urls: Vec<String>,
    oldname_with_ext: Vec<String>,
    newnames: Vec<String>,
) -> (r: Vec<String>)
    requires
        urls@.len() == oldname_with_ext@.len(),
        urls@.len() == newnames@.len(),
        urls@.len() <= i32::MAX as int,
    ensures
        r@.len() == urls@.len(),
        forall|i: int|
            0 <= i < r@.len() ==> r@[i]@ == spec_prefix_filename(
                oldname_with_ext@[i]@,
                newnames@[i]@,
                i,
            ),
{
    let mut r: Vec<String> = Vec::new();
    let mut i: usize = 0;
    while i < urls.len()
        invariant
            0 <= i <= urls@.len(),
            urls@.len() == oldname_with_ext@.len(),
            urls@.len() == newnames@.len(),
            urls@.len() <= i32::MAX as int,
            r@.len() == i as int,
            forall|k: int|
                0 <= k < i ==> r@[k]@ == spec_prefix_filename(
                    oldname_with_ext@[k]@,
                    newnames@[k]@,
                    k,
                ),
        decreases urls@.len() - i,
    {
        let name = prefix_filename(
            oldname_with_ext[i].as_str(),
            newnames[i].as_str(),
            i as i32,
        );
        r.push(name);
        i = i + 1;
    }
    r
}

/// Law: output filenames never collide. Two synthesized names with
/// different indices differ, whatever the display names and extensions,
/// because the zero-padded index prefix runs up to the first underscore
/// and pins the index down.
pub proof fn lemma_output_names_distinct(
    old1: Seq<char>,
    new1: Seq<char>,
    a: int,
    old2: Seq<char>,
    new2: Seq<char>,
    b: int,
)
    requires
        0 <= a,
        0 <= b,
        a != b,
    ensures
        spec_prefix_filename(old1, new1, a) != spec_prefix_filename(old2, new2, b),
{
    crate::digits::lemma_zero_padded_value(a, 3);
    crate::digits::lemma_zero_padded_value(b, 3);
    let pa = spec_zero_padded(a, 3);
    let pb = spec_zero_padded(b, 3);
    let sa = spec_prefix_filename(old1, new1, a);
    let sb = spec_prefix_filename(old2, new2, b);
    if sa == sb {
        if pa.len() == pb.len() {
            assert(pa =~= pb) by {
                assert forall|i: int| 0 <= i < pa.len() implies pa[i] == pb[i] by {
                    assert(sa[i] == pa[i]);
                    assert(sb[i] == pb[i]);
                }
            }
            crate::digits::lemma_zero_padded_injective(a, b, 3);
        } else if pa.len() < pb.len() {
            assert(sa[pa.len() as int] == '_');
            assert(sb[pa.len() as int] == pb[pa.len() as int]);
            assert(is_ascii_digit(pb[pa.len() as int]));
        } else {
            assert(sb[pb.len() as int] == '_');
            assert(sa[pb.len() as int] == pa[pb.len() as int]);
            assert(is_ascii_digit(pa[pb.len() as int]));
        }
    }
}

/// Reduces a user page URL to the trailing user id; a bare id passes
/// through unchanged.
pub fn process_user_url<'a>(url_or_id: &'a str) -> (r: &'a str)
    ensures
        contains_seq(url_or_id@, "users"@) ==> r@ == after_last_char(url_or_id@, '/'),
        !contains_seq(url_or_id@, "users"@) ==> r@ == url_or_id@,
{
    if contains_sub(url_or_id, "users") {
        split_backslash_last(url_or_id)
    } else {
        url_or_id
    }
}

/// A `_master` marker occurs at `i`: the literal `_master` followed by at
/// least one digit.
pub open spec fn master_match_at(s: Seq<char>, i: int) -> bool {
    0 <= i && i + 8 <= s.len() && s.subrange(i, i + 7) == "_master"@ && is_ascii_digit(s[i + 7])
}

/// Start of the leftmost `_master` marker at or after `i`, `-1` if none.
pub open spec fn first_master_from(s: Seq<char>, i: int) -> int
    recommends
        0 <= i,
    decreases s.len() - i,
{
    if i + 8 > s.len() {
        -1
    } else if master_match_at(s, i) {
        i
    } else {
        first_master_from(s, i + 1)
    }
}

/// End of the run of digits starting at `j`.
pub open spec fn digit_run_end(s: Seq<char>, j: int) -> int
    recommends
        0 <= j <= s.len(),
    decreases s.len() - j,
{
    if j < s.len() && is_ascii_digit(s[j]) {
        digit_run_end(s, j + 1)
    } else {
        j
    }
}

/// The string with its leftmost `_master` marker and the marker's digit
/// run removed; unchanged when no marker occurs.
pub open spec fn spec_strip_master(s: Seq<char>) -> Seq<char> {
    let i = first_master_from(s, 0);
    if i < 0 {
        s
    } else {
        s.subrange(0, i) + s.subrange(digit_run_end(s, i + 7), s.len() as int)
    }
}

/// Relies on `regex::Regex::replace` with the pattern `_master\d+`: removes
/// the leftmost occurrence of `_master` followed by its greedy digit run.
/// Restricted to ASCII input, where the pattern's `\d` coincides with the
/// ASCII digits.
#[verifier::external_body]
fn strip_master_once(url: &str) -> (r: String)
    requires
        url.is_ascii(),
    ensures
        r@ == spec_strip_master(url@),
{
    let re = regex::Regex::new(r"_master\d+").unwrap();
    re.replace(url, "").into_owned()
}

/// What `regex::Regex::replace` with the pattern
/// `c/\d+x\d+_\d+_\w+/img-master` and the replacement `img-original` makes
/// of a URL; a function of the URL alone.
pub uninterp spec fn original_image_url(s: Seq<char>) -> Seq<char>;

/// Relies on `regex::Regex::replace` with the pattern
/// `c/\d+x\d+_\d+_\w+/img-master`: rewrites the leftmost sizing path
/// segment of a thumbnail URL to `img-original`, and leaves a URL without
/// `img-master` untouched.
#[verifier::external_body]
fn rewrite_to_original(url: &str) -> (r: String)
    ensures
        r@ == original_image_url(url@),
        !contains_seq(url@, "img-master"@) ==> r@ == url@,
{
    let re = regex::Regex::new(r"c/\d+x\d+_\d+_\w+/img-master").unwrap();
    re.replace(url, "img-original").into_owned()
}

/// Rewrites a sized thumbnail URL into the URL of the original image:
/// strips the `_master` size marker, redirects the sizing path segment to
/// `img-original`, and optionally rewrites `jpg` to `png`. Catalog URLs
/// are ASCII, which the size-marker contract is stated for.
pub fn change_url_to_full(url: &str, png: bool) -> (r: String)
    requires
        url.is_ascii(),
    ensures
        png ==> r@ == spec_replace(
            original_image_url(spec_strip_master(url@)),
            "jpg"@,
            "png"@,
        ),
        !png ==> r@ == original_image_url(spec_strip_master(url@)),
{
    let stripped = strip_master_once(url);
    let orig = rewrite_to_original(stripped.as_str());
    if png {
        proof {
            reveal_strlit("jpg");
        }
        replace_all(orig.as_str(), "jpg", "png")
    } else {
        orig
    }
}

/// End of the line starting at `i`: the next newline at or after `i`, or
/// the end of the string.
pub open spec fn line_end_from(s: Seq<char>, i: int) -> int
    recommends
        0 <= i <= s.len(),
    decreases s.len() - i,
{
    if i >= s.len() {
        s.len() as int
    } else if s[i] == '\n' {
        i
    } else {
        line_end_from(s, i + 1)
    }
}

/// Relies on `regex::Regex::find` with the pattern `&illust_id.*`: the
/// leftmost match starts at the first occurrence of the literal
/// `&illust_id` and runs to the end of that line.
#[verifier::external_body]
fn find_illust_id_suffix(url: &str) -> (r: Option<String>)
    ensures
        match r {
            Some(m) => first_occur(url@, "&illust_id"@) >= 0 && m@ == url@.subrange(
                first_occur(url@, "&illust_id"@),
                line_end_from(url@, first_occur(url@, "&illust_id"@)),
            ),
            None => first_occur(url@, "&illust_id"@) == -1,
        },
{
    let re = regex::Regex::new(r"&illust_id.*").unwrap();
    re.find(url).map(|m| m.as_str().to_string())
}

/// Reduces an artwork URL to the bare artwork id: the trailing path
/// component of an `artworks` URL, the value of the `illust_id` query
/// parameter of a legacy URL, or a bare id unchanged. A legacy URL must
/// carry the parameter in its `&illust_id` query form.
pub fn process_artwork_url(url_or_id: &str) -> (r: String)
    requires
        contains_seq(url_or_id@, "illust_id"@) && !contains_seq(url_or_id@, "artworks"@)
            ==> contains_seq(url_or_id@, "&illust_id"@),
    ensures
        contains_seq(url_or_id@, "artworks"@) ==> r@ == before_first_char(
            after_last_char(url_or_id@, '/'),
            '\\',
        ),
        !contains_seq(url_or_id@, "artworks"@) && contains_seq(url_or_id@, "illust_id"@)
            ==> r@ == after_last_char(
            url_or_id@.subrange(
                first_occur(url_or_id@, "&illust_id"@),
                line_end_from(url_or_id@, first_occur(url_or_id@, "&illust_id"@)),
            ),
            '=',
        ),
        !contains_seq(url_or_id@, "artworks"@) && !contains_seq(url_or_id@, "illust_id"@)
            ==> r@ == url_or_id@,
{
    if contains_sub(url_or_id, "artworks") {
        let tail = split_backslash_last(url_or_id);
        String::from_str(before_first_char_str(tail, '\\'))
    } else if contains_sub(url_or_id, "illust_id") {
        proof {
            lemma_first_occur_when_contains(url_or_id@, "&illust_id"@);
        }
        match find_illust_id_suffix(url_or_id) {
            Some(m) => String::from_str(after_last_char_str(m.as_str(), '=')),
            None => String::from_str(url_or_id),
        }
    } else {
        String::from_str(url_or_id)
    }
}

/// The URL, filename, and download path of the full-resolution original
/// behind a thumbnail URL.
pub fn full_image_details<'a>(url: &'a str, png: bool, home: &str) -> (r: (String, &'a str, String))
    requires
        url.is_ascii(),
    ensures
        png ==> r.0@ == spec_replace(
            original_image_url(spec_strip_master(url@)),
            "jpg"@,
            "png"@,
        ),
        !png ==> r.0@ == original_image_url(spec_strip_master(url@)),
        r.1@ == after_last_char(url@, '/'),
        r.2@ == home@ + "/Downloads/"@ + after_last_char(url@, '/'),
{
    let fullurl = change_url_to_full(url, png);
    let filename = split_backslash_last(url);
    let filepath = generate_filepath(home, filename);
    (fullurl, filename, filepath)
}

/// The leading-ordinal token of a path: the part of its filename before
/// the first underscore.
pub open spec fn spec_file_token(s: Seq<char>) -> Seq<char> {
    before_first_char(after_last_char(s, '/'), '_')
}

/// Parses the leading ordinal out of a path whose filename follows the
/// `{ordinal}_{name}` convention; nothing when the token is not a decimal
/// number that fits.
pub fn file_to_int(x: &str) -> (r: Option<i32>)
    ensures
        match r {
            Some(v) => spec_parse_i32(spec_file_token(x@)) == Some(v as int),
            None => spec_parse_i32(spec_file_token(x@)) is None,
        },
{
    let filename = after_last_char_str(x, '/');
    let token = before_first_char_str(filename, '_');
    parse_i32(token)
}

/// The path carries the given leading ordinal.
pub open spec fn path_has_ordinal(p: Seq<char>, num: int) -> bool {
    spec_parse_i32(spec_file_token(p)) == Some(num)
}

/// The first path in the list whose leading ordinal equals `num`, if any.
pub fn int_to_file(num: i32, paths: &Vec<String>) -> (r: Option<String>)
    ensures
        match r {
            Some(p) => exists|k: int|
                0 <= k < paths@.len() && #[trigger] path_has_ordinal(paths@[k]@, num as int)
                    && p@ == paths@[k]@ && forall|j: int|
                    0 <= j < k ==> !path_has_ordinal(paths@[j]@, num as int),
            None => forall|k: int|
                0 <= k < paths@.len() ==> !path_has_ordinal(#[trigger] paths@[k]@, num as int),
        },
{
    let mut i: usize = 0;
    while i < paths.len()
        invariant
            0 <= i <= paths@.len(),
            forall|j: int| 0 <= j < i ==> !path_has_ordinal(#[trigger] paths@[j]@, num as int),
        decreases paths@.len() - i,
    {
        let matched: bool = match file_to_int(paths[i].as_str()) {
            Some(v) => v == num,
            None => false,
        };
        if matched {
            proof {
                assert(path_has_ordinal(paths@[i as int]@, num as int));
            }
            return Some(paths[i].clone());
        }
        i = i + 1;
    }
    None
}

} // verus!
