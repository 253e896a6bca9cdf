//! Key-sequence handling: turning the digit keys a user typed into item
//! numbers and grid coordinates.

use vstd::prelude::*;
use crate::digits::{is_ascii_digit, spec_parse_i32, parse_i32};
use crate::layout::{find_number_map, spec_page_rows};

verus! {

/// Every captured key token starts with a digit.
pub fn all_isdigit(keyseqs: Vec<&str>) -> (r: bool)
    requires
        forall|k: int| 0 <= k < keyseqs@.len() ==> #[trigger] keyseqs@[k]@.len() >= 1,
    ensures
        r == (forall|k: int|
            0 <= k < keyseqs@.len() ==> is_ascii_digit(#[trigger] keyseqs@[k]@[0])),
{
    let mut i: usize = 0;
    while i < keyseqs.len()
        invariant
            0 <= i <= keyseqs@.len(),
            forall|k: int| 0 <= k < keyseqs@.len() ==> #[trigger] keyseqs@[k]@.len() >= 1,
            forall|k: int| 0 <= k < i ==> is_ascii_digit(#[trigger] keyseqs@[k]@[0]),
        decreases keyseqs@.len() - i,
    {
        let cv: u32 = keyseqs[i].get_char(0) as u32;
        if cv < 48 || cv > 57 {
            proof {
                assert(!is_ascii_digit(keyseqs@[i as int]@[0]));
            }
            return false;
        }
        i = i + 1;
    }
    true
}

/// Joins the two key tokens at `start` into one decimal number: the keys
/// `"1"`, `"2"` typed in a row mean item twelve.
pub fn concat_seq_to_int(keyseqs: Vec<&str>, start: i32) -> (r: i32)
    requires
        0 <= start,
        start as int + 1 < keyseqs@.len(),
        spec_parse_i32(keyseqs@[start as int]@ + keyseqs@[start as int + 1]@) is Some,
    ensures
        Some(r as int) == spec_parse_i32(
            keyseqs@[start as int]@ + keyseqs@[start as int + 1]@,
        ),
{
    let idx = start as usize;
    let first = keyseqs[idx];
    let second = keyseqs[idx + 1];
    let joined = String::from_str(first).concat(second);
    match parse_i32(joined.as_str()) {
        Some(v) => v,
        None => unreached(),
    }
}

/// Turns the last two captured key tokens into the ordinal of the item at
/// that (column, row) cell of a 30-item page, if the cell is on the page.
pub fn seq_coords_to_int(keyseqs: Vec<&str>, ncols: i32) -> (r: Option<i32>)
    requires
        keyseqs@.len() >= 2,
        1 <= ncols <= 0xffff,
        spec_parse_i32(keyseqs@[keyseqs@.len() - 2]@) is Some,
        spec_parse_i32(keyseqs@[keyseqs@.len() - 1]@) is Some,
    ensures
        ({
            let x = spec_parse_i32(keyseqs@[keyseqs@.len() - 2]@)->Some_0;
            let y = spec_parse_i32(keyseqs@[keyseqs@.len() - 1]@)->Some_0;
            if 1 <= x <= ncols as int && 1 <= y <= spec_page_rows(ncols as int) {
                r == Some(((x - 1) + ncols as int * (y - 1)) as i32)
            } else {
                r is None
            }
        }),
{
    let first = keyseqs[keyseqs.len() - 2];
    let second = keyseqs[keyseqs.len() - 1];
    let first_num: i32 = match parse_i32(first) {
        Some(v) => v,
        None => unreached(),
    };
    let second_num: i32 = match parse_i32(second) {
        Some(v) => v,
        None => unreached(),
    };
    find_number_map(first_num, second_num, ncols)
}

} // verus!
