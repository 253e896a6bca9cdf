//! Grid layout engine: pure integer functions mapping terminal geometry
//! (width/height, tile size, padding, offset) to column/row counts, pixel
//! coordinates, and the artist-interleaved presentation order.

use vstd::prelude::*;
use vstd::arithmetic::div_mod::{
    lemma_fundamental_div_mod, lemma_fundamental_div_mod_converse,
};

verus! {

/// Number of grid columns: `term_width / (tile_width + padding)` rounded to
/// the nearest integer, halves rounding up.
pub open spec fn spec_ncols(term_width: int, image_width: int, padding: int) -> int
    recommends
        image_width + padding >= 1,
{
    (2 * term_width + (image_width + padding)) / (2 * (image_width + padding))
}

/// Number of fully visible grid rows: `term_height / (tile_height + padding)`
/// rounded down (a partially visible row does not count).
pub open spec fn spec_nrows(term_height: int, image_height: int, padding: int) -> int
    recommends
        image_height + padding >= 1,
{
    term_height / (image_height + padding)
}

pub fn ncols(term_width: u16, image_width: i32, padding: i32) -> (r: i32)
    requires
        1 <= image_width,
        0 <= padding,
    ensures
        r == spec_ncols(term_width as int, image_width as int, padding as int),
        0 <= r <= term_width,
{
    let d: i64 = image_width as i64 + padding as i64;
    let q: i64 = (2 * (term_width as i64) + d) / (2 * d);
    proof {
        let t = term_width as int;
        let di = d as int;
        assert((2 * t + di) / (2 * di) <= t && 0 <= (2 * t + di) / (2 * di)) by (nonlinear_arith)
            requires
                1 <= di,
                0 <= t,
        ;
    }
    q as i32
}

pub fn nrows(term_height: u16, image_height: i32, padding: i32) -> (r: i32)
    requires
        1 <= image_height,
        0 <= padding,
    ensures
        r == spec_nrows(term_height as int, image_height as int, padding as int),
        0 <= r <= term_height,
{
    let d: i64 = image_height as i64 + padding as i64;
    let q: i64 = (term_height as i64) / d;
    proof {
        let t = term_height as int;
        let di = d as int;
        assert(t / di <= t && 0 <= t / di) by (nonlinear_arith)
            requires
                1 <= di,
                0 <= t,
        ;
    }
    q as i32
}

/// A column index below the column count keeps its x-coordinate below the
/// terminal width: `col * image_width <= term_width`.
proof fn lemma_xcoord_bound(t: int, w: int, p: int, c: int)
    requires
        1 <= w,
        0 <= p,
        0 <= t,
        0 <= c < spec_ncols(t, w, p),
    ensures
        c * w <= t,
{
    let d = w + p;
    let n = spec_ncols(t, w, p);
    lemma_fundamental_div_mod(2 * t + d, 2 * d);
    assert(c * w <= t) by (nonlinear_arith)
        requires
            1 <= w,
            w <= d,
            0 <= t,
            0 <= c,
            c < n,
            2 * t + d == 2 * d * n + (2 * t + d) % (2 * d),
            (2 * t + d) % (2 * d) >= 0,
    ;
}

/// x-coordinate of each grid column: `col * tile_width + padding + offset`,
/// one entry per column, strictly increasing left to right.
pub fn xcoords(term_width: u16, image_width: i32, padding: i32, offset: i32) -> (r: Vec<i32>)
    requires
        1 <= image_width,
        0 <= padding,
        0 <= offset,
        padding as int + offset as int <= 0x7fff_0000,
    ensures
        r@.len() == spec_ncols(term_width as int, image_width as int, padding as int),
        forall|c: int|
            0 <= c < r@.len() ==> r@[c] as int == c * (image_width as int) + padding as int
                + offset as int,
        forall|a: int, b: int| 0 <= a < b < r@.len() ==> r@[a] < r@[b],
{
    let n = ncols(term_width, image_width, padding);
    let mut r: Vec<i32> = Vec::new();
    let mut col: i32 = 0;
    while col < n
        invariant
            0 <= col <= n,
            n == spec_ncols(term_width as int, image_width as int, padding as int),
            n <= term_width,
            1 <= image_width,
            0 <= padding,
            0 <= offset,
            padding as int + offset as int <= 0x7fff_0000,
            r@.len() == col as int,
            forall|c: int|
                0 <= c < col ==> r@[c] as int == c * (image_width as int) + padding as int
                    + offset as int,
        decreases n - col,
    {
        proof {
            lemma_xcoord_bound(
                term_width as int,
                image_width as int,
                padding as int,
                col as int,
            );
        }
        let x: i64 = (col as i64) * (image_width as i64) + (padding as i64) + (offset as i64);
        r.push(x as i32);
        col = col + 1;
    }
    proof {
        assert forall|a: int, b: int| 0 <= a < b < r@.len() implies r@[a] < r@[b] by {
            let w = image_width as int;
            assert(a * w < b * w) by (nonlinear_arith)
                requires
                    0 <= a < b,
                    1 <= w,
            ;
        }
    }
    r
}

/// A row index below the row count keeps its y-coordinate below the terminal
/// height: `row * (tile_height + padding) <= term_height`.
proof fn lemma_ycoord_bound(t: int, h: int, p: int, row: int)
    requires
        1 <= h,
        0 <= p,
        0 <= t,
        0 <= row < spec_nrows(t, h, p),
    ensures
        row * (h + p) <= t,
{
    let d = h + p;
    let n = spec_nrows(t, h, p);
    lemma_fundamental_div_mod(t, d);
    assert(row * d <= t) by (nonlinear_arith)
        requires
            1 <= d,
            0 <= t,
            0 <= row,
            row < n,
            t == d * n + t % d,
            t % d >= 0,
    ;
}

/// y-coordinate of each grid row: `row * (tile_height + padding)`, one entry
/// per fully visible row, strictly increasing top to bottom.
pub fn ycoords(term_height: u16, image_height: i32, padding: i32) -> (r: Vec<i32>)
    requires
        1 <= image_height,
        0 <= padding,
    ensures
        r@.len() == spec_nrows(term_height as int, image_height as int, padding as int),
        forall|row: int|
            0 <= row < r@.len() ==> r@[row] as int == row * (image_height as int
                + padding as int),
        forall|a: int, b: int| 0 <= a < b < r@.len() ==> r@[a] < r@[b],
{
    let n = nrows(term_height, image_height, padding);
    let mut r: Vec<i32> = Vec::new();
    let mut row: i32 = 0;
    while row < n
        invariant
            0 <= row <= n,
            n == spec_nrows(term_height as int, image_height as int, padding as int),
            n <= term_height,
            1 <= image_height,
            0 <= padding,
            r@.len() == row as int,
            forall|a: int|
                0 <= a < row ==> r@[a] as int == a * (image_height as int + padding as int),
        decreases n - row,
    {
        proof {
            lemma_ycoord_bound(
                term_height as int,
                image_height as int,
                padding as int,
                row as int,
            );
        }
        let y: i64 = (row as i64) * (image_height as i64 + padding as i64);
        r.push(y as i32);
        row = row + 1;
    }
    proof {
        assert forall|a: int, b: int| 0 <= a < b < r@.len() implies r@[a] < r@[b] by {
            let d = image_height as int + padding as int;
            assert(a * d < b * d) by (nonlinear_arith)
                requires
                    0 <= a < b,
                    1 <= d,
            ;
        }
    }
    r
}

/// Number of group heads in an interleaving of `total` slots with stride
/// `g`: one head every `g` slots, so `ceil(total / g)`.
pub open spec fn interleave_heads(total: int, g: int) -> int
    recommends
        1 <= g,
{
    (total + g - 1) / g
}

/// Value emitted at slot `i` of the interleave order: head slots (every
/// `g`-th) take the next sequential head index `i / g`; the other slots take
/// sequential body indices offset past the heads.
pub open spec fn interleave_value(i: int, total: int, g: int) -> int
    recommends
        1 <= g,
{
    if i % g == 0 {
        i / g
    } else {
        i + interleave_heads(total, g) - 1 - i / g
    }
}

/// Slot at which value `v` appears in the interleave order; inverse of
/// `interleave_value`.
pub open spec fn interleave_slot(v: int, total: int, g: int) -> int
    recommends
        1 <= g,
{
    let h = interleave_heads(total, g);
    if g == 1 || v < h {
        v * g
    } else {
        ((v - h) / (g - 1)) * g + (v - h) % (g - 1) + 1
    }
}

/// Basic bounds on the head count: `0 <= heads <= total`, the heads cover
/// `total` (`g * heads >= total`), and for non-empty orders
/// `heads == (total - 1) / g + 1`.
proof fn lemma_interleave_heads_bounds(total: int, g: int)
    requires
        1 <= g,
        0 <= total,
    ensures
        0 <= interleave_heads(total, g) <= total,
        g * interleave_heads(total, g) >= total,
        g * interleave_heads(total, g) <= total + g - 1,
        total >= 1 ==> interleave_heads(total, g) == (total - 1) / g + 1,
        total >= 1 ==> g * (interleave_heads(total, g) - 1) <= total - 1,
{
    let h = interleave_heads(total, g);
    if total == 0 {
        lemma_fundamental_div_mod_converse(g - 1, g, 0, g - 1);
        assert(h == 0);
        assert(g * 0 == 0) by (nonlinear_arith);
    } else {
        lemma_fundamental_div_mod(total - 1, g);
        let a = (total - 1) / g;
        let r = (total - 1) % g;
        assert(total - 1 == g * a + r);
        assert(0 <= r < g);
        assert(0 <= a) by (nonlinear_arith)
            requires
                total - 1 == g * a + r,
                0 <= r < g,
                1 <= total,
                1 <= g,
        ;
        assert(total + g - 1 == (a + 1) * g + r) by (nonlinear_arith)
            requires
                total - 1 == g * a + r,
        ;
        lemma_fundamental_div_mod_converse(total + g - 1, g, a + 1, r);
        assert(h == a + 1);
        assert(g * a <= total - 1);
        assert(a <= total - 1) by (nonlinear_arith)
            requires
                g * a <= total - 1,
                1 <= g,
                0 <= a,
        ;
        assert(g * h >= total && g * h <= total + g - 1) by (nonlinear_arith)
            requires
                h == a + 1,
                total - 1 == g * a + r,
                0 <= r < g,
        ;
    }
}

/// Every slot's value is within `0 .. total`; head slots stay below the head
/// count, body slots at or above it.
proof fn lemma_interleave_value_bounds(i: int, total: int, g: int)
    requires
        1 <= g,
        0 <= i < total,
    ensures
        0 <= interleave_value(i, total, g) < total,
        i % g == 0 ==> interleave_value(i, total, g) < interleave_heads(total, g),
        i % g != 0 ==> interleave_value(i, total, g) >= interleave_heads(total, g),
{
    let h = interleave_heads(total, g);
    lemma_interleave_heads_bounds(total, g);
    lemma_fundamental_div_mod(i, g);
    let k = i / g;
    let j = i % g;
    assert(i == g * k + j);
    assert(0 <= j < g);
    assert(0 <= k) by (nonlinear_arith)
        requires
            i == g * k + j,
            0 <= i,
            0 <= j < g,
            1 <= g,
    ;
    lemma_fundamental_div_mod(total - 1, g);
    let a = (total - 1) / g;
    assert(k <= a) by (nonlinear_arith)
        requires
            i == g * k + j,
            total - 1 == g * a + (total - 1) % g,
            0 <= j < g,
            0 <= (total - 1) % g < g,
            i <= total - 1,
            0 <= k,
            1 <= g,
    ;
    if j == 0 {
        assert(interleave_value(i, total, g) == k);
        assert(k < h);
    } else {
        assert(g >= 2);
        assert(h == a + 1);
        assert(interleave_value(i, total, g) == i + h - 1 - k);
        assert(i + h - 1 - k >= h) by (nonlinear_arith)
            requires
                i == g * k + j,
                1 <= j,
                0 <= k,
                2 <= g,
        ;
        // Upper bound: k*(g-1) + j + h <= total, split on whether this is
        // the last (possibly partial) block of slots.
        assert(i + h - 1 - k <= total - 1) by (nonlinear_arith)
            requires
                i == g * k + j,
                1 <= j < g,
                0 <= k,
                i < total,
                k <= h - 1,
                g * h <= total + g - 1,
                2 <= g,
        ;
    }
}

/// The slot of a value undoes the value of a slot: `interleave_slot` is a
/// left inverse of `interleave_value`.
proof fn lemma_interleave_roundtrip(i: int, total: int, g: int)
    requires
        1 <= g,
        0 <= i < total,
    ensures
        interleave_slot(interleave_value(i, total, g), total, g) == i,
{
    let h = interleave_heads(total, g);
    let v = interleave_value(i, total, g);
    lemma_interleave_heads_bounds(total, g);
    lemma_interleave_value_bounds(i, total, g);
    lemma_fundamental_div_mod(i, g);
    let k = i / g;
    let j = i % g;
    assert(0 <= k) by (nonlinear_arith)
        requires
            i == g * k + j,
            0 <= i,
            0 <= j < g,
            1 <= g,
    ;
    if j == 0 {
        assert(v == k && v < h);
        assert(v * g == i) by (nonlinear_arith)
            requires
                i == g * k + j,
                j == 0,
                v == k,
        ;
    } else {
        assert(g >= 2);
        assert(v >= h);
        let b = v - h;
        assert(b == k * (g - 1) + (j - 1)) by (nonlinear_arith)
            requires
                i == g * k + j,
                v == i + h - 1 - k,
                b == v - h,
        ;
        lemma_fundamental_div_mod_converse(b, g - 1, k, j - 1);
        assert(interleave_slot(v, total, g) == k * g + j) by (nonlinear_arith)
            requires
                b / (g - 1) == k,
                b % (g - 1) == j - 1,
                interleave_slot(v, total, g) == (b / (g - 1)) * g + b % (g - 1) + 1,
        ;
        assert(k * g == g * k) by (nonlinear_arith);
    }
}

/// Every value in `0 .. total` appears in the interleave order, at the slot
/// given by `interleave_slot`.
proof fn lemma_interleave_surjective(v: int, total: int, g: int)
    requires
        1 <= g,
        0 <= v < total,
    ensures
        0 <= interleave_slot(v, total, g) < total,
        interleave_value(interleave_slot(v, total, g), total, g) == v,
{
    let h = interleave_heads(total, g);
    lemma_interleave_heads_bounds(total, g);
    if g == 1 || v < h {
        let i = v * g;
        assert(i == v * g);
        if g == 1 {
            lemma_fundamental_div_mod_converse(total, 1, total, 0);
            assert(h == total);
        }
        assert(v < h);
        assert(i == g * v + 0) by (nonlinear_arith)
            requires
                i == v * g,
        ;
        assert(0 <= i) by (nonlinear_arith)
            requires
                i == v * g,
                0 <= v,
                1 <= g,
        ;
        lemma_fundamental_div_mod_converse(i, g, v, 0);
        assert(i % g == 0 && i / g == v);
        assert(v <= h - 1);
        assert(v * g <= (h - 1) * g) by (nonlinear_arith)
            requires
                v <= h - 1,
                1 <= g,
        ;
        assert((h - 1) * g == g * (h - 1)) by (nonlinear_arith);
        assert(i <= total - 1);
    } else {
        assert(g >= 2);
        let b = v - h;
        assert(0 <= b <= total - 1 - h);
        lemma_fundamental_div_mod(b, g - 1);
        let k = b / (g - 1);
        let r = b % (g - 1);
        assert(b == (g - 1) * k + r);
        assert(0 <= r < g - 1);
        assert(0 <= k) by (nonlinear_arith)
            requires
                b == (g - 1) * k + r,
                0 <= b,
                0 <= r < g - 1,
                2 <= g,
        ;
        let i = k * g + r + 1;
        assert(interleave_slot(v, total, g) == i);
        assert(i == g * k + (r + 1)) by (nonlinear_arith)
            requires
                i == k * g + r + 1,
        ;
        assert(0 < r + 1 < g);
        assert(0 <= i) by (nonlinear_arith)
            requires
                i == g * k + (r + 1),
                0 <= k,
                0 < r + 1 < g,
                2 <= g,
        ;
        lemma_fundamental_div_mod_converse(i, g, k, r + 1);
        assert(i % g == r + 1 && i / g == k);
        // i < total: k <= h - 1, so i = b + k + 1 <= total - 1.
        assert(k <= h - 1) by (nonlinear_arith)
            requires
                b == (g - 1) * k + r,
                0 <= r,
                b <= total - 1 - h,
                g * h >= total,
                2 <= g,
                0 <= k,
                1 <= h,
        ;
        assert(i == b + k + 1) by (nonlinear_arith)
            requires
                b == (g - 1) * k + r,
                i == k * g + r + 1,
        ;
        assert(i <= total - 1);
        assert(interleave_value(i, total, g) == i + h - 1 - k);
        assert(i + h - 1 - k == v) by (nonlinear_arith)
            requires
                i == b + k + 1,
                b == v - h,
        ;
    }
}

/// Law: for every `total_items >= group_size >= 1` the interleave order is a
/// permutation of `0 .. total_items` — values are in range, no value repeats,
/// and every value appears — and every head slot (index a multiple of the
/// stride) holds the next sequential head index `i / group_size`.
pub proof fn lemma_interleave_order_permutation(total: int, g: int)
    requires
        1 <= g <= total,
    ensures
        forall|i: int|
            0 <= i < total ==> 0 <= #[trigger] interleave_value(i, total, g) < total,
        forall|i1: int, i2: int|
            0 <= i1 < i2 < total ==> #[trigger] interleave_value(i1, total, g)
                != #[trigger] interleave_value(i2, total, g),
        forall|v: int|
            0 <= v < total ==> 0 <= #[trigger] interleave_slot(v, total, g) < total
                && interleave_value(interleave_slot(v, total, g), total, g) == v,
        forall|i: int|
            0 <= i < total && i % g == 0 ==> #[trigger] interleave_value(i, total, g) == i / g
                && interleave_value(i, total, g) < interleave_heads(total, g),
{
    assert forall|i: int| 0 <= i < total implies 0 <= #[trigger] interleave_value(i, total, g)
        < total by {
        lemma_interleave_value_bounds(i, total, g);
    }
    assert forall|i1: int, i2: int| 0 <= i1 < i2 < total implies #[trigger] interleave_value(
        i1,
        total,
        g,
    ) != #[trigger] interleave_value(i2, total, g) by {
        if interleave_value(i1, total, g) == interleave_value(i2, total, g) {
            lemma_interleave_roundtrip(i1, total, g);
            lemma_interleave_roundtrip(i2, total, g);
        }
    }
    assert forall|v: int| 0 <= v < total implies 0 <= #[trigger] interleave_slot(v, total, g)
        < total && interleave_value(interleave_slot(v, total, g), total, g) == v by {
        lemma_interleave_surjective(v, total, g);
    }
    assert forall|i: int| 0 <= i < total && i % g == 0 implies #[trigger] interleave_value(
        i,
        total,
        g,
    ) == i / g && interleave_value(i, total, g) < interleave_heads(total, g) by {
        lemma_interleave_value_bounds(i, total, g);
    }
}

/// Law: when the order is at most `group_size` blocks long
/// (`total_items <= group_size * group_size`), every head slot holds a value
/// below `group_size`.
pub proof fn lemma_interleave_head_slots_small(total: int, g: int, i: int)
    requires
        1 <= g <= total,
        total <= g * g,
        0 <= i < total,
        i % g == 0,
    ensures
        interleave_value(i, total, g) < g,
{
    lemma_fundamental_div_mod(i, g);
    assert(i / g < g) by (nonlinear_arith)
        requires
            i == g * (i / g) + i % g,
            i % g == 0,
            i < total,
            total <= g * g,
            1 <= g,
            0 <= i,
    ;
}

/// The interleave order: a permutation of `0 .. total_items` in which every
/// `group_size`-th slot takes the next sequential group-head index and the
/// remaining slots take sequential body indices. Used to show each artist's
/// avatar before the run of that artist's recent works.
pub fn interleave_order(total_items: usize, group_size: usize) -> (r: Vec<usize>)
    requires
        1 <= group_size,
        2 * total_items <= usize::MAX,
    ensures
        r@.len() == total_items,
        forall|i: int|
            0 <= i < r@.len() ==> r@[i] as int == interleave_value(
                i,
                total_items as int,
                group_size as int,
            ),
{
    let g = group_size;
    let heads: usize = if total_items % g == 0 {
        total_items / g
    } else {
        total_items / g + 1
    };
    proof {
        let t = total_items as int;
        let gi = g as int;
        lemma_fundamental_div_mod(t, gi);
        let q = t / gi;
        let rr = t % gi;
        if rr == 0 {
            if gi == 1 {
                assert(t + gi - 1 == q * gi + 0) by (nonlinear_arith)
                    requires
                        t == gi * q + rr,
                        rr == 0,
                        gi == 1,
                ;
                lemma_fundamental_div_mod_converse(t + gi - 1, gi, q, 0);
            } else {
                assert(t + gi - 1 == q * gi + (gi - 1)) by (nonlinear_arith)
                    requires
                        t == gi * q + rr,
                        rr == 0,
                ;
                lemma_fundamental_div_mod_converse(t + gi - 1, gi, q, gi - 1);
            }
        } else {
            assert(t + gi - 1 == (q + 1) * gi + (rr - 1)) by (nonlinear_arith)
                requires
                    t == gi * q + rr,
            ;
            lemma_fundamental_div_mod_converse(t + gi - 1, gi, q + 1, rr - 1);
        }
        assert(heads as int == interleave_heads(t, gi));
        lemma_interleave_heads_bounds(t, gi);
    }
    let mut r: Vec<usize> = Vec::new();
    let mut i: usize = 0;
    while i < total_items
        invariant
            0 <= i <= total_items,
            1 <= g,
            2 * total_items <= usize::MAX,
            heads as int == interleave_heads(total_items as int, g as int),
            heads <= total_items,
            r@.len() == i as int,
            forall|x: int|
                0 <= x < i ==> r@[x] as int == interleave_value(
                    x,
                    total_items as int,
                    g as int,
                ),
        decreases total_items - i,
    {
        proof {
            lemma_interleave_value_bounds(i as int, total_items as int, g as int);
            lemma_fundamental_div_mod(i as int, g as int);
        }
        if i % g == 0 {
            r.push(i / g);
        } else {
            r.push(i + heads - 1 - i / g);
        }
        i = i + 1;
    }
    r
}

/// Presentation order used for user-listing pages: slot `x` holds
/// `x / 4` when `x` is a multiple of four (the next artist's avatar), and
/// `x + artist_count - 1 - x / 4` otherwise (the next preview thumbnail).
pub fn generate_orders(total_pics: i32, artist_count: i32) -> (r: Vec<i32>)
    requires
        0 <= total_pics,
        (total_pics as int + 3) / 4 <= artist_count as int,
        total_pics as int + artist_count as int <= i32::MAX as int,
    ensures
        r@.len() == total_pics as int,
        forall|x: int|
            0 <= x < r@.len() && x % 4 == 0 ==> r@[x] as int == x / 4,
        forall|x: int|
            0 <= x < r@.len() && x % 4 != 0 ==> r@[x] as int == x + artist_count as int - 1 - x
                / 4,
{
    let mut r: Vec<i32> = Vec::new();
    let mut x: i32 = 0;
    while x < total_pics
        invariant
            0 <= x <= total_pics,
            (total_pics as int + 3) / 4 <= artist_count as int,
            total_pics as int + artist_count as int <= i32::MAX as int,
            r@.len() == x as int,
            forall|y: int|
                0 <= y < x && y % 4 == 0 ==> r@[y] as int == y / 4,
            forall|y: int|
                0 <= y < x && y % 4 != 0 ==> r@[y] as int == y + artist_count as int - 1 - y / 4,
        decreases total_pics - x,
    {
        proof {
            lemma_fundamental_div_mod(x as int, 4);
            assert(1 <= artist_count as int) by {
                lemma_fundamental_div_mod(total_pics as int + 3, 4);
            }
        }
        if x % 4 == 0 {
            r.push(x / 4);
        } else {
            r.push(x + artist_count - 1 - x / 4);
        }
        x = x + 1;
    }
    r
}

/// Sum of a sequence of spacings.
pub open spec fn spec_sum_i32(s: Seq<i32>) -> int
    decreases s.len(),
{
    if s.len() == 0 {
        0
    } else {
        spec_sum_i32(s.drop_last()) + s.last()
    }
}

/// Extending a prefix by one element adds that element to its sum.
proof fn lemma_sum_take_succ(s: Seq<i32>, i: int)
    requires
        0 <= i < s.len(),
    ensures
        spec_sum_i32(s.take(i + 1)) == spec_sum_i32(s.take(i)) + s[i],
{
    assert(s.take(i + 1).drop_last() =~= s.take(i));
    assert(s.take(i + 1).last() == s[i]);
}

/// With only non-negative spacings, a prefix sum never exceeds the total.
proof fn lemma_sum_take_le(s: Seq<i32>, i: int)
    requires
        0 <= i <= s.len(),
        forall|k: int| 0 <= k < s.len() ==> s[k] >= 0,
    ensures
        spec_sum_i32(s.take(i)) <= spec_sum_i32(s),
    decreases s.len() - i,
{
    if i == s.len() {
        assert(s.take(i) =~= s);
    } else {
        lemma_sum_take_succ(s, i);
        lemma_sum_take_le(s, i + 1);
    }
}

/// With only non-negative spacings, every prefix sum is non-negative.
proof fn lemma_sum_take_nonneg(s: Seq<i32>, i: int)
    requires
        0 <= i <= s.len(),
        forall|k: int| 0 <= k < s.len() ==> s[k] >= 0,
    ensures
        spec_sum_i32(s.take(i)) >= 0,
    decreases i,
{
    if i == 0 {
        assert(s.take(0) =~= Seq::<i32>::empty());
    } else {
        lemma_sum_take_succ(s, i - 1);
        lemma_sum_take_nonneg(s, i - 1);
    }
}

/// Total printed width of one gallery text row: the sum of the column
/// spacings plus one printed digit per column.
pub fn line_width(spacings: Vec<i32>, ncols: i32) -> (r: i32)
    requires
        forall|k: int| 0 <= k < spacings@.len() ==> spacings@[k] >= 0,
        0 <= ncols,
        spec_sum_i32(spacings@) + ncols <= i32::MAX as int,
    ensures
        r as int == spec_sum_i32(spacings@) + ncols,
{
    let mut acc: i32 = 0;
    let mut i: usize = 0;
    proof {
        assert(spacings@.take(0) =~= Seq::<i32>::empty());
    }
    while i < spacings.len()
        invariant
            0 <= i <= spacings@.len(),
            forall|k: int| 0 <= k < spacings@.len() ==> spacings@[k] >= 0,
            0 <= ncols,
            spec_sum_i32(spacings@) + ncols <= i32::MAX as int,
            acc as int == spec_sum_i32(spacings@.take(i as int)),
        decreases spacings@.len() - i,
    {
        proof {
            lemma_sum_take_succ(spacings@, i as int);
            lemma_sum_take_le(spacings@, i as int + 1);
            lemma_sum_take_nonneg(spacings@, i as int + 1);
        }
        acc = acc + spacings[i];
        i = i + 1;
    }
    proof {
        assert(spacings@.take(spacings@.len() as int) =~= spacings@);
        lemma_sum_take_nonneg(spacings@, spacings@.len() as int);
    }
    acc + ncols
}

/// Grid cell of the item with the given ordinal: column index, row index,
/// and whether the item opens a new page of the grid (its ordinal is a
/// positive multiple of the page's tile count, so prior content must be
/// scrolled away first).
pub fn display_slot(num: usize, ncols: usize, nrows: usize) -> (r: (usize, usize, bool))
    requires
        1 <= ncols,
        1 <= nrows,
        ncols as int * nrows as int <= usize::MAX as int,
    ensures
        r.0 as int == num as int % ncols as int,
        r.1 as int == (num as int / ncols as int) % nrows as int,
        r.2 == (num as int % (ncols as int * nrows as int) == 0 && num != 0),
{
    let tile_count = ncols * nrows;
    proof {
        assert(1 <= ncols as int * nrows as int) by (nonlinear_arith)
            requires
                1 <= ncols,
                1 <= nrows,
        ;
    }
    let x = num % ncols;
    let y = (num / ncols) % nrows;
    let new_page = num % tile_count == 0 && num != 0;
    (x, y, new_page)
}

/// Number of rows a 30-item page occupies at the given column count:
/// `ceil(30 / ncols)`.
pub open spec fn spec_page_rows(ncols: int) -> int
    recommends
        1 <= ncols,
{
    30int / ncols + if 30int % ncols == 0 {
        0int
    } else {
        1int
    }
}

/// Maps a 1-based (column, row) key pair to the 0-based ordinal of the item
/// at that cell of a 30-item page, or nothing when the pair lies outside the
/// page's grid.
pub fn find_number_map(x: i32, y: i32, ncols: i32) -> (r: Option<i32>)
    requires
        1 <= ncols <= 0xffff,
    ensures
        1 <= x as int <= ncols as int && 1 <= y as int <= spec_page_rows(ncols as int) ==> r
            == Some(((x as int - 1) + ncols as int * (y as int - 1)) as i32),
        !(1 <= x as int <= ncols as int && 1 <= y as int <= spec_page_rows(ncols as int))
            ==> r is None,
{
    let nr: i32 = 30 / ncols + if 30 % ncols == 0 {
        0
    } else {
        1
    };
    if 1 <= x && x <= ncols && 1 <= y && y <= nr {
        proof {
            assert(0 <= 30int / ncols as int <= 30) by (nonlinear_arith)
                requires
                    1 <= ncols as int,
            ;
            assert(ncols as int * (y as int - 1) <= 0xffff * 30) by (nonlinear_arith)
                requires
                    1 <= ncols as int <= 0xffff,
                    0 <= y as int - 1 <= 30,
            ;
            assert(0 <= ncols as int * (y as int - 1)) by (nonlinear_arith)
                requires
                    1 <= ncols as int,
                    0 <= y as int - 1,
            ;
            vstd::arithmetic::div_mod::lemma_small_mod((x - 1) as nat, ncols as nat);
        }
        Some((x - 1) % ncols + ncols * (y - 1))
    } else {
        None
    }
}

} // verus!
