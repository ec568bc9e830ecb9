//! The integer side of star rendering: sprite sizes, where a star sprite
//! lands in the starfield, and the neighbourhoods used by the kernel
//! sampler and the bloom pass.
use vstd::prelude::*;
use vstd::arithmetic::div_mod::{lemma_fundamental_div_mod, lemma_fundamental_div_mod_converse, lemma_mod_bound, lemma_div_pos_is_pos, lemma_multiply_divide_lt};
use crate::rng::{Rng, xorshift, high_bits, seed_state};
use crate::star::{star_seed, spec_star_seed};

verus! {

/// Fraction draws below this value are under 0.70: the unit value
/// `bits as f32 / 2^32` compares below `0.70_f32` exactly for these draws.
pub const SMALL_STAR_LIMIT: u32 = 3006476929;

/// Fraction draws below this value are under 0.92: the unit value
/// `bits as f32 / 2^32` compares below `0.92_f32` exactly for these draws.
pub const MEDIUM_STAR_LIMIT: u32 = 3951369857;

/// Added to a star's seed to get the seed of its visual-only properties.
pub const SPRITE_SEED_OFFSET: u64 = 0x5EED_5175;

/// The sprite size chosen by a fraction draw: 3 px for 70 %, 5 px for 22 %
/// and 7 px for the remaining 8 % of draws.
pub open spec fn size_for_draw(bits: u32) -> usize {
    if bits < SMALL_STAR_LIMIT {
        3
    } else if bits < MEDIUM_STAR_LIMIT {
        5
    } else {
        7
    }
}

/// Picks a star texture size (odd pixels) from a weighted distribution.
///
/// | size | weight | appearance                     |
/// |------|--------|--------------------------------|
/// |  3   |  70 %  | single bright pixel + faint rim|
/// |  5   |  22 %  | small soft disc                |
/// |  7   |   8 %  | larger halo, rare bright star  |
pub fn random_star_size(rng: &mut Rng) -> (size: usize)
    ensures
        final(rng)@ == xorshift(old(rng)@),
        size == size_for_draw(high_bits(final(rng)@)),
        size == 3 || size == 5 || size == 7,
{
    let r = rng.next_fraction_bits();
    if r < SMALL_STAR_LIMIT {
        3
    } else if r < MEDIUM_STAR_LIMIT {
        5
    } else {
        7
    }
}

/// The sprite size of star `index` in a starfield with seed `seed`: drawn
/// from a separate generator so that it does not disturb the star's data.
pub open spec fn spec_sprite_size(seed: u64, index: u64) -> usize {
    size_for_draw(high_bits(xorshift(seed_state(spec_star_seed(seed, index).wrapping_add(SPRITE_SEED_OFFSET)))))
}

/// The sprite size (3, 5 or 7 pixels) of star `index` in the starfield.
pub fn star_sprite_size(seed: u64, index: usize) -> (size: usize)
    ensures
        size == spec_sprite_size(seed, index as u64),
        size % 2 == 1,
{
    let mut rng = Rng::new(star_seed(seed, index).wrapping_add(SPRITE_SEED_OFFSET));
    random_star_size(&mut rng)
}

// ─── Stamping a sprite into the starfield ────────────────────────────────────

/// The starfield pixel under sprite pixel `(sx, sy)` of a `size`-pixel sprite
/// centred on pixel `(pixel_x, pixel_y)`, or `None` where it falls outside
/// the `width × height` field.
pub open spec fn stamp_target(
    pixel_x: int,
    pixel_y: int,
    size: int,
    width: int,
    height: int,
    sx: int,
    sy: int,
) -> Option<usize> {
    let px = pixel_x + sx - size / 2;
    let py = pixel_y + sy - size / 2;
    if 0 <= px < width && 0 <= py < height {
        Some((py * width + px) as usize)
    } else {
        None
    }
}

proof fn lemma_row_index_bounds(a: int, b: int, n: int, w: int)
    requires
        0 <= a < n,
        0 <= b < w,
    ensures
        0 <= a * w + b < n * w,
        a * w + b < w * n,
        a * w + b + 1 <= (a + 1) * w,
{
    assert(n * w == w * n) by (nonlinear_arith);
    assert(a * w + b < n * w) by (nonlinear_arith)
        requires
            0 <= a < n,
            0 <= b < w,
    ;
    assert(0 <= a * w) by (nonlinear_arith)
        requires
            0 <= a,
            0 <= w,
    ;
    assert((a + 1) * w == a * w + w) by (nonlinear_arith);
}

/// For every pixel of a `size × size` sprite, in row-major order, the index
/// of the `width × height` starfield pixel it lands on when the sprite is
/// centred on `(pixel_x, pixel_y)`; `None` where it falls off the field.
pub fn stamp_targets(pixel_x: i32, pixel_y: i32, size: usize, width: usize, height: usize) -> (t: Vec<
    Option<usize>,
>)
    requires
        size <= i32::MAX,
        width <= i32::MAX,
        height <= i32::MAX,
        size * size <= usize::MAX,
        width * height <= usize::MAX,
    ensures
        t.len() == size * size,
        forall|sx: int, sy: int|
            0 <= sx < size && 0 <= sy < size ==> #[trigger] t[sy * size + sx] == stamp_target(
                pixel_x as int,
                pixel_y as int,
                size as int,
                width as int,
                height as int,
                sx,
                sy,
            ),
        forall|k: int|
            0 <= k < t.len() && #[trigger] t[k] is Some ==> t[k]->0 < width * height,
{
    let half = (size / 2) as i64;
    let mut t: Vec<Option<usize>> = Vec::new();
    let mut sy: usize = 0;
    while sy < size
        invariant
            size <= i32::MAX,
            width <= i32::MAX,
            height <= i32::MAX,
            size * size <= usize::MAX,
            width * height <= usize::MAX,
            half == size / 2,
            sy <= size,
            t.len() == sy * size,
            forall|a: int, b: int|
                0 <= b < size && 0 <= a < sy ==> #[trigger] t[a * size + b] == stamp_target(
                    pixel_x as int,
                    pixel_y as int,
                    size as int,
                    width as int,
                    height as int,
                    b,
                    a,
                ),
            forall|k: int| 0 <= k < t.len() && #[trigger] t[k] is Some ==> t[k]->0 < width * height,
        decreases size - sy,
    {
        let mut sx: usize = 0;
        while sx < size
            invariant
                size <= i32::MAX,
                width <= i32::MAX,
                height <= i32::MAX,
                size * size <= usize::MAX,
                width * height <= usize::MAX,
                half == size / 2,
                sy < size,
                sx <= size,
                t.len() == sy * size + sx,
                forall|a: int, b: int|
                    0 <= b < size && 0 <= a < sy ==> #[trigger] t[a * size + b] == stamp_target(
                        pixel_x as int,
                        pixel_y as int,
                        size as int,
                        width as int,
                        height as int,
                        b,
                        a,
                    ),
                forall|b: int|
                    0 <= b < sx ==> #[trigger] t[sy * size + b] == stamp_target(
                        pixel_x as int,
                        pixel_y as int,
                        size as int,
                        width as int,
                        height as int,
                        b,
                        sy as int,
                    ),
                forall|k: int| 0 <= k < t.len() && #[trigger] t[k] is Some ==> t[k]->0 < width * height,
            decreases size - sx,
        {
            proof {
                lemma_row_index_bounds(sy as int, sx as int, size as int, size as int);
            }
            let px: i64 = pixel_x as i64 + sx as i64 - half;
            let py: i64 = pixel_y as i64 + sy as i64 - half;
            let target = if px < 0 || px >= width as i64 || py < 0 || py >= height as i64 {
                None
            } else {
                let row = py as usize;
                let col = px as usize;
                proof {
                    lemma_row_index_bounds(row as int, col as int, height as int, width as int);
                }
                Some(row * width + col)
            };
            let ghost prev = t@;
            t.push(target);
            proof {
                assert forall|a: int, b: int|
                    0 <= b < size && 0 <= a < sy implies #[trigger] t[a * size + b] == stamp_target(
                        pixel_x as int,
                        pixel_y as int,
                        size as int,
                        width as int,
                        height as int,
                        b,
                        a,
                    ) by {
                    lemma_row_index_bounds(a, b, sy as int, size as int);
                    assert(t[a * size + b] == prev[a * size + b]);
                }
                assert forall|b: int|
                    0 <= b < sx + 1 implies #[trigger] t[sy * size + b] == stamp_target(
                        pixel_x as int,
                        pixel_y as int,
                        size as int,
                        width as int,
                        height as int,
                        b,
                        sy as int,
                    ) by {
                    if b < sx {
                        assert(t[sy * size + b] == prev[sy * size + b]);
                    }
                }
            }
            sx = sx + 1;
        }
        proof {
            assert((sy + 1) * size == sy * size + size) by (nonlinear_arith);
        }
        sy = sy + 1;
    }
    t
}

/// Law: a sprite is centred on its pixel: the middle sprite pixel
/// `(size/2, size/2)` lands on `(pixel_x, pixel_y)` whenever that pixel is
/// inside the field.
pub proof fn law_sprite_centred(pixel_x: int, pixel_y: int, size: int, width: int, height: int)
    requires
        size > 0,
        0 <= pixel_x < width,
        0 <= pixel_y < height,
    ensures
        stamp_target(pixel_x, pixel_y, size, width, height, size / 2, size / 2) == Some(
            (pixel_y * width + pixel_x) as usize,
        ),
{
}

/// Law: a sprite lands rigidly: horizontally adjacent sprite pixels land on
/// horizontally adjacent field pixels, and vertically adjacent sprite pixels
/// land one field row apart.
pub proof fn law_sprite_rigid(
    pixel_x: int,
    pixel_y: int,
    size: int,
    width: int,
    height: int,
    sx: int,
    sy: int,
)
    requires
        width * height <= usize::MAX,
    ensures
        stamp_target(pixel_x, pixel_y, size, width, height, sx, sy) is Some && stamp_target(
            pixel_x,
            pixel_y,
            size,
            width,
            height,
            sx + 1,
            sy,
        ) is Some ==> stamp_target(pixel_x, pixel_y, size, width, height, sx + 1, sy)->0 == stamp_target(
            pixel_x,
            pixel_y,
            size,
            width,
            height,
            sx,
            sy,
        )->0 + 1,
        stamp_target(pixel_x, pixel_y, size, width, height, sx, sy) is Some && stamp_target(
            pixel_x,
            pixel_y,
            size,
            width,
            height,
            sx,
            sy + 1,
        ) is Some ==> stamp_target(pixel_x, pixel_y, size, width, height, sx, sy + 1)->0 == stamp_target(
            pixel_x,
            pixel_y,
            size,
            width,
            height,
            sx,
            sy,
        )->0 + width,
{
    let px = pixel_x + sx - size / 2;
    let py = pixel_y + sy - size / 2;
    if 0 <= px < width && 0 <= py < height {
        lemma_row_index_bounds(py, px, height, width);
        if px + 1 < width {
            lemma_row_index_bounds(py, px + 1, height, width);
        }
        if py + 1 < height {
            lemma_row_index_bounds(py + 1, px, height, width);
            assert((py + 1) * width == py * width + width) by (nonlinear_arith);
        }
    }
}

// ─── Kernel and neighbourhood lookups ────────────────────────────────────────

/// The column offset of tap `i` of a `size × size` kernel from its centre.
pub open spec fn tap_dx(size: int, i: int) -> int {
    i % size - size / 2
}

/// The row offset of tap `i` of a `size × size` kernel from its centre.
pub open spec fn tap_dy(size: int, i: int) -> int {
    i / size - size / 2
}

/// The squared distance of tap `i` of a `size × size` kernel from its
/// centre.
pub open spec fn tap_distance_sq(size: int, i: int) -> int {
    tap_dx(size, i) * tap_dx(size, i) + tap_dy(size, i) * tap_dy(size, i)
}

/// The index of the centre tap of a `size × size` kernel.
pub open spec fn centre_tap(size: int) -> int {
    (size / 2) * size + size / 2
}

proof fn lemma_tap_offsets(size: int, i: int)
    requires
        size > 0,
        0 <= i < size * size,
    ensures
        0 <= i % size < size,
        0 <= i / size < size,
        -(size / 2) <= tap_dx(size, i) <= size / 2,
        -(size / 2) <= tap_dy(size, i) <= size / 2,
{
    lemma_mod_bound(i, size);
    lemma_div_pos_is_pos(i, size);
    lemma_multiply_divide_lt(i, size, size);
}

proof fn lemma_square_bound(v: int, h: int)
    requires
        -h <= v <= h,
    ensures
        0 <= v * v <= h * h,
{
    assert(0 <= v * v <= h * h) by (nonlinear_arith)
        requires
            -h <= v <= h,
    ;
}

/// The squared distance (in taps) of tap `i` of a `size × size` kernel from
/// the kernel's centre; the Gaussian weight of the tap falls off with it.
pub fn kernel_distance_sq(size: usize, i: usize) -> (d: i32)
    requires
        0 < size <= i32::MAX,
        i < size * size,
        2 * (size / 2) * (size / 2) <= i32::MAX,
    ensures
        d == tap_distance_sq(size as int, i as int),
        d >= 0,
{
    proof {
        lemma_tap_offsets(size as int, i as int);
        lemma_square_bound(tap_dx(size as int, i as int), (size / 2) as int);
        lemma_square_bound(tap_dy(size as int, i as int), (size / 2) as int);
        assert(2 * (size / 2) * (size / 2) == (size / 2) * (size / 2) + (size / 2) * (size / 2))
            by (nonlinear_arith);
    }
    let half = (size / 2) as i32;
    let x = (i % size) as i32 - half;
    let y = (i / size) as i32 - half;
    x * x + y * y
}

/// Law: in a kernel of odd side, the centre tap is the only tap at distance
/// zero; every other tap lies farther out, so the centre carries the largest
/// Gaussian weight.
pub proof fn law_centre_tap_is_nearest(size: int, i: int)
    requires
        size > 0,
        size % 2 == 1,
        0 <= i < size * size,
    ensures
        0 <= centre_tap(size) < size * size,
        tap_distance_sq(size, centre_tap(size)) == 0,
        i != centre_tap(size) ==> tap_distance_sq(size, i) > 0,
{
    let h = size / 2;
    assert(centre_tap(size) < size * size) by (nonlinear_arith)
        requires
            0 <= h < size,
            centre_tap(size) == h * size + h,
    ;
    assert(0 <= h * size) by (nonlinear_arith)
        requires
            0 <= h,
            0 < size,
    ;
    lemma_fundamental_div_mod_converse(centre_tap(size), size, h, h);
    lemma_fundamental_div_mod(i, size);
    let dx = tap_dx(size, i);
    let dy = tap_dy(size, i);
    if i != centre_tap(size) {
        if dx == 0 && dy == 0 {
            assert(i == size * h + h);
            assert(size * h == h * size) by (nonlinear_arith);
        }
        assert(dx * dx + dy * dy > 0) by (nonlinear_arith)
            requires
                dx != 0 || dy != 0,
        ;
    }
}

/// The row-major index of tap `(x, y)` of a `size × size` kernel, or `None`
/// when the tap lies outside the kernel (where the kernel weighs zero).
pub fn kernel_tap_index(size: usize, x: i32, y: i32) -> (r: Option<usize>)
    requires
        size <= i32::MAX,
        size * size <= usize::MAX,
    ensures
        r == (if 0 <= x < size && 0 <= y < size {
            Some((y * size + x) as usize)
        } else {
            None::<usize>
        }),
        r is Some ==> r->0 < size * size,
        r is Some ==> (r->0 as int) % (size as int) == x && (r->0 as int) / (size as int) == y,
{
    if x < 0 || x >= size as i32 || y < 0 || y >= size as i32 {
        None
    } else {
        proof {
            lemma_row_index_bounds(y as int, x as int, size as int, size as int);
            lemma_fundamental_div_mod_converse(y * size + x, size as int, y as int, x as int);
        }
        Some(y as usize * size + x as usize)
    }
}

/// The cardinal neighbours of pixel `(x, y)` in a `size × size` grid, in the
/// order left, right, up, down, leaving out those beyond the edge.
pub open spec fn spec_cardinal_neighbours(size: int, x: int, y: int) -> Seq<usize> {
    let i = y * size + x;
    let left = if x > 0 { seq![(i - 1) as usize] } else { Seq::<usize>::empty() };
    let right = if x < size - 1 { seq![(i + 1) as usize] } else { Seq::<usize>::empty() };
    let up = if y > 0 { seq![(i - size) as usize] } else { Seq::<usize>::empty() };
    let down = if y < size - 1 { seq![(i + size) as usize] } else { Seq::<usize>::empty() };
    left + right + up + down
}

proof fn lemma_cell_coords(size: int, cx: int, cy: int)
    requires
        0 <= cx < size,
        0 <= cy < size,
    ensures
        (cy * size + cx) % size == cx,
        (cy * size + cx) / size == cy,
        0 <= cy * size + cx < size * size,
{
    lemma_fundamental_div_mod_converse(cy * size + cx, size, cy, cx);
    lemma_row_index_bounds(cy, cx, size, size);
}

/// Law: the bloom neighbourhood of `(x, y)` is exactly its in-grid cardinal
/// neighbours: every listed pixel lies inside the grid one step away from
/// `(x, y)` in exactly one coordinate, and every such pixel is listed.
pub proof fn law_neighbours_adjacent(size: int, x: int, y: int)
    requires
        0 <= x < size,
        0 <= y < size,
        size * size <= usize::MAX,
    ensures
        forall|k: int|
            0 <= k < spec_cardinal_neighbours(size, x, y).len() ==> {
                let n = #[trigger] spec_cardinal_neighbours(size, x, y)[k] as int;
                &&& 0 <= n < size * size
                &&& ((n % size == x - 1 || n % size == x + 1) && n / size == y) || (n % size == x && (
                n / size == y - 1 || n / size == y + 1))
            },
        forall|nx: int, ny: int|
            0 <= nx < size && 0 <= ny < size && (((nx == x - 1 || nx == x + 1) && ny == y) || (nx
                == x && (ny == y - 1 || ny == y + 1))) ==> spec_cardinal_neighbours(
                size,
                x,
                y,
            ).contains(#[trigger] ((ny * size + nx) as usize)),
{
    let s = spec_cardinal_neighbours(size, x, y);
    let i = y * size + x;
    lemma_cell_coords(size, x, y);
    let left = if x > 0 { seq![(i - 1) as usize] } else { Seq::<usize>::empty() };
    let right = if x < size - 1 { seq![(i + 1) as usize] } else { Seq::<usize>::empty() };
    let up = if y > 0 { seq![(i - size) as usize] } else { Seq::<usize>::empty() };
    let down = if y < size - 1 { seq![(i + size) as usize] } else { Seq::<usize>::empty() };
    assert(s == left + right + up + down);
    if x > 0 {
        lemma_cell_coords(size, x - 1, y);
    }
    if x < size - 1 {
        lemma_cell_coords(size, x + 1, y);
    }
    if y > 0 {
        lemma_cell_coords(size, x, y - 1);
        assert((y - 1) * size + x == i - size) by (nonlinear_arith)
            requires
                i == y * size + x,
        ;
    }
    if y < size - 1 {
        lemma_cell_coords(size, x, y + 1);
        assert((y + 1) * size + x == i + size) by (nonlinear_arith)
            requires
                i == y * size + x,
        ;
    }
    assert forall|nx: int, ny: int|
        0 <= nx < size && 0 <= ny < size && (((nx == x - 1 || nx == x + 1) && ny == y) || (nx == x
            && (ny == y - 1 || ny == y + 1))) implies s.contains(
        #[trigger] ((ny * size + nx) as usize),
    ) by {
        let lr = left + right;
        let lru = lr + up;
        if nx == x - 1 && ny == y {
            assert(s[0] == (i - 1) as usize);
        } else if nx == x + 1 && ny == y {
            assert(s[left.len() as int] == (i + 1) as usize);
        } else if ny == y - 1 {
            assert(s[lr.len() as int] == (i - size) as usize);
        } else {
            assert(s[lru.len() as int] == (i + size) as usize);
        }
    }
}

/// The pixels that receive a share of a saturated pixel's overflow during
/// blooming: the cardinal neighbours of `(x, y)` that lie inside the
/// `size × size` sprite.
pub fn cardinal_neighbours(size: usize, x: usize, y: usize) -> (n: Vec<usize>)
    requires
        x < size,
        y < size,
        size * size <= usize::MAX,
    ensures
        n@ == spec_cardinal_neighbours(size as int, x as int, y as int),
        n.len() <= 4,
        forall|k: int| 0 <= k < n.len() ==> #[trigger] n[k] < size * size,
{
    proof {
        lemma_row_index_bounds(y as int, x as int, size as int, size as int);
        if x + 1 < size {
            lemma_row_index_bounds(y as int, x as int + 1, size as int, size as int);
        }
        if y + 1 < size {
            lemma_row_index_bounds(y as int + 1, x as int, size as int, size as int);
            assert((y + 1) * size == y * size + size) by (nonlinear_arith);
        }
        if y > 0 {
            assert(y * size >= size) by (nonlinear_arith)
                requires
                    y >= 1,
            ;
        }
    }
    let i = y * size + x;
    let mut n: Vec<usize> = Vec::new();
    if x > 0 {
        n.push(i - 1);
    }
    if x < size - 1 {
        n.push(i + 1);
    }
    if y > 0 {
        n.push(i - size);
    }
    if y < size - 1 {
        n.push(i + size);
    }
    n
}

} // verus!
