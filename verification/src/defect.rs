use vstd::prelude::*;

use vstd::arithmetic::div_mod::{
    lemma_div_by_multiple, lemma_div_is_ordered, lemma_div_pos_is_pos,
    lemma_fundamental_div_mod, lemma_fundamental_div_mod_converse,
};

verus! {

/// The fixed 5x5 interpolation kernel of the defect stage: weight
/// `5 - |dy| - |dx|` for every window offset, except that the centre — the
/// defective pixel itself — contributes nothing.
pub open spec fn kernel_weight(dy: int, dx: int) -> int {
    if dy == 0 && dx == 0 {
        0
    } else if -2 <= dy <= 2 && -2 <= dx <= 2 {
        5 - (if dy < 0 { -dy } else { dy }) - (if dx < 0 { -dx } else { dx })
    } else {
        0
    }
}

pub proof fn lemma_kernel_weight_bounds(dy: int, dx: int)
    ensures
        0 <= kernel_weight(dy, dx) <= 5,
{
}

/// What one window cell adds to the weighted sums for the pixel at
/// `(x, y)`. Cells are numbered `k` in `0..25`, row by row; a cell
/// contributes only when it lies inside the image and its pixel is not
/// itself marked defective.
pub open spec fn window_cell(
    image: Seq<u16>,
    mask: Seq<u16>,
    w: int,
    h: int,
    x: int,
    y: int,
    k: int,
) -> (int, int) {
    let dy = k / 5 - 2;
    let dx = k % 5 - 2;
    let px = x + dx;
    let py = y + dy;
    if 0 <= px < w && 0 <= py < h && mask[py * w + px] == 0 {
        (kernel_weight(dy, dx) * image[py * w + px], kernel_weight(dy, dx))
    } else {
        (0, 0)
    }
}

/// The weighted sum and total weight of the first `k` window cells.
pub open spec fn window_sums(
    image: Seq<u16>,
    mask: Seq<u16>,
    w: int,
    h: int,
    x: int,
    y: int,
    k: nat,
) -> (int, int)
    decreases k,
{
    if k == 0 {
        (0, 0)
    } else {
        let prev = window_sums(image, mask, w, h, x, y, (k - 1) as nat);
        let cell = window_cell(image, mask, w, h, x, y, k - 1);
        (prev.0 + cell.0, prev.1 + cell.1)
    }
}

/// The weighted sum never exceeds the largest pixel value times the total
/// weight, and the total weight of `k` cells never exceeds `5 * k`.
pub proof fn lemma_window_sums_bounds(
    image: Seq<u16>,
    mask: Seq<u16>,
    w: int,
    h: int,
    x: int,
    y: int,
    k: nat,
)
    ensures
        0 <= window_sums(image, mask, w, h, x, y, k).1 <= 5 * k,
        0 <= window_sums(image, mask, w, h, x, y, k).0
            <= 0xffff * window_sums(image, mask, w, h, x, y, k).1,
    decreases k,
{
    if k > 0 {
        lemma_window_sums_bounds(image, mask, w, h, x, y, (k - 1) as nat);
        let cell = window_cell(image, mask, w, h, x, y, k - 1);
        let dy = (k - 1) / 5 - 2;
        let dx = (k - 1) % 5 - 2;
        lemma_kernel_weight_bounds(dy, dx);
        let px = x + dx;
        let py = y + dy;
        if 0 <= px < w && 0 <= py < h && mask[py * w + px] == 0 {
            assert(cell.0 <= 0xffff * cell.1) by (nonlinear_arith)
                requires
                    cell.0 == cell.1 * image[py * w + px],
                    0 <= cell.1,
                    image[py * w + px] <= 0xffff,
            ;
            assert(0 <= cell.0) by (nonlinear_arith)
                requires
                    cell.0 == cell.1 * image[py * w + px],
                    0 <= cell.1,
                    0 <= image[py * w + px],
            ;
        }
    }
}

/// What the defect kernel writes for the pixel with flat index `i`: a pixel
/// not marked defective passes through unchanged; a marked pixel becomes the
/// weight-truncated average of the non-defective pixels in its 5x5 window,
/// or passes through unchanged when that window holds no usable neighbor.
pub open spec fn defect_corrected(
    image: Seq<u16>,
    mask: Seq<u16>,
    w: int,
    h: int,
    i: int,
) -> u16
    recommends
        0 < w,
        0 <= i < image.len(),
        mask.len() == image.len(),
{
    if mask[i] != 1 {
        image[i]
    } else {
        let s = window_sums(image, mask, w, h, i % w, i / w, 25);
        if s.1 > 0 {
            ((s.0 / s.1) as u16)
        } else {
            image[i]
        }
    }
}

/// A pixel the mask does not mark is unchanged, whatever the kernel weights.
pub proof fn lemma_defect_untouched(image: Seq<u16>, mask: Seq<u16>, w: int, h: int, i: int)
    requires
        mask[i] != 1,
    ensures
        defect_corrected(image, mask, w, h, i) == image[i],
{
}

/// When every usable neighbor in the window around `(x, y)` carries the
/// same value `n`, the weighted sum of the first `k` cells is exactly `n`
/// times their total weight.
pub proof fn lemma_window_sums_uniform(
    image: Seq<u16>,
    mask: Seq<u16>,
    w: int,
    h: int,
    x: int,
    y: int,
    n: u16,
    k: nat,
)
    requires
        forall|px: int, py: int|
            x - 2 <= px <= x + 2 && y - 2 <= py <= y + 2 && 0 <= px < w && 0 <= py < h
                && #[trigger] mask[py * w + px] == 0 ==> image[py * w + px] == n,
        k <= 25,
    ensures
        window_sums(image, mask, w, h, x, y, k).0 == (n as int) * window_sums(
            image,
            mask,
            w,
            h,
            x,
            y,
            k,
        ).1,
    decreases k,
{
    if k > 0 {
        lemma_window_sums_uniform(image, mask, w, h, x, y, n, (k - 1) as nat);
        let prev = window_sums(image, mask, w, h, x, y, (k - 1) as nat);
        let cell = window_cell(image, mask, w, h, x, y, k - 1);
        let dy = (k - 1) / 5 - 2;
        let dx = (k - 1) % 5 - 2;
        let px = x + dx;
        let py = y + dy;
        if 0 <= px < w && 0 <= py < h && mask[py * w + px] == 0 {
            assert(image[py * w + px] == n);
            assert(prev.0 + cell.0 == (n as int) * (prev.1 + cell.1)) by (nonlinear_arith)
                requires
                    prev.0 == (n as int) * prev.1,
                    cell.0 == kernel_weight(dy, dx) * (n as int),
                    cell.1 == kernel_weight(dy, dx),
            ;
        } else {
            assert(cell == (0int, 0int));
        }
        assert(window_sums(image, mask, w, h, x, y, k).0 == (n as int) * window_sums(
            image,
            mask,
            w,
            h,
            x,
            y,
            k,
        ).1) by (nonlinear_arith)
            requires
                window_sums(image, mask, w, h, x, y, k).0 == prev.0 + cell.0,
                window_sums(image, mask, w, h, x, y, k).1 == prev.1 + cell.1,
                prev.0 + cell.0 == (n as int) * (prev.1 + cell.1),
        ;
    } else {
        assert(window_sums(image, mask, w, h, x, y, k).0 == (n as int) * window_sums(
            image,
            mask,
            w,
            h,
            x,
            y,
            k,
        ).1) by (nonlinear_arith)
            requires
                window_sums(image, mask, w, h, x, y, k).0 == 0,
                window_sums(image, mask, w, h, x, y, k).1 == 0,
        ;
    }
}

/// Defect interpolation over a uniform neighborhood: when a marked pixel's
/// window holds at least one usable neighbor and every usable neighbor
/// carries the value `n`, the corrected pixel is exactly `n`.
pub proof fn lemma_defect_uniform_neighborhood(
    image: Seq<u16>,
    mask: Seq<u16>,
    w: int,
    h: int,
    i: int,
    n: u16,
)
    requires
        0 < w,
        0 <= i < image.len(),
        mask.len() == image.len(),
        mask[i] == 1,
        forall|px: int, py: int|
            i % w - 2 <= px <= i % w + 2 && i / w - 2 <= py <= i / w + 2 && 0 <= px < w && 0 <= py
                < h && #[trigger] mask[py * w + px] == 0 ==> image[py * w + px] == n,
        window_sums(image, mask, w, h, i % w, i / w, 25).1 > 0,
    ensures
        defect_corrected(image, mask, w, h, i) == n,
{
    let x = i % w;
    let y = i / w;
    lemma_window_sums_uniform(image, mask, w, h, x, y, n, 25);
    let s = window_sums(image, mask, w, h, x, y, 25);
    lemma_div_by_multiple(n as int, s.1);
    assert((n as int) * s.1 == s.1 * (n as int)) by (nonlinear_arith);
    assert(s.0 / s.1 == n);
}

/// The window sums read only pixels the mask leaves unmarked: two images
/// that agree on every unmarked pixel have the same sums.
pub proof fn lemma_window_sums_mask_invariant(
    image1: Seq<u16>,
    image2: Seq<u16>,
    mask: Seq<u16>,
    w: int,
    h: int,
    x: int,
    y: int,
    k: nat,
)
    requires
        forall|j: int|
            0 <= j < mask.len() && #[trigger] mask[j] == 0 ==> image1[j] == image2[j],
        mask.len() == w * h,
        0 < w,
    ensures
        window_sums(image1, mask, w, h, x, y, k) == window_sums(image2, mask, w, h, x, y, k),
    decreases k,
{
    if k > 0 {
        lemma_window_sums_mask_invariant(image1, image2, mask, w, h, x, y, (k - 1) as nat);
        let dy = (k - 1) / 5 - 2;
        let dx = (k - 1) % 5 - 2;
        let px = x + dx;
        let py = y + dy;
        if 0 <= px < w && 0 <= py < h {
            assert(0 <= py * w + px < w * h) by (nonlinear_arith)
                requires
                    0 <= px < w && 0 <= py < h,
            ;
            assert(mask[py * w + px] == 0 ==> image1[py * w + px] == image2[py * w + px]);
        }
    }
}

/// Correcting defects twice is the same as correcting them once: a marked
/// pixel is re-estimated only from unmarked pixels, which no pass writes.
/// This is why the plan's second per-axis dispatch of the defect kernel
/// leaves the frame as the first pass wrote it.
pub proof fn lemma_defect_correction_idempotent(image: Seq<u16>, mask: Seq<u16>, w: int, h: int)
    requires
        0 < w,
        0 < h,
        image.len() == w * h,
        mask.len() == w * h,
    ensures
        defect_stage_output(defect_stage_output(image, mask, w, h), mask, w, h)
            == defect_stage_output(image, mask, w, h),
{
    let once = defect_stage_output(image, mask, w, h);
    let twice = defect_stage_output(once, mask, w, h);
    assert forall|j: int| 0 <= j < mask.len() && #[trigger] mask[j] == 0 implies once[j]
        == image[j] by {
        assert(once[j] == defect_corrected(image, mask, w, h, j));
    }
    assert forall|i: int| 0 <= i < once.len() implies twice[i] == once[i] by {
        if mask[i] == 1 {
            lemma_window_sums_mask_invariant(once, image, mask, w, h, i % w, i / w, 25);
        }
    }
    assert(twice =~= once);
}

/// Computes the two window sums for the pixel at `(x, y)`.
fn window_sums_at(
    image: &Vec<u16>,
    mask: &Vec<u16>,
    w: u32,
    h: u32,
    x: u32,
    y: u32,
) -> (r: (u64, u64))
    requires
        0 < w,
        0 < h,
        w * h <= u32::MAX,
        image@.len() == w * h,
        mask@.len() == w * h,
        x < w,
        y < h,
    ensures
        r.0 == window_sums(image@, mask@, w as int, h as int, x as int, y as int, 25).0,
        r.1 == window_sums(image@, mask@, w as int, h as int, x as int, y as int, 25).1,
{
    let mut ws: u64 = 0;
    let mut tw: u64 = 0;
    let mut k: usize = 0;
    while k < 25
        invariant
            k <= 25,
            0 < w,
            0 < h,
            w * h <= u32::MAX,
            image@.len() == w * h,
            mask@.len() == w * h,
            x < w,
            y < h,
            ws == window_sums(image@, mask@, w as int, h as int, x as int, y as int, k as nat).0,
            tw == window_sums(image@, mask@, w as int, h as int, x as int, y as int, k as nat).1,
            tw <= 5 * k,
            ws <= 0xffff * tw,
        decreases 25 - k,
    {
        let dy: i64 = (k as i64) / 5 - 2;
        let dx: i64 = (k as i64) % 5 - 2;
        let px: i64 = (x as i64) + dx;
        let py: i64 = (y as i64) + dy;
        if 0 <= px && px < w as i64 && 0 <= py && py < h as i64 {
            proof {
                assert((py as int) * (w as int) + (px as int) < (w as int) * (h as int))
                    by (nonlinear_arith)
                    requires
                        0 <= px < w && 0 <= py < h,
                ;
                assert(0 <= (py as int) * (w as int)) by (nonlinear_arith)
                    requires
                        0 <= py && 0 < w,
                ;
            }
            let idx: usize = ((py as u64) * (w as u64) + (px as u64)) as usize;
            if mask[idx] == 0 {
                let weight: u64 = if dy == 0 && dx == 0 {
                    0
                } else {
                    let ady: u64 = if dy < 0 { (-dy) as u64 } else { dy as u64 };
                    let adx: u64 = if dx < 0 { (-dx) as u64 } else { dx as u64 };
                    5 - ady - adx
                };
                proof {
                    assert(weight == kernel_weight(dy as int, dx as int));
                }
                proof {
                    assert(weight * (image@[idx as int] as int) <= 0xffff * weight)
                        by (nonlinear_arith)
                        requires
                            0 <= weight && image@[idx as int] <= 0xffff,
                    ;
                }
                let contribution: u64 = weight * (image[idx] as u64);
                ws = ws + contribution;
                tw = tw + weight;
            }
        }
        k = k + 1;
    }
    (ws, tw)
}

/// Computes `defect_corrected` for the pixel with flat index `y * w + x`.
pub fn defect_correct_pixel(
    image: &Vec<u16>,
    mask: &Vec<u16>,
    w: u32,
    h: u32,
    x: u32,
    y: u32,
) -> (r: u16)
    requires
        0 < w,
        0 < h,
        w * h <= u32::MAX,
        image@.len() == w * h,
        mask@.len() == w * h,
        x < w,
        y < h,
    ensures
        r == defect_corrected(
            image@,
            mask@,
            w as int,
            h as int,
            (y as int) * (w as int) + (x as int),
        ),
{
    proof {
        assert((y as int) * (w as int) + (x as int) < (w as int) * (h as int))
            by (nonlinear_arith)
            requires
                0 <= x < w && 0 <= y < h,
        ;
        assert(0 <= (y as int) * (w as int)) by (nonlinear_arith)
            requires
                0 <= y && 0 < w,
        ;
    }
    let i: usize = ((y as u64) * (w as u64) + (x as u64)) as usize;
    proof {
        assert(i == (y as int) * (w as int) + (x as int));
        // The flat index decomposes back into exactly this row and column.
        lemma_fundamental_div_mod_converse(i as int, w as int, y as int, x as int);
        assert((i as int) % (w as int) == x);
        assert((i as int) / (w as int) == y);
    }
    if mask[i] != 1 {
        image[i]
    } else {
        let (ws, tw) = window_sums_at(image, mask, w, h, x, y);
        if tw > 0 {
            proof {
                lemma_window_sums_bounds(
                    image@,
                    mask@,
                    w as int,
                    h as int,
                    x as int,
                    y as int,
                    25,
                );
                lemma_div_is_ordered(ws as int, 0xffff * (tw as int), tw as int);
                lemma_div_by_multiple(0xffff, tw as int);
                lemma_div_pos_is_pos(ws as int, tw as int);
            }
            (ws / tw) as u16
        } else {
            image[i]
        }
    }
}

/// Applies the defect stage to a whole frame: output pixel `i` is
/// `defect_corrected(image, mask, w, h, i)`.
pub fn apply_defect_correction(image: &Vec<u16>, mask: &Vec<u16>, w: u32, h: u32) -> (out: Vec<
    u16,
>)
    requires
        0 < w,
        0 < h,
        w * h <= u32::MAX,
        image@.len() == w * h,
        mask@.len() == w * h,
    ensures
        out@ == defect_stage_output(image@, mask@, w as int, h as int),
{
    let len: usize = image.len();
    let mut out: Vec<u16> = Vec::new();
    let mut i: usize = 0;
    while i < len
        invariant
            i <= len,
            0 < w,
            0 < h,
            w * h <= u32::MAX,
            image@.len() == w * h,
            mask@.len() == w * h,
            len == image@.len(),
            out@.len() == i,
            forall|j: int|
                0 <= j < i ==> out@[j] == defect_corrected(
                    image@,
                    mask@,
                    w as int,
                    h as int,
                    j,
                ),
        decreases len - i,
    {
        proof {
            lemma_fundamental_div_mod(i as int, w as int);
            vstd::arithmetic::div_mod::lemma_mod_division_less_than_divisor(i as int, w as int);
            lemma_div_pos_is_pos(i as int, w as int);
            assert((i as int) / (w as int) < h) by (nonlinear_arith)
                requires
                    0 < w && 0 <= i < w * h && (w as int) * ((i as int) / (w as int)) <= i,
            ;
        }
        let x: u32 = ((i as u64) % (w as u64)) as u32;
        let y: u32 = ((i as u64) / (w as u64)) as u32;
        proof {
            assert(x == (i as int) % (w as int));
            assert(y == (i as int) / (w as int));
            assert((y as int) * (w as int) + (x as int) == i);
        }
        out.push(defect_correct_pixel(image, mask, w, h, x, y));
        i = i + 1;
    }
    proof {
        assert(out@ =~= defect_stage_output(image@, mask@, w as int, h as int));
    }
    out
}

/// The whole-frame meaning of the defect stage.
pub open spec fn defect_stage_output(image: Seq<u16>, mask: Seq<u16>, w: int, h: int) -> Seq<
    u16,
>
    recommends
        0 < w,
        mask.len() == image.len(),
{
    Seq::new(image.len(), |i: int| defect_corrected(image, mask, w, h, i))
}

} // verus!
