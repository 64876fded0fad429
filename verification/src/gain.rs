use vstd::prelude::*;

use vstd::arithmetic::div_mod::{
    lemma_div_by_multiple, lemma_div_is_ordered, lemma_div_pos_is_pos, lemma_small_mod,
};

use crate::offset::pixel_modulus;

verus! {

/// The reduction the gain stage performs once, when its map is enabled:
/// the smallest entry of the gain map, used as the normalization factor.
pub fn map_minimum(map: &Vec<u16>) -> (m: u16)
    requires
        map@.len() > 0,
    ensures
        forall|j: int| 0 <= j < map@.len() ==> m <= #[trigger] map@[j],
        exists|j: int| 0 <= j < map@.len() && m == map@[j],
{
    let mut m: u16 = map[0];
    let mut i: usize = 1;
    while i < map.len()
        invariant
            1 <= i <= map@.len(),
            forall|j: int| 0 <= j < i ==> m <= #[trigger] map@[j],
            exists|j: int| 0 <= j < i && m == map@[j],
        decreases map@.len() - i,
    {
        if map[i] < m {
            m = map[i];
        }
        i = i + 1;
    }
    m
}

/// What the gain/flat-field kernel writes for one pixel: the raw reading is
/// scaled by the ratio of the map's minimum `m` to this pixel's map entry
/// `g`, in truncating integer arithmetic; a zero map entry leaves the pixel
/// unchanged, since no ratio is defined for it.
pub open spec fn gain_corrected(v: u16, g: u16, m: u16) -> u16 {
    if g == 0 {
        v
    } else {
        ((((v as int) * (m as int)) / (g as int)) % pixel_modulus()) as u16
    }
}

/// When `m` is no larger than `g` — as always holds when `m` is the map's
/// minimum — the scaled value never exceeds the raw reading, and the
/// truncation modulo the 16-bit bound is a no-op.
pub proof fn lemma_gain_corrected_bounded(v: u16, g: u16, m: u16)
    requires
        m <= g,
        0 < g,
    ensures
        gain_corrected(v, g, m) == ((v as int) * (m as int)) / (g as int),
        gain_corrected(v, g, m) <= v,
{
    let p = (v as int) * (m as int);
    let q = p / (g as int);
    assert((v as int) * (m as int) <= (v as int) * (g as int)) by (nonlinear_arith)
        requires
            m <= g && 0 <= v,
    ;
    lemma_div_is_ordered(p, (v as int) * (g as int), g as int);
    lemma_div_by_multiple(v as int, g as int);
    assert(0 <= (v as int) * (m as int)) by (nonlinear_arith)
        requires
            0 <= v && 0 <= m,
    ;
    lemma_div_pos_is_pos(p, g as int);
    lemma_small_mod(q as nat, pixel_modulus() as nat);
}

/// Computes `gain_corrected` for one pixel.
pub fn gain_correct_pixel(v: u16, g: u16, m: u16) -> (r: u16)
    ensures
        r == gain_corrected(v, g, m),
{
    if g == 0 {
        v
    } else {
        proof {
            assert((v as int) * (m as int) <= 0xffff * 0xffff) by (nonlinear_arith)
                requires
                    v <= 0xffff && m <= 0xffff,
            ;
        }
        let prod: u32 = (v as u32) * (m as u32);
        let q: u32 = prod / (g as u32);
        (q % 0x10000) as u16
    }
}

/// Applies the gain stage to a whole frame: output pixel `i` is
/// `gain_corrected(image[i], gain[i], m)`.
pub fn apply_gain_correction(image: &Vec<u16>, gain: &Vec<u16>, m: u16) -> (out: Vec<u16>)
    requires
        image@.len() == gain@.len(),
    ensures
        out@ == gain_stage_output(image@, gain@, m),
{
    let mut out: Vec<u16> = Vec::new();
    let mut i: usize = 0;
    while i < image.len()
        invariant
            i <= image@.len(),
            image@.len() == gain@.len(),
            out@.len() == i,
            forall|j: int|
                0 <= j < i ==> out@[j] == gain_corrected(image@[j], gain@[j], m),
        decreases image@.len() - i,
    {
        out.push(gain_correct_pixel(image[i], gain[i], m));
        i = i + 1;
    }
    proof {
        assert(out@ =~= gain_stage_output(image@, gain@, m));
    }
    out
}

/// The whole-frame meaning of the gain stage.
pub open spec fn gain_stage_output(image: Seq<u16>, gain: Seq<u16>, m: u16) -> Seq<u16>
    recommends
        image.len() == gain.len(),
{
    Seq::new(image.len(), |i: int| gain_corrected(image[i], gain[i], m))
}

} // verus!
