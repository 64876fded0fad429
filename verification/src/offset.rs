use vstd::prelude::*;

use vstd::arithmetic::div_mod::{
    lemma_fundamental_div_mod, lemma_mod_bound, lemma_mod_multiples_vanish,
};

verus! {

/// The modulus of the 16-bit pixel arithmetic the offset kernel runs in.
pub open spec fn pixel_modulus() -> int {
    0x10000
}

/// What the offset/dark-current kernel writes for one pixel: the dark map
/// value is subtracted from the raw reading and the constant offset added,
/// in wrapping 16-bit arithmetic (the kernel computes in `uint16`).
pub open spec fn offset_corrected(v: u16, d: u16, c: u32) -> u16 {
    (((v as int) - (d as int) + (c as int)) % pixel_modulus()) as u16
}

/// Wrapping around the 16-bit bounds never leaves them.
pub proof fn lemma_offset_corrected_in_range(v: u16, d: u16, c: u32)
    ensures
        0 <= ((v as int) - (d as int) + (c as int)) % pixel_modulus() < pixel_modulus(),
{
    lemma_mod_bound((v as int) - (d as int) + (c as int), pixel_modulus());
}

/// Computes `offset_corrected` for one pixel.
pub fn offset_correct_pixel(v: u16, d: u16, c: u32) -> (r: u16)
    ensures
        r == offset_corrected(v, d, c),
{
    let c_low: u64 = (c as u64) % 0x10000;
    let shifted: u64 = (v as u64) + 0x10000 + c_low - (d as u64);
    let r: u16 = (shifted % 0x10000) as u16;
    proof {
        let m = pixel_modulus();
        let a = (v as int) - (d as int) + (c as int);
        lemma_fundamental_div_mod(c as int, m);
        // shifted == a + m * (1 - c / m), so both sides agree modulo m.
        assert(shifted == a + m * (1 - (c as int) / m));
        lemma_mod_multiples_vanish(1 - (c as int) / m, a, m);
        lemma_offset_corrected_in_range(v, d, c);
    }
    r
}

/// Applies the offset stage to a whole frame: output pixel `i` is
/// `offset_corrected(image[i], dark[i], c)`.
pub fn apply_offset_correction(image: &Vec<u16>, dark: &Vec<u16>, c: u32) -> (out: Vec<u16>)
    requires
        image@.len() == dark@.len(),
    ensures
        out@ == offset_stage_output(image@, dark@, c),
{
    let mut out: Vec<u16> = Vec::new();
    let mut i: usize = 0;
    while i < image.len()
        invariant
            i <= image@.len(),
            image@.len() == dark@.len(),
            out@.len() == i,
            forall|j: int|
                0 <= j < i ==> out@[j] == offset_corrected(image@[j], dark@[j], c),
        decreases image@.len() - i,
    {
        out.push(offset_correct_pixel(image[i], dark[i], c));
        i = i + 1;
    }
    proof {
        assert(out@ =~= offset_stage_output(image@, dark@, c));
    }
    out
}

/// The whole-frame meaning of the offset stage.
pub open spec fn offset_stage_output(image: Seq<u16>, dark: Seq<u16>, c: u32) -> Seq<u16>
    recommends
        image.len() == dark.len(),
{
    Seq::new(image.len(), |i: int| offset_corrected(image[i], dark[i], c))
}

} // verus!
