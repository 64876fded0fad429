use vstd::prelude::*;

use vstd::arithmetic::div_mod::lemma_fundamental_div_mod;

use crate::error::MyError;

verus! {

/// The pixels a little-endian byte buffer holds: pixel `i` is byte `2 * i`
/// plus 256 times byte `2 * i + 1`.
pub open spec fn le_pixels_of(bytes: Seq<u8>) -> Seq<u16>
    recommends
        bytes.len() % 2 == 0,
{
    Seq::new(bytes.len() / 2, |i: int| (bytes[2 * i] + 256 * bytes[2 * i + 1]) as u16)
}

/// The little-endian byte buffer a pixel sequence writes: low byte first.
pub open spec fn le_bytes_of(pixels: Seq<u16>) -> Seq<u8> {
    Seq::new(
        2 * pixels.len(),
        |i: int|
            if i % 2 == 0 {
                (pixels[i / 2] % 256) as u8
            } else {
                (pixels[i / 2] / 256) as u8
            },
    )
}

/// Writing pixels as bytes and reading them back returns the same pixels.
pub proof fn lemma_pixel_bytes_roundtrip(pixels: Seq<u16>)
    ensures
        le_pixels_of(le_bytes_of(pixels)) == pixels,
{
    let bytes = le_bytes_of(pixels);
    assert forall|i: int| 0 <= i < pixels.len() implies le_pixels_of(bytes)[i] == pixels[i] by {
        assert(bytes[2 * i] == pixels[i] % 256);
        assert(bytes[2 * i + 1] == pixels[i] / 256);
        lemma_fundamental_div_mod(pixels[i] as int, 256);
    }
    assert(le_pixels_of(bytes) =~= pixels);
}

/// Reinterprets a mapped readback buffer as pixels. A buffer that does not
/// hold a whole number of pixels can only come from a malformed readback,
/// which is fatal for that submission.
pub fn bytes_to_pixels(bytes: &[u8]) -> (r: Result<Vec<u16>, MyError>)
    ensures
        match r {
            Ok(v) => {
                &&& bytes@.len() % 2 == 0
                &&& v@ == le_pixels_of(bytes@)
            },
            Err(e) => {
                &&& e == MyError::GpuExecutionFailed
                &&& bytes@.len() % 2 != 0
            },
        },
{
    let n = bytes.len();
    if n % 2 != 0 {
        return Err(MyError::GpuExecutionFailed);
    }
    let mut out: Vec<u16> = Vec::new();
    let mut i: usize = 0;
    while i < n / 2
        invariant
            n == bytes@.len(),
            n % 2 == 0,
            i <= n / 2,
            out@.len() == i,
            forall|j: int|
                0 <= j < i ==> out@[j] == (bytes@[2 * j] + 256 * bytes@[2 * j + 1]) as u16,
        decreases n / 2 - i,
    {
        let lo = bytes[2 * i];
        let hi = bytes[2 * i + 1];
        out.push((lo as u16) + 256 * (hi as u16));
        i = i + 1;
    }
    proof {
        assert(out@ =~= le_pixels_of(bytes@));
    }
    Ok(out)
}

/// Writes pixels into the little-endian byte layout the staging buffer
/// takes, low byte first.
pub fn pixels_to_bytes(pixels: &[u16]) -> (out: Vec<u8>)
    ensures
        out@ == le_bytes_of(pixels@),
        le_pixels_of(out@) == pixels@,
{
    let n = pixels.len();
    let mut out: Vec<u8> = Vec::new();
    let mut i: usize = 0;
    while i < n
        invariant
            n == pixels@.len(),
            i <= n,
            out@.len() == 2 * i,
            forall|j: int|
                0 <= j < i ==> out@[2 * j] == (pixels@[j] % 256) as u8 && out@[2 * j + 1] == (
                pixels@[j] / 256) as u8,
        decreases n - i,
    {
        let p = pixels[i];
        out.push((p % 256) as u8);
        out.push((p / 256) as u8);
        i = i + 1;
    }
    proof {
        assert forall|k: int| 0 <= k < 2 * n implies out@[k] == le_bytes_of(pixels@)[k] by {
            let j = k / 2;
            lemma_fundamental_div_mod(k, 2);
        }
        assert(out@ =~= le_bytes_of(pixels@));
        lemma_pixel_bytes_roundtrip(pixels@);
    }
    out
}

} // verus!
