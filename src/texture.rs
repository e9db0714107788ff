use vstd::prelude::*;

use crate::heightmap::{Heightmap, FULL_HEIGHT};

verus! {

/// Gray level of a sample: its normalized height times 255, rounded down.
pub open spec fn gray_level(sample: u16) -> u8 {
    (sample * 255 / FULL_HEIGHT as int) as u8
}

/// RGBA bytes of a grayscale image with one opaque pixel per sample, in storage
/// order: `(g, g, g, 255)` with `g` the sample's gray level.
pub open spec fn rgba_pixels(samples: Seq<u16>) -> Seq<u8> {
    Seq::new(4 * samples.len(), |j: int| if j % 4 == 3 { 255u8 } else { gray_level(samples[j / 4]) })
}

/// The gray level of one sample.
pub fn sample_gray_level(sample: u16) -> (r: u8)
    ensures
        r == gray_level(sample),
{
    (sample as u32 * 255 / 65535) as u8
}

/// Pixel data of the grid as a grayscale RGBA image, `width` pixels by `depth`.
pub fn image_data(grid: &Heightmap) -> (r: Vec<u8>)
    ensures
        r@ == rgba_pixels(grid@.samples),
{
    let samples = grid.samples();
    let n = samples.len();
    let mut data: Vec<u8> = Vec::new();
    let mut i: usize = 0;
    while i < n
        invariant
            n == samples@.len(),
            samples@ == grid@.samples,
            0 <= i <= n,
            data@ =~= rgba_pixels(samples@).subrange(0, 4 * i as int),
        decreases n - i,
    {
        let g = sample_gray_level(samples[i]);
        data.push(g);
        data.push(g);
        data.push(g);
        data.push(255);
        proof {
            assert forall|j: int| 4 * i <= j < 4 * i + 4 implies #[trigger] rgba_pixels(samples@)[j] == data@[j] by {
                assert(j / 4 == i && j % 4 == j - 4 * i);
            }
        }
        i += 1;
    }
    data
}

} // verus!
