use vstd::prelude::*;

use crate::error::TerrainError;
use crate::heightmap::{lemma_grid_size_fits, settings_error, zeros, Heightmap, HeightmapSettings, HeightmapView, FULL_HEIGHT};

verus! {

/// Stored sample for a raw fractal-noise value `raw`, given in units of
/// `1 / FULL_HEIGHT`: the nominal range `[-FULL_HEIGHT, FULL_HEIGHT]` (that is,
/// `[-1, 1]`) is mapped onto `[0, FULL_HEIGHT]` by `(raw + FULL_HEIGHT) / 2`,
/// and values beyond it go to the nearer end.
pub open spec fn noise_to_sample(raw: int) -> u16 {
    if raw <= -(FULL_HEIGHT as int) {
        0
    } else if raw >= FULL_HEIGHT as int {
        FULL_HEIGHT
    } else {
        ((raw + FULL_HEIGHT as int) / 2) as u16
    }
}

/// What `generate_terrain` yields for `settings` and the noise values `noise`
/// (one per cell, in storage order).
///
/// Zero octaves give an all-zero grid whatever the noise holds.
pub open spec fn generation_outcome(settings: HeightmapSettings, noise: Seq<i32>) -> Result<HeightmapView, TerrainError> {
    let n = settings.width as nat * settings.depth as nat;
    match settings_error(settings) {
        Some(e) => Err(TerrainError::InvalidSettings(e)),
        None => if settings.octaves == 0 {
            Ok(HeightmapView { width: settings.width as nat, depth: settings.depth as nat, samples: zeros(n) })
        } else if noise.len() != n {
            Err(TerrainError::DimensionMismatch)
        } else {
            Ok(HeightmapView {
                width: settings.width as nat,
                depth: settings.depth as nat,
                samples: Seq::new(n, |i: int| noise_to_sample(noise[i] as int)),
            })
        },
    }
}

/// The abstract value of a grid result.
pub open spec fn view_result(r: Result<Heightmap, TerrainError>) -> Result<HeightmapView, TerrainError> {
    match r {
        Ok(h) => Ok(h@),
        Err(e) => Err(e),
    }
}

/// Maps one raw noise value to a stored sample.
pub fn remap_noise(raw: i32) -> (r: u16)
    ensures
        r == noise_to_sample(raw as int),
{
    if raw <= -65535 {
        0
    } else if raw >= 65535 {
        FULL_HEIGHT
    } else {
        ((raw + 65535) / 2) as u16
    }
}

/// Builds the grid of one layer from its settings and the fractal-noise value
/// of every cell.
///
/// `noise[i]` is the raw noise at the normalized coordinate
/// `(x / width, z / depth)` of the cell `(x, z)` stored at `i`, in units of
/// `1 / FULL_HEIGHT`. Settings are checked before anything else; with zero
/// octaves `noise` is not read.
pub fn generate_terrain(settings: &HeightmapSettings, noise: &Vec<i32>) -> (r: Result<Heightmap, TerrainError>)
    ensures
        view_result(r) == generation_outcome(*settings, noise@),
{
    if let Err(e) = settings.validate() {
        return Err(TerrainError::InvalidSettings(e));
    }
    if settings.octaves == 0 {
        return Ok(Heightmap::new(settings.width, settings.depth));
    }
    proof {
        lemma_grid_size_fits(settings.width, settings.depth);
    }
    let n: usize = settings.width as usize * settings.depth as usize;
    if noise.len() != n {
        return Err(TerrainError::DimensionMismatch);
    }
    let mut buffer: Vec<u16> = Vec::with_capacity(n);
    let mut i: usize = 0;
    while i < n
        invariant
            0 <= i <= n,
            n == noise@.len(),
            buffer@.len() == i,
            forall|j: int| 0 <= j < i ==> buffer@[j] == noise_to_sample(noise@[j] as int),
        decreases n - i,
    {
        buffer.push(remap_noise(noise[i]));
        i += 1;
    }
    let ghost expected = Seq::new(n as nat, |j: int| noise_to_sample(noise@[j] as int));
    assert(buffer@ =~= expected);
    match Heightmap::from_samples(settings.width, settings.depth, buffer) {
        Some(h) => Ok(h),
        None => Err(TerrainError::DimensionMismatch),
    }
}

/// The running blend of cell `i` after the first `k` layers: start from zero and,
/// layer by layer, replace the value with the mean of it and the layer's sample.
///
/// Layer `j` of `k` thus weighs `1 / 2^(k - j)`: this is a decaying average,
/// not an even mean.
pub open spec fn blended_sample(layers: Seq<HeightmapView>, k: nat, i: int) -> int
    decreases k,
{
    if k == 0 {
        0
    } else {
        (blended_sample(layers, (k - 1) as nat, i) + layers[k - 1].samples[i]) / 2
    }
}

/// Every layer holds one sample per cell and has the size of the first.
pub open spec fn uniform_layers(layers: Seq<HeightmapView>) -> bool {
    forall|j: int|
        0 <= j < layers.len() ==> {
            &&& (#[trigger] layers[j]).wf()
            &&& layers[j].width == layers[0].width
            &&& layers[j].depth == layers[0].depth
        }
}

/// What `combine_heightmap_layers` yields for the layers `layers`: nothing for an
/// empty list, a mismatch when sizes differ, else the blend of every cell.
pub open spec fn combination_outcome(layers: Seq<HeightmapView>) -> Result<Option<HeightmapView>, TerrainError> {
    if layers.len() == 0 {
        Ok(None)
    } else if !uniform_layers(layers) {
        Err(TerrainError::DimensionMismatch)
    } else {
        Ok(Some(HeightmapView {
            width: layers[0].width,
            depth: layers[0].depth,
            samples: Seq::new(layers[0].samples.len(), |i: int| blended_sample(layers, layers.len(), i) as u16),
        }))
    }
}

/// The abstract values of a list of grids.
pub open spec fn layer_views(layers: Seq<Heightmap>) -> Seq<HeightmapView> {
    layers.map_values(|h: Heightmap| h@)
}

/// The abstract value of a combination result.
pub open spec fn view_combined(r: Result<Option<Heightmap>, TerrainError>) -> Result<Option<HeightmapView>, TerrainError> {
    match r {
        Ok(Some(h)) => Ok(Some(h@)),
        Ok(None) => Ok(None),
        Err(e) => Err(e),
    }
}

/// A running blend stays within the sample range.
proof fn lemma_blend_bounded(layers: Seq<HeightmapView>, k: nat, i: int)
    requires
        k <= layers.len(),
    ensures
        0 <= blended_sample(layers, k, i) <= FULL_HEIGHT,
    decreases k,
{
    if k > 0 {
        lemma_blend_bounded(layers, (k - 1) as nat, i);
    }
}

/// Blends an ordered list of equally sized grids into one (see `blended_sample`).
///
/// An empty list gives `None`: there is nothing to render. Sizes are checked
/// before any sample is combined.
pub fn combine_heightmap_layers(layers: &Vec<Heightmap>) -> (r: Result<Option<Heightmap>, TerrainError>)
    ensures
        view_combined(r) == combination_outcome(layer_views(layers@)),
{
    let ghost views = layer_views(layers@);
    let count = layers.len();
    if count == 0 {
        return Ok(None);
    }
    let width = layers[0].width();
    let depth = layers[0].depth();
    let mut j: usize = 0;
    while j < count
        invariant
            0 <= j <= count,
            count == layers@.len(),
            views == layer_views(layers@),
            width == views[0].width,
            depth == views[0].depth,
            forall|m: int|
                0 <= m < j ==> {
                    &&& (#[trigger] views[m]).wf()
                    &&& views[m].width == width
                    &&& views[m].depth == depth
                },
        decreases count - j,
    {
        let w = layers[j].width();
        let d = layers[j].depth();
        if w != width || d != depth {
            assert(!uniform_layers(views)) by {
                assert(views[j as int].width != views[0].width || views[j as int].depth != views[0].depth);
            }
            return Err(TerrainError::DimensionMismatch);
        }
        j += 1;
    }
    assert(uniform_layers(views));
    let n = layers[0].buffer_size();
    let mut buffer: Vec<u16> = Vec::with_capacity(n);
    let mut i: usize = 0;
    while i < n
        invariant
            0 <= i <= n,
            count == layers@.len(),
            count > 0,
            views == layer_views(layers@),
            n == views[0].samples.len(),
            uniform_layers(views),
            buffer@.len() == i,
            forall|m: int| 0 <= m < i ==> buffer@[m] == blended_sample(views, count as nat, m),
        decreases n - i,
    {
        let mut acc: u16 = 0;
        let mut k: usize = 0;
        while k < count
            invariant
                0 <= k <= count,
                0 <= i < n,
                count == layers@.len(),
                count > 0,
                views == layer_views(layers@),
                n == views[0].samples.len(),
                uniform_layers(views),
                acc == blended_sample(views, k as nat, i as int),
            decreases count - k,
        {
            assert(views[k as int].wf());
            let h = layers[k].at(i);
            acc = ((acc as u32 + h as u32) / 2) as u16;
            k += 1;
        }
        buffer.push(acc);
        i += 1;
    }
    let ghost expected = Seq::new(n as nat, |m: int| blended_sample(views, count as nat, m) as u16);
    assert forall|m: int| 0 <= m < n implies buffer@[m] == expected[m] by {
        lemma_blend_bounded(views, count as nat, m);
    }
    assert(buffer@ =~= expected);
    match Heightmap::from_samples(width, depth, buffer) {
        Some(h) => Ok(Some(h)),
        None => Err(TerrainError::DimensionMismatch),
    }
}

/// Determinism: a grid depends on its settings and noise values alone, so two
/// generations from equal inputs give identical grids.
pub proof fn lemma_generation_deterministic(
    settings: HeightmapSettings,
    noise: Seq<i32>,
    first: Result<Heightmap, TerrainError>,
    second: Result<Heightmap, TerrainError>,
)
    requires
        view_result(first) == generation_outcome(settings, noise),
        view_result(second) == generation_outcome(settings, noise),
    ensures
        view_result(first) == view_result(second),
{
}

/// Normalization: with valid settings and at least one octave, every stored
/// sample lies in `[0, FULL_HEIGHT]`, and a noise value in the nominal range
/// `[-FULL_HEIGHT, FULL_HEIGHT]` is stored as exactly `(raw + FULL_HEIGHT) / 2`.
pub proof fn lemma_samples_normalized(settings: HeightmapSettings, noise: Seq<i32>, i: int)
    requires
        settings.valid(),
        settings.octaves >= 1,
        noise.len() == settings.width * settings.depth,
        0 <= i < noise.len(),
    ensures
        generation_outcome(settings, noise) is Ok,
        0 <= generation_outcome(settings, noise)->Ok_0.samples[i] <= FULL_HEIGHT,
        -(FULL_HEIGHT as int) <= noise[i] <= FULL_HEIGHT ==> generation_outcome(settings, noise)->Ok_0.samples[i]
            == (noise[i] + FULL_HEIGHT as int) / 2,
{
}

/// Zero octaves: valid settings with no octave give a grid of the configured
/// size whose every sample is exactly zero, whatever the noise values.
pub proof fn lemma_zero_octaves_flat(settings: HeightmapSettings, noise: Seq<i32>)
    requires
        settings.valid(),
        settings.octaves == 0,
    ensures
        generation_outcome(settings, noise) is Ok,
        generation_outcome(settings, noise)->Ok_0.width == settings.width,
        generation_outcome(settings, noise)->Ok_0.depth == settings.depth,
        generation_outcome(settings, noise)->Ok_0.samples.len() == settings.width * settings.depth,
        forall|i: int|
            0 <= i < settings.width * settings.depth ==> generation_outcome(settings, noise)->Ok_0.samples[i] == 0,
{
}

/// Composition weighting: three equally sized layers filled with the constants
/// `a`, `b` and `c` blend to the constant `(((0 + a) / 2 + b) / 2 + c) / 2` at
/// every cell, a decaying average rather than the even mean.
pub proof fn lemma_composition_weighting(layers: Seq<HeightmapView>, a: u16, b: u16, c: u16)
    requires
        layers.len() == 3,
        uniform_layers(layers),
        forall|i: int|
            0 <= i < layers[0].samples.len() ==> {
                &&& layers[0].samples[i] == a
                &&& layers[1].samples[i] == b
                &&& layers[2].samples[i] == c
            },
    ensures
        combination_outcome(layers) matches Ok(Some(v)) && v.samples.len() == layers[0].samples.len() && forall|i: int|
            0 <= i < v.samples.len() ==> v.samples[i] == (((0 + a) / 2 + b) / 2 + c) / 2,
{
    let v = combination_outcome(layers)->Ok_0->Some_0;
    assert forall|i: int| 0 <= i < v.samples.len() implies v.samples[i] == (((0 + a) / 2 + b) / 2 + c) / 2 by {
        assert(layers[1].wf() && layers[2].wf());
        assert(blended_sample(layers, 0, i) == 0);
        assert(layers[0].samples[i] == a);
        assert(blended_sample(layers, 1, i) == (0 + a) / 2);
        assert(blended_sample(layers, 2, i) == ((0 + a) / 2 + b) / 2);
        assert(blended_sample(layers, 3, i) == (((0 + a) / 2 + b) / 2 + c) / 2);
    }
}

} // verus!
