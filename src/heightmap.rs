use vstd::prelude::*;

use crate::error::SettingsError;

verus! {

/// The sample value that stands for the top of the normalized height range:
/// a stored sample `s` stands for the real height `s / FULL_HEIGHT`.
pub const FULL_HEIGHT: u16 = 65535;

/// Real-valued settings are held in millionths: `PARAM_ONE` stands for `1.0`.
pub const PARAM_ONE: u32 = 1_000_000;

/// Configuration of one noise layer.
///
/// `frequency`, `lacunarity` and `persistence` are in millionths of a unit.
#[derive(Clone, Copy, Debug, PartialEq, Eq, Structural)]
pub struct HeightmapSettings {
    pub width: u16,
    pub depth: u16,
    pub seed: u64,
    /// Number of stacked noise frequencies.
    pub octaves: u32,
    /// Frequency multiplier per octave; must be above one.
    pub lacunarity: u32,
    /// Amplitude multiplier per octave; must be at most one.
    pub persistence: u32,
    /// Base spatial frequency; must be positive.
    pub frequency: u32,
    /// A disabled layer is skipped by the pipeline.
    pub enabled: bool,
}

/// The first rule that `s` breaks, in the order the fields are checked.
pub open spec fn settings_error(s: HeightmapSettings) -> Option<SettingsError> {
    if s.width == 0 {
        Some(SettingsError::ZeroWidth)
    } else if s.depth == 0 {
        Some(SettingsError::ZeroDepth)
    } else if s.frequency == 0 {
        Some(SettingsError::ZeroFrequency)
    } else if s.lacunarity <= PARAM_ONE {
        Some(SettingsError::LacunarityNotAboveOne)
    } else if s.persistence > PARAM_ONE {
        Some(SettingsError::PersistenceAboveOne)
    } else {
        None
    }
}

impl HeightmapSettings {
    /// Settings are valid when every field lies in its documented range.
    pub open spec fn valid(&self) -> bool {
        settings_error(*self) is None
    }

    /// The default settings with the given grid size.
    pub fn new(width: u16, depth: u16) -> (r: Self)
        ensures
            r == (HeightmapSettings { width, depth, ..default_settings() }),
    {
        HeightmapSettings { width, depth, ..Self::default() }
    }

    /// Checks every range rule, reporting the first one broken.
    pub fn validate(&self) -> (r: Result<(), SettingsError>)
        ensures
            r is Ok <==> self.valid(),
            r is Err ==> Some(r->Err_0) == settings_error(*self),
    {
        if self.width == 0 {
            Err(SettingsError::ZeroWidth)
        } else if self.depth == 0 {
            Err(SettingsError::ZeroDepth)
        } else if self.frequency == 0 {
            Err(SettingsError::ZeroFrequency)
        } else if self.lacunarity <= PARAM_ONE {
            Err(SettingsError::LacunarityNotAboveOne)
        } else if self.persistence > PARAM_ONE {
            Err(SettingsError::PersistenceAboveOne)
        } else {
            Ok(())
        }
    }
}

/// A 256 by 256 grid, seed 42, five octaves, persistence 0.5, frequency 1.0,
/// lacunarity 2.0, enabled.
pub open spec fn default_settings() -> HeightmapSettings {
    HeightmapSettings {
        width: 256,
        depth: 256,
        seed: 42,
        octaves: 5,
        lacunarity: 2_000_000,
        persistence: 500_000,
        frequency: 1_000_000,
        enabled: true,
    }
}

impl Default for HeightmapSettings {
    fn default() -> (r: Self)
        ensures
            r == default_settings(),
    {
        HeightmapSettings {
            width: 256,
            depth: 256,
            seed: 42,
            octaves: 5,
            lacunarity: 2_000_000,
            persistence: 500_000,
            frequency: 1_000_000,
            enabled: true,
        }
    }
}

/// Abstract value of a `Heightmap`: its size and its samples in storage order.
pub ghost struct HeightmapView {
    pub width: nat,
    pub depth: nat,
    pub samples: Seq<u16>,
}

impl HeightmapView {
    /// The size fits `u16` and the buffer holds exactly one sample per cell.
    pub open spec fn wf(self) -> bool {
        &&& self.width <= u16::MAX
        &&& self.depth <= u16::MAX
        &&& self.samples.len() == self.width * self.depth
    }

    /// The sample at cell `(x, z)`.
    pub open spec fn at(self, x: int, z: int) -> u16 {
        self.samples[index_of(self.depth, x, z)]
    }
}

/// Storage position of cell `(x, z)` in a grid `depth` cells deep (row-major in `x`).
pub open spec fn index_of(depth: nat, x: int, z: int) -> int {
    x * depth + z
}

/// A zero-filled sample sequence of length `n`.
pub open spec fn zeros(n: nat) -> Seq<u16> {
    Seq::new(n, |i: int| 0u16)
}

/// A dense grid of height samples, stored row-major with index `x * depth + z`.
pub struct Heightmap {
    width: u16,
    depth: u16,
    buffer: Vec<u16>,
}

impl View for Heightmap {
    type V = HeightmapView;

    closed spec fn view(&self) -> HeightmapView {
        HeightmapView { width: self.width as nat, depth: self.depth as nat, samples: self.buffer@ }
    }
}

impl Heightmap {
    #[verifier::type_invariant]
    spec fn inv(self) -> bool {
        self.buffer@.len() == self.width * self.depth
    }

    /// A zero-filled grid of `width * depth` samples.
    pub fn new(width: u16, depth: u16) -> (r: Self)
        ensures
            r@ == (HeightmapView { width: width as nat, depth: depth as nat, samples: zeros(width as nat * depth as nat) }),
    {
        proof {
            lemma_grid_size_fits(width, depth);
        }
        let n: usize = width as usize * depth as usize;
        let buffer = zero_buffer(n);
        Heightmap { width, depth, buffer }
    }

    /// Builds a grid from samples already in storage order.
    pub fn from_samples(width: u16, depth: u16, samples: Vec<u16>) -> (r: Option<Self>)
        ensures
            samples@.len() == width * depth <==> r is Some,
            r is Some ==> r->Some_0@ == (HeightmapView { width: width as nat, depth: depth as nat, samples: samples@ }),
    {
        proof {
            lemma_grid_size_fits(width, depth);
        }
        if samples.len() == width as usize * depth as usize {
            Some(Heightmap { width, depth, buffer: samples })
        } else {
            None
        }
    }

    pub fn width(&self) -> (r: u16)
        ensures
            r == self@.width,
            self@.wf(),
    {
        proof {
            use_type_invariant(self);
        }
        self.width
    }

    pub fn depth(&self) -> (r: u16)
        ensures
            r == self@.depth,
            self@.wf(),
    {
        proof {
            use_type_invariant(self);
        }
        self.depth
    }

    /// Number of samples, `width * depth`.
    pub fn buffer_size(&self) -> (r: usize)
        ensures
            r == self@.samples.len(),
            r == self@.width * self@.depth,
    {
        proof {
            use_type_invariant(self);
        }
        self.buffer.len()
    }

    /// Storage position of cell `(x, z)`.
    pub fn index(&self, x: u16, z: u16) -> (r: usize)
        requires
            x < self@.width,
            z < self@.depth,
        ensures
            r == index_of(self@.depth, x as int, z as int),
            r < self@.samples.len(),
    {
        proof {
            use_type_invariant(self);
            lemma_index_in_bounds(self.width as int, self.depth as int, x as int, z as int);
            lemma_grid_size_fits(self.width, self.depth);
        }
        x as usize * self.depth as usize + z as usize
    }

    /// Cell `[x, z]` stored at position `index`; the inverse of `index`.
    pub fn position(&self, index: usize) -> (r: [u16; 2])
        requires
            index < self@.samples.len(),
        ensures
            r@[0] == index as int / self@.depth as int,
            r@[1] == index as int % self@.depth as int,
            r@[0] < self@.width,
            r@[1] < self@.depth,
    {
        proof {
            use_type_invariant(self);
            lemma_position_in_bounds(self.width as int, self.depth as int, index as int);
        }
        let depth = self.depth as usize;
        [(index / depth) as u16, (index % depth) as u16]
    }

    /// The sample at cell `(x, z)`.
    pub fn get(&self, x: u16, z: u16) -> (r: u16)
        requires
            x < self@.width,
            z < self@.depth,
        ensures
            r == self@.at(x as int, z as int),
    {
        let i = self.index(x, z);
        self.buffer[i]
    }

    /// Overwrites the sample at cell `(x, z)`.
    pub fn set(&mut self, x: u16, z: u16, value: u16)
        requires
            x < old(self)@.width,
            z < old(self)@.depth,
        ensures
            final(self)@ == (HeightmapView {
                samples: old(self)@.samples.update(index_of(old(self)@.depth, x as int, z as int), value),
                ..old(self)@
            }),
    {
        let i = self.index(x, z);
        self.set_at(i, value);
    }

    /// The sample at storage position `index`.
    pub fn at(&self, index: usize) -> (r: u16)
        requires
            index < self@.samples.len(),
        ensures
            r == self@.samples[index as int],
    {
        self.buffer[index]
    }

    /// Overwrites the sample at storage position `index`.
    pub fn set_at(&mut self, index: usize, value: u16)
        requires
            index < old(self)@.samples.len(),
        ensures
            final(self)@ == (HeightmapView { samples: old(self)@.samples.update(index as int, value), ..old(self)@ }),
        no_unwind
    {
        proof {
            use_type_invariant(&*self);
        }
        self.buffer[index] = value;
    }

    /// All samples in storage order.
    pub fn samples(&self) -> (r: &Vec<u16>)
        ensures
            r@ == self@.samples,
    {
        &self.buffer
    }

    /// Resets every sample to zero, keeping the size.
    pub fn clear(&mut self)
        ensures
            final(self)@ == (HeightmapView { samples: zeros(old(self)@.samples.len()), ..old(self)@ }),
    {
        let n = self.buffer.len();
        let mut i: usize = 0;
        while i < n
            invariant
                0 <= i <= n,
                n == old(self)@.samples.len(),
                self@.width == old(self)@.width,
                self@.depth == old(self)@.depth,
                self@.samples.len() == n,
                forall|j: int| 0 <= j < i ==> self@.samples[j] == 0,
            decreases n - i,
        {
            self.set_at(i, 0);
            i += 1;
        }
        assert(self@.samples =~= zeros(n as nat));
    }
}

impl Default for Heightmap {
    /// A zero-filled 256 by 256 grid.
    fn default() -> (r: Self)
        ensures
            r@ == (HeightmapView { width: 256, depth: 256, samples: zeros(65536) }),
    {
        Heightmap::new(256, 256)
    }
}

/// A vector of `n` zero samples.
fn zero_buffer(n: usize) -> (r: Vec<u16>)
    ensures
        r@ == zeros(n as nat),
{
    let mut v: Vec<u16> = Vec::with_capacity(n);
    let mut i: usize = 0;
    while i < n
        invariant
            0 <= i <= n,
            v@ == zeros(i as nat),
        decreases n - i,
    {
        v.push(0);
        i += 1;
        assert(v@ =~= zeros(i as nat));
    }
    v
}

/// A grid of `u16` by `u16` cells has fewer cells than `u32::MAX`.
pub proof fn lemma_grid_size_fits(width: u16, depth: u16)
    ensures
        width * depth <= u32::MAX,
        width * depth <= usize::MAX,
{
    assert(width * depth <= 65535 * 65535) by (nonlinear_arith)
        requires
            width <= 65535,
            depth <= 65535,
    ;
}

/// Cell `(x, z)` of a `width` by `depth` grid is stored inside its buffer.
pub proof fn lemma_index_in_bounds(width: int, depth: int, x: int, z: int)
    requires
        0 <= x < width,
        0 <= z < depth,
    ensures
        0 <= x * depth + z < width * depth,
{
    assert(x * depth + z < width * depth) by (nonlinear_arith)
        requires
            0 <= x < width,
            0 <= z < depth,
    ;
    assert(0 <= x * depth) by (nonlinear_arith)
        requires
            0 <= x,
            0 <= depth,
    ;
}

proof fn lemma_position_in_bounds(width: int, depth: int, index: int)
    requires
        0 <= index < width * depth,
        0 <= width,
        0 <= depth,
    ensures
        depth > 0,
        0 <= index / depth < width,
        0 <= index % depth < depth,
{
    assert(depth > 0) by (nonlinear_arith)
        requires
            0 <= index < width * depth,
            0 <= width,
            0 <= depth,
    ;
    assert(0 <= index / depth < width) by (nonlinear_arith)
        requires
            0 <= index < width * depth,
            depth > 0,
    ;
}

/// Indexing round trip: the cell stored at `index_of(depth, x, z)` is `(x, z)`.
pub proof fn lemma_position_of_index(width: nat, depth: nat, x: int, z: int)
    requires
        0 <= x < width,
        0 <= z < depth,
    ensures
        index_of(depth, x, z) / (depth as int) == x,
        index_of(depth, x, z) % (depth as int) == z,
{
    assert((x * depth + z) / (depth as int) == x && (x * depth + z) % (depth as int) == z)
        by (nonlinear_arith)
        requires
            0 <= x,
            0 <= z < depth,
    ;
}

} // verus!
