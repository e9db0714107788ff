use vstd::prelude::*;

use crate::error::TerrainError;
use crate::generator::{
    combination_outcome, combine_heightmap_layers, generate_terrain, generation_outcome, layer_views,
};
use crate::heightmap::{Heightmap, HeightmapSettings, HeightmapView};
use crate::mesher::{cell_count, grid_positions, mesh_heightmap, quad_indices, quad_normals, Mesh, MeshScale};

verus! {

/// Everything derived from a list of layer settings: the grid of each enabled
/// layer, their blend, and the mesh of the blend.
pub struct Terrain {
    pub layers: Vec<Heightmap>,
    pub combined: Heightmap,
    pub mesh: Mesh,
}

/// The abstract values of per-layer noise buffers.
pub open spec fn noise_views(noise: Seq<Vec<i32>>) -> Seq<Seq<i32>> {
    noise.map_values(|v: Vec<i32>| v@)
}

/// The grids of the enabled layers among the first `k` settings, in order, or
/// the first error met.
pub open spec fn layers_outcome(settings: Seq<HeightmapSettings>, noise: Seq<Seq<i32>>, k: nat) -> Result<Seq<HeightmapView>, TerrainError>
    decreases k,
{
    if k == 0 {
        Ok(Seq::empty())
    } else {
        match layers_outcome(settings, noise, (k - 1) as nat) {
            Err(e) => Err(e),
            Ok(prev) => if !settings[k - 1].enabled {
                Ok(prev)
            } else {
                match generation_outcome(settings[k - 1], noise[k - 1]) {
                    Err(e) => Err(e),
                    Ok(g) => Ok(prev.push(g)),
                }
            },
        }
    }
}

/// What `generate_heightmap` yields: the layer grids and their blend, nothing
/// when no layer is enabled, or the first error.
pub open spec fn terrain_outcome(settings: Seq<HeightmapSettings>, noise: Seq<Seq<i32>>) -> Result<Option<(Seq<HeightmapView>, HeightmapView)>, TerrainError> {
    if noise.len() != settings.len() {
        Err(TerrainError::DimensionMismatch)
    } else {
        match layers_outcome(settings, noise, settings.len()) {
            Err(e) => Err(e),
            Ok(layers) => match combination_outcome(layers) {
                Err(e) => Err(e),
                Ok(None) => Ok(None),
                Ok(Some(c)) => Ok(Some((layers, c))),
            },
        }
    }
}

/// The abstract value of a pipeline result, without its mesh.
pub open spec fn view_terrain(r: Result<Option<Terrain>, TerrainError>) -> Result<Option<(Seq<HeightmapView>, HeightmapView)>, TerrainError> {
    match r {
        Err(e) => Err(e),
        Ok(None) => Ok(None),
        Ok(Some(t)) => Ok(Some((layer_views(t.layers@), t.combined@))),
    }
}

/// The mesh of a `width` by `depth` grid can number its vertices with `u32`.
pub open spec fn mesh_fits(width: nat, depth: nat) -> bool {
    4 * cell_count(HeightmapView { width, depth, samples: Seq::empty() }) <= u32::MAX
}

/// Whether the mesh of a `width` by `depth` grid can number its vertices with
/// `u32`: the condition `generate_heightmap` asks of every enabled layer.
pub fn mesh_fits_u32(width: u16, depth: u16) -> (r: bool)
    ensures
        r == mesh_fits(width as nat, depth as nat),
{
    let rows: u64 = if width >= 1 { width as u64 - 1 } else { 0 };
    let cols: u64 = if depth >= 1 { depth as u64 - 1 } else { 0 };
    assert(rows * cols <= 65535 * 65535) by (nonlinear_arith)
        requires
            rows <= 65535,
            cols <= 65535,
    ;
    4 * (rows * cols) <= u32::MAX as u64
}

proof fn lemma_error_persists(settings: Seq<HeightmapSettings>, noise: Seq<Seq<i32>>, k: nat, m: nat)
    requires
        k <= m,
        layers_outcome(settings, noise, k) is Err,
    ensures
        layers_outcome(settings, noise, m) == layers_outcome(settings, noise, k),
    decreases m - k,
{
    if k < m {
        lemma_error_persists(settings, noise, k, (m - 1) as nat);
    }
}

/// Regenerates a terrain from scratch: the grid of every enabled layer in
/// declaration order (disabled ones are skipped and their noise not read),
/// then their blend and its mesh.
///
/// `noise[j]` holds the noise values of layer `j` as `generate_terrain` takes
/// them. No enabled layer gives `None`: there is nothing to render.
pub fn generate_heightmap(settings: &Vec<HeightmapSettings>, noise: &Vec<Vec<i32>>, scale: MeshScale) -> (r: Result<Option<Terrain>, TerrainError>)
    requires
        forall|j: int|
            0 <= j < settings@.len() && (#[trigger] settings@[j]).enabled ==> mesh_fits(
                settings@[j].width as nat,
                settings@[j].depth as nat,
            ),
    ensures
        view_terrain(r) == terrain_outcome(settings@, noise_views(noise@)),
        r matches Ok(Some(t)) ==> {
            &&& t.mesh.positions@ == grid_positions(t.combined@, scale)
            &&& t.mesh.normals@ == quad_normals(t.mesh.positions@)
            &&& t.mesh.indices@ == quad_indices(t.mesh.positions@.len())
        },
{
    let ghost noise_seq = noise_views(noise@);
    if noise.len() != settings.len() {
        return Err(TerrainError::DimensionMismatch);
    }
    let count = settings.len();
    let mut layers: Vec<Heightmap> = Vec::new();
    let mut j: usize = 0;
    assert(layer_views(layers@) =~= Seq::<HeightmapView>::empty());
    while j < count
        invariant
            0 <= j <= count,
            count == settings@.len(),
            count == noise@.len(),
            noise_seq == noise_views(noise@),
            layers_outcome(settings@, noise_seq, j as nat) == Ok::<Seq<HeightmapView>, TerrainError>(
                layer_views(layers@),
            ),
            forall|m: int|
                0 <= m < layers@.len() ==> mesh_fits(
                    (#[trigger] layers@[m])@.width,
                    layers@[m]@.depth,
                ),
            forall|i: int|
                0 <= i < settings@.len() && (#[trigger] settings@[i]).enabled ==> mesh_fits(
                    settings@[i].width as nat,
                    settings@[i].depth as nat,
                ),
        decreases count - j,
    {
        if settings[j].enabled {
            match generate_terrain(&settings[j], &noise[j]) {
                Ok(h) => {
                    let ghost before = layers@;
                    layers.push(h);
                    proof {
                        assert(layer_views(layers@) =~= layer_views(before).push(h@));
                    }
                },
                Err(e) => {
                    proof {
                        lemma_error_persists(settings@, noise_seq, (j + 1) as nat, count as nat);
                    }
                    return Err(e);
                },
            }
        }
        j += 1;
    }
    match combine_heightmap_layers(&layers) {
        Err(e) => Err(e),
        Ok(None) => Ok(None),
        Ok(Some(combined)) => {
            proof {
                assert(layer_views(layers@)[0] == layers@[0]@);
                assert(mesh_fits(layers@[0]@.width, layers@[0]@.depth));
            }
            let mesh = mesh_heightmap(&combined, scale);
            Ok(Some(Terrain { layers, combined, mesh }))
        },
    }
}

} // verus!
