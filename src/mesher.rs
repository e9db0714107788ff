use vstd::prelude::*;

use crate::heightmap::{lemma_index_in_bounds, lemma_position_of_index, Heightmap, HeightmapView};

verus! {

/// A vertex position in the mesh's integer frame (see `MeshScale`).
#[derive(Clone, Copy, Debug, PartialEq, Eq, Structural)]
pub struct Position {
    pub x: u32,
    pub y: u32,
    pub z: u32,
}

/// A face normal: the exact, unnormalized cross product of two quad edges.
/// Its direction is the normal's; a renderer scales it to unit length.
#[derive(Clone, Copy, Debug, PartialEq, Eq, Structural)]
pub struct Normal {
    pub x: i128,
    pub y: i128,
    pub z: i128,
}

/// Spacing of the mesh's integer frame: neighbouring samples lie `horizontal`
/// units apart along `x` and `z`, and one sample unit rises `vertical` units.
///
/// With `horizontal == FULL_HEIGHT` and `vertical == k`, dividing every
/// coordinate by `FULL_HEIGHT` gives unit cell spacing and heights scaled by `k`.
#[derive(Clone, Copy, Debug, PartialEq, Eq, Structural)]
pub struct MeshScale {
    pub horizontal: u16,
    pub vertical: u16,
}

/// A flat-shaded triangle mesh: four unshared vertices per grid cell, one normal
/// per vertex, and two triangles per cell.
pub struct Mesh {
    pub positions: Vec<Position>,
    pub normals: Vec<Normal>,
    pub indices: Vec<u32>,
}

/// Number of cell rows: every sample row but the last starts a cell.
pub open spec fn cell_rows(grid: HeightmapView) -> nat {
    if grid.width >= 1 {
        (grid.width - 1) as nat
    } else {
        0
    }
}

/// Number of cell columns: every sample column but the last starts a cell.
pub open spec fn cell_columns(grid: HeightmapView) -> nat {
    if grid.depth >= 1 {
        (grid.depth - 1) as nat
    } else {
        0
    }
}

/// Number of cells, enumerated `x`-major like the samples.
pub open spec fn cell_count(grid: HeightmapView) -> nat {
    cell_rows(grid) * cell_columns(grid)
}

/// The vertex over sample `(x, z)`.
pub open spec fn corner(grid: HeightmapView, scale: MeshScale, x: int, z: int) -> Position {
    Position {
        x: (x * scale.horizontal) as u32,
        y: (grid.at(x, z) * scale.vertical) as u32,
        z: (z * scale.horizontal) as u32,
    }
}

/// Corner `k` of the cell at `(x, z)`: `(x, z)`, `(x, z + 1)`, `(x + 1, z + 1)`,
/// `(x + 1, z)` for `k` = 0, 1, 2, 3.
pub open spec fn quad_corner(grid: HeightmapView, scale: MeshScale, x: int, z: int, k: int) -> Position {
    if k == 0 {
        corner(grid, scale, x, z)
    } else if k == 1 {
        corner(grid, scale, x, z + 1)
    } else if k == 2 {
        corner(grid, scale, x + 1, z + 1)
    } else {
        corner(grid, scale, x + 1, z)
    }
}

/// Vertex `v` of the mesh: corner `v % 4` of cell `v / 4`.
pub open spec fn mesh_position(grid: HeightmapView, scale: MeshScale, v: int) -> Position {
    let c = v / 4;
    quad_corner(grid, scale, c / cell_columns(grid) as int, c % cell_columns(grid) as int, v % 4)
}

/// The positions emitted for `grid`.
pub open spec fn grid_positions(grid: HeightmapView, scale: MeshScale) -> Seq<Position> {
    Seq::new(4 * cell_count(grid), |v: int| mesh_position(grid, scale, v))
}

/// `(v1 - v0) x (v3 - v0)`.
pub open spec fn face_normal(v0: Position, v1: Position, v3: Position) -> Normal {
    let (ax, ay, az) = (v1.x - v0.x, v1.y - v0.y, v1.z - v0.z);
    let (bx, by, bz) = (v3.x - v0.x, v3.y - v0.y, v3.z - v0.z);
    Normal { x: (ay * bz - az * by) as i128, y: (az * bx - ax * bz) as i128, z: (ax * by - ay * bx) as i128 }
}

/// One normal per vertex: the face normal of the quad that holds it, from its
/// corners 0, 1 and 3.
pub open spec fn quad_normals(vertices: Seq<Position>) -> Seq<Normal> {
    Seq::new(
        vertices.len(),
        |v: int| face_normal(vertices[v - v % 4], vertices[v - v % 4 + 1], vertices[v - v % 4 + 3]),
    )
}

/// Offset of entry `j` of a quad's six indices from its first vertex: triangles
/// `(0, 1, 2)` and `(0, 2, 3)`.
pub open spec fn triangle_offset(j: int) -> int {
    if j == 0 || j == 3 {
        0
    } else if j == 1 {
        1
    } else if j == 2 || j == 4 {
        2
    } else {
        3
    }
}

/// Six indices for each whole quad among `vertex_count` vertices.
pub open spec fn quad_indices(vertex_count: nat) -> Seq<u32> {
    Seq::new(vertex_count / 4 * 6, |j: int| (4 * (j / 6) + triangle_offset(j % 6)) as u32)
}

proof fn lemma_mul_u16(a: int, b: int)
    requires
        0 <= a <= 65535,
        0 <= b <= 65535,
    ensures
        0 <= a * b <= 65535 * 65535,
{
    assert(0 <= a * b <= 65535 * 65535) by (nonlinear_arith)
        requires
            0 <= a <= 65535,
            0 <= b <= 65535,
    ;
}

/// The vertex over sample `(x, z)` (see `corner`).
pub fn calc_vertex_at(grid: &Heightmap, scale: MeshScale, x: u16, z: u16) -> (r: Position)
    requires
        x < grid@.width,
        z < grid@.depth,
    ensures
        r == corner(grid@, scale, x as int, z as int),
{
    let height = grid.get(x, z);
    proof {
        lemma_mul_u16(x as int, scale.horizontal as int);
        lemma_mul_u16(z as int, scale.horizontal as int);
        lemma_mul_u16(height as int, scale.vertical as int);
    }
    Position {
        x: x as u32 * scale.horizontal as u32,
        y: height as u32 * scale.vertical as u32,
        z: z as u32 * scale.horizontal as u32,
    }
}

/// Four unshared vertices per cell, cells in `x`-major order.
pub fn calc_vertices(grid: &Heightmap, scale: MeshScale) -> (r: Vec<Position>)
    requires
        4 * cell_count(grid@) <= u32::MAX,
    ensures
        r@ == grid_positions(grid@, scale),
{
    let width = grid.width();
    let depth = grid.depth();
    let rows: u16 = if width >= 1 { width - 1 } else { 0 };
    let cols: u16 = if depth >= 1 { depth - 1 } else { 0 };
    let ghost g = grid@;
    let mut vertices: Vec<Position> = Vec::new();
    let mut x: u16 = 0;
    while x < rows
        invariant
            0 <= x <= rows,
            g == grid@,
            g.wf(),
            rows == cell_rows(g),
            cols == cell_columns(g),
            4 * cell_count(g) <= u32::MAX,
            vertices@ =~= Seq::new(4 * (x * cols) as nat, |v: int| mesh_position(g, scale, v)),
        decreases rows - x,
    {
        let mut z: u16 = 0;
        while z < cols
            invariant
                0 <= x < rows,
                0 <= z <= cols,
                g == grid@,
                g.wf(),
                rows == cell_rows(g),
                cols == cell_columns(g),
                vertices@ =~= Seq::new(4 * (x * cols + z) as nat, |v: int| mesh_position(g, scale, v)),
            decreases cols - z,
        {
            let v0 = calc_vertex_at(grid, scale, x, z);
            let v1 = calc_vertex_at(grid, scale, x, z + 1);
            let v2 = calc_vertex_at(grid, scale, x + 1, z + 1);
            let v3 = calc_vertex_at(grid, scale, x + 1, z);
            let ghost before = vertices@;
            let ghost c = x * cols + z;
            proof {
                lemma_position_of_index(rows as nat, cols as nat, x as int, z as int);
                assert(c / (cols as int) == x && c % (cols as int) == z);
                assert forall|k: int| 0 <= k < 4 implies mesh_position(g, scale, 4 * c + k) == quad_corner(
                    g,
                    scale,
                    x as int,
                    z as int,
                    k,
                ) by {
                    assert((4 * c + k) / 4 == c);
                    assert((4 * c + k) % 4 == k);
                }
            }
            vertices.push(v0);
            vertices.push(v1);
            vertices.push(v2);
            vertices.push(v3);
            z += 1;
            proof {
                assert(x * cols + z == c + 1);
                assert forall|v: int| 0 <= v < 4 * (c + 1) implies vertices@[v] == mesh_position(g, scale, v) by {
                    if v >= 4 * c {
                        assert(vertices@[v] == quad_corner(g, scale, x as int, z - 1, v - 4 * c));
                        assert(mesh_position(g, scale, 4 * c + (v - 4 * c)) == quad_corner(g, scale, x as int, z - 1, v - 4 * c));
                    } else {
                        assert(vertices@[v] == before[v]);
                    }
                }
            }
        }
        x += 1;
        proof {
            assert((x - 1) * cols + cols == x * cols) by (nonlinear_arith);
        }
    }
    proof {
        assert(rows * cols == cell_count(g));
    }
    vertices
}

/// The cross product `(v1 - v0) x (v3 - v0)`, exactly.
pub fn calc_face_normal(v0: Position, v1: Position, v3: Position) -> (r: Normal)
    ensures
        r == face_normal(v0, v1, v3),
{
    let ax = v1.x as i128 - v0.x as i128;
    let ay = v1.y as i128 - v0.y as i128;
    let az = v1.z as i128 - v0.z as i128;
    let bx = v3.x as i128 - v0.x as i128;
    let by = v3.y as i128 - v0.y as i128;
    let bz = v3.z as i128 - v0.z as i128;
    proof {
        lemma_product_fits(ay as int, bz as int);
        lemma_product_fits(az as int, by as int);
        lemma_product_fits(az as int, bx as int);
        lemma_product_fits(ax as int, bz as int);
        lemma_product_fits(ax as int, by as int);
        lemma_product_fits(ay as int, bx as int);
    }
    Normal { x: ay * bz - az * by, y: az * bx - ax * bz, z: ax * by - ay * bx }
}

proof fn lemma_product_fits(a: int, b: int)
    requires
        -0x1_0000_0000 <= a <= 0x1_0000_0000,
        -0x1_0000_0000 <= b <= 0x1_0000_0000,
    ensures
        -0x1_0000_0000_0000_0000 <= a * b <= 0x1_0000_0000_0000_0000,
{
    assert(-0x1_0000_0000_0000_0000 <= a * b <= 0x1_0000_0000_0000_0000) by (nonlinear_arith)
        requires
            -0x1_0000_0000 <= a <= 0x1_0000_0000,
            -0x1_0000_0000 <= b <= 0x1_0000_0000,
    ;
}

/// The face normal of each quad of four consecutive vertices, repeated for its
/// four vertices.
pub fn calc_normals(vertices: &Vec<Position>) -> (r: Vec<Normal>)
    requires
        vertices@.len() % 4 == 0,
    ensures
        r@ == quad_normals(vertices@),
{
    let n = vertices.len();
    let mut normals: Vec<Normal> = Vec::with_capacity(n);
    let mut base: usize = 0;
    while base < n
        invariant
            n == vertices@.len(),
            n % 4 == 0,
            base % 4 == 0,
            0 <= base <= n,
            normals@ =~= quad_normals(vertices@).subrange(0, base as int),
        decreases n - base,
    {
        let normal = calc_face_normal(vertices[base], vertices[base + 1], vertices[base + 3]);
        normals.push(normal);
        normals.push(normal);
        normals.push(normal);
        normals.push(normal);
        proof {
            assert forall|v: int| base <= v < base + 4 implies #[trigger] quad_normals(vertices@)[v] == normal by {
                assert(v - v % 4 == base);
            }
        }
        base += 4;
    }
    normals
}

/// Two triangles, `(b, b + 1, b + 2)` and `(b, b + 2, b + 3)`, for the quad at
/// each multiple `b` of four below `vertex_count`; a trailing partial quad gets none.
pub fn calc_indices(vertex_count: usize) -> (r: Vec<u32>)
    requires
        vertex_count <= u32::MAX,
    ensures
        r@ == quad_indices(vertex_count as nat),
{
    let quads = vertex_count / 4;
    let mut indices: Vec<u32> = Vec::new();
    let mut q: usize = 0;
    while q < quads
        invariant
            quads == vertex_count / 4,
            vertex_count <= u32::MAX,
            0 <= q <= quads,
            indices@ =~= quad_indices(vertex_count as nat).subrange(0, 6 * q as int),
        decreases quads - q,
    {
        let b = (4 * q) as u32;
        indices.push(b);
        indices.push(b + 1);
        indices.push(b + 2);
        indices.push(b);
        indices.push(b + 2);
        indices.push(b + 3);
        proof {
            assert forall|j: int| 6 * q <= j < 6 * q + 6 implies #[trigger] quad_indices(vertex_count as nat)[j] == indices@[j] by {
                assert(j / 6 == q && j % 6 == j - 6 * q);
            }
        }
        q += 1;
    }
    indices
}

/// The flat-shaded mesh of `grid`.
pub fn mesh_heightmap(grid: &Heightmap, scale: MeshScale) -> (r: Mesh)
    requires
        4 * cell_count(grid@) <= u32::MAX,
    ensures
        r.positions@ == grid_positions(grid@, scale),
        r.normals@ == quad_normals(r.positions@),
        r.indices@ == quad_indices(r.positions@.len()),
{
    let positions = calc_vertices(grid, scale);
    let normals = calc_normals(&positions);
    let indices = calc_indices(positions.len());
    Mesh { positions, normals, indices }
}

/// Mesh topology: a `W` by `D` grid (both at least one) gives `(W-1)*(D-1)*4`
/// vertices, as many normals, `(W-1)*(D-1)*6` indices, and every index names
/// one of the vertices.
pub proof fn lemma_mesh_topology(grid: HeightmapView, scale: MeshScale)
    requires
        grid.wf(),
        grid.width >= 1,
        grid.depth >= 1,
        4 * cell_count(grid) <= u32::MAX,
    ensures
        grid_positions(grid, scale).len() == (grid.width - 1) * (grid.depth - 1) * 4,
        quad_normals(grid_positions(grid, scale)).len() == (grid.width - 1) * (grid.depth - 1) * 4,
        quad_indices(grid_positions(grid, scale).len()).len() == (grid.width - 1) * (grid.depth - 1) * 6,
        forall|j: int|
            0 <= j < quad_indices(grid_positions(grid, scale).len()).len() ==> #[trigger] quad_indices(
                grid_positions(grid, scale).len(),
            )[j] < grid_positions(grid, scale).len(),
{
    let n = grid_positions(grid, scale).len();
    let cells = cell_count(grid);
    assert(cells == (grid.width - 1) * (grid.depth - 1));
    assert(n == 4 * cells);
    assert((grid.width - 1) * (grid.depth - 1) * 4 == 4 * cells) by (nonlinear_arith)
        requires
            cells == (grid.width - 1) * (grid.depth - 1),
    ;
    assert((grid.width - 1) * (grid.depth - 1) * 6 == 6 * cells) by (nonlinear_arith)
        requires
            cells == (grid.width - 1) * (grid.depth - 1),
    ;
    assert(n / 4 == cells);
    assert forall|j: int| 0 <= j < quad_indices(n).len() implies #[trigger] quad_indices(n)[j] < n by {
        assert(j / 6 < cells);
        assert(4 * (j / 6) + triangle_offset(j % 6) < n);
    }
}

/// Flat shading: the four vertices of one emitted quad share one normal.
pub proof fn lemma_flat_shading(vertices: Seq<Position>, quad: int, k1: int, k2: int)
    requires
        vertices.len() % 4 == 0,
        0 <= quad < vertices.len() / 4,
        0 <= k1 < 4,
        0 <= k2 < 4,
    ensures
        quad_normals(vertices)[4 * quad + k1] == quad_normals(vertices)[4 * quad + k2],
{
    assert((4 * quad + k1) - (4 * quad + k1) % 4 == 4 * quad);
    assert((4 * quad + k2) - (4 * quad + k2) % 4 == 4 * quad);
}

/// Level ground: when every sample of `grid` is `h`, every vertex lies at height
/// `h * vertical` and every normal is `(0, horizontal * horizontal, 0)`, straight up.
pub proof fn lemma_level_grid_faces_up(grid: HeightmapView, scale: MeshScale, h: u16, v: int)
    requires
        grid.wf(),
        forall|i: int| 0 <= i < grid.samples.len() ==> grid.samples[i] == h,
        4 * cell_count(grid) <= u32::MAX,
        0 <= v < grid_positions(grid, scale).len(),
    ensures
        grid_positions(grid, scale)[v].y == h * scale.vertical,
        quad_normals(grid_positions(grid, scale))[v] == (Normal {
            x: 0,
            y: (scale.horizontal * scale.horizontal) as i128,
            z: 0,
        }),
{
    let positions = grid_positions(grid, scale);
    let rows = cell_rows(grid);
    let cols = cell_columns(grid);
    let c = v / 4;
    let base = v - v % 4;
    let hz = scale.horizontal as int;
    assert(c < rows * cols);
    assert(cols > 0) by (nonlinear_arith)
        requires
            0 <= c < rows * cols,
    ;
    let x = c / cols as int;
    let z = c % cols as int;
    assert(0 <= x < rows) by (nonlinear_arith)
        requires
            0 <= c < rows * cols,
            cols > 0,
            x == c / cols as int,
    ;
    assert(grid.width == rows + 1 && grid.depth == cols + 1);
    assert forall|px: int, pz: int| 0 <= px <= x + 1 && 0 <= pz <= z + 1 implies #[trigger] grid.at(px, pz) == h by {
        lemma_index_in_bounds(grid.width as int, grid.depth as int, px, pz);
    }
    assert forall|k: int| 0 <= k < 4 implies #[trigger] positions[base + k] == quad_corner(grid, scale, x, z, k) by {
        assert((base + k) / 4 == c && (base + k) % 4 == k);
    }
    assert(0 <= x * hz && (x + 1) * hz == x * hz + hz && (x + 1) * hz <= 65535 * 65535) by (nonlinear_arith)
        requires
            0 <= x < rows,
            rows <= 65535,
            0 <= hz <= 65535,
    ;
    assert(0 <= z * hz && (z + 1) * hz == z * hz + hz && (z + 1) * hz <= 65535 * 65535) by (nonlinear_arith)
        requires
            0 <= z < cols,
            cols <= 65535,
            0 <= hz <= 65535,
    ;
    assert(0 <= h * scale.vertical <= 65535 * 65535) by (nonlinear_arith)
        requires
            h <= 65535,
            scale.vertical <= 65535,
    ;
    let (p0, p1, p3) = (positions[base], positions[base + 1], positions[base + 3]);
    assert(p1.x == p0.x && p1.y == p0.y && p1.z - p0.z == hz);
    assert(p3.x - p0.x == hz && p3.y == p0.y && p3.z == p0.z);
    assert(positions[v] == positions[base + v % 4]);
    assert(quad_normals(positions)[v] == face_normal(p0, p1, p3));
    let (ax, ay, az) = (p1.x - p0.x, p1.y - p0.y, p1.z - p0.z);
    let (bx, by, bz) = (p3.x - p0.x, p3.y - p0.y, p3.z - p0.z);
    assert(ay * bz - az * by == 0 && az * bx - ax * bz == hz * hz && ax * by - ay * bx == 0) by (nonlinear_arith)
        requires
            ax == 0,
            ay == 0,
            az == hz,
            bx == hz,
            by == 0,
            bz == 0,
    ;
    assert(0 <= hz * hz <= 65535 * 65535) by (nonlinear_arith)
        requires
            0 <= hz <= 65535,
    ;
}

} // verus!
