use terrain_gen::error::{SettingsError, TerrainError};
use terrain_gen::generator::{combine_heightmap_layers, generate_terrain, remap_noise};
use terrain_gen::heightmap::{Heightmap, HeightmapSettings, FULL_HEIGHT, PARAM_ONE};
use terrain_gen::mesher::{
    calc_face_normal, calc_indices, calc_normals, calc_vertex_at, calc_vertices, mesh_heightmap,
    MeshScale, Normal, Position,
};
use terrain_gen::terrain::{generate_heightmap, mesh_fits_u32};
use terrain_gen::texture::{image_data, sample_gray_level};

fn settings(width: u16, depth: u16, octaves: u32) -> HeightmapSettings {
    HeightmapSettings { octaves, ..HeightmapSettings::new(width, depth) }
}

fn constant_grid(width: u16, depth: u16, value: u16) -> Heightmap {
    Heightmap::from_samples(width, depth, vec![value; width as usize * depth as usize]).unwrap()
}

fn unit_scale() -> MeshScale {
    MeshScale { horizontal: 1, vertical: 1 }
}

#[test]
fn default_settings_values() {
    let s = HeightmapSettings::default();
    assert_eq!(s.width, 256);
    assert_eq!(s.depth, 256);
    assert_eq!(s.seed, 42);
    assert_eq!(s.octaves, 5);
    assert_eq!(s.persistence, PARAM_ONE / 2);
    assert_eq!(s.frequency, PARAM_ONE);
    assert_eq!(s.lacunarity, 2 * PARAM_ONE);
    assert!(s.enabled);
    let t = HeightmapSettings::new(8, 3);
    assert_eq!((t.width, t.depth, t.seed, t.octaves), (8, 3, 42, 5));
}

#[test]
fn validate_reports_each_rule() {
    assert_eq!(HeightmapSettings::new(4, 4).validate(), Ok(()));
    assert_eq!(HeightmapSettings::new(0, 4).validate(), Err(SettingsError::ZeroWidth));
    assert_eq!(HeightmapSettings::new(4, 0).validate(), Err(SettingsError::ZeroDepth));
    let s = HeightmapSettings { frequency: 0, ..HeightmapSettings::new(4, 4) };
    assert_eq!(s.validate(), Err(SettingsError::ZeroFrequency));
    let s = HeightmapSettings { lacunarity: PARAM_ONE, ..HeightmapSettings::new(4, 4) };
    assert_eq!(s.validate(), Err(SettingsError::LacunarityNotAboveOne));
    let s = HeightmapSettings { persistence: PARAM_ONE + 1, ..HeightmapSettings::new(4, 4) };
    assert_eq!(s.validate(), Err(SettingsError::PersistenceAboveOne));
    let s = HeightmapSettings { persistence: 0, ..HeightmapSettings::new(4, 4) };
    assert_eq!(s.validate(), Ok(()));
}

#[test]
fn new_grid_is_zero_filled() {
    let h = Heightmap::new(3, 5);
    assert_eq!(h.width(), 3);
    assert_eq!(h.depth(), 5);
    assert_eq!(h.buffer_size(), 15);
    assert!(h.samples().iter().all(|&s| s == 0));
    let d = Heightmap::default();
    assert_eq!((d.width(), d.depth(), d.buffer_size()), (256, 256, 65536));
}

#[test]
fn index_is_row_major_in_x() {
    let h = Heightmap::new(3, 5);
    assert_eq!(h.index(0, 0), 0);
    assert_eq!(h.index(0, 4), 4);
    assert_eq!(h.index(1, 0), 5);
    assert_eq!(h.index(2, 3), 13);
}

#[test]
fn index_position_round_trip() {
    let h = Heightmap::new(4, 7);
    for x in 0..4u16 {
        for z in 0..7u16 {
            assert_eq!(h.position(h.index(x, z)), [x, z]);
        }
    }
    for i in 0..h.buffer_size() {
        let [x, z] = h.position(i);
        assert_eq!(h.index(x, z), i);
    }
}

#[test]
fn position_beyond_u16_indices() {
    let h = Heightmap::new(300, 300);
    assert_eq!(h.position(h.index(299, 150)), [299, 150]);
    assert_eq!(h.position(89_999), [299, 299]);
}

#[test]
fn set_get_and_clear() {
    let mut h = Heightmap::new(2, 3);
    h.set(1, 2, 77);
    h.set(0, 1, 5);
    assert_eq!(h.get(1, 2), 77);
    assert_eq!(h.get(0, 1), 5);
    assert_eq!(h.at(5), 77);
    h.set_at(0, 9);
    assert_eq!(h.get(0, 0), 9);
    assert_eq!(h.samples(), &vec![9, 5, 0, 0, 0, 77]);
    h.clear();
    assert_eq!(h.samples(), &vec![0; 6]);
    assert_eq!((h.width(), h.depth()), (2, 3));
}

#[test]
fn from_samples_checks_length() {
    assert!(Heightmap::from_samples(2, 2, vec![1, 2, 3]).is_none());
    let h = Heightmap::from_samples(2, 2, vec![1, 2, 3, 4]).unwrap();
    assert_eq!(h.get(1, 0), 3);
}

#[test]
fn remap_noise_maps_nominal_range() {
    assert_eq!(remap_noise(-65535), 0);
    assert_eq!(remap_noise(0), 32767);
    assert_eq!(remap_noise(65535), FULL_HEIGHT);
    assert_eq!(remap_noise(1), 32768);
    assert_eq!(remap_noise(-70000), 0);
    assert_eq!(remap_noise(i32::MAX), FULL_HEIGHT);
    assert_eq!(remap_noise(i32::MIN), 0);
}

#[test]
fn generate_fills_in_storage_order() {
    let s = settings(2, 3, 4);
    let noise = vec![-65535, -1, 0, 1, 65535, 30000];
    let h = generate_terrain(&s, &noise).unwrap();
    assert_eq!((h.width(), h.depth()), (2, 3));
    assert_eq!(h.samples(), &vec![0, 32767, 32767, 32768, 65535, 47767]);
    assert_eq!(h.get(1, 2), 47767);
}

#[test]
fn generate_is_deterministic() {
    let s = settings(4, 4, 3);
    let noise: Vec<i32> = (0..16).map(|i| i * 8000 - 60000).collect();
    let a = generate_terrain(&s, &noise).unwrap();
    let b = generate_terrain(&s, &noise).unwrap();
    assert_eq!(a.samples(), b.samples());
    assert_eq!((a.width(), a.depth()), (b.width(), b.depth()));
}

#[test]
fn generated_samples_stay_normalized() {
    let s = settings(3, 3, 2);
    let noise = vec![i32::MIN, -100_000, -65535, -1, 0, 1, 65535, 100_000, i32::MAX];
    let h = generate_terrain(&s, &noise).unwrap();
    for &v in h.samples() {
        assert!(v <= FULL_HEIGHT);
    }
    assert_eq!(h.samples(), &vec![0, 0, 0, 32767, 32767, 32768, 65535, 65535, 65535]);
}

#[test]
fn zero_octaves_give_all_zero_grid() {
    let s = settings(5, 4, 0);
    let h = generate_terrain(&s, &Vec::new()).unwrap();
    assert_eq!(h.buffer_size(), 20);
    assert!(h.samples().iter().all(|&v| v == 0));
    let h = generate_terrain(&s, &vec![65535; 20]).unwrap();
    assert!(h.samples().iter().all(|&v| v == 0));
}

#[test]
fn generate_rejects_bad_settings_first() {
    let s = HeightmapSettings { lacunarity: 500_000, ..settings(2, 2, 3) };
    assert_eq!(
        generate_terrain(&s, &vec![0; 4]).err(),
        Some(TerrainError::InvalidSettings(SettingsError::LacunarityNotAboveOne))
    );
    let s = settings(0, 2, 3);
    assert_eq!(
        generate_terrain(&s, &Vec::new()).err(),
        Some(TerrainError::InvalidSettings(SettingsError::ZeroWidth))
    );
}

#[test]
fn generate_rejects_wrong_noise_length() {
    let s = settings(2, 2, 1);
    assert_eq!(generate_terrain(&s, &vec![0; 3]).err(), Some(TerrainError::DimensionMismatch));
}

#[test]
fn combine_uses_decaying_weights() {
    let (a, b, c) = (100u16, 2000u16, 60000u16);
    let layers = vec![constant_grid(3, 2, a), constant_grid(3, 2, b), constant_grid(3, 2, c)];
    let combined = combine_heightmap_layers(&layers).unwrap().unwrap();
    let expected = (((0 + a as u32) / 2 + b as u32) / 2 + c as u32) / 2;
    assert_eq!(expected, 30512);
    assert_eq!((combined.width(), combined.depth()), (3, 2));
    assert!(combined.samples().iter().all(|&v| v as u32 == expected));
}

#[test]
fn combine_is_order_sensitive() {
    let ab = vec![constant_grid(1, 2, 0), constant_grid(1, 2, 40000)];
    let ba = vec![constant_grid(1, 2, 40000), constant_grid(1, 2, 0)];
    assert_eq!(combine_heightmap_layers(&ab).unwrap().unwrap().samples(), &vec![20000, 20000]);
    assert_eq!(combine_heightmap_layers(&ba).unwrap().unwrap().samples(), &vec![10000, 10000]);
}

#[test]
fn combine_single_layer_halves() {
    let layer = Heightmap::from_samples(1, 3, vec![65535, 1, 200]).unwrap();
    let combined = combine_heightmap_layers(&vec![layer]).unwrap().unwrap();
    assert_eq!(combined.samples(), &vec![32767, 0, 100]);
}

#[test]
fn combine_empty_gives_nothing() {
    assert!(combine_heightmap_layers(&Vec::new()).unwrap().is_none());
}

#[test]
fn combine_rejects_mismatched_sizes() {
    let layers = vec![constant_grid(2, 3, 1), constant_grid(3, 2, 1)];
    assert_eq!(combine_heightmap_layers(&layers).err(), Some(TerrainError::DimensionMismatch));
}

#[test]
fn vertex_at_scales_coordinates() {
    let h = Heightmap::from_samples(2, 2, vec![0, 10, 20, 30]).unwrap();
    let scale = MeshScale { horizontal: 5, vertical: 3 };
    assert_eq!(calc_vertex_at(&h, scale, 1, 0), Position { x: 5, y: 60, z: 0 });
    assert_eq!(calc_vertex_at(&h, scale, 1, 1), Position { x: 5, y: 90, z: 5 });
}

#[test]
fn vertices_follow_quad_corner_order() {
    let h = Heightmap::from_samples(2, 3, vec![1, 2, 3, 4, 5, 6]).unwrap();
    let v = calc_vertices(&h, unit_scale());
    let p = |x, y, z| Position { x, y, z };
    assert_eq!(
        v,
        vec![
            p(0, 1, 0),
            p(0, 2, 1),
            p(1, 5, 1),
            p(1, 4, 0),
            p(0, 2, 1),
            p(0, 3, 2),
            p(1, 6, 2),
            p(1, 5, 1),
        ]
    );
}

#[test]
fn face_normal_is_exact_cross_product() {
    let v0 = Position { x: 0, y: 10, z: 0 };
    let v1 = Position { x: 0, y: 14, z: 2 };
    let v3 = Position { x: 2, y: 7, z: 0 };
    // (0, 4, 2) x (2, -3, 0) = (4*0 - 2*(-3), 2*2 - 0*0, 0*(-3) - 4*2)
    assert_eq!(calc_face_normal(v0, v1, v3), Normal { x: 6, y: 4, z: -8 });
}

#[test]
fn normals_repeat_per_quad() {
    let h = Heightmap::from_samples(3, 3, vec![0, 5, 9, 1, 7, 2, 8, 3, 4]).unwrap();
    let vertices = calc_vertices(&h, unit_scale());
    let normals = calc_normals(&vertices);
    assert_eq!(normals.len(), vertices.len());
    for quad in normals.chunks(4) {
        assert!(quad.iter().all(|n| *n == quad[0]));
    }
    // Cell (0, 0): heights h0 = 0, h1 = 5, h3 = 1 give (h0 - h3, 1, h0 - h1).
    assert_eq!(normals[0], Normal { x: -1, y: 1, z: -5 });
}

#[test]
fn indices_two_triangles_per_quad() {
    assert_eq!(calc_indices(8), vec![0, 1, 2, 0, 2, 3, 4, 5, 6, 4, 6, 7]);
    assert_eq!(calc_indices(6), vec![0, 1, 2, 0, 2, 3]);
    assert!(calc_indices(0).is_empty());
    assert!(calc_indices(3).is_empty());
}

#[test]
fn mesh_topology_counts() {
    let h = constant_grid(4, 6, 100);
    let mesh = mesh_heightmap(&h, unit_scale());
    assert_eq!(mesh.positions.len(), 3 * 5 * 4);
    assert_eq!(mesh.normals.len(), 3 * 5 * 4);
    assert_eq!(mesh.indices.len(), 3 * 5 * 6);
    assert!(mesh.indices.iter().all(|&i| (i as usize) < mesh.positions.len()));
}

#[test]
fn mesh_of_thin_grid_is_empty() {
    for (w, d) in [(1u16, 5u16), (5, 1), (1, 1), (0, 0)] {
        let mesh = mesh_heightmap(&Heightmap::new(w, d), unit_scale());
        assert!(mesh.positions.is_empty());
        assert!(mesh.normals.is_empty());
        assert!(mesh.indices.is_empty());
    }
}

#[test]
fn flat_three_by_three_mesh() {
    let h = Heightmap::new(3, 3);
    let scale = MeshScale { horizontal: 7, vertical: 9 };
    let mesh = mesh_heightmap(&h, scale);
    assert_eq!(mesh.positions.len() / 4, 4);
    assert_eq!(mesh.positions.len(), 16);
    assert!(mesh.positions.iter().all(|p| p.y == 0));
    // (v1 - v0) x (v3 - v0) = (0, 0, 7) x (7, 0, 0) points straight up.
    assert!(mesh.normals.iter().all(|n| *n == Normal { x: 0, y: 49, z: 0 }));
    let n = mesh.normals[0];
    let len = ((n.x * n.x + n.y * n.y + n.z * n.z) as f64).sqrt();
    assert_eq!([n.x as f64 / len, n.y as f64 / len, n.z as f64 / len], [0.0, 1.0, 0.0]);
}

#[test]
fn image_data_is_grayscale_rgba() {
    let h = Heightmap::from_samples(1, 4, vec![0, 257 * 10, 65535, 256]).unwrap();
    assert_eq!(
        image_data(&h),
        vec![0, 0, 0, 255, 10, 10, 10, 255, 255, 255, 255, 255, 0, 0, 0, 255]
    );
    assert_eq!(sample_gray_level(32767), 127);
}

#[test]
fn pipeline_skips_disabled_layers() {
    let first = settings(2, 2, 1);
    let off = HeightmapSettings { enabled: false, ..settings(5, 5, 1) };
    let second = settings(2, 2, 1);
    let noise = vec![vec![65535; 4], Vec::new(), vec![-65535, -65535, 65535, 65535]];
    let terrain = generate_heightmap(&vec![first, off, second], &noise, unit_scale())
        .unwrap()
        .unwrap();
    assert_eq!(terrain.layers.len(), 2);
    assert_eq!(terrain.layers[0].samples(), &vec![65535; 4]);
    assert_eq!(terrain.layers[1].samples(), &vec![0, 0, 65535, 65535]);
    // (65535 / 2 + 0) / 2 and (65535 / 2 + 65535) / 2.
    assert_eq!(terrain.combined.samples(), &vec![16383, 16383, 49151, 49151]);
    assert_eq!(terrain.mesh.positions.len(), 4);
    assert_eq!(terrain.mesh.indices, vec![0, 1, 2, 0, 2, 3]);
}

#[test]
fn pipeline_without_enabled_layers_gives_nothing() {
    let off = HeightmapSettings { enabled: false, ..settings(2, 2, 1) };
    assert!(generate_heightmap(&vec![off], &vec![Vec::new()], unit_scale()).unwrap().is_none());
    assert!(generate_heightmap(&Vec::new(), &Vec::new(), unit_scale()).unwrap().is_none());
}

#[test]
fn pipeline_reports_first_error() {
    let bad = settings(0, 2, 1);
    let good = settings(2, 2, 1);
    let r = generate_heightmap(&vec![good, bad], &vec![vec![0; 4], Vec::new()], unit_scale());
    assert_eq!(r.err(), Some(TerrainError::InvalidSettings(SettingsError::ZeroWidth)));
    let r = generate_heightmap(&vec![good], &Vec::new(), unit_scale());
    assert_eq!(r.err(), Some(TerrainError::DimensionMismatch));
    let other = settings(3, 2, 1);
    let r = generate_heightmap(&vec![good, other], &vec![vec![0; 4], vec![0; 6]], unit_scale());
    assert_eq!(r.err(), Some(TerrainError::DimensionMismatch));
}

#[test]
fn mesh_fit_limit_for_u32_indices() {
    assert!(mesh_fits_u32(0, 0));
    assert!(mesh_fits_u32(256, 256));
    assert!(mesh_fits_u32(32768, 32769));
    assert!(!mesh_fits_u32(32769, 32769));
    assert!(!mesh_fits_u32(65535, 65535));
    assert!(mesh_fits_u32(65535, 1));
}

#[test]
fn level_grid_faces_up() {
    let h = constant_grid(4, 3, 1000);
    let mesh = mesh_heightmap(&h, MeshScale { horizontal: 3, vertical: 2 });
    assert_eq!(mesh.positions.len(), 3 * 2 * 4);
    assert!(mesh.positions.iter().all(|p| p.y == 2000));
    assert!(mesh.normals.iter().all(|n| *n == Normal { x: 0, y: 9, z: 0 }));
}
