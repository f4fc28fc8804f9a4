use webgl_sphere::grid::vertex_grid;
use webgl_sphere::indices::{is_indexable, sphere_indices};

#[test]
fn one_cell_gives_two_triangles() {
    assert_eq!(sphere_indices(1, 1), vec![0, 2, 1, 2, 3, 1]);
}

#[test]
fn cells_follow_each_other_along_a_band() {
    assert_eq!(
        sphere_indices(1, 2),
        vec![0, 3, 1, 3, 4, 1, 1, 4, 2, 4, 5, 2]
    );
}

#[test]
fn bands_follow_each_other() {
    assert_eq!(
        sphere_indices(2, 1),
        vec![0, 2, 1, 2, 3, 1, 2, 4, 3, 4, 5, 3]
    );
}

#[test]
fn two_bands_each_way() {
    assert_eq!(
        sphere_indices(2, 2),
        vec![
            0, 3, 1, 3, 4, 1, 1, 4, 2, 4, 5, 2, 3, 6, 4, 6, 7, 4, 4, 7, 5, 7, 8, 5
        ]
    );
}

#[test]
fn no_bands_no_triangles() {
    assert_eq!(sphere_indices(0, 0), Vec::<u16>::new());
    assert_eq!(sphere_indices(0, 5), Vec::<u16>::new());
    assert_eq!(sphere_indices(5, 0), Vec::<u16>::new());
    assert_eq!(sphere_indices(0, u32::MAX), Vec::<u16>::new());
    assert_eq!(sphere_indices(70000, 0), Vec::<u16>::new());
}

#[test]
fn thirty_bands_each_way() {
    let indices = sphere_indices(30, 30);
    assert_eq!(indices.len(), 5400);
    assert_eq!(indices[..6], [0, 31, 1, 31, 32, 1]);
    assert_eq!(indices[6..12], [1, 32, 2, 32, 33, 2]);
    assert_eq!(indices[180..186], [31, 62, 32, 62, 63, 32]);
    assert_eq!(indices[5394..], [928, 959, 929, 959, 960, 929]);
    assert_eq!(indices.iter().copied().max(), Some(960));
}

#[test]
fn largest_square_sphere_uses_the_whole_index_range() {
    assert!(is_indexable(255, 255));
    let indices = sphere_indices(255, 255);
    assert_eq!(indices.len(), 6 * 255 * 255);
    assert_eq!(indices[..6], [0, 256, 1, 256, 257, 1]);
    assert_eq!(
        indices[indices.len() - 6..],
        [65278, 65534, 65279, 65534, 65535, 65279]
    );
    assert_eq!(indices.iter().copied().max(), Some(u16::MAX));
}

#[test]
fn longest_single_band_uses_the_whole_index_range() {
    assert!(is_indexable(1, 32767));
    let indices = sphere_indices(1, 32767);
    assert_eq!(indices.len(), 6 * 32767);
    assert_eq!(indices[..6], [0, 32768, 1, 32768, 32769, 1]);
    assert_eq!(
        indices[indices.len() - 6..],
        [32766, 65534, 32767, 65534, 65535, 32767]
    );
}

#[test]
fn indexable_up_to_65536_vertices() {
    assert!(is_indexable(1, 1));
    assert!(is_indexable(30, 30));
    assert!(is_indexable(255, 255));
    assert!(is_indexable(1, 32767));
    assert!(is_indexable(32767, 1));
    assert!(is_indexable(3, 16383));
    assert!(!is_indexable(255, 256));
    assert!(!is_indexable(256, 255));
    assert!(!is_indexable(1, 32768));
    assert!(!is_indexable(32768, 1));
    assert!(!is_indexable(1, 65535));
    assert!(!is_indexable(65536, 65536));
    assert!(!is_indexable(1, u32::MAX));
    assert!(!is_indexable(u32::MAX, 1));
    assert!(!is_indexable(u32::MAX, u32::MAX));
}

#[test]
fn indexable_without_triangles() {
    assert!(is_indexable(0, 0));
    assert!(is_indexable(0, 1));
    assert!(is_indexable(1, 0));
    assert!(is_indexable(0, 65536));
    assert!(is_indexable(65536, 0));
    assert!(is_indexable(0, u32::MAX));
    assert!(is_indexable(u32::MAX, 0));
}

#[test]
fn every_index_names_a_vertex() {
    let vertices = vertex_grid(7, 5).len();
    assert!(sphere_indices(7, 5)
        .iter()
        .all(|&index| (index as usize) < vertices));
}

#[test]
fn every_vertex_is_named() {
    let vertices = vertex_grid(7, 5).len();
    let indices = sphere_indices(7, 5);
    for vertex in 0..vertices {
        assert!(indices.iter().any(|&index| index as usize == vertex));
    }
}

#[test]
fn no_triangle_is_degenerate() {
    let indices = sphere_indices(7, 5);
    assert_eq!(indices.len(), 6 * 7 * 5);
    for triangle in indices.chunks(3) {
        assert_ne!(triangle[0], triangle[1]);
        assert_ne!(triangle[0], triangle[2]);
        assert_ne!(triangle[1], triangle[2]);
    }
}

#[test]
fn every_cell_is_split_along_the_same_diagonal() {
    let lat_bands: u32 = 4;
    let long_bands: u32 = 6;
    let grid = vertex_grid(lat_bands, long_bands);
    let indices = sphere_indices(lat_bands, long_bands);
    for (cell, six) in indices.chunks(6).enumerate() {
        let lat = cell as u32 / long_bands;
        let long = cell as u32 % long_bands;
        let corners: Vec<(u32, u32)> = six.iter().map(|&index| grid[index as usize]).collect();
        assert_eq!(
            corners,
            vec![
                (lat, long),
                (lat + 1, long),
                (lat, long + 1),
                (lat + 1, long),
                (lat + 1, long + 1),
                (lat, long + 1),
            ]
        );
    }
}

#[test]
fn every_triangle_winds_the_same_way() {
    let grid = vertex_grid(5, 3);
    let indices = sphere_indices(5, 3);
    assert_eq!(indices.len(), 6 * 5 * 3);
    for triangle in indices.chunks(3) {
        let a = grid[triangle[0] as usize];
        let b = grid[triangle[1] as usize];
        let c = grid[triangle[2] as usize];
        let doubled_area = (b.0 as i64 - a.0 as i64) * (c.1 as i64 - a.1 as i64)
            - (b.1 as i64 - a.1 as i64) * (c.0 as i64 - a.0 as i64);
        assert_eq!(doubled_area, 1);
    }
}
