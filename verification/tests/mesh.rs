use hex_fps::mesh::{cube_indices, hex_prism_indices, hex_prism_indices_mirrored, sphere_indices};

#[test]
fn cube_index_buffer() {
    let indices = cube_indices();
    let mut expected = Vec::new();
    for face in 0..6u32 {
        let base = 4 * face;
        expected.extend([base, base + 1, base + 2, base, base + 2, base + 3]);
    }
    assert_eq!(indices, expected);
    assert_eq!(&indices[..6], &[0, 1, 2, 0, 2, 3]);
    assert!(indices.iter().all(|&i| i < 24));
}

#[test]
fn sphere_index_buffer() {
    let (rings, sectors) = (2u32, 6u32);
    let indices = sphere_indices(rings, sectors);
    let stride = sectors + 1;
    let mut expected = Vec::new();
    for ring in 0..rings {
        for sector in 0..sectors {
            let top = ring * stride + sector;
            let bottom = top + stride;
            expected.extend([top, bottom + 1, bottom, top, top + 1, bottom + 1]);
        }
    }
    assert_eq!(indices, expected);
    assert_eq!(indices.len(), 72);
    assert_eq!(&indices[..6], &[0, 8, 7, 0, 1, 8]);
    assert!(indices.iter().all(|&i| i < (rings + 1) * (sectors + 1)));
}

#[test]
fn sphere_degenerate() {
    assert!(sphere_indices(0, 6).is_empty());
    assert!(sphere_indices(3, 0).is_empty());
    assert_eq!(sphere_indices(1, 1), vec![0, 3, 2, 0, 1, 3]);
}

#[test]
fn hex_prism_index_buffer() {
    let indices = hex_prism_indices();
    assert_eq!(indices.len(), 72);
    assert_eq!(&indices[..6], &[0, 2, 1, 0, 3, 2]);
    assert_eq!(&indices[15..18], &[0, 1, 6]);
    assert_eq!(&indices[18..21], &[7, 8, 9]);
    assert_eq!(&indices[33..36], &[7, 13, 8]);
    assert_eq!(&indices[36..42], &[14, 16, 15, 14, 17, 16]);
    assert_eq!(&indices[66..72], &[34, 36, 35, 34, 37, 36]);
    assert!(indices.iter().all(|&i| i < 38));
}

#[test]
fn mirrored_prism_swaps_each_triangle() {
    let a = hex_prism_indices();
    let b = hex_prism_indices_mirrored();
    assert_eq!(&b[..3], &[0, 1, 2]);
    assert_eq!(&b[36..42], &[14, 15, 16, 14, 16, 17]);
    for t in 0..24 {
        assert_eq!(b[3 * t], a[3 * t]);
        assert_eq!(b[3 * t + 1], a[3 * t + 2]);
        assert_eq!(b[3 * t + 2], a[3 * t + 1]);
    }
}
