use artrix::engine::{apply, apply_times, assemble, input_patch, BLOCK_LEN, PATCH_LEN};
use artrix::raster::Raster;
use artrix::sampler::{neighborhood, quad, sample, Offset};

fn ramp(width: usize, height: usize) -> Raster<i64> {
    let mut samples = Vec::new();
    for y in 0..height {
        for x in 0..width {
            for ch in 0..3 {
                samples.push((y * 100 + x * 10 + ch) as i64);
            }
        }
    }
    Raster::new(width, height, samples).unwrap()
}

#[test]
fn raster_rejects_wrong_sample_count() {
    assert!(Raster::new(2, 2, vec![0u8; 11]).is_none());
    assert!(Raster::new(2, 2, vec![0u8; 13]).is_none());
    assert!(Raster::new(usize::MAX, 2, vec![0u8; 3]).is_none());
    let r = Raster::new(2, 1, vec![1u8, 2, 3, 4, 5, 6]).unwrap();
    assert_eq!(r.channel(1, 0, 2), 6);
    assert_eq!(r.width(), 2);
    assert_eq!(r.height(), 1);
}

#[test]
fn sample_length_is_pattern_length_times_channels() {
    let img = ramp(3, 2);
    for y in 0..4 {
        for x in 0..5 {
            assert_eq!(sample(&img, x, y, &neighborhood(), -1).len(), 9 * 3);
            assert_eq!(sample(&img, x, y, &quad(), -1).len(), 4 * 3);
        }
    }
    assert_eq!(sample(&img, 0, 0, &Vec::new(), -1).len(), 0);
}

#[test]
fn interior_anchor_never_uses_fill() {
    let img = ramp(5, 5);
    let patch = input_patch(&img, 2, 2, -1);
    assert_eq!(patch.len(), PATCH_LEN);
    assert!(patch.iter().all(|&v| v >= 0));
    // centre first, then (0,-1), (-1,-1), (-1,0), (-1,1), (0,1), (1,1), (1,0), (1,-1)
    let expect: Vec<i64> = [(2, 2), (2, 1), (1, 1), (1, 2), (1, 3), (2, 3), (3, 3), (3, 2), (3, 1)]
        .iter()
        .flat_map(|&(x, y)| (0..3).map(move |ch| (y * 100 + x * 10 + ch) as i64))
        .collect();
    assert_eq!(patch, expect);
}

#[test]
fn corner_anchor_reads_fill_outside_the_image() {
    let img = Raster::filled(3, 3, 1.0f32);
    let corner = input_patch(&img, 0, 0, 0.0f32);
    let centre = input_patch(&img, 1, 1, 0.0f32);
    let corner_sum: f32 = corner.iter().sum();
    let centre_sum: f32 = centre.iter().sum();
    // four of nine neighbours exist at a corner: the border is darker
    assert_eq!(corner_sum, 12.0);
    assert_eq!(centre_sum, 27.0);
    assert!(corner_sum < centre_sum);
}

#[test]
fn sample_with_custom_pattern() {
    let img = ramp(2, 2);
    let pattern = vec![Offset { dx: 1, dy: 1 }, Offset { dx: -5, dy: 0 }];
    assert_eq!(sample(&img, 0, 0, &pattern, 7), vec![110, 111, 112, 7, 7, 7]);
}

#[test]
fn anchor_to_destination_and_back() {
    // a model that writes the anchor's own centre sample into every entry
    let img = ramp(3, 2);
    let model = |p: Vec<i64>| vec![p[0]; BLOCK_LEN];
    let out = apply(&img, &model, -1).unwrap();
    assert_eq!(out.width(), 6);
    assert_eq!(out.height(), 4);
    for oy in 0..4 {
        for ox in 0..6 {
            let tag = out.channel(ox, oy, 0);
            assert_eq!(tag, ((oy / 2) * 100 + (ox / 2) * 10) as i64);
        }
    }
}

#[test]
fn block_entries_land_in_quad_order() {
    let img = ramp(1, 1);
    let model = |_p: Vec<i64>| (0..12).collect::<Vec<i64>>();
    let out = apply(&img, &model, 0).unwrap();
    // entry q goes to (q / 2, q % 2)
    assert_eq!(out.channel(0, 0, 0), 0);
    assert_eq!(out.channel(0, 1, 0), 3);
    assert_eq!(out.channel(1, 0, 0), 6);
    assert_eq!(out.channel(1, 1, 2), 11);
}

#[test]
fn single_pixel_image_patch_is_fill_but_the_centre() {
    let img = Raster::new(1, 1, vec![0.25f32, 0.5, 0.75]).unwrap();
    let patch = input_patch(&img, 0, 0, 0.0f32);
    assert_eq!(&patch[0..3], &[0.25, 0.5, 0.75]);
    assert!(patch[3..].iter().all(|&v| v == 0.0));
    // a model that outputs its first neighbour, which is fill
    let model = |p: Vec<f32>| {
        let mut b = Vec::new();
        for _ in 0..4 {
            b.extend_from_slice(&p[3..6]);
        }
        b
    };
    let out = apply(&img, &model, 0.0f32).unwrap();
    assert_eq!(out.width(), 2);
    assert_eq!(out.height(), 2);
    assert!(out.samples().iter().all(|&v| v == 0.0));
}

#[test]
fn checkerboard_identity_model_replicates_pixels() {
    let mut samples = Vec::new();
    for y in 0..4 {
        for x in 0..4 {
            let v = if (x + y) % 2 == 0 { 1.0f32 } else { 0.0f32 };
            samples.extend_from_slice(&[v, v * 0.5, 1.0 - v]);
        }
    }
    let img = Raster::new(4, 4, samples).unwrap();
    let model = |p: Vec<f32>| {
        let mut b = Vec::new();
        for _ in 0..4 {
            b.extend_from_slice(&p[0..3]);
        }
        b
    };
    let out = apply(&img, &model, 0.5f32).unwrap();
    assert_eq!((out.width(), out.height()), (8, 8));
    for oy in 0..8 {
        for ox in 0..8 {
            for ch in 0..3 {
                assert_eq!(out.channel(ox, oy, ch), img.channel(ox / 2, oy / 2, ch));
            }
        }
    }
}

#[test]
fn wrong_block_length_is_a_shape_error() {
    let img = ramp(2, 2);
    let model = |p: Vec<i64>| p;
    let e = apply(&img, &model, 0).unwrap_err();
    assert_eq!(e.expected, 12);
    assert_eq!(e.found, 27);
}

#[test]
fn assemble_checks_every_block() {
    let blocks = vec![vec![1u8; 12], vec![2u8; 11]];
    let e = assemble(2, 1, &blocks).unwrap_err();
    assert_eq!(e.found, 11);
    let ok = assemble(2, 1, &vec![vec![1u8; 12], vec![2u8; 12]]).unwrap();
    assert_eq!((ok.width(), ok.height()), (4, 2));
    assert_eq!(ok.channel(1, 1, 0), 1);
    assert_eq!(ok.channel(2, 0, 0), 2);
}

#[test]
fn repeated_passes_multiply_the_size() {
    let img = ramp(2, 3);
    let model = |p: Vec<i64>| vec![p[0]; BLOCK_LEN];
    let once = apply_times(img, &model, 1, 0).unwrap();
    assert_eq!((once.width(), once.height()), (4, 6));
    let img = ramp(2, 3);
    let thrice = apply_times(img, &model, 3, 0).unwrap();
    assert_eq!((thrice.width(), thrice.height()), (16, 24));
    // every entry carries channel 0 of source pixel (15 / 8, 23 / 8)
    assert_eq!(thrice.channel(15, 23, 1), 210);
    let img = ramp(2, 3);
    let none = apply_times(img, &model, 0, 0).unwrap();
    assert_eq!((none.width(), none.height()), (2, 3));
}

#[test]
fn repeated_passes_report_a_bad_block() {
    let img = ramp(2, 2);
    let model = |p: Vec<i64>| p[0..5].to_vec();
    let e = apply_times(img, &model, 2, 0).unwrap_err();
    assert_eq!((e.expected, e.found), (12, 5));
    let img = ramp(2, 2);
    let zero = apply_times(img, &model, 0, 0).unwrap();
    assert_eq!(zero.samples(), ramp(2, 2).samples());
}
