use artrix::formats::corpus_format;
use artrix::naming::{checkpoint_name, decimal_string, upscaled_file_name};
use artrix::raster::Raster;
use artrix::training::{
    downsampled_size, progress_percent, target_block, training_anchors, training_pair, Driver, FileAction,
};

fn run(decoded: &[bool], skip: usize) -> (Vec<usize>, Vec<String>, Vec<FileAction>) {
    let mut driver = Driver::new(skip);
    let mut trained = Vec::new();
    let mut checkpoints = Vec::new();
    let mut actions = Vec::new();
    for (i, &ok) in decoded.iter().enumerate() {
        let a = driver.on_decoded(ok);
        actions.push(a);
        if a == FileAction::Train {
            trained.push(i);
            checkpoints.push(driver.complete_file("models/bern/"));
        }
    }
    assert_eq!(driver.completed(), checkpoints.len());
    (trained, checkpoints, actions)
}

#[test]
fn resume_trains_the_same_suffix() {
    let decoded = [true, false, true, true, false, true, true];
    let (all, _, _) = run(&decoded, 0);
    assert_eq!(all, vec![0, 2, 3, 5, 6]);
    for k in 0..=5 {
        let (resumed, _, _) = run(&decoded, k);
        assert_eq!(resumed, all[k..].to_vec());
    }
    let (beyond, _, _) = run(&decoded, 9);
    assert!(beyond.is_empty());
}

#[test]
fn unreadable_file_is_skipped_without_a_checkpoint() {
    let decoded = [true, true, false, true, true];
    let (trained, checkpoints, actions) = run(&decoded, 0);
    assert_eq!(trained, vec![0, 1, 3, 4]);
    assert_eq!(checkpoints.len(), 4);
    assert_eq!(actions[2], FileAction::Unreadable);
    assert_eq!(checkpoints[3], "models/bern/[0-3].npz");
}

#[test]
fn skipped_files_do_not_count() {
    let mut d = Driver::new(2);
    assert_eq!(d.on_decoded(false), FileAction::Unreadable);
    assert_eq!(d.skip_remaining(), 2);
    assert_eq!(d.on_decoded(true), FileAction::Skip);
    assert_eq!(d.on_decoded(true), FileAction::Skip);
    assert_eq!(d.on_decoded(true), FileAction::Train);
    assert_eq!(d.completed(), 0);
    assert_eq!(d.complete_file("m/"), "m/[0-0].npz");
    assert_eq!(d.completed(), 1);
}

#[test]
fn names() {
    assert_eq!(decimal_string(0), "0");
    assert_eq!(decimal_string(1234), "1234");
    assert_eq!(checkpoint_name("models/bern/", 35), "models/bern/[0-35].npz");
    assert_eq!(upscaled_file_name("cat", "png", 1), "cat_ups.png");
    assert_eq!(upscaled_file_name("cat", "png", 4), "cat_ups4.png");
    assert_eq!(upscaled_file_name("a.b", "jpg", 0), "a.b_ups0.jpg");
}

#[test]
fn corpus_candidates_by_extension() {
    assert_eq!(corpus_format(true, "png"), Some(image::ImageFormat::Png));
    assert_eq!(corpus_format(true, "JPEG"), Some(image::ImageFormat::Jpeg));
    assert_eq!(corpus_format(true, "txt"), None);
    assert_eq!(corpus_format(true, ""), None);
    assert_eq!(corpus_format(false, "png"), None);
}

#[test]
fn downsampling_halves_and_rounds_down() {
    assert_eq!(downsampled_size(5, 4), (2, 2));
    assert_eq!(downsampled_size(1, 1), (0, 0));
}

#[test]
fn progress_in_whole_percent() {
    assert_eq!(progress_percent(0, 7), 0);
    assert_eq!(progress_percent(1, 3), 33);
    assert_eq!(progress_percent(99, 100), 99);
}

#[test]
fn training_pair_reads_both_scales() {
    let mut orig = Vec::new();
    for y in 0..3i64 {
        for x in 0..3i64 {
            orig.extend_from_slice(&[y * 10 + x, 0, 0]);
        }
    }
    let orig = Raster::new(3, 3, orig).unwrap();
    let down = Raster::new(1, 1, vec![5i64, 6, 7]).unwrap();
    let (input, target) = training_pair(&orig, &down, 0, 0, -1);
    assert_eq!(input.len(), 27);
    assert_eq!(&input[0..3], &[5, 6, 7]);
    assert!(input[3..].iter().all(|&v| v == -1));
    assert_eq!(target, vec![0, 0, 0, 10, 0, 0, 1, 0, 0, 11, 0, 0]);
    // odd size: the block at (1, 1) of the full-resolution image reaches past its edge
    let edge = target_block(&orig, 1, 1, -1);
    assert_eq!(edge, vec![22, 0, 0, -1, -1, -1, -1, -1, -1, -1, -1, -1]);
}

#[test]
fn anchors_run_row_by_row() {
    assert_eq!(training_anchors(3, 2), vec![(0, 0), (1, 0), (2, 0), (0, 1), (1, 1), (2, 1)]);
    assert!(training_anchors(0, 4).is_empty());
    assert!(training_anchors(4, 0).is_empty());
}
