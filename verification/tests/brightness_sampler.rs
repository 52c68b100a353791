use noctis::error::{CaptureStage, DisplayError};
use noctis::sensor::{
    advance, begin_capture, get_screen_brightness, luminance, luminance_values, percentile_level,
    sample_in_range, sample_origin, Capture, CaptureCall, CapturePhase, CaptureStep, Resource,
    SAMPLE_SIZE,
};

fn grey_pixels(levels: &[u8]) -> Vec<u8> {
    let mut pixels = Vec::with_capacity(levels.len() * 4);
    for &level in levels {
        pixels.extend_from_slice(&[level, level, level, 255]);
    }
    pixels
}

fn scrambled(count: usize, seed: u64) -> Vec<u8> {
    let mut state = seed;
    (0..count)
        .map(|_| {
            state = state.wrapping_mul(6364136223846793005).wrapping_add(1442695040888963407);
            (state >> 56) as u8
        })
        .collect()
}

#[test]
fn a_few_dark_pixels_do_not_make_a_dark_sample() {
    let mut levels = vec![200u8; 10_000];
    for slot in levels.iter_mut().take(20) {
        *slot = 10;
    }
    assert_eq!(percentile_level(&levels), 200);
    // 200 / 255 = 0.784313...
    assert_eq!(get_screen_brightness(&grey_pixels(&levels)), 784_313);
    // The same dark pixels at the other end of the capture.
    levels.reverse();
    assert_eq!(percentile_level(&levels), 200);
}

#[test]
fn a_tenth_of_dark_pixels_and_one_more_make_a_dark_sample() {
    let mut levels = vec![200u8; 10_000];
    for slot in levels.iter_mut().take(1000) {
        *slot = 10;
    }
    assert_eq!(percentile_level(&levels), 200);
    levels[5000] = 10;
    assert_eq!(percentile_level(&levels), 10);
    assert_eq!(get_screen_brightness(&grey_pixels(&levels)), 39_215);
}

#[test]
fn percentile_is_what_stands_at_a_tenth_of_the_sorted_values() {
    assert_eq!(percentile_level(&vec![7]), 7);
    assert_eq!(percentile_level(&vec![9, 8, 7, 6, 5, 4, 3, 2, 1]), 1);
    assert_eq!(percentile_level(&vec![9, 8, 7, 6, 5, 4, 3, 2, 1, 0]), 1);
    assert_eq!(percentile_level(&vec![255; 19]), 255);
    assert_eq!(percentile_level(&vec![0; 19]), 0);
    let mut twenty = vec![255u8; 20];
    twenty[3] = 40;
    twenty[11] = 30;
    assert_eq!(percentile_level(&twenty), 255);
    twenty[19] = 50;
    assert_eq!(percentile_level(&twenty), 50);
    for seed in 1..40u64 {
        let values = scrambled(1 + (seed as usize * 37) % 500, seed);
        let mut sorted = values.clone();
        sorted.sort_unstable();
        assert_eq!(percentile_level(&values), sorted[values.len() / 10]);
    }
}

#[test]
fn luminance_is_the_truncated_mean_of_the_channels() {
    assert_eq!(luminance(0, 0, 0), 0);
    assert_eq!(luminance(255, 255, 255), 255);
    assert_eq!(luminance(255, 255, 254), 254);
    assert_eq!(luminance(1, 1, 0), 0);
    assert_eq!(luminance(10, 20, 33), 21);
    assert_eq!(luminance(0, 0, 255), 85);
}

#[test]
fn luminance_values_read_three_bytes_of_every_four() {
    let pixels = [10u8, 20, 33, 7, 0, 0, 255, 200, 255, 255, 255, 0];
    assert_eq!(luminance_values(&pixels), vec![21, 85, 255]);
    assert_eq!(luminance_values(&[]), Vec::<u8>::new());
}

#[test]
fn brightness_is_the_level_as_a_fraction_of_255() {
    assert_eq!(get_screen_brightness(&grey_pixels(&[0])), 0);
    assert_eq!(get_screen_brightness(&grey_pixels(&[255])), 1_000_000);
    assert_eq!(get_screen_brightness(&grey_pixels(&[102])), 400_000);
    assert_eq!(get_screen_brightness(&grey_pixels(&[51])), 200_000);
    assert_eq!(get_screen_brightness(&grey_pixels(&[1])), 3_921);
    // The fourth byte of a pixel plays no part.
    assert_eq!(get_screen_brightness(&[30, 60, 90, 0]), get_screen_brightness(&[30, 60, 90, 255]));
    assert_eq!(get_screen_brightness(&[30, 60, 90, 0]), 60 * 1_000_000 / 255);
}

#[test]
fn the_sampled_square_has_to_lie_within_the_coordinates() {
    assert!(sample_in_range(0, 0, 1920, 1080));
    assert!(sample_in_range(i32::MAX - 5, i32::MIN + 50, 10, 0));
    assert!(!sample_in_range(i32::MAX - 5, 0, 12, 0));
    assert!(!sample_in_range(0, i32::MIN + 49, 0, 0));
    assert!(!sample_in_range(i32::MIN, 0, 0, 0));
    assert!(sample_in_range(i32::MIN, 0, 100, 0));
    assert!(!sample_in_range(0, i32::MAX, 0, 2));
    assert!(sample_in_range(0, i32::MAX, 0, 1));
    assert!(sample_in_range(0, i32::MAX, 0, -5));
}

#[test]
fn the_sampled_square_is_centred_on_the_region() {
    assert_eq!(SAMPLE_SIZE, 100);
    assert_eq!(sample_origin(0, 0, 1920, 1080), (910, 490));
    assert_eq!(sample_origin(-1920, 200, 1920, 1080), (-1010, 690));
    assert_eq!(sample_origin(10, 20, 0, 0), (-40, -30));
    assert_eq!(sample_origin(0, 0, 101, 99), (0, -1));
    // Half of a negative extent is rounded toward zero.
    assert_eq!(sample_origin(0, 0, -3, -1), (-51, -50));
    assert_eq!(sample_origin(i32::MAX - 5, i32::MIN + 50, 10, 0), (i32::MAX - 50, i32::MIN));
}

/// Runs a capture against a platform that answers with `outcomes`, call by
/// call, and with success after they are used up. Checks on the way that what
/// is given back is what was taken last, and at the end that nothing is held.
fn run(outcomes: &[bool]) -> (Vec<CaptureCall>, CaptureStep, Capture) {
    let mut capture = Capture::new();
    let mut calls = Vec::new();
    let mut held: Vec<Resource> = Vec::new();
    let mut step = begin_capture(&mut capture);
    while let CaptureStep::Perform(call) = step {
        let succeeded = if calls.len() < outcomes.len() { outcomes[calls.len()] } else { true };
        match call {
            CaptureCall::Acquire(resource) => {
                // Selecting the bitmap takes effect whatever it returns.
                if succeeded || resource == Resource::Selection {
                    held.push(resource);
                }
            }
            CaptureCall::Release(resource) => assert_eq!(held.pop(), Some(resource)),
            CaptureCall::CopyRegion | CaptureCall::ReadPixels => assert_eq!(held.len(), 4),
        }
        calls.push(call);
        step = advance(&mut capture, succeeded);
    }
    assert!(held.is_empty());
    (calls, step, capture)
}

#[test]
fn a_capture_without_failure_takes_copies_reads_and_gives_back() {
    let (calls, step, capture) = run(&[]);
    assert_eq!(
        calls,
        vec![
            CaptureCall::Acquire(Resource::ScreenContext),
            CaptureCall::Acquire(Resource::MemoryContext),
            CaptureCall::Acquire(Resource::Bitmap),
            CaptureCall::Acquire(Resource::Selection),
            CaptureCall::CopyRegion,
            CaptureCall::ReadPixels,
            CaptureCall::Release(Resource::Selection),
            CaptureCall::Release(Resource::Bitmap),
            CaptureCall::Release(Resource::MemoryContext),
            CaptureCall::Release(Resource::ScreenContext),
        ]
    );
    assert_eq!(step, CaptureStep::Done);
    assert_eq!(capture.phase, CapturePhase::Idle);
}

#[test]
fn a_capture_that_fails_gives_back_what_it_took() {
    let (calls, step, _) = run(&[false]);
    assert_eq!(calls, vec![CaptureCall::Acquire(Resource::ScreenContext)]);
    assert_eq!(step, CaptureStep::Failed(DisplayError::CaptureError { stage: CaptureStage::ScreenContext }));

    let (calls, step, _) = run(&[true, false]);
    assert_eq!(
        calls,
        vec![
            CaptureCall::Acquire(Resource::ScreenContext),
            CaptureCall::Acquire(Resource::MemoryContext),
            CaptureCall::Release(Resource::ScreenContext),
        ]
    );
    assert_eq!(step, CaptureStep::Failed(DisplayError::CaptureError { stage: CaptureStage::MemoryContext }));

    let (calls, step, _) = run(&[true, true, false]);
    assert_eq!(
        calls,
        vec![
            CaptureCall::Acquire(Resource::ScreenContext),
            CaptureCall::Acquire(Resource::MemoryContext),
            CaptureCall::Acquire(Resource::Bitmap),
            CaptureCall::Release(Resource::MemoryContext),
            CaptureCall::Release(Resource::ScreenContext),
        ]
    );
    assert_eq!(step, CaptureStep::Failed(DisplayError::CaptureError { stage: CaptureStage::Bitmap }));

    let full_release = vec![
        CaptureCall::Release(Resource::Selection),
        CaptureCall::Release(Resource::Bitmap),
        CaptureCall::Release(Resource::MemoryContext),
        CaptureCall::Release(Resource::ScreenContext),
    ];
    let (calls, step, _) = run(&[true, true, true, true, false]);
    assert_eq!(calls[4], CaptureCall::CopyRegion);
    assert_eq!(calls[5..].to_vec(), full_release);
    assert_eq!(step, CaptureStep::Failed(DisplayError::CaptureError { stage: CaptureStage::Copy }));

    let (calls, step, capture) = run(&[true, true, true, true, true, false]);
    assert_eq!(calls[5], CaptureCall::ReadPixels);
    assert_eq!(calls[6..].to_vec(), full_release);
    assert_eq!(step, CaptureStep::Failed(DisplayError::CaptureError { stage: CaptureStage::ReadBack }));
    assert_eq!(capture.phase, CapturePhase::Idle);
}

#[test]
fn selecting_and_giving_back_are_not_looked_at_for_failure() {
    let (calls, step, _) = run(&[true, true, true, false, true, true, false, false, false, false]);
    assert_eq!(calls.len(), 10);
    assert_eq!(step, CaptureStep::Done);
}

#[test]
fn a_capture_can_begin_again_after_a_failure() {
    let mut capture = Capture::new();
    assert_eq!(advance(&mut capture, true), CaptureStep::Done);
    begin_capture(&mut capture);
    advance(&mut capture, true);
    assert_eq!(advance(&mut capture, false), CaptureStep::Perform(CaptureCall::Release(Resource::ScreenContext)));
    assert_eq!(capture.failure, Some(CaptureStage::MemoryContext));
    assert_eq!(
        begin_capture(&mut capture),
        CaptureStep::Perform(CaptureCall::Acquire(Resource::ScreenContext))
    );
    assert_eq!(capture.failure, None);
}
