//! The brightness sampler: from a captured square of pixels to one luminance.

use vstd::prelude::*;
use vstd::multiset::Multiset;
use vstd::seq_lib::to_multiset_build;
use crate::error::{CaptureStage, DisplayError};
use crate::fixed::ONE;

verus! {

/// Side of the sampled square, in pixels.
pub const SAMPLE_SIZE: i32 = 100;

/// Bytes per captured pixel: blue, green, red and one unused byte.
pub const BYTES_PER_PIXEL: usize = 4;

/// Half of `v`, rounded toward zero.
pub open spec fn half(v: int) -> int {
    if v >= 0 {
        v / 2
    } else {
        -((-v) / 2)
    }
}

/// Where the sampled square starts along one axis: centred on the centre of a
/// region that starts at `start` and is `extent` long.
pub open spec fn sample_start(start: int, extent: int) -> int {
    start + half(extent) - SAMPLE_SIZE / 2
}

/// Whether the sampled square of a region can be addressed along one axis:
/// its centre and its start both lie within the coordinates of the desktop.
pub open spec fn sample_fits(start: int, extent: int) -> bool {
    &&& start + half(extent) <= i32::MAX
    &&& i32::MIN <= sample_start(start, extent)
}

/// Says whether `sample_origin` can place the square for a region.
pub fn sample_in_range(monitor_x: i32, monitor_y: i32, monitor_w: i32, monitor_h: i32) -> (fits:
    bool)
    ensures
        fits == (sample_fits(monitor_x as int, monitor_w as int) && sample_fits(
            monitor_y as int,
            monitor_h as int,
        )),
{
    let center_x: i64 = monitor_x as i64 + (monitor_w / 2) as i64;
    let center_y: i64 = monitor_y as i64 + (monitor_h / 2) as i64;
    let reach: i64 = (SAMPLE_SIZE / 2) as i64;
    center_x <= i32::MAX as i64 && center_x - reach >= i32::MIN as i64 && center_y
        <= i32::MAX as i64 && center_y - reach >= i32::MIN as i64
}

/// The top left corner of the square to capture for a region of the desktop:
/// the square is centred on the region's centre.
pub fn sample_origin(monitor_x: i32, monitor_y: i32, monitor_w: i32, monitor_h: i32) -> (origin: (
    i32,
    i32,
))
    requires
        sample_fits(monitor_x as int, monitor_w as int),
        sample_fits(monitor_y as int, monitor_h as int),
    ensures
        origin.0 == sample_start(monitor_x as int, monitor_w as int),
        origin.1 == sample_start(monitor_y as int, monitor_h as int),
{
    let center_x: i32 = monitor_x + (monitor_w / 2);
    let center_y: i32 = monitor_y + (monitor_h / 2);
    (center_x - (SAMPLE_SIZE / 2), center_y - (SAMPLE_SIZE / 2))
}

/// The luminance of one pixel: the plain mean of its three channels, rounded
/// down.
pub open spec fn luminance_of(blue: u8, green: u8, red: u8) -> u8 {
    ((red + green + blue) / 3) as u8
}

/// The luminances of the pixels of a capture, pixel by pixel.
pub open spec fn luminances(pixels: Seq<u8>) -> Seq<u8> {
    Seq::new(
        (pixels.len() / 4) as nat,
        |i: int| luminance_of(pixels[4 * i], pixels[4 * i + 1], pixels[4 * i + 2]),
    )
}

/// How many of `levels` lie below `bound`.
pub open spec fn count_below(levels: Multiset<u8>, bound: int) -> nat
    decreases bound,
{
    if bound <= 0 {
        0
    } else {
        count_below(levels, bound - 1) + levels.count((bound - 1) as u8)
    }
}

/// `level` is what stands at `rank`, counted from 0, once `values` are put in
/// ascending order: at most `rank` values are lower, more than `rank` are not
/// higher.
pub open spec fn is_ranked(values: Seq<u8>, rank: int, level: u8) -> bool {
    count_below(values.to_multiset(), level as int) <= rank < count_below(
        values.to_multiset(),
        level + 1,
    )
}

/// The rank that marks the 10th percentile among `count` values.
pub open spec fn percentile_rank(count: int) -> int {
    count / 10
}

/// `values` in ascending order.
pub open spec fn ascending(values: Seq<u8>) -> Seq<u8> {
    values.sort_by(|a: u8, b: u8| a <= b)
}

/// The 10th-percentile level of `values`: what stands at rank `len / 10` once
/// they are in ascending order.
pub open spec fn percentile_of(values: Seq<u8>) -> u8 {
    ascending(values)[percentile_rank(values.len() as int)]
}

/// A level from 0 to 255 as a fraction of full brightness.
pub open spec fn level_fraction(level: u8) -> int {
    level * ONE / 255
}

/// Counting rises with the bound.
pub proof fn lemma_count_below_rises(levels: Multiset<u8>, low: int, high: int)
    requires
        low <= high,
    ensures
        count_below(levels, low) <= count_below(levels, high),
    decreases high - low,
{
    if low < high {
        lemma_count_below_rises(levels, low, high - 1);
    }
}

/// One more value is counted exactly under the bounds above it.
pub proof fn lemma_count_below_insert(levels: Multiset<u8>, value: u8, bound: int)
    requires
        bound <= 256,
    ensures
        count_below(levels.insert(value), bound) == count_below(levels, bound) + (if value
            < bound {
            1nat
        } else {
            0nat
        }),
    decreases bound,
{
    if bound > 0 {
        lemma_count_below_insert(levels, value, bound - 1);
    }
}

/// Every value lies below 256.
pub proof fn lemma_count_below_all(values: Seq<u8>)
    ensures
        count_below(values.to_multiset(), 256) == values.len(),
    decreases values.len(),
{
    broadcast use to_multiset_build;

    if values.len() == 0 {
        lemma_no_levels(values);
        lemma_count_below_empty(256);
    } else {
        let front = values.drop_last();
        assert(values =~= front.push(values.last()));
        lemma_count_below_all(front);
        lemma_count_below_insert(front.to_multiset(), values.last(), 256);
    }
}

proof fn lemma_no_levels(values: Seq<u8>)
    requires
        values.len() == 0,
    ensures
        values.to_multiset() == Multiset::<u8>::empty(),
        forall|level: u8| values.to_multiset().count(level) == 0,
{
    broadcast use vstd::multiset::group_multiset_axioms;

    values.to_multiset_ensures();
    vstd::multiset::lemma_multiset_empty_len(values.to_multiset());
}

proof fn lemma_count_below_empty(bound: int)
    ensures
        count_below(Multiset::<u8>::empty(), bound) == 0,
    decreases bound,
{
    if bound > 0 {
        lemma_count_below_empty(bound - 1);
    }
}

/// At most one level stands at a rank.
pub proof fn rank_is_unique(values: Seq<u8>, rank: int, a: u8, b: u8)
    requires
        is_ranked(values, rank, a),
        is_ranked(values, rank, b),
    ensures
        a == b,
{
    if a < b {
        lemma_count_below_rises(values.to_multiset(), a + 1, b as int);
    }
    if b < a {
        lemma_count_below_rises(values.to_multiset(), b + 1, a as int);
    }
}

/// In a sequence in ascending order the value at place `at` has `at` values in
/// front of it, none of them higher: a bound is passed by more than `at` values
/// exactly if it is passed by that one.
pub proof fn lemma_sorted_count(sorted: Seq<u8>, at: int, bound: int)
    requires
        forall|i: int, j: int| 0 <= i <= j < sorted.len() ==> sorted[i] <= sorted[j],
        0 <= at < sorted.len(),
        0 <= bound <= 256,
    ensures
        sorted[at] >= bound ==> count_below(sorted.to_multiset(), bound) <= at,
        sorted[at] < bound ==> count_below(sorted.to_multiset(), bound) > at,
    decreases sorted.len(),
{
    let front = sorted.drop_last();
    assert(sorted =~= front.push(sorted.last()));
    to_multiset_build(front, sorted.last());
    lemma_count_below_insert(front.to_multiset(), sorted.last(), bound);
    if at < front.len() {
        lemma_sorted_count(front, at, bound);
    } else {
        lemma_count_below_all(front);
        lemma_count_below_rises(front.to_multiset(), bound, 256);
        if at > 0 {
            lemma_sorted_count(front, at - 1, bound);
        }
    }
}

/// What stands at a rank of any ascending arrangement of `values` is the level
/// ranked there.
pub proof fn ranked_in_sorted(values: Seq<u8>, sorted: Seq<u8>, rank: int)
    requires
        sorted.to_multiset() == values.to_multiset(),
        forall|i: int, j: int| 0 <= i <= j < sorted.len() ==> sorted[i] <= sorted[j],
        0 <= rank < sorted.len(),
    ensures
        is_ranked(values, rank, sorted[rank]),
{
    lemma_sorted_count(sorted, rank, sorted[rank] as int);
    lemma_sorted_count(sorted, rank, sorted[rank] + 1);
}

/// `ascending` rearranges: it keeps every value, as often as it occurs, and
/// puts none in front of a lower one.
pub proof fn lemma_ascending(values: Seq<u8>)
    ensures
        ascending(values).to_multiset() == values.to_multiset(),
        ascending(values).len() == values.len(),
        forall|i: int, j: int|
            0 <= i <= j < values.len() ==> ascending(values)[i] <= ascending(values)[j],
{
    let leq = |a: u8, b: u8| a <= b;
    assert(vstd::relations::total_ordering(leq));
    values.lemma_sort_by_ensures(leq);
    values.to_multiset_ensures();
    ascending(values).to_multiset_ensures();
    assert forall|i: int, j: int| 0 <= i <= j < values.len() implies ascending(values)[i]
        <= ascending(values)[j] by {
        if i < j {
            assert(leq(ascending(values)[i], ascending(values)[j]));
        }
    }
}

/// The luminance of one pixel.
pub fn luminance(blue: u8, green: u8, red: u8) -> (level: u8)
    ensures
        level == luminance_of(blue, green, red),
{
    ((red as u32 + green as u32 + blue as u32) / 3) as u8
}

/// Reduces a capture to the luminances of its pixels.
///
/// Each pixel takes four bytes, of which the first three are read.
pub fn luminance_values(pixels: &[u8]) -> (values: Vec<u8>)
    requires
        pixels.len() % 4 == 0,
    ensures
        values@ == luminances(pixels@),
{
    let count: usize = pixels.len() / BYTES_PER_PIXEL;
    let mut values: Vec<u8> = Vec::with_capacity(count);
    let mut i: usize = 0;
    while i < count
        invariant
            i <= count,
            count == pixels.len() / 4,
            pixels.len() % 4 == 0,
            values.len() == i,
            forall|k: int| 0 <= k < i ==> values@[k] == luminances(pixels@)[k],
        decreases count - i,
    {
        values.push(luminance(pixels[4 * i], pixels[4 * i + 1], pixels[4 * i + 2]));
        i += 1;
    }
    assert(values@ =~= luminances(pixels@));
    values
}

/// The level at the 10th percentile of `values`.
pub fn percentile_level(values: &Vec<u8>) -> (level: u8)
    requires
        values.len() > 0,
    ensures
        is_ranked(values@, percentile_rank(values.len() as int), level),
        level == percentile_of(values@),
{
    let mut histogram: [usize; 256] = [0; 256];
    let mut i: usize = 0;
    proof {
        lemma_no_levels(values@.take(0));
        lemma_count_below_all(values@.take(0));
    }
    while i < values.len()
        invariant
            i <= values.len(),
            forall|b: int|
                0 <= b < 256 ==> #[trigger] histogram@[b] == values@.take(i as int).to_multiset().count(
                    b as u8,
                ),
            count_below(values@.take(i as int).to_multiset(), 256) == i,
        decreases values.len() - i,
    {
        let value: u8 = values[i];
        proof {
            let seen = values@.take(i as int);
            assert(values@.take(i + 1) =~= seen.push(value));
            to_multiset_build(seen, value);
            lemma_count_below_all(seen.push(value));
            lemma_count_below_all(seen);
            lemma_count_below_rises(seen.push(value).to_multiset(), value + 1, 256);
            assert(seen.push(value).to_multiset().count(value) <= i + 1);
        }
        histogram[value as usize] = histogram[value as usize] + 1;
        i += 1;
    }
    assert(values@.take(values.len() as int) =~= values@);
    let rank: usize = values.len() / 10;
    let ghost levels = values@.to_multiset();
    let mut below: usize = 0;
    let mut level: u8 = 0;
    while level < 255 && histogram[level as usize] <= rank - below
        invariant
            below <= rank < values.len(),
            below == count_below(levels, level as int),
            count_below(levels, 256) == values.len(),
            forall|b: int| 0 <= b < 256 ==> #[trigger] histogram@[b] == levels.count(b as u8),
        decreases 255 - level,
    {
        below = below + histogram[level as usize];
        level = level + 1;
    }
    proof {
        if level == 255 {
            assert(count_below(levels, 256) == count_below(levels, 255) + levels.count(255u8));
        }
        lemma_ascending(values@);
        ranked_in_sorted(values@, ascending(values@), rank as int);
        rank_is_unique(values@, rank as int, level, percentile_of(values@));
    }
    level
}

/// The brightness of a captured square: the 10th percentile of its pixels'
/// luminances, as a fraction of full brightness.
///
/// A few dark pixels do not make a dark sample: the result is dark only where
/// more than a tenth of the square is.
pub fn get_screen_brightness(pixels: &[u8]) -> (brightness: i32)
    requires
        pixels.len() % 4 == 0,
        pixels.len() >= 4,
    ensures
        brightness == level_fraction(percentile_of(luminances(pixels@))),
        0 <= brightness <= ONE,
{
    let values = luminance_values(pixels);
    let level: u8 = percentile_level(&values);
    ((level as i64 * ONE as i64) / 255) as i32
}

/// What a capture takes from the platform and has to give back, in the order
/// of taking.
#[derive(Clone, Copy, Debug, PartialEq, Eq, Structural)]
pub enum Resource {
    /// The device context of the screen.
    ScreenContext,
    /// An off-screen device context.
    MemoryContext,
    /// An off-screen bitmap of the sampled size.
    Bitmap,
    /// The bitmap selected into the off-screen context.
    Selection,
}

/// A call into the platform that the host has to make.
#[derive(Clone, Copy, Debug, PartialEq, Eq, Structural)]
pub enum CaptureCall {
    /// Take the resource.
    Acquire(Resource),
    /// Copy the sampled square from the screen into the bitmap.
    CopyRegion,
    /// Read the bitmap's pixels into a buffer.
    ReadPixels,
    /// Give the resource back.
    Release(Resource),
}

/// What comes next in a capture.
#[derive(Clone, Copy, Debug, PartialEq, Eq, Structural)]
pub enum CaptureStep {
    /// The host makes this call and reports to `advance` whether it succeeded.
    Perform(CaptureCall),
    /// The capture is over and the pixels have been read.
    Done,
    /// The capture is over: it failed.
    Failed(DisplayError),
}

/// Where a capture stands: the call that has been asked for.
#[derive(Clone, Copy, Debug, PartialEq, Eq, Structural)]
pub enum CapturePhase {
    Idle,
    Acquiring(Resource),
    Copying,
    Reading,
    Releasing(Resource),
}

/// One capture of the sampled square.
#[derive(Clone, Copy, Debug, PartialEq, Eq, Structural)]
pub struct Capture {
    pub phase: CapturePhase,
    /// The step that failed, to be reported once everything is given back.
    pub failure: Option<CaptureStage>,
}

/// The place of a resource in the order of taking.
pub open spec fn rank_of(resource: Resource) -> int {
    match resource {
        Resource::ScreenContext => 0,
        Resource::MemoryContext => 1,
        Resource::Bitmap => 2,
        Resource::Selection => 3,
    }
}

/// How many resources are held while the call of `phase` is awaited. They are
/// always the first so many in the order of taking.
pub open spec fn held(phase: CapturePhase) -> int {
    match phase {
        CapturePhase::Idle => 0,
        CapturePhase::Acquiring(resource) => rank_of(resource),
        CapturePhase::Copying => 4,
        CapturePhase::Reading => 4,
        CapturePhase::Releasing(resource) => rank_of(resource) + 1,
    }
}

/// The failure to report when taking `resource` fails. Selecting the bitmap is
/// not looked at for failure, so it has no report of its own.
pub open spec fn stage_of(resource: Resource) -> CaptureStage {
    match resource {
        Resource::ScreenContext => CaptureStage::ScreenContext,
        Resource::MemoryContext => CaptureStage::MemoryContext,
        _ => CaptureStage::Bitmap,
    }
}

/// The state and the next step of a capture that holds its first `count`
/// resources and has nothing left to do but to give them back: the one taken
/// last goes first, and with none left the capture ends.
pub open spec fn released(count: int, failure: Option<CaptureStage>) -> (Capture, CaptureStep) {
    let resource = if count == 1 {
        Resource::ScreenContext
    } else if count == 2 {
        Resource::MemoryContext
    } else if count == 3 {
        Resource::Bitmap
    } else {
        Resource::Selection
    };
    if count <= 0 {
        (
            Capture { phase: CapturePhase::Idle, failure },
            match failure {
                Some(stage) => CaptureStep::Failed(DisplayError::CaptureError { stage }),
                None => CaptureStep::Done,
            },
        )
    } else {
        (
            Capture { phase: CapturePhase::Releasing(resource), failure },
            CaptureStep::Perform(CaptureCall::Release(resource)),
        )
    }
}

/// The state and the first step of a capture.
pub open spec fn capture_begun() -> (Capture, CaptureStep) {
    (
        Capture { phase: CapturePhase::Acquiring(Resource::ScreenContext), failure: None },
        CaptureStep::Perform(CaptureCall::Acquire(Resource::ScreenContext)),
    )
}

/// The state and the next step once the call that was asked for has come back.
///
/// The resources are taken one after the other, then the square is copied and
/// read. Whatever fails, the capture first gives back all it holds and then
/// reports the step that failed. Selecting the bitmap and giving a resource
/// back are not looked at for failure.
pub open spec fn capture_advanced(state: Capture, succeeded: bool) -> (Capture, CaptureStep) {
    match state.phase {
        CapturePhase::Idle => (state, CaptureStep::Done),
        CapturePhase::Acquiring(Resource::Selection) => (
            Capture { phase: CapturePhase::Copying, ..state },
            CaptureStep::Perform(CaptureCall::CopyRegion),
        ),
        CapturePhase::Acquiring(resource) => if succeeded {
            let next = match resource {
                Resource::ScreenContext => Resource::MemoryContext,
                Resource::MemoryContext => Resource::Bitmap,
                _ => Resource::Selection,
            };
            (
                Capture { phase: CapturePhase::Acquiring(next), ..state },
                CaptureStep::Perform(CaptureCall::Acquire(next)),
            )
        } else {
            released(rank_of(resource), Some(stage_of(resource)))
        },
        CapturePhase::Copying => if succeeded {
            (
                Capture { phase: CapturePhase::Reading, ..state },
                CaptureStep::Perform(CaptureCall::ReadPixels),
            )
        } else {
            released(4, Some(CaptureStage::Copy))
        },
        CapturePhase::Reading => released(
            4,
            if succeeded {
                None
            } else {
                Some(CaptureStage::ReadBack)
            },
        ),
        CapturePhase::Releasing(resource) => released(rank_of(resource), state.failure),
    }
}

fn release(count: u8, failure: Option<CaptureStage>) -> (next: (Capture, CaptureStep))
    ensures
        next == released(count as int, failure),
{
    if count == 0 {
        (
            Capture { phase: CapturePhase::Idle, failure },
            match failure {
                Some(stage) => CaptureStep::Failed(DisplayError::CaptureError { stage }),
                None => CaptureStep::Done,
            },
        )
    } else {
        let resource = if count == 1 {
            Resource::ScreenContext
        } else if count == 2 {
            Resource::MemoryContext
        } else if count == 3 {
            Resource::Bitmap
        } else {
            Resource::Selection
        };
        (
            Capture { phase: CapturePhase::Releasing(resource), failure },
            CaptureStep::Perform(CaptureCall::Release(resource)),
        )
    }
}

fn rank(resource: Resource) -> (r: u8)
    ensures
        r == rank_of(resource),
{
    match resource {
        Resource::ScreenContext => 0,
        Resource::MemoryContext => 1,
        Resource::Bitmap => 2,
        Resource::Selection => 3,
    }
}

impl Capture {
    /// A capture that has not begun.
    pub fn new() -> (capture: Self)
        ensures
            capture == (Capture { phase: CapturePhase::Idle, failure: None }),
    {
        Capture { phase: CapturePhase::Idle, failure: None }
    }
}

/// Begins a capture: the screen's device context is taken first.
pub fn begin_capture(capture: &mut Capture) -> (step: CaptureStep)
    ensures
        (*final(capture), step) == capture_begun(),
{
    capture.phase = CapturePhase::Acquiring(Resource::ScreenContext);
    capture.failure = None;
    CaptureStep::Perform(CaptureCall::Acquire(Resource::ScreenContext))
}

/// Takes the outcome of the call that the last step asked for and says what
/// comes next.
pub fn advance(capture: &mut Capture, succeeded: bool) -> (step: CaptureStep)
    ensures
        (*final(capture), step) == capture_advanced(*old(capture), succeeded),
{
    let (next, step) = match capture.phase {
        CapturePhase::Idle => (*capture, CaptureStep::Done),
        CapturePhase::Acquiring(resource) => match resource {
            Resource::Selection => (
                Capture { phase: CapturePhase::Copying, failure: capture.failure },
                CaptureStep::Perform(CaptureCall::CopyRegion),
            ),
            _ => if succeeded {
                let next = match resource {
                    Resource::ScreenContext => Resource::MemoryContext,
                    Resource::MemoryContext => Resource::Bitmap,
                    _ => Resource::Selection,
                };
                (
                    Capture { phase: CapturePhase::Acquiring(next), failure: capture.failure },
                    CaptureStep::Perform(CaptureCall::Acquire(next)),
                )
            } else {
                release(
                    rank(resource),
                    Some(
                        match resource {
                            Resource::ScreenContext => CaptureStage::ScreenContext,
                            Resource::MemoryContext => CaptureStage::MemoryContext,
                            _ => CaptureStage::Bitmap,
                        },
                    ),
                )
            },
        },
        CapturePhase::Copying => if succeeded {
            (
                Capture { phase: CapturePhase::Reading, failure: capture.failure },
                CaptureStep::Perform(CaptureCall::ReadPixels),
            )
        } else {
            release(4, Some(CaptureStage::Copy))
        },
        CapturePhase::Reading => release(
            4,
            if succeeded {
                None
            } else {
                Some(CaptureStage::ReadBack)
            },
        ),
        CapturePhase::Releasing(resource) => release(rank(resource), capture.failure),
    };
    *capture = next;
    step
}

/// A capture gives back all that it took, whatever fails: a call that
/// succeeds in taking a resource adds one to what is held, a call that gives one
/// back takes one off, no other call changes it, and the capture ends only
/// with nothing held.
pub proof fn capture_releases_everything(state: Capture, succeeded: bool)
    ensures
        ({
            let (after, step) = capture_advanced(state, succeeded);
            let taken: int = match state.phase {
                CapturePhase::Acquiring(Resource::Selection) => 1,
                CapturePhase::Acquiring(_) => if succeeded {
                    1
                } else {
                    0
                },
                _ => 0,
            };
            let given: int = if state.phase is Releasing {
                1
            } else {
                0
            };
            &&& held(after.phase) == held(state.phase) + taken - given
            &&& step is Done || step is Failed ==> held(after.phase) == 0
            &&& step matches CaptureStep::Perform(CaptureCall::Release(resource)) ==> rank_of(
                resource,
            ) + 1 == held(after.phase)
            &&& step matches CaptureStep::Perform(CaptureCall::Acquire(resource)) ==> rank_of(
                resource,
            ) == held(after.phase)
        }),
{
}

/// A capture that meets no failure runs through ten calls and ends well; one
/// that cannot even take the screen's context ends at once.
pub proof fn capture_runs_its_course()
    ensures
        ({
            let (s0, _) = capture_begun();
            let (s1, _) = capture_advanced(s0, true);
            let (s2, _) = capture_advanced(s1, true);
            let (s3, _) = capture_advanced(s2, true);
            let (s4, copy) = capture_advanced(s3, true);
            let (s5, read) = capture_advanced(s4, true);
            let (s6, _) = capture_advanced(s5, true);
            let (s7, _) = capture_advanced(s6, true);
            let (s8, _) = capture_advanced(s7, true);
            let (s9, last) = capture_advanced(s8, true);
            let (end, step) = capture_advanced(s9, true);
            &&& copy == CaptureStep::Perform(CaptureCall::CopyRegion)
            &&& read == CaptureStep::Perform(CaptureCall::ReadPixels)
            &&& last == CaptureStep::Perform(CaptureCall::Release(Resource::ScreenContext))
            &&& step == CaptureStep::Done
            &&& end.phase == CapturePhase::Idle
            &&& capture_advanced(s0, false).1 == CaptureStep::Failed(
                DisplayError::CaptureError { stage: CaptureStage::ScreenContext },
            )
        }),
{
}

} // verus!
