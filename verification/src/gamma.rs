//! Per-monitor gamma ramps and the monitor directory.

use vstd::prelude::*;
use vstd::slice::slice_subrange;
use vstd::string::{StrSliceExecFns, StringExecFns};
use crate::error::{DisplayError, Rejected};
use crate::fixed::{clamp_between, clamp_int, clamp_unit, unit, ONE};

verus! {

/// Three parallel lookup curves, one per colour channel: entry `i` is the
/// 16-bit output level for the 8-bit input level `i`.
#[derive(Clone, Copy, Debug, PartialEq, Eq)]
pub struct GammaRamp {
    pub red: [u16; 256],
    pub green: [u16; 256],
    pub blue: [u16; 256],
}

impl GammaRamp {
    /// The three channels hold the same curve.
    pub open spec fn is_grey(&self) -> bool {
        self.red@ == self.green@ && self.green@ == self.blue@
    }

    /// No output level is lower than the one before it.
    pub open spec fn is_non_decreasing(&self) -> bool {
        forall|i: int, j: int| 0 <= i <= j < 256 ==> self.red@[i] <= self.red@[j]
    }

    /// The ramp is the night curve of `intensity`, a fraction of the unit
    /// interval, over the power-law responses `tone`.
    pub open spec fn is_night_curve(&self, intensity: int, tone: Seq<u16>) -> bool {
        &&& self.is_grey()
        &&& forall|i: int| 0 <= i < 256 ==> self.red@[i] == night_level(intensity, tone[i] as int)
    }

    /// The ramp is the dimming curve of `brightness`, a fraction between one
    /// half and one.
    pub open spec fn is_dim_curve(&self, brightness: int) -> bool {
        &&& self.is_grey()
        &&& forall|i: int| 0 <= i < 256 ==> self.red@[i] == dim_level(brightness, i)
    }
}

/// The output level of the identity ramp for input level `i`.
pub open spec fn identity_level(i: int) -> int {
    i * 256
}

/// The night curve's output for one input level.
///
/// `tone` is the level's power-law response `x^gamma`, 16-bit normalised. The
/// curve lifts it off black by `lift = intensity / 4`:
/// `65535 * (lift + x^gamma * (1 - lift))`, rounded down.
pub open spec fn night_level(intensity: int, tone: int) -> int {
    (65535 * intensity + tone * (4 * ONE - intensity)) / (4 * ONE)
}

/// The exponent of the night curve's power law, `1 - intensity / 2`, as the
/// fraction `numerator / denominator`.
pub open spec fn night_gamma_ratio(intensity: int) -> (int, int) {
    (2 * ONE - unit(intensity), 2 * ONE)
}

/// The dimming curve's output for input level `i`: `i * brightness * 256`
/// rounded down, kept within 32768 of the identity ramp and within 16 bits.
pub open spec fn dim_level(brightness: int, i: int) -> int {
    clamp_int(
        (i * brightness * 256) / (ONE as int),
        clamp_int(identity_level(i) - 32768, 0, 65535),
        clamp_int(identity_level(i) + 32768, 0, 65535),
    )
}

/// The brightness that the dimming curve works with: never under one half.
pub open spec fn dim_brightness(brightness: int) -> int {
    clamp_int(brightness, ONE / 2, ONE as int)
}

/// The night curve stays within 16 bits, never falls under the tone it lifts,
/// and rises with the tone.
pub proof fn lemma_night_level(intensity: int, tone_a: int, tone_b: int)
    requires
        0 <= intensity <= ONE,
        0 <= tone_a <= tone_b <= 65535,
    ensures
        0 <= night_level(intensity, tone_a) <= night_level(intensity, tone_b) <= 65535,
        tone_a <= night_level(intensity, tone_a),
{
    let w = 4 * ONE - intensity;
    let a = 65535 * intensity + tone_a * w;
    let b = 65535 * intensity + tone_b * w;
    assert(0 <= tone_a * w <= tone_b * w <= 65535 * w) by (nonlinear_arith)
        requires
            0 <= tone_a <= tone_b <= 65535,
            0 <= w,
    ;
    assert(tone_a * 4_000_000 == tone_a * w + tone_a * intensity) by (nonlinear_arith)
        requires
            w == 4_000_000 - intensity,
    ;
    assert(tone_a * intensity <= 65535 * intensity) by (nonlinear_arith)
        requires
            0 <= tone_a <= 65535,
            0 <= intensity,
    ;
    assert(tone_a * 4_000_000 <= a <= b <= 65535 * 4_000_000);
    assert(night_level(intensity, tone_a) == a / 4_000_000);
    assert(night_level(intensity, tone_b) == b / 4_000_000);
}

/// The exponent of the night curve's power law for `intensity`, which is held
/// to the unit interval first.
pub fn night_gamma(intensity: i32) -> (r: (u32, u32))
    ensures
        (r.0 as int, r.1 as int) == night_gamma_ratio(intensity as int),
        0 < r.0 <= r.1,
{
    let q: i32 = clamp_unit(intensity);
    ((2 * ONE - q) as u32, (2 * ONE) as u32)
}

/// Builds the night-vision ramp: a power-law boost of the midtones, handed in
/// as `tone`, with the black level lifted by a quarter of `intensity`.
///
/// `intensity` is held to the unit interval. `tone[i]` is the 16-bit response
/// of input level `i` to the exponent that `night_gamma` gives.
pub fn calculate_curve(intensity: i32, tone: &[u16; 256]) -> (ramp: GammaRamp)
    ensures
        ramp.is_night_curve(unit(intensity as int), tone@),
{
    let q: i32 = clamp_unit(intensity);
    let mut levels: [u16; 256] = [0; 256];
    let mut i: usize = 0;
    while i < 256
        invariant
            i <= 256,
            q == unit(intensity as int),
            forall|k: int| 0 <= k < i ==> levels@[k] == night_level(q as int, tone@[k] as int),
        decreases 256 - i,
    {
        let t: u64 = tone[i] as u64;
        let w: u64 = (4 * ONE - q) as u64;
        proof {
            lemma_night_level(q as int, t as int, t as int);
            assert(0 <= t * w <= 65535 * (4 * ONE)) by (nonlinear_arith)
                requires
                    0 <= t <= 65535,
                    0 <= w <= 4 * ONE,
            ;
        }
        levels[i] = ((65535 * (q as u64) + t * w) / ((4 * ONE) as u64)) as u16;
        i += 1;
    }
    GammaRamp { red: levels, green: levels, blue: levels }
}

/// The dimming curve needs no clamping: with a brightness of at least one half
/// it stays within 32768 of the identity ramp and within 16 bits by itself.
pub proof fn lemma_dim_level(brightness: int, i: int)
    requires
        ONE / 2 <= brightness <= ONE,
        0 <= i < 256,
    ensures
        dim_level(brightness, i) == (i * brightness * 256) / (ONE as int),
        identity_level(i) - 32768 <= dim_level(brightness, i) <= identity_level(i),
        0 <= dim_level(brightness, i) <= 65535,
{
    let n = i * brightness * 256;
    assert(i * 128_000_000 <= n <= i * 256_000_000) by (nonlinear_arith)
        requires
            n == i * brightness * 256,
            500_000 <= brightness <= 1_000_000,
            0 <= i,
    ;
    assert(i * 128 <= n / 1_000_000 <= i * 256);
}

/// Builds the linear dimming ramp, `output = input * brightness`.
///
/// `brightness` is held to the interval from one half to one first: a darker
/// ramp would leave the range that display drivers accept.
pub fn calculate_dim_curve(brightness: i32) -> (ramp: GammaRamp)
    ensures
        ramp.is_dim_curve(dim_brightness(brightness as int)),
{
    let b: i32 = clamp_between(brightness, ONE / 2, ONE);
    let mut levels: [u16; 256] = [0; 256];
    let mut i: usize = 0;
    while i < 256
        invariant
            i <= 256,
            b == dim_brightness(brightness as int),
            forall|k: int| 0 <= k < i ==> levels@[k] == dim_level(b as int, k),
        decreases 256 - i,
    {
        proof {
            lemma_dim_level(b as int, i as int);
            assert(0 <= i * b <= 255 * ONE) by (nonlinear_arith)
                requires
                    0 <= i <= 255,
                    0 <= b <= ONE,
            ;
        }
        let identity: u32 = (i as u32) * 256;
        let dimmed: u32 = (((i as u64) * (b as u64) * 256) / (ONE as u64)) as u32;
        let min_val: u32 = identity.saturating_sub(32768);
        let max_val: u32 = if identity.saturating_add(32768) < 65535 {
            identity.saturating_add(32768)
        } else {
            65535
        };
        let lifted: u32 = if dimmed < min_val {
            min_val
        } else {
            dimmed
        };
        levels[i] = (if lifted > max_val {
            max_val
        } else {
            lifted
        }) as u16;
        i += 1;
    }
    GammaRamp { red: levels, green: levels, blue: levels }
}

/// Over responses that never fall, the night curve never falls either, whatever
/// the intensity.
pub proof fn night_curve_is_monotonic(ramp: GammaRamp, intensity: int, tone: Seq<u16>)
    requires
        tone.len() == 256,
        forall|i: int, j: int| 0 <= i <= j < 256 ==> tone[i] <= tone[j],
        ramp.is_night_curve(unit(intensity), tone),
    ensures
        ramp.is_non_decreasing(),
        forall|i: int| 0 <= i < 256 ==> tone[i] <= #[trigger] ramp.red@[i] <= 65535,
{
    assert forall|i: int, j: int| 0 <= i <= j < 256 implies ramp.red@[i] <= ramp.red@[j] by {
        lemma_night_level(unit(intensity), tone[i] as int, tone[j] as int);
    }
    assert forall|i: int| 0 <= i < 256 implies tone[i] <= #[trigger] ramp.red@[i] <= 65535 by {
        lemma_night_level(unit(intensity), tone[i] as int, tone[i] as int);
    }
}

/// At intensity zero the night curve is the response it was given.
pub proof fn night_curve_at_rest(ramp: GammaRamp, tone: Seq<u16>)
    requires
        tone.len() == 256,
        ramp.is_night_curve(0, tone),
    ensures
        forall|i: int| 0 <= i < 256 ==> #[trigger] ramp.red@[i] == tone[i],
{
    assert forall|i: int| 0 <= i < 256 implies #[trigger] ramp.red@[i] == tone[i] by {
        assert(tone[i] * (4 * ONE - 0) == tone[i] * 4_000_000);
    }
}

/// Whatever brightness is asked for, every level of the dimming curve lies
/// within 32768 of the identity ramp, and the curve never falls.
pub proof fn dim_curve_within_limits(ramp: GammaRamp, brightness: int)
    requires
        ramp.is_dim_curve(dim_brightness(brightness)),
    ensures
        forall|i: int|
            0 <= i < 256 ==> identity_level(i) - 32768 <= #[trigger] ramp.red@[i] <= identity_level(
                i,
            ),
        ramp.is_non_decreasing(),
{
    let b = dim_brightness(brightness);
    assert forall|i: int| 0 <= i < 256 implies identity_level(i) - 32768
        <= #[trigger] ramp.red@[i] <= identity_level(i) by {
        lemma_dim_level(b, i);
    }
    assert forall|i: int, j: int| 0 <= i <= j < 256 implies ramp.red@[i] <= ramp.red@[j] by {
        lemma_dim_level(b, i);
        lemma_dim_level(b, j);
        assert(i * b * 256 <= j * b * 256) by (nonlinear_arith)
            requires
                0 <= i <= j,
                0 <= b,
        ;
    }
}

/// The bit of a display's flags that marks the primary display.
pub const MONITORINFOF_PRIMARY: u32 = 0x1;

/// One physical display, as the directory lists it.
#[derive(Clone, Debug, PartialEq, Eq)]
pub struct MonitorInfo {
    /// Place in the directory's listing, counted from 1.
    pub index: u32,
    /// The platform's device name.
    pub name: String,
    pub width: u32,
    pub height: u32,
    /// Left edge in virtual-desktop coordinates.
    pub x: i32,
    /// Top edge in virtual-desktop coordinates.
    pub y: i32,
    pub is_primary: bool,
}

/// Whether `a` has to be listed before `b`: the primary display first, then
/// from left to right, then from top to bottom.
pub open spec fn precedes(a: MonitorInfo, b: MonitorInfo) -> bool {
    if a.is_primary != b.is_primary {
        a.is_primary
    } else if a.x != b.x {
        a.x < b.x
    } else {
        a.y < b.y
    }
}

/// `monitor` as the entry at `position` of a listing: its index is the
/// position counted from 1, the rest is unchanged.
pub open spec fn listed_at(monitor: MonitorInfo, position: int) -> MonitorInfo {
    MonitorInfo { index: (position + 1) as u32, ..monitor }
}

/// `listed` is `enumerated` in reading order.
///
/// `source[i]` is the place in `enumerated` of the monitor listed at `i`, and
/// `place` is its inverse. No monitor is listed before one that precedes it,
/// and monitors of which neither precedes the other keep the order in which
/// they were enumerated.
pub open spec fn is_reading_order(
    listed: Seq<MonitorInfo>,
    enumerated: Seq<MonitorInfo>,
    source: Seq<int>,
    place: Seq<int>,
) -> bool {
    let n = enumerated.len();
    &&& listed.len() == n
    &&& source.len() == n
    &&& place.len() == n
    &&& forall|i: int|
        0 <= i < n ==> {
            &&& 0 <= #[trigger] source[i] < n
            &&& place[source[i]] == i
            &&& listed[i] == listed_at(enumerated[source[i]], i)
        }
    &&& forall|k: int|
        0 <= k < n ==> {
            &&& 0 <= #[trigger] place[k] < n
            &&& source[place[k]] == k
        }
    &&& forall|a: int, b: int| 0 <= a < b < n ==> !precedes(listed[b], listed[a])
    &&& forall|a: int, b: int|
        0 <= a < b < n && !precedes(listed[a], listed[b]) ==> source[a] < source[b]
}

/// The monitor that stands for the display where none can be enumerated:
/// full HD, primary, at the origin.
pub open spec fn is_default_monitor(monitor: MonitorInfo) -> bool {
    &&& monitor.index == 1
    &&& monitor.name@ == "Primary"@
    &&& monitor.width == 1920
    &&& monitor.height == 1080
    &&& monitor.x == 0
    &&& monitor.y == 0
    &&& monitor.is_primary
}

fn comes_before(a: &MonitorInfo, b: &MonitorInfo) -> (r: bool)
    ensures
        r == precedes(*a, *b),
{
    if a.is_primary != b.is_primary {
        a.is_primary
    } else if a.x != b.x {
        a.x < b.x
    } else {
        a.y < b.y
    }
}

/// Puts the monitors into reading order and numbers them from 1.
fn arrange_monitors(monitors: &mut Vec<MonitorInfo>) -> (maps: Ghost<(Seq<int>, Seq<int>)>)
    requires
        old(monitors).len() <= u32::MAX,
    ensures
        is_reading_order(final(monitors)@, old(monitors)@, maps@.0, maps@.1),
{
    let ghost start = monitors@;
    let n: usize = monitors.len();
    let ghost mut source: Seq<int> = Seq::new(n as nat, |i: int| i);
    let ghost mut place: Seq<int> = Seq::new(n as nat, |k: int| k);
    let mut m: usize = 0;
    while m < n
        invariant
            m <= n,
            n == start.len(),
            monitors.len() == n,
            source.len() == n,
            place.len() == n,
            forall|i: int|
                0 <= i < n ==> {
                    &&& 0 <= #[trigger] source[i] < n
                    &&& place[source[i]] == i
                    &&& monitors@[i] == start[source[i]]
                },
            forall|k: int|
                0 <= k < n ==> {
                    &&& 0 <= #[trigger] place[k] < n
                    &&& source[place[k]] == k
                },
            forall|i: int| m <= i < n ==> source[i] == i,
            forall|i: int| 0 <= i < m ==> source[i] < m,
            forall|a: int, b: int| 0 <= a < b < m ==> !precedes(monitors@[b], monitors@[a]),
            forall|a: int, b: int|
                0 <= a < b < m && !precedes(monitors@[a], monitors@[b]) ==> source[a] < source[b],
        decreases n - m,
    {
        let mut j: usize = 0;
        while j < m && !comes_before(&monitors[m], &monitors[j])
            invariant
                j <= m < n,
                monitors.len() == n,
                forall|a: int| 0 <= a < j ==> !precedes(monitors@[m as int], monitors@[a]),
            decreases m - j,
        {
            j += 1;
        }
        let ghost held = monitors@;
        let ghost held_source = source;
        let ghost held_place = place;
        let moved = monitors.remove(m);
        monitors.insert(j, moved);
        proof {
            source = Seq::new(
                n as nat,
                |i: int|
                    if i < j {
                        held_source[i]
                    } else if i == j {
                        m as int
                    } else if i <= m {
                        held_source[i - 1]
                    } else {
                        held_source[i]
                    },
            );
            place = Seq::new(
                n as nat,
                |k: int|
                    if k == m {
                        j as int
                    } else if j <= held_place[k] < m {
                        held_place[k] + 1
                    } else {
                        held_place[k]
                    },
            );
            assert forall|i: int| 0 <= i < n implies monitors@[i] == (if i < j {
                held[i]
            } else if i == j {
                held[m as int]
            } else if i <= m {
                held[i - 1]
            } else {
                held[i]
            }) by {}
            assert forall|i: int| 0 <= i < n implies {
                &&& 0 <= #[trigger] source[i] < n
                &&& place[source[i]] == i
                &&& monitors@[i] == start[source[i]]
            } by {
                if i < j {
                    assert(held_place[held_source[i]] == i);
                } else if i == j {
                } else if i <= m {
                    assert(held_place[held_source[i - 1]] == i - 1);
                } else {
                    assert(held_place[held_source[i]] == i);
                }
            }
            assert forall|k: int| 0 <= k < n implies {
                &&& 0 <= #[trigger] place[k] < n
                &&& source[place[k]] == k
            } by {
                assert(held_source[held_place[k]] == k);
            }
            assert forall|a: int, b: int| 0 <= a < b < m + 1 implies !precedes(
                monitors@[b],
                monitors@[a],
            ) by {
                if b > j && a == j && b - 1 > j {
                    assert(!precedes(held[b - 1], held[j as int]));
                }
            }
            assert forall|a: int, b: int|
                0 <= a < b < m + 1 && !precedes(monitors@[a], monitors@[b]) implies source[a]
                < source[b] by {
                if b > j && a == j && b - 1 > j {
                    assert(!precedes(held[b - 1], held[j as int]));
                }
            }
        }
        m += 1;
    }
    let ghost sorted = monitors@;
    let mut i: usize = 0;
    while i < n
        invariant
            i <= n,
            n <= u32::MAX,
            monitors.len() == n,
            sorted.len() == n,
            forall|k: int| 0 <= k < i ==> monitors@[k] == listed_at(sorted[k], k),
            forall|k: int| i <= k < n ==> monitors@[k] == sorted[k],
        decreases n - i,
    {
        monitors[i].index = (i + 1) as u32;
        i += 1;
    }
    proof {
        assert forall|a: int, b: int| 0 <= a < b < n implies !precedes(
            monitors@[b],
            monitors@[a],
        ) by {
            assert(!precedes(sorted[b], sorted[a]));
        }
        assert forall|a: int, b: int|
            0 <= a < b < n && !precedes(monitors@[a], monitors@[b]) implies source[a]
            < source[b] by {
            assert(!precedes(sorted[a], sorted[b]));
        }
    }
    Ghost((source, place))
}

/// Lists the displays in reading order.
///
/// `enumerated` is what the platform reported, in the platform's order; the
/// indices it carries are ignored. The primary display comes first, the others
/// follow from left to right and from top to bottom, and each is numbered by
/// its place, from 1. Where the platform reported nothing, the listing holds
/// the default monitor alone, so it is never empty.
pub fn get_monitors(enumerated: Vec<MonitorInfo>) -> (listed: Vec<MonitorInfo>)
    requires
        enumerated.len() <= u32::MAX,
    ensures
        enumerated.len() == 0 ==> listed.len() == 1 && is_default_monitor(listed@[0]),
        enumerated.len() > 0 ==> exists|source: Seq<int>, place: Seq<int>|
            is_reading_order(listed@, enumerated@, source, place),
{
    let mut listed = enumerated;
    if listed.len() == 0 {
        listed.push(
            MonitorInfo {
                index: 1,
                name: String::from_str("Primary"),
                width: 1920,
                height: 1080,
                x: 0,
                y: 0,
                is_primary: true,
            },
        );
    } else {
        let _ = arrange_monitors(&mut listed);
    }
    listed
}

/// In a listing in reading order every monitor is numbered by its place, and
/// where any display is primary, a primary display is monitor 1.
pub proof fn primary_is_listed_first(
    listed: Seq<MonitorInfo>,
    enumerated: Seq<MonitorInfo>,
    source: Seq<int>,
    place: Seq<int>,
)
    requires
        is_reading_order(listed, enumerated, source, place),
        listed.len() <= u32::MAX,
    ensures
        forall|i: int| 0 <= i < listed.len() ==> (#[trigger] listed[i]).index == i + 1,
        (exists|k: int| 0 <= k < enumerated.len() && enumerated[k].is_primary)
            ==> listed[0].is_primary,
{
    assert forall|i: int| 0 <= i < listed.len() implies (#[trigger] listed[i]).index == i + 1 by {
        assert(listed[i] == listed_at(enumerated[source[i]], i));
    }
    if exists|k: int| 0 <= k < enumerated.len() && enumerated[k].is_primary {
        let k = choose|k: int| 0 <= k < enumerated.len() && enumerated[k].is_primary;
        let at = place[k];
        assert(source[at] == k);
        assert(listed[at].is_primary);
        if at > 0 {
            assert(!precedes(listed[at], listed[0]));
        }
    }
}

/// Describes one enumerated display: its bounds from the corners of its
/// rectangle, the primary flag from the lowest bit of `flags`, and the
/// provisional index `listed_so_far + 1`.
pub fn monitor_from_rect(
    listed_so_far: u32,
    name: String,
    left: i32,
    top: i32,
    right: i32,
    bottom: i32,
    flags: u32,
) -> (monitor: MonitorInfo)
    requires
        listed_so_far < u32::MAX,
        left <= right,
        top <= bottom,
    ensures
        monitor.index == listed_so_far + 1,
        monitor.name == name,
        monitor.x == left,
        monitor.y == top,
        monitor.width == right - left,
        monitor.height == bottom - top,
        monitor.is_primary == (flags & MONITORINFOF_PRIMARY != 0),
{
    MonitorInfo {
        index: listed_so_far + 1,
        name,
        width: (right as i64 - left as i64) as u32,
        height: (bottom as i64 - top as i64) as u32,
        x: left,
        y: top,
        is_primary: (flags & MONITORINFOF_PRIMARY) != 0,
    }
}

/// A listing in reading order is determined by what was enumerated: two such
/// listings of the same displays agree entry by entry.
pub proof fn reading_order_is_unique(
    first: Seq<MonitorInfo>,
    second: Seq<MonitorInfo>,
    enumerated: Seq<MonitorInfo>,
    maps_first: (Seq<int>, Seq<int>),
    maps_second: (Seq<int>, Seq<int>),
)
    requires
        is_reading_order(first, enumerated, maps_first.0, maps_first.1),
        is_reading_order(second, enumerated, maps_second.0, maps_second.1),
    ensures
        first == second,
{
    if enumerated.len() > 0 {
        lemma_same_sources(
            first,
            second,
            enumerated,
            maps_first,
            maps_second,
            enumerated.len() - 1,
        );
    }
    assert forall|i: int| 0 <= i < enumerated.len() implies first[i] == second[i] by {
        assert(maps_first.0[i] == maps_second.0[i]);
    }
    assert(first =~= second);
}

proof fn lemma_same_sources(
    first: Seq<MonitorInfo>,
    second: Seq<MonitorInfo>,
    enumerated: Seq<MonitorInfo>,
    maps_first: (Seq<int>, Seq<int>),
    maps_second: (Seq<int>, Seq<int>),
    upto: int,
)
    requires
        is_reading_order(first, enumerated, maps_first.0, maps_first.1),
        is_reading_order(second, enumerated, maps_second.0, maps_second.1),
        0 <= upto < enumerated.len(),
    ensures
        forall|t: int| 0 <= t <= upto ==> maps_first.0[t] == maps_second.0[t],
    decreases upto,
{
    if upto > 0 {
        lemma_same_sources(first, second, enumerated, maps_first, maps_second, upto - 1);
    }
    let (source_a, place_a) = maps_first;
    let (source_b, place_b) = maps_second;
    let ka = source_a[upto];
    let kb = source_b[upto];
    if ka != kb {
        // Each listing holds the other's monitor somewhere after `upto`.
        let ja = place_a[kb];
        let jb = place_b[ka];
        assert(source_a[ja] == kb && source_b[jb] == ka);
        if ja < upto {
            assert(source_b[ja] == kb);
            assert(place_b[source_b[ja]] == ja);
            assert(place_b[source_b[upto]] == upto);
        }
        if jb < upto {
            assert(source_a[jb] == ka);
            assert(place_a[source_a[jb]] == jb);
            assert(place_a[source_a[upto]] == upto);
        }
        assert(upto < ja && upto < jb);
        assert(first[upto] == listed_at(enumerated[ka], upto));
        assert(first[ja] == listed_at(enumerated[kb], ja));
        assert(second[upto] == listed_at(enumerated[kb], upto));
        assert(second[jb] == listed_at(enumerated[ka], jb));
        assert(!precedes(first[ja], first[upto]));
        assert(!precedes(second[jb], second[upto]));
        assert(!precedes(first[upto], first[ja]));
        assert(!precedes(second[upto], second[jb]));
        assert(false);
    }
}

/// The UTF-16 code units of one character: itself where it fits in 16 bits, a
/// surrogate pair where it does not.
pub open spec fn utf16_units(c: char) -> Seq<u16> {
    let scalar = c as u32 as int;
    if scalar < 0x10000 {
        seq![scalar as u16]
    } else {
        seq![
            (0xD800 + (scalar - 0x10000) / 0x400) as u16,
            (0xDC00 + (scalar - 0x10000) % 0x400) as u16,
        ]
    }
}

/// The UTF-16 encoding of a text.
pub open spec fn utf16_encoding(text: Seq<char>) -> Seq<u16>
    decreases text.len(),
{
    if text.len() == 0 {
        Seq::empty()
    } else {
        utf16_encoding(text.drop_last()) + utf16_units(text.last())
    }
}

/// A text as the platform takes it: UTF-16 with a closing NUL.
pub open spec fn wide_text(text: Seq<char>) -> Seq<u16> {
    utf16_encoding(text).push(0)
}

/// The first place at or after `start` that holds a NUL, or the length of
/// `units` where none does.
pub open spec fn nul_position_from(units: Seq<u16>, start: int) -> int
    decreases units.len() - start,
{
    if start >= units.len() || units[start] == 0 {
        start
    } else {
        nul_position_from(units, start + 1)
    }
}

/// The number of code units in front of the first NUL.
pub open spec fn nul_position(units: Seq<u16>) -> int {
    nul_position_from(units, 0)
}

/// `nul_position` is where the text ends: no NUL stands in front of it, and one
/// stands at it unless the buffer is full.
pub proof fn nul_position_is_first_nul(units: Seq<u16>, start: int)
    requires
        0 <= start <= units.len(),
    ensures
        start <= nul_position_from(units, start) <= units.len(),
        forall|i: int| start <= i < nul_position_from(units, start) ==> units[i] != 0,
        nul_position_from(units, start) < units.len() ==> units[nul_position_from(units, start)]
            == 0,
    decreases units.len() - start,
{
    if start < units.len() && units[start] != 0 {
        nul_position_is_first_nul(units, start + 1);
    }
}

/// The text that `String::from_utf16_lossy` decodes from `units`.
pub uninterp spec fn utf16_lossy_text(units: Seq<u16>) -> Seq<char>;

/// Decodes UTF-16 with `String::from_utf16_lossy` of the standard library,
/// which puts U+FFFD in place of what is not valid UTF-16. The text it returns
/// depends on the code units alone and is known here only by its name,
/// `utf16_lossy_text`.
#[verifier::external_body]
fn decode_utf16_lossy(units: &[u16]) -> (text: String)
    ensures
        text@ == utf16_lossy_text(units@),
{
    String::from_utf16_lossy(units)
}

/// Reads a device name out of a fixed buffer of UTF-16 code units: the text
/// ends in front of the first NUL, or with the buffer.
pub fn wide_to_string(wide: &[u16]) -> (text: String)
    ensures
        text@ == utf16_lossy_text(wide@.take(nul_position(wide@))),
{
    let mut len: usize = 0;
    while len < wide.len() && wide[len] != 0
        invariant
            len <= wide.len(),
            nul_position(wide@) == nul_position_from(wide@, len as int),
        decreases wide.len() - len,
    {
        len += 1;
    }
    let prefix = slice_subrange(wide, 0, len);
    assert(prefix@ =~= wide@.take(len as int));
    decode_utf16_lossy(prefix)
}

/// Encodes a text for the platform: UTF-16 with a closing NUL.
pub fn to_wide(s: &str) -> (wide: Vec<u16>)
    ensures
        wide@ == wide_text(s@),
{
    let count: usize = s.unicode_len();
    let mut wide: Vec<u16> = Vec::new();
    let mut i: usize = 0;
    while i < count
        invariant
            i <= count,
            count == s@.len(),
            wide@ == utf16_encoding(s@.take(i as int)),
        decreases count - i,
    {
        let scalar: u32 = s.get_char(i) as u32;
        proof {
            assert(s@.take(i + 1).drop_last() =~= s@.take(i as int));
            assert(s@.take(i + 1).last() == s@[i as int]);
        }
        if scalar < 0x10000 {
            wide.push(scalar as u16);
        } else {
            let offset: u32 = scalar - 0x10000;
            wide.push((0xD800 + offset / 0x400) as u16);
            wide.push((0xDC00 + offset % 0x400) as u16);
        }
        assert(wide@ =~= utf16_encoding(s@.take(i as int)) + utf16_units(s@[i as int]));
        i += 1;
    }
    assert(s@.take(count as int) =~= s@);
    wide.push(0);
    wide
}

/// The first place at or after `start` whose monitor carries `index`, or the
/// length of the listing where none does.
pub open spec fn monitor_position_from(monitors: Seq<MonitorInfo>, index: u32, start: int) -> int
    decreases monitors.len() - start,
{
    if start >= monitors.len() || monitors[start].index == index {
        start
    } else {
        monitor_position_from(monitors, index, start + 1)
    }
}

/// The place of the first monitor that carries `index`.
pub open spec fn monitor_position(monitors: Seq<MonitorInfo>, index: u32) -> int {
    monitor_position_from(monitors, index, 0)
}

/// `monitor_position_from` finds the first monitor with the index: none in
/// front of it carries the index, and it lies past the listing exactly if no
/// monitor from `start` on carries it.
pub proof fn monitor_position_is_first_match(monitors: Seq<MonitorInfo>, index: u32, start: int)
    requires
        0 <= start <= monitors.len(),
    ensures
        start <= monitor_position_from(monitors, index, start) <= monitors.len(),
        forall|i: int|
            start <= i < monitor_position_from(monitors, index, start) ==> monitors[i].index
                != index,
        monitor_position_from(monitors, index, start) < monitors.len() ==> monitors[monitor_position_from(
            monitors,
            index,
            start,
        )].index == index,
    decreases monitors.len() - start,
{
    if start < monitors.len() && monitors[start].index != index {
        monitor_position_is_first_match(monitors, index, start + 1);
    }
}

/// Where in `monitors` the first monitor with `index` stands.
pub fn find_monitor(monitors: &Vec<MonitorInfo>, index: u32) -> (found: Option<usize>)
    ensures
        match found {
            Some(at) => at < monitors.len() && at == monitor_position(monitors@, index),
            None => monitor_position(monitors@, index) == monitors.len(),
        },
{
    let mut at: usize = 0;
    while at < monitors.len()
        invariant
            at <= monitors.len(),
            monitor_position(monitors@, index) == monitor_position_from(
                monitors@,
                index,
                at as int,
            ),
        decreases monitors.len() - at,
    {
        if monitors[at].index == index {
            return Some(at);
        }
        at += 1;
    }
    None
}

/// The device name of the monitor with `index`, as the platform takes it.
pub fn get_monitor_name_wide(monitors: &Vec<MonitorInfo>, index: u32) -> (name: Option<Vec<u16>>)
    ensures
        match name {
            Some(wide) => {
                &&& monitor_position(monitors@, index) < monitors.len()
                &&& wide@ == wide_text(monitors@[monitor_position(monitors@, index)].name@)
            },
            None => monitor_position(monitors@, index) == monitors.len(),
        },
{
    match find_monitor(monitors, index) {
        Some(at) => Some(to_wide(monitors[at].name.as_str())),
        None => None,
    }
}

/// A gamma ramp on its way to one display.
#[derive(Clone, Debug, PartialEq, Eq)]
pub struct RampRequest {
    /// The display's device name, UTF-16 with a closing NUL.
    pub device: Vec<u16>,
    pub ramp: GammaRamp,
}

/// Prepares the night-vision ramp for the monitor with `monitor_index`.
///
/// Fails with `MonitorNotFound` exactly if `monitors` holds no monitor with
/// that index; otherwise the request names the first such monitor and carries
/// the night curve of `intensity` over `tone` (see `calculate_curve`).
pub fn set_gamma(
    intensity: i32,
    monitor_index: u32,
    monitors: &Vec<MonitorInfo>,
    tone: &[u16; 256],
) -> (request: Result<RampRequest, DisplayError>)
    ensures
        match request {
            Ok(req) => {
                &&& monitor_position(monitors@, monitor_index) < monitors.len()
                &&& req.device@ == wide_text(
                    monitors@[monitor_position(monitors@, monitor_index)].name@,
                )
                &&& req.ramp.is_night_curve(unit(intensity as int), tone@)
            },
            Err(e) => {
                &&& monitor_position(monitors@, monitor_index) == monitors.len()
                &&& e == (DisplayError::MonitorNotFound { index: monitor_index })
            },
        },
{
    match get_monitor_name_wide(monitors, monitor_index) {
        Some(device) => Ok(RampRequest { device, ramp: calculate_curve(intensity, tone) }),
        None => Err(DisplayError::MonitorNotFound { index: monitor_index }),
    }
}

/// Prepares the dimming ramp for the monitor with `monitor_index`.
///
/// Fails with `MonitorNotFound` exactly if `monitors` holds no monitor with
/// that index; otherwise the request names the first such monitor and carries
/// the dimming curve of `brightness` (see `calculate_dim_curve`).
pub fn dim_monitor(brightness: i32, monitor_index: u32, monitors: &Vec<MonitorInfo>) -> (request:
    Result<RampRequest, DisplayError>)
    ensures
        match request {
            Ok(req) => {
                &&& monitor_position(monitors@, monitor_index) < monitors.len()
                &&& req.device@ == wide_text(
                    monitors@[monitor_position(monitors@, monitor_index)].name@,
                )
                &&& req.ramp.is_dim_curve(dim_brightness(brightness as int))
            },
            Err(e) => {
                &&& monitor_position(monitors@, monitor_index) == monitors.len()
                &&& e == (DisplayError::MonitorNotFound { index: monitor_index })
            },
        },
{
    match get_monitor_name_wide(monitors, monitor_index) {
        Some(device) => Ok(RampRequest { device, ramp: calculate_dim_curve(brightness) }),
        None => Err(DisplayError::MonitorNotFound { index: monitor_index }),
    }
}

/// What to report once the platform has been asked to load a ramp.
///
/// `ramp` says which ramp it was, `Rejected::GammaRamp` or `Rejected::DimRamp`.
/// Without a device context nothing was loaded; with one, the driver's answer
/// decides.
pub fn ramp_outcome(ramp: Rejected, context_opened: bool, accepted: bool) -> (outcome: Result<
    (),
    DisplayError,
>)
    ensures
        outcome == (if !context_opened {
            Err(DisplayError::ApplyRejected { what: Rejected::DeviceContext, code: None })
        } else if !accepted {
            Err(DisplayError::ApplyRejected { what: ramp, code: None })
        } else {
            Ok(())
        }),
{
    if !context_opened {
        Err(DisplayError::ApplyRejected { what: Rejected::DeviceContext, code: None })
    } else if !accepted {
        Err(DisplayError::ApplyRejected { what: ramp, code: None })
    } else {
        Ok(())
    }
}

} // verus!
