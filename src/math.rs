//! Integer angle arithmetic and interpolation.
//!
//! Angles are whole degrees (bearings, clockwise from north). Interpolation
//! fractions are written as `num / den` with `0 <= num <= den`.
use vstd::prelude::*;
use vstd::std_specs::cmp::{PartialOrdIs, PartialOrdSpec};

verus! {

/// Degrees in a full turn.
pub const FULL_TURN: i64 = 360;

/// Degrees in half a turn.
pub const HALF_TURN: i64 = 180;

/// Largest magnitude accepted for an angle or interpolated value.
pub const VALUE_LIMIT: i64 = 10_000_000_000;

/// Largest denominator accepted for an interpolation fraction.
pub const FRACTION_LIMIT: i64 = 10_000_000_000_000_000;

/// A value that the functions of this module accept.
pub open spec fn value_ok(a: i64) -> bool {
    -VALUE_LIMIT <= a <= VALUE_LIMIT
}

/// An interpolation fraction `num / den` within `[0, 1]`.
pub open spec fn fraction_ok(num: i64, den: i64) -> bool {
    0 <= num <= den && 0 < den <= FRACTION_LIMIT
}

/// `a` wrapped into `[0, 360)`.
pub open spec fn wrap(a: int) -> int {
    a % 360
}

/// `-1`, `0` or `1` after the sign of `s`.
pub open spec fn sign_of(s: int) -> int {
    if s < 0 {
        -1
    } else if s > 0 {
        1
    } else {
        0
    }
}

/// Signed shortest rotation from `a` to `b`, in `(-180, 180]`: half a turn
/// counts as a turn to the right.
pub open spec fn short_dist(a: int, b: int) -> int {
    180 - wrap(a - b + 180)
}

/// The rotation from `a` to `b` the long way around.
pub open spec fn long_dist(a: int, b: int) -> int {
    short_dist(a, b) - 360 * sign_of(short_dist(a, b))
}

/// `d * num / den`, rounded toward zero.
pub open spec fn scaled(d: int, num: int, den: int) -> int {
    if d >= 0 {
        d * num / den
    } else {
        -((-d) * num / den)
    }
}

/// The value `num / den` of the way from `a` to `b` along a straight line.
pub open spec fn lerp_spec(a: int, b: int, num: int, den: int) -> int {
    a + scaled(b - a, num, den)
}

/// The bearing `num / den` of the way from `a` to `b` along the shortest arc.
pub open spec fn angle_lerp_spec(a: int, b: int, num: int, den: int) -> int {
    wrap(a + scaled(short_dist(a, b), num, den))
}

/// The bearing `num / den` of the way from `a` to `b` along the long arc.
pub open spec fn long_angle_lerp_spec(a: int, b: int, num: int, den: int) -> int {
    wrap(a + scaled(long_dist(a, b), num, den))
}

/// Turning by the shortest rotation from `a` reaches the bearing `b`.
pub proof fn lemma_short_dist_reaches(a: int, b: int)
    ensures
        wrap(a + short_dist(a, b)) == wrap(b),
{
    vstd::arithmetic::div_mod::lemma_fundamental_div_mod(a - b + 180, 360);
    let k = (a - b + 180) / 360;
    assert(a + short_dist(a, b) == b + 360 * k);
    vstd::arithmetic::div_mod::lemma_mod_multiples_vanish(k, b, 360);
}

pub proof fn lemma_scaled_bounds(d: int, num: int, den: int)
    requires
        0 <= num <= den,
        0 < den,
    ensures
        d >= 0 ==> 0 <= scaled(d, num, den) <= d,
        d < 0 ==> d <= scaled(d, num, den) <= 0,
        num == 0 ==> scaled(d, num, den) == 0,
        num == den ==> scaled(d, num, den) == d,
{
    if d >= 0 {
        assert(0 <= d * num <= d * den) by (nonlinear_arith)
            requires
                d >= 0,
                0 <= num <= den,
        ;
        assert(d * num / den <= d * den / den) by (nonlinear_arith)
            requires
                0 <= d * num <= d * den,
                0 < den,
        ;
        assert(d * den / den == d) by (nonlinear_arith)
            requires
                0 < den,
        ;
        assert(0 <= d * num / den) by (nonlinear_arith)
            requires
                0 <= d * num,
                0 < den,
        ;
        if num == den {
            assert(d * num / den == d);
        }
    } else {
        let e = -d;
        assert(0 <= e * num <= e * den) by (nonlinear_arith)
            requires
                e >= 0,
                0 <= num <= den,
        ;
        assert(e * num / den <= e * den / den) by (nonlinear_arith)
            requires
                0 <= e * num <= e * den,
                0 < den,
        ;
        assert(e * den / den == e) by (nonlinear_arith)
            requires
                0 < den,
        ;
        assert(0 <= e * num / den) by (nonlinear_arith)
            requires
                0 <= e * num,
                0 < den,
        ;
        if num == den {
            assert(e * num / den == e);
        }
    }
    if num == 0 {
        assert(d * num == 0) by (nonlinear_arith)
            requires
                num == 0,
        ;
        assert((-d) * num == 0) by (nonlinear_arith)
            requires
                num == 0,
        ;
    }
}

/// `d * num / den`, rounded toward zero.
fn scale(d: i64, num: i64, den: i64) -> (r: i64)
    requires
        -2 * VALUE_LIMIT - 360 <= d <= 2 * VALUE_LIMIT + 360,
        fraction_ok(num, den),
    ensures
        r == scaled(d as int, num as int, den as int),
{
    proof {
        lemma_scaled_bounds(d as int, num as int, den as int);
    }
    let m: i128 = if d >= 0 {
        d as i128
    } else {
        -(d as i128)
    };
    assert(0 <= m * (num as i128) <= m * (den as i128)) by (nonlinear_arith)
        requires
            0 <= m,
            0 <= num <= den,
    ;
    assert(m * (den as i128) <= (2 * VALUE_LIMIT + 360) * FRACTION_LIMIT) by (nonlinear_arith)
        requires
            0 <= m <= 2 * VALUE_LIMIT + 360,
            0 < den <= FRACTION_LIMIT,
    ;
    let q: i128 = (m * (num as i128)) / (den as i128);
    if d >= 0 {
        q as i64
    } else {
        -(q as i64)
    }
}

/// Restricts `val` to the closed range `[min, max]`, by comparisons alone
/// (so it also takes values that are only partially ordered).
pub fn clamp<N: PartialOrd>(val: N, min: N, max: N) -> (r: N)
    ensures
        N::obeys_partial_cmp_spec() ==> r == if val.is_lt(&min) {
            min
        } else if val.is_gt(&max) {
            max
        } else {
            val
        },
{
    if val < min {
        min
    } else if val > max {
        max
    } else {
        val
    }
}

/// Opposite of `clamp`: a value strictly inside `(min, max)` moves to the
/// nearer bound (to `max` from the midpoint on); other values are kept.
pub fn spread(val: i64, min: i64, max: i64) -> (r: i64)
    requires
        min <= max,
    ensures
        r == if val <= min || val >= max {
            val
        } else if 2 * val < min + max {
            min
        } else {
            max
        },
{
    if val <= min || val >= max {
        val
    } else if (val as i128) * 2 < (min as i128) + (max as i128) {
        min
    } else {
        max
    }
}

/// The sign of `s`: `-1`, `1`, or `0` when `s` is zero.
pub fn sign(s: i64) -> (r: i64)
    ensures
        r == sign_of(s as int),
{
    if s < 0 {
        -1
    } else if s > 0 {
        1
    } else {
        0
    }
}

/// The opposite bearing: `invert_bearing(90) == 270`.
pub fn invert_bearing(angle: i64) -> (r: i64)
    requires
        value_ok(angle),
    ensures
        r == if angle >= 180 {
            angle - 180
        } else {
            angle + 180
        },
{
    if angle >= HALF_TURN {
        angle - HALF_TURN
    } else {
        angle + HALF_TURN
    }
}

/// `angle` wrapped into `[0, 360)`.
pub fn degrees_normalize(angle: i64) -> (r: i64)
    ensures
        r == wrap(angle as int),
        0 <= r < 360,
{
    let m: i64 = angle % FULL_TURN;
    if m < 0 {
        m + FULL_TURN
    } else {
        m
    }
}

/// The same direction reached by turning the other way: `angle - 360 * sign(angle)`.
pub fn complement_angle(angle: i64) -> (r: i64)
    requires
        value_ok(angle),
    ensures
        r == angle - 360 * sign_of(angle as int),
{
    angle - FULL_TURN * sign(angle)
}

/// The shortest rotation from `a` to `b`, in `(-180, 180]`. Positive values
/// turn right (clockwise), negative values turn left; half a turn is a
/// right turn.
pub fn short_angle_distance(a: i64, b: i64) -> (r: i64)
    requires
        value_ok(a),
        value_ok(b),
    ensures
        r == short_dist(a as int, b as int),
        -180 < r <= 180,
        wrap(a + r) == wrap(b as int),
{
    proof {
        lemma_short_dist_reaches(a as int, b as int);
    }
    HALF_TURN - degrees_normalize(a - b + HALF_TURN)
}

/// The rotation from `a` to `b` the long way around: the opposite sense to
/// `short_angle_distance`, with magnitude `360 - |short|` (zero when `a`
/// and `b` are the same bearing).
pub fn long_angle_distance(a: i64, b: i64) -> (r: i64)
    requires
        value_ok(a),
        value_ok(b),
    ensures
        r == long_dist(a as int, b as int),
{
    complement_angle(short_angle_distance(a, b))
}

/// The bearing `num / den` of the way from `a` to `b` along the shortest
/// arc, wrapped into `[0, 360)`.
pub fn angle_lerp(a: i64, b: i64, num: i64, den: i64) -> (r: i64)
    requires
        value_ok(a),
        value_ok(b),
        fraction_ok(num, den),
    ensures
        r == angle_lerp_spec(a as int, b as int, num as int, den as int),
        0 <= r < 360,
{
    let d = short_angle_distance(a, b);
    let s = scale(d, num, den);
    proof {
        lemma_scaled_bounds(d as int, num as int, den as int);
    }
    degrees_normalize(a + s)
}

/// The bearing `num / den` of the way from `a` to `b` along the long arc,
/// wrapped into `[0, 360)`.
pub fn long_angle_lerp(a: i64, b: i64, num: i64, den: i64) -> (r: i64)
    requires
        value_ok(a),
        value_ok(b),
        fraction_ok(num, den),
    ensures
        r == long_angle_lerp_spec(a as int, b as int, num as int, den as int),
        0 <= r < 360,
{
    let d = long_angle_distance(a, b);
    let s = scale(d, num, den);
    proof {
        lemma_scaled_bounds(d as int, num as int, den as int);
    }
    degrees_normalize(a + s)
}

/// The value `num / den` of the way from `a` to `b`, rounded toward `a`.
pub fn lerp(a: i64, b: i64, num: i64, den: i64) -> (r: i64)
    requires
        value_ok(a),
        value_ok(b),
        fraction_ok(num, den),
    ensures
        r == lerp_spec(a as int, b as int, num as int, den as int),
{
    let s = scale(b - a, num, den);
    proof {
        lemma_scaled_bounds((b - a) as int, num as int, den as int);
    }
    a + s
}

/// The shortest rotation between two bearings is at most half a turn. The
/// long rotation turns the other way and makes up the rest of the full turn;
/// between equal bearings both are zero.
pub proof fn lemma_angle_distances(a: int, b: int)
    ensures
        -180 < short_dist(a, b) <= 180,
        short_dist(a, b) > 0 ==> long_dist(a, b) < 0 && -long_dist(a, b) == 360 - short_dist(a, b),
        short_dist(a, b) < 0 ==> long_dist(a, b) > 0 && long_dist(a, b) == 360 + short_dist(a, b),
        short_dist(a, b) == 0 ==> long_dist(a, b) == 0,
{
}

/// Interpolating along the shortest arc starts at `a` and ends at `b`
/// (as bearings in `[0, 360)`).
pub proof fn lemma_angle_lerp_ends(a: int, b: int, den: int)
    requires
        0 < den,
    ensures
        angle_lerp_spec(a, b, 0, den) == wrap(a),
        angle_lerp_spec(a, b, den, den) == wrap(b),
{
    lemma_scaled_bounds(short_dist(a, b), 0, den);
    lemma_scaled_bounds(short_dist(a, b), den, den);
    lemma_short_dist_reaches(a, b);
}

/// How an `Interpolator` moves from its start value to its end value.
#[derive(Clone, Copy, Debug, PartialEq, Eq, Structural)]
pub enum InterpolationKind {
    /// A straight line between two values.
    Linear,
    /// The shortest arc between two bearings.
    ShortestArc,
    /// The long arc between two bearings.
    LongestArc,
}

/// The value `num / den` of the way from `from` to `to` by `kind`.
pub open spec fn interpolate(kind: InterpolationKind, from: int, to: int, num: int, den: int) -> int {
    match kind {
        InterpolationKind::Linear => lerp_spec(from, to, num, den),
        InterpolationKind::ShortestArc => angle_lerp_spec(from, to, num, den),
        InterpolationKind::LongestArc => long_angle_lerp_spec(from, to, num, den),
    }
}

/// A transition from `from` to `to` that lasts `duration` time units, of
/// which `time` have passed.
#[derive(Clone, Copy, Debug)]
pub struct Interpolator {
    pub from: i64,
    pub to: i64,
    /// Total duration, in microseconds.
    pub duration: i64,
    /// Time passed, in microseconds; never beyond `duration`.
    pub time: i64,
    pub kind: InterpolationKind,
}

impl Interpolator {
    pub open spec fn wf(&self) -> bool {
        &&& value_ok(self.from)
        &&& value_ok(self.to)
        &&& 0 <= self.time <= self.duration <= FRACTION_LIMIT
    }

    /// The value after `time` has passed: the end value once the
    /// transition is complete.
    pub open spec fn value_spec(&self) -> int {
        if self.time >= self.duration {
            self.to as int
        } else {
            interpolate(self.kind, self.from as int, self.to as int, self.time as int, self.duration as int)
        }
    }

    /// A straight-line transition.
    pub fn new(from: i64, to: i64, duration: i64) -> (r: Self)
        requires
            value_ok(from),
            value_ok(to),
            0 <= duration <= FRACTION_LIMIT,
        ensures
            r.wf(),
            r == (Interpolator { from, to, duration, time: 0, kind: InterpolationKind::Linear }),
    {
        Self::with_fn(from, to, duration, InterpolationKind::Linear)
    }

    /// A transition of the given kind.
    pub fn with_fn(from: i64, to: i64, duration: i64, kind: InterpolationKind) -> (r: Self)
        requires
            value_ok(from),
            value_ok(to),
            0 <= duration <= FRACTION_LIMIT,
        ensures
            r.wf(),
            r == (Interpolator { from, to, duration, time: 0, kind }),
    {
        Interpolator { from, to, duration, time: 0, kind }
    }

    /// The current value, without advancing time.
    pub fn value(&self) -> (r: i64)
        requires
            self.wf(),
        ensures
            r == self.value_spec(),
    {
        if self.time >= self.duration {
            self.to
        } else {
            match self.kind {
                InterpolationKind::Linear => lerp(self.from, self.to, self.time, self.duration),
                InterpolationKind::ShortestArc => angle_lerp(self.from, self.to, self.time, self.duration),
                InterpolationKind::LongestArc => long_angle_lerp(self.from, self.to, self.time, self.duration),
            }
        }
    }

    /// Advances time by `dt` (stopping at the end of the transition) and
    /// returns the value reached.
    pub fn update(&mut self, dt: i64) -> (r: i64)
        requires
            old(self).wf(),
            dt >= 0,
        ensures
            final(self).wf(),
            final(self).time == if old(self).time + dt >= old(self).duration {
                old(self).duration as int
            } else {
                old(self).time + dt
            },
            *final(self) == (Interpolator { time: final(self).time, ..*old(self) }),
            r == final(self).value_spec(),
    {
        if dt >= self.duration - self.time {
            self.time = self.duration;
        } else {
            self.time = self.time + dt;
        }
        self.value()
    }

    /// Whether the transition is complete.
    pub fn is_finished(&self) -> (r: bool)
        ensures
            r == (self.time >= self.duration),
    {
        self.time >= self.duration
    }
}

/// `10` to the power `n`.
pub open spec fn pow10(n: nat) -> nat
    decreases n,
{
    if n == 0 {
        1
    } else {
        10 * pow10((n - 1) as nat)
    }
}

/// `val` rounded to a multiple of `10^sf`, halves rounding up.
pub open spec fn rounded_to(val: int, sf: nat) -> int {
    (val + pow10(sf) as int / 2) / (pow10(sf) as int) * pow10(sf) as int
}

/// Rounds `val` to the nearest multiple of `10^sf` (a half rounds up):
/// `round_to_sf(1499, 3) == 1000`, `round_to_sf(1500, 3) == 2000`.
pub fn round_to_sf(val: u64, sf: u32) -> (r: u64)
    requires
        sf <= 9,
        val <= 1_000_000_000_000_000_000,
    ensures
        r == rounded_to(val as int, sf as nat),
{
    let m: u64 = match sf {
        0 => 1,
        1 => 10,
        2 => 100,
        3 => 1_000,
        4 => 10_000,
        5 => 100_000,
        6 => 1_000_000,
        7 => 10_000_000,
        8 => 100_000_000,
        _ => 1_000_000_000,
    };
    proof {
        reveal_with_fuel(pow10, 10);
    }
    let q: u64 = (val + m / 2) / m;
    proof {
        let t = (val + m / 2) as int;
        let mm = m as int;
        assert((t / mm) * mm <= t) by (nonlinear_arith)
            requires
                mm > 0,
                t >= 0,
        ;
    }
    q * m
}

} // verus!
