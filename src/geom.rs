//! Planar geometry on integer points, in millimetres.
//!
//! Directions are whole-degree bearings, clockwise from north (+y). A unit
//! vector is scaled by `UNIT`.
use vstd::prelude::*;
use crate::math::{value_ok, wrap};

verus! {

/// The length of a unit vector.
pub const UNIT: i64 = 1_000_000;

/// Largest coordinate magnitude accepted by the distance and containment tests.
pub const POINT_LIMIT: i64 = 1_000_000_000_000_000;

/// Largest coordinate magnitude accepted by `rotate_point`.
pub const ROTATE_LIMIT: i64 = 100_000_000_000_000;

/// Largest coordinate magnitude accepted by `distance_line_and_point`.
pub const SEGMENT_LIMIT: i64 = 1_000_000_000;

/// A point (or vector) in the plane; `y` points north.
#[derive(Clone, Copy, Debug, PartialEq, Eq, Structural)]
pub struct Point {
    pub x: i64,
    pub y: i64,
}

/// Both coordinates of `p` lie within `limit`.
pub open spec fn within(p: Point, limit: int) -> bool {
    -limit <= p.x <= limit && -limit <= p.y <= limit
}

pub open spec fn point_ok(p: Point) -> bool {
    within(p, POINT_LIMIT as int)
}

/// The squared Euclidean distance between `p` and `q`.
pub open spec fn dist2(p: Point, q: Point) -> int {
    (p.x - q.x) * (p.x - q.x) + (p.y - q.y) * (p.y - q.y)
}

/// `r` is the square root of `n`, rounded down.
pub open spec fn is_floor_sqrt(r: int, n: int) -> bool {
    0 <= r && r * r <= n < (r + 1) * (r + 1)
}

/// The square root of `n >= 0`, rounded down.
pub open spec fn floor_sqrt(n: int) -> int {
    choose|r: int| is_floor_sqrt(r, n)
}

/// A rounded-down square root is unique, and so is `floor_sqrt`.
pub proof fn lemma_floor_sqrt_unique(r: int, n: int)
    requires
        is_floor_sqrt(r, n),
    ensures
        floor_sqrt(n) == r,
{
    let s = floor_sqrt(n);
    assert(is_floor_sqrt(s, n));
    if s < r {
        assert((s + 1) * (s + 1) <= r * r) by (nonlinear_arith)
            requires
                0 <= s < r,
        ;
    } else if r < s {
        assert((r + 1) * (r + 1) <= s * s) by (nonlinear_arith)
            requires
                0 <= r < s,
        ;
    }
}

pub open spec fn abs_int(x: int) -> int {
    if x < 0 {
        -x
    } else {
        x
    }
}

/// `p` lies within `d` of `q` along each axis.
pub open spec fn near(p: Point, q: Point, d: int) -> bool {
    abs_int(p.x - q.x) <= d && abs_int(p.y - q.y) <= d
}

/// `n / d` rounded toward zero.
pub open spec fn tdiv(n: int, d: int) -> int {
    if n >= 0 {
        n / d
    } else {
        -((-n) / d)
    }
}

/// The sine of whole degrees in the first quadrant, times `UNIT`, rounded.
#[verifier::opaque]
pub open spec fn sine_quadrant_spec(d: i64) -> int {
    match d {
        0 => 0,
        1 => 17452,
        2 => 34899,
        3 => 52336,
        4 => 69756,
        5 => 87156,
        6 => 104528,
        7 => 121869,
        8 => 139173,
        9 => 156434,
        10 => 173648,
        11 => 190809,
        12 => 207912,
        13 => 224951,
        14 => 241922,
        15 => 258819,
        16 => 275637,
        17 => 292372,
        18 => 309017,
        19 => 325568,
        20 => 342020,
        21 => 358368,
        22 => 374607,
        23 => 390731,
        24 => 406737,
        25 => 422618,
        26 => 438371,
        27 => 453990,
        28 => 469472,
        29 => 484810,
        30 => 500000,
        31 => 515038,
        32 => 529919,
        33 => 544639,
        34 => 559193,
        35 => 573576,
        36 => 587785,
        37 => 601815,
        38 => 615661,
        39 => 629320,
        40 => 642788,
        41 => 656059,
        42 => 669131,
        43 => 681998,
        44 => 694658,
        45 => 707107,
        46 => 719340,
        47 => 731354,
        48 => 743145,
        49 => 754710,
        50 => 766044,
        51 => 777146,
        52 => 788011,
        53 => 798636,
        54 => 809017,
        55 => 819152,
        56 => 829038,
        57 => 838671,
        58 => 848048,
        59 => 857167,
        60 => 866025,
        61 => 874620,
        62 => 882948,
        63 => 891007,
        64 => 898794,
        65 => 906308,
        66 => 913545,
        67 => 920505,
        68 => 927184,
        69 => 933580,
        70 => 939693,
        71 => 945519,
        72 => 951057,
        73 => 956305,
        74 => 961262,
        75 => 965926,
        76 => 970296,
        77 => 974370,
        78 => 978148,
        79 => 981627,
        80 => 984808,
        81 => 987688,
        82 => 990268,
        83 => 992546,
        84 => 994522,
        85 => 996195,
        86 => 997564,
        87 => 998630,
        88 => 999391,
        89 => 999848,
        _ => 1000000,
    }
}

/// The sine of a bearing, times `UNIT`.
pub open spec fn sin_deg(h: int) -> int {
    let w = wrap(h);
    if w <= 90 {
        sine_quadrant_spec(w as i64)
    } else if w <= 180 {
        sine_quadrant_spec((180 - w) as i64)
    } else if w <= 270 {
        -sine_quadrant_spec((w - 180) as i64)
    } else {
        -sine_quadrant_spec((360 - w) as i64)
    }
}

/// The cosine of a bearing, times `UNIT`.
pub open spec fn cos_deg(h: int) -> int {
    sin_deg(h + 90)
}

/// The unit vector of a bearing: north is `(0, UNIT)`, east `(UNIT, 0)`.
pub open spec fn heading_vector(h: int) -> Point {
    Point { x: sin_deg(h) as i64, y: cos_deg(h) as i64 }
}

/// Twice the signed area of the triangle `p1, p2, p3`.
pub open spec fn sign_spec(p1: Point, p2: Point, p3: Point) -> int {
    (p1.x - p3.x) * (p2.y - p3.y) - (p2.x - p3.x) * (p1.y - p3.y)
}

/// The three edge tests do not disagree in sign: `p` lies inside the
/// triangle or on its boundary.
pub open spec fn in_triangle(p: Point, t0: Point, t1: Point, t2: Point) -> bool {
    let d1 = sign_spec(p, t0, t1);
    let d2 = sign_spec(p, t1, t2);
    let d3 = sign_spec(p, t2, t0);
    !((d1 < 0 || d2 < 0 || d3 < 0) && (d1 > 0 || d2 > 0 || d3 > 0))
}

/// `point` turned clockwise by `angle` degrees about `origin`.
pub open spec fn rotated(origin: Point, point: Point, angle: int) -> Point {
    let dx = point.x - origin.x;
    let dy = point.y - origin.y;
    Point {
        x: (origin.x + tdiv(dx * cos_deg(angle) + dy * sin_deg(angle), UNIT as int)) as i64,
        y: (origin.y + tdiv(dy * cos_deg(angle) - dx * sin_deg(angle), UNIT as int)) as i64,
    }
}

/// The direction of `p` lies between bearing `h` (included) and `h + 1`
/// (excluded).
pub open spec fn in_sector(p: Point, h: int) -> bool {
    let v = heading_vector(h);
    let w = heading_vector(h + 1);
    &&& v.x * p.y - v.y * p.x <= 0
    &&& w.x * p.y - w.y * p.x > 0
    &&& v.x * p.x + v.y * p.y > 0
}

proof fn lemma_sine_bounds(d: i64)
    requires
        0 <= d <= 90,
    ensures
        0 <= sine_quadrant_spec(d) <= UNIT,
{
    reveal(sine_quadrant_spec);
}

/// Sine and cosine stay within a unit.
pub proof fn lemma_trig_bounds(h: int)
    ensures
        -UNIT <= sin_deg(h) <= UNIT,
        -UNIT <= cos_deg(h) <= UNIT,
{
    let w = wrap(h);
    if w <= 90 {
        lemma_sine_bounds((w) as i64);
    } else if w <= 180 {
        lemma_sine_bounds((180 - w) as i64);
    } else if w <= 270 {
        lemma_sine_bounds((w - 180) as i64);
    } else {
        lemma_sine_bounds((360 - w) as i64);
    }
    let w2 = wrap(h + 90);
    if w2 <= 90 {
        lemma_sine_bounds((w2) as i64);
    } else if w2 <= 180 {
        lemma_sine_bounds((180 - w2) as i64);
    } else if w2 <= 270 {
        lemma_sine_bounds((w2 - 180) as i64);
    } else {
        lemma_sine_bounds((360 - w2) as i64);
    }
}

fn sine_quadrant(d: i64) -> (r: i64)
    requires
        0 <= d <= 90,
    ensures
        r == sine_quadrant_spec(d),
        0 <= r <= UNIT,
{
    proof {
        reveal(sine_quadrant_spec);
    }
    match d {
        0 => 0,
        1 => 17452,
        2 => 34899,
        3 => 52336,
        4 => 69756,
        5 => 87156,
        6 => 104528,
        7 => 121869,
        8 => 139173,
        9 => 156434,
        10 => 173648,
        11 => 190809,
        12 => 207912,
        13 => 224951,
        14 => 241922,
        15 => 258819,
        16 => 275637,
        17 => 292372,
        18 => 309017,
        19 => 325568,
        20 => 342020,
        21 => 358368,
        22 => 374607,
        23 => 390731,
        24 => 406737,
        25 => 422618,
        26 => 438371,
        27 => 453990,
        28 => 469472,
        29 => 484810,
        30 => 500000,
        31 => 515038,
        32 => 529919,
        33 => 544639,
        34 => 559193,
        35 => 573576,
        36 => 587785,
        37 => 601815,
        38 => 615661,
        39 => 629320,
        40 => 642788,
        41 => 656059,
        42 => 669131,
        43 => 681998,
        44 => 694658,
        45 => 707107,
        46 => 719340,
        47 => 731354,
        48 => 743145,
        49 => 754710,
        50 => 766044,
        51 => 777146,
        52 => 788011,
        53 => 798636,
        54 => 809017,
        55 => 819152,
        56 => 829038,
        57 => 838671,
        58 => 848048,
        59 => 857167,
        60 => 866025,
        61 => 874620,
        62 => 882948,
        63 => 891007,
        64 => 898794,
        65 => 906308,
        66 => 913545,
        67 => 920505,
        68 => 927184,
        69 => 933580,
        70 => 939693,
        71 => 945519,
        72 => 951057,
        73 => 956305,
        74 => 961262,
        75 => 965926,
        76 => 970296,
        77 => 974370,
        78 => 978148,
        79 => 981627,
        80 => 984808,
        81 => 987688,
        82 => 990268,
        83 => 992546,
        84 => 994522,
        85 => 996195,
        86 => 997564,
        87 => 998630,
        88 => 999391,
        89 => 999848,
        _ => 1000000,
    }
}

/// The sine of a bearing, times `UNIT`.
pub fn sin_degrees(h: i64) -> (r: i64)
    ensures
        r == sin_deg(h as int),
{
    let w = crate::math::degrees_normalize(h);
    if w <= 90 {
        sine_quadrant(w)
    } else if w <= 180 {
        sine_quadrant(180 - w)
    } else if w <= 270 {
        -sine_quadrant(w - 180)
    } else {
        -sine_quadrant(360 - w)
    }
}

/// The cosine of a bearing, times `UNIT`.
pub fn cos_degrees(h: i64) -> (r: i64)
    requires
        value_ok(h),
    ensures
        r == cos_deg(h as int),
{
    sin_degrees(h + 90)
}

/// `n / d` rounded toward zero.
pub(crate) fn div_toward_zero(n: i128, d: i128) -> (r: i128)
    requires
        d > 0,
        n > i128::MIN,
    ensures
        r == tdiv(n as int, d as int),
{
    if n >= 0 {
        n / d
    } else {
        -((-n) / d)
    }
}

/// The square root of `n`, rounded down.
pub fn isqrt(n: u128) -> (r: u64)
    requires
        n < 0x4000_0000_0000_0000_0000_0000_0000_0000,
    ensures
        is_floor_sqrt(r as int, n as int),
{
    let mut lo: u128 = 0;
    let mut hi: u128 = 0x8000_0000_0000_0000;
    assert(n < hi * hi);
    while hi - lo > 1
        invariant
            lo < hi <= 0x8000_0000_0000_0000,
            lo * lo <= n < hi * hi,
        decreases hi - lo,
    {
        let mid: u128 = lo + (hi - lo) / 2;
        assert(mid * mid <= 0x8000_0000_0000_0000 * 0x8000_0000_0000_0000) by (nonlinear_arith)
            requires
                mid < 0x8000_0000_0000_0000,
        ;
        if mid * mid <= n {
            lo = mid;
        } else {
            hi = mid;
        }
    }
    assert(hi == lo + 1);
    lo as u64
}

/// The Euclidean distance between two points, rounded down.
pub fn point_distance(p1: &Point, p2: &Point) -> (r: u64)
    requires
        point_ok(*p1),
        point_ok(*p2),
    ensures
        is_floor_sqrt(r as int, dist2(*p1, *p2)),
        r == floor_sqrt(dist2(*p1, *p2)),
{
    let dx: i128 = p1.x as i128 - p2.x as i128;
    let dy: i128 = p1.y as i128 - p2.y as i128;
    assert(0 <= dx * dx <= 4 * POINT_LIMIT * POINT_LIMIT) by (nonlinear_arith)
        requires
            -2 * POINT_LIMIT <= dx <= 2 * POINT_LIMIT,
    ;
    assert(0 <= dy * dy <= 4 * POINT_LIMIT * POINT_LIMIT) by (nonlinear_arith)
        requires
            -2 * POINT_LIMIT <= dy <= 2 * POINT_LIMIT,
    ;
    let r = isqrt((dx * dx + dy * dy) as u128);
    proof {
        lemma_floor_sqrt_unique(r as int, dist2(*p1, *p2));
    }
    r
}

/// Whether `point` lies strictly inside the circle: a point on the circle
/// is not inside.
pub fn is_point_in_circle(point: Point, circle_pos: Point, circle_radius: i64) -> (r: bool)
    requires
        point_ok(point),
        point_ok(circle_pos),
        0 <= circle_radius <= POINT_LIMIT,
    ensures
        r == (dist2(point, circle_pos) < circle_radius * circle_radius),
{
    let dx: i128 = point.x as i128 - circle_pos.x as i128;
    let dy: i128 = point.y as i128 - circle_pos.y as i128;
    let rr: i128 = circle_radius as i128;
    assert(0 <= dx * dx <= 4 * POINT_LIMIT * POINT_LIMIT) by (nonlinear_arith)
        requires
            -2 * POINT_LIMIT <= dx <= 2 * POINT_LIMIT,
    ;
    assert(0 <= dy * dy <= 4 * POINT_LIMIT * POINT_LIMIT) by (nonlinear_arith)
        requires
            -2 * POINT_LIMIT <= dy <= 2 * POINT_LIMIT,
    ;
    assert(0 <= rr * rr <= POINT_LIMIT * POINT_LIMIT) by (nonlinear_arith)
        requires
            0 <= rr <= POINT_LIMIT,
    ;
    dx * dx + dy * dy < rr * rr
}

/// Twice the signed area of the triangle `p1, p2, p3`: its sign tells on
/// which side of the line `p2 p3` the point `p1` lies.
pub fn sign(p1: Point, p2: Point, p3: Point) -> (r: i128)
    requires
        point_ok(p1),
        point_ok(p2),
        point_ok(p3),
    ensures
        r == sign_spec(p1, p2, p3),
{
    let ax: i128 = p1.x as i128 - p3.x as i128;
    let ay: i128 = p1.y as i128 - p3.y as i128;
    let bx: i128 = p2.x as i128 - p3.x as i128;
    let by: i128 = p2.y as i128 - p3.y as i128;
    assert(-4 * POINT_LIMIT * POINT_LIMIT <= ax * by <= 4 * POINT_LIMIT * POINT_LIMIT) by (nonlinear_arith)
        requires
            -2 * POINT_LIMIT <= ax <= 2 * POINT_LIMIT,
            -2 * POINT_LIMIT <= by <= 2 * POINT_LIMIT,
    ;
    assert(-4 * POINT_LIMIT * POINT_LIMIT <= bx * ay <= 4 * POINT_LIMIT * POINT_LIMIT) by (nonlinear_arith)
        requires
            -2 * POINT_LIMIT <= ay <= 2 * POINT_LIMIT,
            -2 * POINT_LIMIT <= bx <= 2 * POINT_LIMIT,
    ;
    ax * by - bx * ay
}

/// Whether `point` lies inside `triangle` (or on its boundary): the three
/// edge tests do not disagree in sign.
pub fn is_point_in_triangle(point: Point, triangle: &[Point; 3]) -> (r: bool)
    requires
        point_ok(point),
        point_ok(triangle[0]),
        point_ok(triangle[1]),
        point_ok(triangle[2]),
    ensures
        r == in_triangle(point, triangle[0], triangle[1], triangle[2]),
{
    let d1 = sign(point, triangle[0], triangle[1]);
    let d2 = sign(point, triangle[1], triangle[2]);
    let d3 = sign(point, triangle[2], triangle[0]);

    let has_neg = d1 < 0 || d2 < 0 || d3 < 0;
    let has_pos = d1 > 0 || d2 > 0 || d3 > 0;

    !(has_neg && has_pos)
}

proof fn lemma_tdiv_bound(n: int, d: int, b: int)
    requires
        0 < d,
        0 <= b,
        -(b * d) <= n <= b * d,
    ensures
        -b <= tdiv(n, d) <= b,
{
    if n >= 0 {
        assert(n / d <= (b * d) / d) by (nonlinear_arith)
            requires
                0 <= n <= b * d,
                0 < d,
        ;
        assert((b * d) / d == b) by (nonlinear_arith)
            requires
                0 < d,
        ;
        assert(0 <= n / d) by (nonlinear_arith)
            requires
                0 <= n,
                0 < d,
        ;
    } else {
        assert((-n) / d <= (b * d) / d) by (nonlinear_arith)
            requires
                0 <= -n <= b * d,
                0 < d,
        ;
        assert((b * d) / d == b) by (nonlinear_arith)
            requires
                0 < d,
        ;
        assert(0 <= (-n) / d) by (nonlinear_arith)
            requires
                0 <= -n,
                0 < d,
        ;
    }
}

/// The unit vector of a bearing: 0 is north `(0, UNIT)`, 90 is east
/// `(UNIT, 0)`, increasing clockwise.
pub fn heading_to_point(heading: i64) -> (r: Point)
    requires
        value_ok(heading),
    ensures
        r == heading_vector(heading as int),
        -UNIT <= r.x <= UNIT,
        -UNIT <= r.y <= UNIT,
{
    proof {
        lemma_trig_bounds(heading as int);
    }
    Point { x: sin_degrees(heading), y: cos_degrees(heading) }
}

/// Turns `point` clockwise about `origin` by `angle` degrees.
pub fn rotate_point(origin: Point, point: Point, angle: i64) -> (r: Point)
    requires
        within(origin, ROTATE_LIMIT as int),
        within(point, ROTATE_LIMIT as int),
        value_ok(angle),
    ensures
        r == rotated(origin, point, angle as int),
        within(r, 5 * ROTATE_LIMIT),
        near(r, origin, abs_int(point.x - origin.x) + abs_int(point.y - origin.y)),
{
    proof {
        lemma_trig_bounds(angle as int);
    }
    let c: i128 = cos_degrees(angle) as i128;
    let s: i128 = sin_degrees(angle) as i128;
    let dx: i128 = point.x as i128 - origin.x as i128;
    let dy: i128 = point.y as i128 - origin.y as i128;
    let b: i128 = 2 * ROTATE_LIMIT as i128;
    assert(-b * UNIT <= dx * c <= b * UNIT && -b * UNIT <= dx * s <= b * UNIT) by (nonlinear_arith)
        requires
            -b <= dx <= b,
            -UNIT <= c <= UNIT,
            -UNIT <= s <= UNIT,
            b > 0,
    ;
    assert(-b * UNIT <= dy * c <= b * UNIT && -b * UNIT <= dy * s <= b * UNIT) by (nonlinear_arith)
        requires
            -b <= dy <= b,
            -UNIT <= c <= UNIT,
            -UNIT <= s <= UNIT,
            b > 0,
    ;
    let nx: i128 = div_toward_zero(dx * c + dy * s, UNIT as i128);
    let ny: i128 = div_toward_zero(dy * c - dx * s, UNIT as i128);
    proof {
        let e = abs_int(dx as int) + abs_int(dy as int);
        assert(-(abs_int(dx as int) * UNIT) <= dx * c <= abs_int(dx as int) * UNIT
            && -(abs_int(dx as int) * UNIT) <= dx * s <= abs_int(dx as int) * UNIT) by (nonlinear_arith)
            requires
                -UNIT <= c <= UNIT,
                -UNIT <= s <= UNIT,
                abs_int(dx as int) == if dx < 0 { -dx } else { dx as int },
        ;
        assert(-(abs_int(dy as int) * UNIT) <= dy * c <= abs_int(dy as int) * UNIT
            && -(abs_int(dy as int) * UNIT) <= dy * s <= abs_int(dy as int) * UNIT) by (nonlinear_arith)
            requires
                -UNIT <= c <= UNIT,
                -UNIT <= s <= UNIT,
                abs_int(dy as int) == if dy < 0 { -dy } else { dy as int },
        ;
        assert(e * UNIT == abs_int(dx as int) * UNIT + abs_int(dy as int) * UNIT) by (nonlinear_arith)
            requires
                e == abs_int(dx as int) + abs_int(dy as int),
        ;
        lemma_tdiv_bound(dx * c + dy * s, UNIT as int, e);
        lemma_tdiv_bound(dy * c - dx * s, UNIT as int, e);
    }
    Point { x: (origin.x as i128 + nx) as i64, y: (origin.y as i128 + ny) as i64 }
}

/// Turns each of `points` clockwise about `origin` by `angle` degrees.
pub fn rotate_points(origin: Point, points: &[Point], angle: i64) -> (r: Vec<Point>)
    requires
        within(origin, ROTATE_LIMIT as int),
        forall|i: int| 0 <= i < points@.len() ==> within(#[trigger] points@[i], ROTATE_LIMIT as int),
        value_ok(angle),
    ensures
        r@.len() == points@.len(),
        forall|i: int| 0 <= i < points@.len() ==> #[trigger] r@[i] == rotated(origin, points@[i], angle as int),
{
    let mut out: Vec<Point> = Vec::new();
    let mut i: usize = 0;
    while i < points.len()
        invariant
            within(origin, ROTATE_LIMIT as int),
            forall|i: int| 0 <= i < points@.len() ==> within(#[trigger] points@[i], ROTATE_LIMIT as int),
            value_ok(angle),
            i <= points@.len(),
            out@.len() == i,
            forall|j: int| 0 <= j < i ==> #[trigger] out@[j] == rotated(origin, points@[j], angle as int),
        decreases points@.len() - i,
    {
        assert(within(points@[i as int], ROTATE_LIMIT as int));
        out.push(rotate_point(origin, points[i], angle));
        i = i + 1;
    }
    out
}

fn sector_contains(p: Point, h: i64) -> (r: bool)
    requires
        point_ok(p),
        0 <= h < 360,
    ensures
        r == in_sector(p, h as int),
{
    let v = heading_to_point(h);
    let w = heading_to_point(h + 1);
    let px: i128 = p.x as i128;
    let py: i128 = p.y as i128;
    let (vx, vy, wx, wy) = (v.x as i128, v.y as i128, w.x as i128, w.y as i128);
    let l: i128 = POINT_LIMIT as i128;
    assert(-l * UNIT <= vx * py <= l * UNIT && -l * UNIT <= vy * px <= l * UNIT
        && -l * UNIT <= vx * px <= l * UNIT && -l * UNIT <= vy * py <= l * UNIT) by (nonlinear_arith)
        requires
            -l <= px <= l,
            -l <= py <= l,
            -UNIT <= vx <= UNIT,
            -UNIT <= vy <= UNIT,
            l > 0,
    ;
    assert(-l * UNIT <= wx * py <= l * UNIT && -l * UNIT <= wy * px <= l * UNIT) by (nonlinear_arith)
        requires
            -l <= px <= l,
            -l <= py <= l,
            -UNIT <= wx <= UNIT,
            -UNIT <= wy <= UNIT,
            l > 0,
    ;
    vx * py - vy * px <= 0 && wx * py - wy * px > 0 && vx * px + vy * py > 0
}

/// The bearing of the vector `p`, rounded down to whole degrees: the first
/// bearing whose sector holds the direction of `p`, or 0 where none does
/// (the zero vector).
pub fn point_to_heading(p: Point) -> (r: i64)
    requires
        point_ok(p),
    ensures
        0 <= r < 360,
        forall|k: int| 0 <= k < r ==> !#[trigger] in_sector(p, k),
        in_sector(p, r as int) || (r == 0 && forall|k: int| 0 <= k < 360 ==> !#[trigger] in_sector(p, k)),
{
    let mut h: i64 = 0;
    while h < 360
        invariant
            point_ok(p),
            0 <= h <= 360,
            forall|k: int| 0 <= k < h ==> !#[trigger] in_sector(p, k),
        decreases 360 - h,
    {
        if sector_contains(p, h) {
            return h;
        }
        h = h + 1;
    }
    0
}

/// `r` is the distance from `p` to the closest point of the segment `v w`,
/// rounded down (0 for a segment of zero length): to an end when `p` lies
/// beyond it, else across to the segment's line.
pub open spec fn segment_distance(v: Point, w: Point, p: Point, r: int) -> bool {
    let l2 = dist2(w, v);
    let t = (p.x - v.x) * (w.x - v.x) + (p.y - v.y) * (w.y - v.y);
    let c = (w.x - v.x) * (p.y - v.y) - (w.y - v.y) * (p.x - v.x);
    if l2 == 0 {
        r == 0
    } else if t <= 0 {
        is_floor_sqrt(r, dist2(p, v))
    } else if t >= l2 {
        is_floor_sqrt(r, dist2(p, w))
    } else {
        is_floor_sqrt(r, c * c / l2)
    }
}

/// The distance from `p` to the closest point of the segment `line`,
/// rounded down; 0 for a segment of zero length.
pub fn distance_line_and_point(line: &[Point; 2], p: &Point) -> (r: u64)
    requires
        within(line[0], SEGMENT_LIMIT as int),
        within(line[1], SEGMENT_LIMIT as int),
        within(*p, SEGMENT_LIMIT as int),
    ensures
        segment_distance(line[0], line[1], *p, r as int),
{
    let v = line[0];
    let w = line[1];
    let ex: i128 = w.x as i128 - v.x as i128;
    let ey: i128 = w.y as i128 - v.y as i128;
    let fx: i128 = p.x as i128 - v.x as i128;
    let fy: i128 = p.y as i128 - v.y as i128;
    let b: i128 = 2 * SEGMENT_LIMIT as i128;
    assert(b * b == 4_000_000_000_000_000_000) by (nonlinear_arith)
        requires
            b == 2_000_000_000,
    ;
    assert(0 <= ex * ex <= b * b && 0 <= ey * ey <= b * b) by (nonlinear_arith)
        requires
            -b <= ex <= b,
            -b <= ey <= b,
    ;
    assert(-b * b <= fx * ex <= b * b && -b * b <= fy * ey <= b * b) by (nonlinear_arith)
        requires
            -b <= ex <= b,
            -b <= ey <= b,
            -b <= fx <= b,
            -b <= fy <= b,
    ;
    assert(-b * b <= ex * fy <= b * b && -b * b <= ey * fx <= b * b) by (nonlinear_arith)
        requires
            -b <= ex <= b,
            -b <= ey <= b,
            -b <= fx <= b,
            -b <= fy <= b,
    ;
    let l2: i128 = ex * ex + ey * ey;
    let t: i128 = fx * ex + fy * ey;
    if l2 == 0 {
        0
    } else if t <= 0 {
        point_distance(p, &v)
    } else if t >= l2 {
        point_distance(p, &w)
    } else {
        let c: i128 = ex * fy - ey * fx;
        assert(0 <= c * c <= 4 * b * b * b * b) by (nonlinear_arith)
            requires
                -2 * b * b <= c <= 2 * b * b,
        ;
        let q: i128 = (c * c) / l2;
        proof {
            let cc = c * c;
            assert(cc / (l2 as int) <= cc) by (nonlinear_arith)
                requires
                    l2 >= 1,
                    cc >= 0,
            ;
        }
        isqrt(q as u128)
    }
}

/// A point lies inside any circle of positive radius centred on it, and a
/// point at exactly the radius does not.
pub proof fn lemma_circle_centre_and_boundary(center: Point, p: Point, radius: int)
    requires
        radius > 0,
    ensures
        dist2(center, center) < radius * radius,
        dist2(p, center) == radius * radius ==> !(dist2(p, center) < radius * radius),
{
    assert(radius * radius > 0) by (nonlinear_arith)
        requires
            radius > 0,
    ;
}

/// The centroid of a triangle that is not degenerate lies inside it.
pub proof fn lemma_centroid_in_triangle(t0: Point, t1: Point, t2: Point, c: Point)
    requires
        sign_spec(t0, t1, t2) != 0,
        3 * c.x == t0.x + t1.x + t2.x,
        3 * c.y == t0.y + t1.y + t2.y,
    ensures
        in_triangle(c, t0, t1, t2),
{
    let d = sign_spec(t0, t1, t2);
    assert(3 * sign_spec(c, t0, t1) == d) by (nonlinear_arith)
        requires
            3 * c.x == t0.x + t1.x + t2.x,
            3 * c.y == t0.y + t1.y + t2.y,
            d == sign_spec(t0, t1, t2),
    ;
    assert(3 * sign_spec(c, t1, t2) == d) by (nonlinear_arith)
        requires
            3 * c.x == t0.x + t1.x + t2.x,
            3 * c.y == t0.y + t1.y + t2.y,
            d == sign_spec(t0, t1, t2),
    ;
    assert(3 * sign_spec(c, t2, t0) == d) by (nonlinear_arith)
        requires
            3 * c.x == t0.x + t1.x + t2.x,
            3 * c.y == t0.y + t1.y + t2.y,
            d == sign_spec(t0, t1, t2),
    ;
}

proof fn lemma_weights_stay_inside(w0: int, w1: int, w2: int, x0: int, x1: int, x2: int, px: int)
    requires
        w0 >= 0 && w1 >= 0 && w2 >= 0,
        w0 + w1 + w2 > 0,
        x0 < px && x1 < px && x2 < px,
    ensures
        w0 * x0 + w1 * x1 + w2 * x2 < (w0 + w1 + w2) * px,
{
    assert(w0 * x0 <= w0 * px) by (nonlinear_arith)
        requires
            w0 >= 0,
            x0 < px,
    ;
    assert(w1 * x1 <= w1 * px) by (nonlinear_arith)
        requires
            w1 >= 0,
            x1 < px,
    ;
    assert(w2 * x2 <= w2 * px) by (nonlinear_arith)
        requires
            w2 >= 0,
            x2 < px,
    ;
    if w0 > 0 {
        assert(w0 * x0 < w0 * px) by (nonlinear_arith)
            requires
                w0 > 0,
                x0 < px,
        ;
    } else if w1 > 0 {
        assert(w1 * x1 < w1 * px) by (nonlinear_arith)
            requires
                w1 > 0,
                x1 < px,
        ;
    } else {
        assert(w2 * x2 < w2 * px) by (nonlinear_arith)
            requires
                w2 > 0,
                x2 < px,
        ;
    }
    assert((w0 + w1 + w2) * px == w0 * px + w1 * px + w2 * px) by (nonlinear_arith);
}

proof fn lemma_not_weighted_mean(w0: int, w1: int, w2: int, x0: int, x1: int, x2: int, px: int)
    requires
        (w0 >= 0 && w1 >= 0 && w2 >= 0) || (w0 <= 0 && w1 <= 0 && w2 <= 0),
        w0 + w1 + w2 != 0,
        (x0 < px && x1 < px && x2 < px) || (x0 > px && x1 > px && x2 > px),
    ensures
        w0 * x0 + w1 * x1 + w2 * x2 != (w0 + w1 + w2) * px,
{
    if w0 >= 0 && w1 >= 0 && w2 >= 0 {
        if x0 < px && x1 < px && x2 < px {
            lemma_weights_stay_inside(w0, w1, w2, x0, x1, x2, px);
        } else {
            lemma_weights_stay_inside(w0, w1, w2, -x0, -x1, -x2, -px);
            assert(w0 * (-x0) + w1 * (-x1) + w2 * (-x2) == -(w0 * x0 + w1 * x1 + w2 * x2))
                by (nonlinear_arith);
            assert((w0 + w1 + w2) * (-px) == -((w0 + w1 + w2) * px)) by (nonlinear_arith);
        }
    } else {
        if x0 < px && x1 < px && x2 < px {
            lemma_weights_stay_inside(-w0, -w1, -w2, x0, x1, x2, px);
            assert((-w0) * x0 + (-w1) * x1 + (-w2) * x2 == -(w0 * x0 + w1 * x1 + w2 * x2))
                by (nonlinear_arith);
            assert((-w0 + -w1 + -w2) * px == -((w0 + w1 + w2) * px)) by (nonlinear_arith);
        } else {
            lemma_weights_stay_inside(-w0, -w1, -w2, -x0, -x1, -x2, -px);
            assert((-w0) * (-x0) + (-w1) * (-x1) + (-w2) * (-x2) == w0 * x0 + w1 * x1 + w2 * x2)
                by (nonlinear_arith);
            assert((-w0 + -w1 + -w2) * (-px) == (w0 + w1 + w2) * px) by (nonlinear_arith);
        }
    }
}

proof fn lemma_cross_sums(ax: int, ay: int, bx: int, by: int, cx: int, cy: int)
    ensures
        (ax * by - bx * ay) + (bx * cy - cx * by) + (cx * ay - ax * cy) == (ax - cx) * (by - cy) - (bx
            - cx) * (ay - cy),
        (bx * cy - cx * by) * ax + (cx * ay - ax * cy) * bx + (ax * by - bx * ay) * cx == 0,
        (bx * cy - cx * by) * ay + (cx * ay - ax * cy) * by + (ax * by - bx * ay) * cy == 0,
{
    assert((ax * by - bx * ay) + (bx * cy - cx * by) + (cx * ay - ax * cy) == (ax - cx) * (by - cy)
        - (bx - cx) * (ay - cy)) by (nonlinear_arith);
    assert((bx * cy - cx * by) * ax + (cx * ay - ax * cy) * bx + (ax * by - bx * ay) * cx == 0)
        by (nonlinear_arith);
    assert((bx * cy - cx * by) * ay + (cx * ay - ax * cy) * by + (ax * by - bx * ay) * cy == 0)
        by (nonlinear_arith);
}

/// A point beyond the bounding box of a triangle that is not degenerate
/// (further east, west, north or south than all three corners) lies
/// outside the triangle.
pub proof fn lemma_outside_bounding_box(t0: Point, t1: Point, t2: Point, p: Point)
    requires
        sign_spec(t0, t1, t2) != 0,
        (p.x > t0.x && p.x > t1.x && p.x > t2.x) || (p.x < t0.x && p.x < t1.x && p.x < t2.x)
            || (p.y > t0.y && p.y > t1.y && p.y > t2.y) || (p.y < t0.y && p.y < t1.y && p.y < t2.y),
    ensures
        !in_triangle(p, t0, t1, t2),
{
    let (ax, ay) = (t0.x - p.x, t0.y - p.y);
    let (bx, by) = (t1.x - p.x, t1.y - p.y);
    let (cx, cy) = (t2.x - p.x, t2.y - p.y);
    let d = sign_spec(t0, t1, t2);
    let d1 = sign_spec(p, t0, t1);
    let d2 = sign_spec(p, t1, t2);
    let d3 = sign_spec(p, t2, t0);
    assert(d1 == ax * by - bx * ay) by (nonlinear_arith)
        requires
            d1 == sign_spec(p, t0, t1),
            ax == t0.x - p.x,
            ay == t0.y - p.y,
            bx == t1.x - p.x,
            by == t1.y - p.y,
    ;
    assert(d2 == bx * cy - cx * by) by (nonlinear_arith)
        requires
            d2 == sign_spec(p, t1, t2),
            cx == t2.x - p.x,
            cy == t2.y - p.y,
            bx == t1.x - p.x,
            by == t1.y - p.y,
    ;
    assert(d3 == cx * ay - ax * cy) by (nonlinear_arith)
        requires
            d3 == sign_spec(p, t2, t0),
            ax == t0.x - p.x,
            ay == t0.y - p.y,
            cx == t2.x - p.x,
            cy == t2.y - p.y,
    ;
    assert(d == (ax - cx) * (by - cy) - (bx - cx) * (ay - cy)) by (nonlinear_arith)
        requires
            d == sign_spec(t0, t1, t2),
            ax == t0.x - p.x,
            ay == t0.y - p.y,
            bx == t1.x - p.x,
            by == t1.y - p.y,
            cx == t2.x - p.x,
            cy == t2.y - p.y,
    ;
    lemma_cross_sums(ax, ay, bx, by, cx, cy);
    if in_triangle(p, t0, t1, t2) {
        if (p.x > t0.x && p.x > t1.x && p.x > t2.x) || (p.x < t0.x && p.x < t1.x && p.x < t2.x) {
            lemma_not_weighted_mean(d2, d3, d1, ax, bx, cx, 0);
        } else {
            lemma_not_weighted_mean(d2, d3, d1, ay, by, cy, 0);
        }
    }
}

} // verus!
