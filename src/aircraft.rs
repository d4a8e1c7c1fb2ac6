//! Aircraft, their commanded parameters, and the runways they land on.
use vstd::prelude::*;
use crate::math::{
    clamp, degrees_normalize, lemma_scaled_bounds, long_angle_distance, long_dist, short_angle_distance,
    short_dist, value_ok, wrap, InterpolationKind, Interpolator, FRACTION_LIMIT,
};
use crate::geom::{
    abs_int, dist2, floor_sqrt, in_triangle, is_point_in_circle, is_point_in_triangle, near,
    point_distance, rotate_point, rotated, within, Point,
};
use crate::text::{to_upper, upper_of};

verus! {

/// Speed limits of an airframe, in knots.
#[derive(Clone, Copy, Debug)]
pub struct AircraftDefinition {
    pub max_speed: u32,
    pub min_speed: u32,
}

/// The phase of flight of an aircraft.
#[derive(Clone, Copy, Debug, PartialEq, Eq, Structural)]
pub enum AircraftStatus {
    Taxi,
    Takeoff,
    Landing,
    Landed,
    Flight,
}

/// A flight callsign: airline code and flight number, with the airline's
/// spoken name.
#[derive(Clone, Debug)]
pub struct Callsign {
    pub name: String,
    pub code: String,
    pub number: String,
}

/// Two callsigns name the same flight: code and number agree.
pub open spec fn same_flight(a: Callsign, b: Callsign) -> bool {
    a.code@ == b.code@ && a.number@ == b.number@
}

impl PartialEq for Callsign {
    fn eq(&self, other: &Callsign) -> (r: bool)
        ensures
            r == same_flight(*self, *other),
    {
        self.code == other.code && self.number == other.number
    }
}

impl vstd::std_specs::cmp::PartialEqSpecImpl for Callsign {
    open spec fn obeys_eq_spec() -> bool {
        true
    }

    open spec fn eq_spec(&self, other: &Callsign) -> bool {
        same_flight(*self, *other)
    }
}

impl Callsign {
    /// The coded form: code then number, as in `CYP2202`.
    pub fn coded(&self) -> (r: String)
        ensures
            r@ == self.code@ + self.number@,
    {
        self.code.clone().concat(self.number.as_str())
    }

    /// The spoken form: name, a space, then number.
    pub fn spoken(&self) -> (r: String)
        ensures
            r@ == self.name@ + seq![' '] + self.number@,
    {
        proof {
            reveal_strlit(" ");
        }
        self.name.clone().concat(" ").concat(self.number.as_str())
    }

    /// A copy of this callsign.
    pub fn copy(&self) -> (r: Callsign)
        ensures
            r.name@ == self.name@,
            r.code@ == self.code@,
            r.number@ == self.number@,
    {
        Callsign { name: self.name.clone(), code: self.code.clone(), number: self.number.clone() }
    }

    /// Reads an already upper-cased callsign: more than three characters,
    /// the first three the code and the rest the number. The name is empty.
    pub fn from_uppercased(s: &str) -> (r: Option<Callsign>)
        ensures
            r.is_some() == (s@.len() > 3),
            r.is_some() ==> r.unwrap().code@ == s@.subrange(0, 3) && r.unwrap().number@ == s@.subrange(
                3,
                s@.len() as int,
            ) && r.unwrap().name@.len() == 0,
    {
        let n = s.unicode_len();
        if n > 3 {
            let code = String::from_str(s.substring_char(0, 3));
            let number = String::from_str(s.substring_char(3, n));
            Some(Callsign { name: String::new(), code, number })
        } else {
            None
        }
    }

    /// Reads a callsign after upper-casing `s`.
    pub fn from_string(s: String) -> (r: Option<Callsign>)
        ensures
            r.is_some() == (upper_of(s@).len() > 3),
            r.is_some() ==> r.unwrap().code@ == upper_of(s@).subrange(0, 3) && r.unwrap().number@
                == upper_of(s@).subrange(3, upper_of(s@).len() as int),
    {
        let upper = to_upper(s.as_str());
        Self::from_uppercased(upper.as_str())
    }
}

/// The way a turn is made.
#[derive(Clone, Copy, Debug, PartialEq, Eq, Structural)]
pub enum TurnDirection {
    Left,
    Right,
}

impl TurnDirection {
    pub open spec fn word(self) -> Seq<char> {
        match self {
            TurnDirection::Left => seq!['l', 'e', 'f', 't'],
            TurnDirection::Right => seq!['r', 'i', 'g', 'h', 't'],
        }
    }

    /// `left` or `right`.
    pub fn as_string(&self) -> (r: String)
        ensures
            r@ == self.word(),
    {
        match self {
            TurnDirection::Left => {
                proof {
                    reveal_strlit("left");
                }
                String::from_str("left")
            },
            TurnDirection::Right => {
                proof {
                    reveal_strlit("right");
                }
                String::from_str("right")
            },
        }
    }
}

/// Whether a turn from `from` to `to` must go the long way round to turn in
/// the commanded direction.
pub open spec fn flips(from: int, to: int, direction: Option<TurnDirection>) -> bool {
    match direction {
        None => false,
        Some(TurnDirection::Left) => short_dist(from, to) > 0,
        Some(TurnDirection::Right) => short_dist(from, to) < 0,
    }
}

/// The signed rotation a turn from `from` to `to` makes.
pub open spec fn turn_path(from: int, to: int, direction: Option<TurnDirection>) -> int {
    if flips(from, to, direction) {
        long_dist(from, to)
    } else {
        short_dist(from, to)
    }
}

/// Largest time per unit of change that a parameter accepts.
pub const RATE_LIMIT: i64 = 1_000_000_000;

/// A heading that turns toward its intended bearing over time.
#[derive(Clone, Copy, Debug)]
pub struct HeadingParameter {
    pub intended: i64,
    pub current: i64,
    pub interpolator: Option<Interpolator>,
}

impl HeadingParameter {
    /// Bearings in `[0, 360)`; with no transition, the current bearing is the
    /// intended one, and with one, it is where the transition stands.
    pub open spec fn wf(&self) -> bool {
        &&& 0 <= self.intended < 360
        &&& 0 <= self.current < 360
        &&& match self.interpolator {
            None => self.current == self.intended,
            Some(i) => {
                &&& i.wf()
                &&& i.to == self.intended
                &&& i.kind != InterpolationKind::Linear
                &&& self.current == i.value_spec()
            },
        }
    }

    /// The state after a new intended bearing is commanded: nothing changes
    /// when it is the one already intended.
    pub open spec fn changed(self, intended: i64, rate: i64, direction: Option<TurnDirection>) -> Self {
        if intended == self.intended {
            self
        } else {
            let flip = flips(self.current as int, intended as int, direction);
            let path = turn_path(self.current as int, intended as int, direction);
            HeadingParameter {
                intended,
                current: self.current,
                interpolator: Some(
                    Interpolator {
                        from: self.current,
                        to: intended,
                        duration: (abs_int(path) * rate) as i64,
                        time: 0,
                        kind: if flip {
                            InterpolationKind::LongestArc
                        } else {
                            InterpolationKind::ShortestArc
                        },
                    },
                ),
            }
        }
    }

    /// The state after `dt` more time has passed.
    pub open spec fn advanced(self, dt: i64) -> Self {
        match self.interpolator {
            Some(i) => if i.time >= i.duration {
                self
            } else {
                let j = advanced_interpolator(i, dt);
                HeadingParameter { current: j.value_spec() as i64, interpolator: Some(j), ..self }
            },
            None => self,
        }
    }

    /// A heading resting at `current`.
    pub fn new(current: i64) -> (r: Self)
        requires
            0 <= current < 360,
        ensures
            r.wf(),
            r == (HeadingParameter { intended: current, current, interpolator: None }),
    {
        HeadingParameter { intended: current, current, interpolator: None }
    }

    /// Commands a new bearing along the shortest arc; `rate` is the time
    /// per degree turned.
    pub fn change(&mut self, intended: i64, rate: i64)
        requires
            old(self).wf(),
            0 <= intended < 360,
            1 <= rate <= RATE_LIMIT,
        ensures
            final(self).wf(),
            *final(self) == old(self).changed(intended, rate, None),
    {
        self.change_with(intended, rate, None)
    }

    /// Commands a new bearing, turning the way `direction` says (the long
    /// way round where the shortest arc turns the other way).
    pub fn change_with_turn(&mut self, intended: i64, rate: i64, direction: TurnDirection)
        requires
            old(self).wf(),
            0 <= intended < 360,
            1 <= rate <= RATE_LIMIT,
        ensures
            final(self).wf(),
            *final(self) == old(self).changed(intended, rate, Some(direction)),
    {
        self.change_with(intended, rate, Some(direction))
    }

    fn change_with(&mut self, intended: i64, rate: i64, direction: Option<TurnDirection>)
        requires
            old(self).wf(),
            0 <= intended < 360,
            1 <= rate <= RATE_LIMIT,
        ensures
            final(self).wf(),
            *final(self) == old(self).changed(intended, rate, direction),
    {
        if self.intended != intended {
            let d = short_angle_distance(self.current, intended);
            let flip = match direction {
                None => false,
                Some(TurnDirection::Left) => d > 0,
                Some(TurnDirection::Right) => d < 0,
            };
            let path = if flip {
                long_angle_distance(self.current, intended)
            } else {
                d
            };
            let magnitude: i64 = if path < 0 {
                -path
            } else {
                path
            };
            assert(magnitude <= 360);
            assert(magnitude * rate <= 360 * RATE_LIMIT) by (nonlinear_arith)
                requires
                    0 <= magnitude <= 360,
                    1 <= rate <= RATE_LIMIT,
            ;
            assert(0 <= magnitude * rate) by (nonlinear_arith)
                requires
                    0 <= magnitude,
                    0 <= rate,
            ;
            let kind = if flip {
                InterpolationKind::LongestArc
            } else {
                InterpolationKind::ShortestArc
            };
            let from = self.current;
            let i = Interpolator::with_fn(from, intended, magnitude * rate, kind);
            proof {
                if magnitude * rate > 0 {
                    lemma_scaled_bounds(path as int, 0, magnitude * rate);
                }
                if magnitude * rate == 0 {
                    assert(magnitude == 0) by (nonlinear_arith)
                        requires
                            magnitude * rate == 0,
                            magnitude >= 0,
                            rate >= 1,
                    ;
                    lemma_same_bearing(from as int, intended as int);
                }
            }
            self.intended = intended;
            self.interpolator = Some(i);
        }
    }

    /// Advances the turn by `dt` and returns the current bearing.
    pub fn current(&mut self, dt: i64) -> (r: i64)
        requires
            old(self).wf(),
            dt >= 0,
        ensures
            final(self).wf(),
            *final(self) == old(self).advanced(dt),
            r == final(self).current,
    {
        match self.interpolator {
            Some(i) => {
                if !i.is_finished() {
                    let mut j = i;
                    let v = j.update(dt);
                    self.current = v;
                    self.interpolator = Some(j);
                }
            },
            None => {},
        }
        self.current
    }
}

/// Bearings in `[0, 360)` one shortest rotation of zero apart are equal.
proof fn lemma_same_bearing(a: int, b: int)
    requires
        0 <= a < 360,
        0 <= b < 360,
        short_dist(a, b) == 0,
    ensures
        a == b,
{
}

/// An interpolator after `dt` more time, stopping at its end.
pub open spec fn advanced_interpolator(i: Interpolator, dt: i64) -> Interpolator {
    Interpolator {
        time: if i.time + dt >= i.duration {
            i.duration
        } else {
            (i.time + dt) as i64
        },
        ..i
    }
}

/// A scalar (altitude, speed) that moves toward its intended value over time.
#[derive(Clone, Copy, Debug)]
pub struct AircraftParameter {
    pub intended: i64,
    pub current: i64,
    pub interpolator: Option<Interpolator>,
}

impl AircraftParameter {
    /// With no transition, the current value is the intended one, and with
    /// one, it is where the transition stands.
    pub open spec fn wf(&self) -> bool {
        &&& value_ok(self.intended)
        &&& value_ok(self.current)
        &&& match self.interpolator {
            None => self.current == self.intended,
            Some(i) => {
                &&& i.wf()
                &&& i.to == self.intended
                &&& i.kind == InterpolationKind::Linear
                &&& self.current == i.value_spec()
            },
        }
    }

    /// Every value the parameter holds or moves between lies in `[lo, hi]`.
    pub open spec fn within(&self, lo: int, hi: int) -> bool {
        &&& lo <= self.intended <= hi
        &&& lo <= self.current <= hi
        &&& match self.interpolator {
            None => true,
            Some(i) => lo <= i.from <= hi && lo <= i.to <= hi,
        }
    }

    /// The state after a new intended value is commanded: nothing changes
    /// when it is the one already intended.
    pub open spec fn changed(self, intended: i64, rate: i64) -> Self {
        if intended == self.intended {
            self
        } else {
            AircraftParameter {
                intended,
                current: self.current,
                interpolator: Some(
                    Interpolator {
                        from: self.current,
                        to: intended,
                        duration: (abs_int(intended - self.current) * rate) as i64,
                        time: 0,
                        kind: InterpolationKind::Linear,
                    },
                ),
            }
        }
    }

    /// The state after `dt` more time has passed.
    pub open spec fn advanced(self, dt: i64) -> Self {
        match self.interpolator {
            Some(i) => if i.time >= i.duration {
                self
            } else {
                let j = advanced_interpolator(i, dt);
                AircraftParameter { current: j.value_spec() as i64, interpolator: Some(j), ..self }
            },
            None => self,
        }
    }

    /// A value resting at `current`.
    pub fn new(current: i64) -> (r: Self)
        requires
            value_ok(current),
        ensures
            r.wf(),
            r == (AircraftParameter { intended: current, current, interpolator: None }),
    {
        AircraftParameter { intended: current, current, interpolator: None }
    }

    /// Commands a new value; `rate` is the time per unit of change.
    pub fn change(&mut self, intended: i64, rate: i64)
        requires
            old(self).wf(),
            value_ok(intended),
            1 <= rate,
            abs_int(intended - old(self).current) * rate <= FRACTION_LIMIT,
        ensures
            final(self).wf(),
            *final(self) == old(self).changed(intended, rate),
    {
        if self.intended != intended {
            let diff: i64 = if intended >= self.current {
                intended - self.current
            } else {
                self.current - intended
            };
            assert(0 <= diff * rate) by (nonlinear_arith)
                requires
                    0 <= diff,
                    0 <= rate,
            ;
            let from = self.current;
            let i = Interpolator::new(from, intended, diff * rate);
            proof {
                if diff * rate > 0 {
                    lemma_scaled_bounds(intended - from, 0, diff * rate);
                }
                if diff * rate == 0 {
                    assert(diff == 0) by (nonlinear_arith)
                        requires
                            diff * rate == 0,
                            diff >= 0,
                            rate >= 1,
                    ;
                }
            }
            self.intended = intended;
            self.interpolator = Some(i);
        }
    }

    /// Advances the transition by `dt` and returns the current value.
    pub fn current(&mut self, dt: i64) -> (r: i64)
        requires
            old(self).wf(),
            dt >= 0,
        ensures
            final(self).wf(),
            forall|lo: int, hi: int| #[trigger] old(self).within(lo, hi) ==> final(self).within(lo, hi),
            *final(self) == old(self).advanced(dt),
            r == final(self).current,
    {
        match self.interpolator {
            Some(i) => {
                if !i.is_finished() {
                    let mut j = i;
                    let v = j.update(dt);
                    proof {
                        if j.time < j.duration {
                            lemma_scaled_bounds(j.to - j.from, j.time as int, j.duration as int);
                        }
                    }
                    self.current = v;
                    self.interpolator = Some(j);
                }
            },
            None => {},
        }
        self.current
    }
}

/// Commanding the bearing already intended changes nothing: issuing the
/// same target twice leaves the state, and so the whole later trajectory,
/// as the first command left it.
pub proof fn lemma_heading_change_idempotent(
    p: HeadingParameter,
    intended: i64,
    rate: i64,
    direction: Option<TurnDirection>,
)
    ensures
        p.changed(intended, rate, direction).changed(intended, rate, direction) == p.changed(
            intended,
            rate,
            direction,
        ),
        forall|dt: i64|
            #[trigger] p.changed(intended, rate, direction).changed(intended, rate, direction).advanced(dt)
                == p.changed(intended, rate, direction).advanced(dt),
{
}

/// Commanding the value already intended changes nothing: issuing the same
/// target twice leaves the state, and so the whole later trajectory, as the
/// first command left it.
pub proof fn lemma_parameter_change_idempotent(p: AircraftParameter, intended: i64, rate: i64)
    ensures
        p.changed(intended, rate).changed(intended, rate) == p.changed(intended, rate),
        forall|dt: i64|
            #[trigger] p.changed(intended, rate).changed(intended, rate).advanced(dt) == p.changed(
                intended,
                rate,
            ).advanced(dt),
{
}

/// Time per degree of turn, in microseconds.
pub const TURN_RATE: i64 = 100_000;

/// Time per foot of climb or descent, in microseconds.
pub const ALTITUDE_RATE: i64 = 30_000;

/// Time per knot of speed change, in microseconds.
pub const SPEED_RATE: i64 = 1_000_000;

/// Slowest commanded speed, in knots.
pub const MIN_SPEED: u32 = 150;

/// Fastest commanded speed, in knots.
pub const MAX_SPEED: u32 = 250;

/// Length of the localizer, in millimetres (8 nautical miles).
pub const ILS_LENGTH: i64 = 14_816_000;

/// Half-width of the localizer, in degrees.
pub const ILS_SPREAD: i64 = 3;

/// Distance from the threshold within which an aircraft has landed, in millimetres.
pub const LANDING_RADIUS: i64 = 500_000;

/// Largest coordinate of an aircraft or airport, in millimetres.
pub const WORLD_LIMIT: i64 = 1_000_000_000_000;

/// Millimetres in a metre.
pub const MM_PER_METRE: i64 = 1000;

/// Millimetres in a nautical mile.
pub const MM_PER_NM: i64 = 1_852_000;

/// Microseconds in an hour.
pub const MICROS_PER_HOUR: i64 = 3_600_000_000;

/// The largest `u32`.
pub const U32_LIMIT: i64 = 4_294_967_295;

/// An aircraft in the simulated world.
#[derive(Clone, Debug)]
pub struct Aircraft {
    /// Millimetres from the world origin.
    pub position: Point,
    pub callsign: Callsign,
    /// Bearing, in degrees.
    pub heading: HeadingParameter,
    /// Feet.
    pub altitude: AircraftParameter,
    /// Knots.
    pub speed: AircraftParameter,
    pub status: AircraftStatus,
    pub cleared_to_land: bool,
}

/// The aircraft with its heading commanded to `course`, wrapped into `[0, 360)`.
pub open spec fn heading_commanded(a: Aircraft, course: int, direction: Option<TurnDirection>) -> Aircraft {
    Aircraft { heading: a.heading.changed(wrap(course) as i64, TURN_RATE, direction), ..a }
}

/// The aircraft with its altitude commanded to `alt` feet.
pub open spec fn altitude_commanded(a: Aircraft, alt: int) -> Aircraft {
    Aircraft { altitude: a.altitude.changed(alt as i64, ALTITUDE_RATE), ..a }
}

/// The aircraft with its speed commanded to `spd` knots, held to
/// `[MIN_SPEED, MAX_SPEED]`.
pub open spec fn speed_commanded(a: Aircraft, spd: int) -> Aircraft {
    let s = if spd < MIN_SPEED {
        MIN_SPEED as int
    } else if spd > MAX_SPEED {
        MAX_SPEED as int
    } else {
        spd
    };
    Aircraft { speed: a.speed.changed(s as i64, SPEED_RATE), ..a }
}

/// Taxiing and landed aircraft are on the ground.
pub open spec fn grounded(s: AircraftStatus) -> bool {
    s == AircraftStatus::Taxi || s == AircraftStatus::Landed
}

/// The distance flown at `speed` knots in `dt` microseconds, in millimetres.
pub open spec fn flown(speed: int, dt: int) -> int {
    speed * dt * MM_PER_NM / (MICROS_PER_HOUR as int)
}

/// `v` held to `[-WORLD_LIMIT, WORLD_LIMIT]`.
pub open spec fn world_clamp(v: int) -> int {
    if v < -WORLD_LIMIT {
        -WORLD_LIMIT as int
    } else if v > WORLD_LIMIT {
        WORLD_LIMIT as int
    } else {
        v
    }
}

/// `p` moved `d` millimetres along bearing `h`, kept inside the world.
pub open spec fn moved(p: Point, h: int, d: int) -> Point {
    Point {
        x: world_clamp(p.x + crate::geom::tdiv(d * crate::geom::sin_deg(h), crate::geom::UNIT as int)) as i64,
        y: world_clamp(p.y + crate::geom::tdiv(d * crate::geom::cos_deg(h), crate::geom::UNIT as int)) as i64,
    }
}

/// An airborne aircraft after `dt` microseconds of flight: speed, heading
/// and altitude advance, then it flies at the new speed along the new
/// heading. A grounded aircraft stays as it is.
pub open spec fn flown_aircraft(a: Aircraft, dt: i64) -> Aircraft {
    if grounded(a.status) {
        a
    } else {
        let speed = a.speed.advanced(dt);
        let heading = a.heading.advanced(dt);
        let altitude = a.altitude.advanced(dt);
        Aircraft {
            position: moved(a.position, heading.current as int, flown(speed.current as int, dt as int)),
            speed,
            heading,
            altitude,
            ..a
        }
    }
}

/// Two aircraft are the same when callsign and position agree.
pub open spec fn same_aircraft(a: Aircraft, b: Aircraft) -> bool {
    same_flight(a.callsign, b.callsign) && a.position == b.position
}

impl PartialEq for Aircraft {
    fn eq(&self, other: &Aircraft) -> (r: bool)
        ensures
            r == same_aircraft(*self, *other),
    {
        self.callsign == other.callsign && self.position == other.position
    }
}

impl vstd::std_specs::cmp::PartialEqSpecImpl for Aircraft {
    open spec fn obeys_eq_spec() -> bool {
        true
    }

    open spec fn eq_spec(&self, other: &Aircraft) -> bool {
        same_aircraft(*self, *other)
    }
}

impl Aircraft {
    /// Position inside the world; heading, altitude and speed well formed,
    /// altitude and speed within `u32`.
    pub open spec fn wf(&self) -> bool {
        &&& within(self.position, WORLD_LIMIT as int)
        &&& self.heading.wf()
        &&& self.altitude.wf()
        &&& self.altitude.within(0, U32_LIMIT as int)
        &&& self.speed.wf()
        &&& self.speed.within(0, U32_LIMIT as int)
    }

    /// An aircraft in flight at `position`, flying `heading` at `altitude`
    /// feet and `speed` knots, not cleared to land.
    pub fn new(callsign: Callsign, position: Point, heading: i64, altitude: u32, speed: u32) -> (r: Self)
        requires
            within(position, WORLD_LIMIT as int),
            0 <= heading < 360,
        ensures
            r.wf(),
            r.position == position,
            r.callsign == callsign,
            r.heading == (HeadingParameter { intended: heading, current: heading, interpolator: None }),
            r.altitude == (AircraftParameter {
                intended: altitude as i64,
                current: altitude as i64,
                interpolator: None,
            }),
            r.speed == (AircraftParameter { intended: speed as i64, current: speed as i64, interpolator: None }),
            r.status == AircraftStatus::Flight,
            !r.cleared_to_land,
    {
        Aircraft {
            position,
            callsign,
            heading: HeadingParameter::new(heading),
            altitude: AircraftParameter::new(altitude as i64),
            speed: AircraftParameter::new(speed as i64),
            status: AircraftStatus::Flight,
            cleared_to_land: false,
        }
    }

    /// Commands a new heading, wrapped into `[0, 360)`, turning the way
    /// `direction` says or along the shortest arc.
    pub fn change_heading(&mut self, course: i64, direction: Option<TurnDirection>)
        requires
            old(self).wf(),
        ensures
            final(self).wf(),
            *final(self) == heading_commanded(*old(self), course as int, direction),
    {
        let course = degrees_normalize(course);
        match direction {
            Some(d) => self.heading.change_with_turn(course, TURN_RATE, d),
            None => self.heading.change(course, TURN_RATE),
        }
    }

    /// Commands a new altitude, in feet.
    pub fn change_altitude(&mut self, new_altitude: u32)
        requires
            old(self).wf(),
        ensures
            final(self).wf(),
            *final(self) == altitude_commanded(*old(self), new_altitude as int),
    {
        let target = new_altitude as i64;
        assert(abs_int(target - self.altitude.current) * ALTITUDE_RATE <= FRACTION_LIMIT) by (nonlinear_arith)
            requires
                0 <= target <= U32_LIMIT,
                0 <= self.altitude.current <= U32_LIMIT,
        ;
        self.altitude.change(target, ALTITUDE_RATE);
    }

    /// Commands a new speed, in knots, held to `[MIN_SPEED, MAX_SPEED]`.
    pub fn change_speed(&mut self, new_speed: u32)
        requires
            old(self).wf(),
        ensures
            final(self).wf(),
            *final(self) == speed_commanded(*old(self), new_speed as int),
    {
        let target = clamp(new_speed as i64, MIN_SPEED as i64, MAX_SPEED as i64);
        assert(abs_int(target - self.speed.current) * SPEED_RATE <= FRACTION_LIMIT) by (nonlinear_arith)
            requires
                MIN_SPEED <= target <= MAX_SPEED,
                0 <= self.speed.current <= U32_LIMIT,
        ;
        self.speed.change(target, SPEED_RATE);
    }

    /// Whether the aircraft is inside the localizer's capture triangle and
    /// not above its glideslope.
    pub fn is_localizer_captured(&self, localizer: &ILS) -> (r: bool)
        requires
            self.wf(),
            localizer.wf(),
        ensures
            r == captured(*self, *localizer),
    {
        let triangle = localizer.as_triangle();
        if !is_point_in_triangle(self.position, &triangle) {
            return false;
        }
        self.altitude.current <= localizer.altitude(&self.position) as i64
    }

    /// Whether the aircraft is taxiing or has landed.
    pub fn is_grounded(&self) -> (r: bool)
        ensures
            r == grounded(self.status),
    {
        self.status == AircraftStatus::Taxi || self.status == AircraftStatus::Landed
    }

    pub fn cleared_to_land(&self) -> (r: bool)
        ensures
            r == self.cleared_to_land,
    {
        self.cleared_to_land
    }

    /// Flies the aircraft for `dt` microseconds; a grounded aircraft does
    /// not move.
    pub fn advance(&mut self, dt: i64)
        requires
            old(self).wf(),
            dt >= 0,
        ensures
            final(self).wf(),
            *final(self) == flown_aircraft(*old(self), dt),
    {
        if self.is_grounded() {
            return;
        }
        let speed = self.speed.current(dt);
        let heading = self.heading.current(dt);
        let _altitude = self.altitude.current(dt);
        assert(0 <= speed as i128 * dt as i128 * MM_PER_NM as i128 <= U32_LIMIT * 0x7FFF_FFFF_FFFF_FFFF * MM_PER_NM)
            by (nonlinear_arith)
            requires
                0 <= speed <= U32_LIMIT,
                0 <= dt,
        ;
        let product: i128 = speed as i128 * dt as i128 * MM_PER_NM as i128;
        let distance: i128 = product / MICROS_PER_HOUR as i128;
        proof {
            let pr = product as int;
            assert(0 <= pr / (MICROS_PER_HOUR as int) <= 30_000_000_000_000_000_000_000_000) by (nonlinear_arith)
                requires
                    0 <= pr <= U32_LIMIT * 0x7FFF_FFFF_FFFF_FFFF * MM_PER_NM,
            ;
            crate::geom::lemma_trig_bounds(heading as int);
        }
        let big: i128 = 30_000_000_000_000_000_000_000_000;
        assert(-(big * crate::geom::UNIT) <= distance * crate::geom::sin_deg(heading as int) <= big * crate::geom::UNIT
            && -(big * crate::geom::UNIT) <= distance * crate::geom::cos_deg(heading as int) <= big * crate::geom::UNIT)
            by (nonlinear_arith)
            requires
                0 <= distance <= big,
                -crate::geom::UNIT <= crate::geom::sin_deg(heading as int) <= crate::geom::UNIT,
                -crate::geom::UNIT <= crate::geom::cos_deg(heading as int) <= crate::geom::UNIT,
        ;
        assert(big * crate::geom::UNIT == 30_000_000_000_000_000_000_000_000_000_000) by (nonlinear_arith)
            requires
                big == 30_000_000_000_000_000_000_000_000,
        ;
        let v = crate::geom::heading_to_point(heading);
        let x = self.position.x as i128 + crate::geom::div_toward_zero(distance * v.x as i128, crate::geom::UNIT as i128);
        let y = self.position.y as i128 + crate::geom::div_toward_zero(distance * v.y as i128, crate::geom::UNIT as i128);
        self.position = Point { x: clamp_world(x), y: clamp_world(y) };
    }
}

fn clamp_world(v: i128) -> (r: i64)
    ensures
        r == world_clamp(v as int),
{
    if v < -(WORLD_LIMIT as i128) {
        -WORLD_LIMIT
    } else if v > WORLD_LIMIT as i128 {
        WORLD_LIMIT
    } else {
        v as i64
    }
}

/// The first aircraft holding `callsign`, with its index.
pub fn aircraft_by_callsign<'a>(callsign: &Callsign, aircraft: &'a Vec<Aircraft>) -> (r: Option<(usize, &'a Aircraft)>)
    ensures
        r == match first_with_callsign(aircraft@, callsign.code@, callsign.number@) {
            Some(i) => Some((i as usize, &aircraft@[i])),
            None => None,
        },
        r.is_some() ==> r.unwrap().0 < aircraft@.len(),
{
    let ghost code = callsign.code@;
    let ghost number = callsign.number@;
    let mut i: usize = 0;
    while i < aircraft.len()
        invariant
            i <= aircraft@.len(),
            code == callsign.code@,
            number == callsign.number@,
            first_from(aircraft@, i as int, code, number) == first_with_callsign(aircraft@, code, number),
        decreases aircraft@.len() - i,
    {
        if aircraft[i].callsign == *callsign {
            return Some((i, &aircraft[i]));
        }
        i = i + 1;
    }
    None
}

/// Aircraft `a` flies under the callsign with this code and number.
pub open spec fn holds_callsign(a: Aircraft, code: Seq<char>, number: Seq<char>) -> bool {
    a.callsign.code@ == code && a.callsign.number@ == number
}

/// The index of the first aircraft of `s[i..]` flying under the callsign
/// with this code and number.
pub open spec fn first_from(s: Seq<Aircraft>, i: int, code: Seq<char>, number: Seq<char>) -> Option<int>
    decreases s.len() - i,
{
    if i < 0 || i >= s.len() {
        None
    } else if holds_callsign(s[i], code, number) {
        Some(i)
    } else {
        first_from(s, i + 1, code, number)
    }
}

/// The index of the first aircraft of `s` flying under the callsign with
/// this code and number.
pub open spec fn first_with_callsign(s: Seq<Aircraft>, code: Seq<char>, number: Seq<char>) -> Option<int> {
    first_from(s, 0, code, number)
}

/// Largest coordinate of a localizer's origin, in millimetres.
pub const ILS_ORIGIN_LIMIT: i64 = 10_000_000_000_000;

/// The expected altitude on a glideslope that rises to `max_alt` feet at
/// `ILS_LENGTH` from the threshold, `dist` millimetres out: rounded to the
/// nearest thousand feet when `round` is set, and at most the largest `u32`.
pub open spec fn glideslope(max_alt: int, dist: int, round: bool) -> int {
    let e = max_alt * dist / ILS_LENGTH as int;
    let e2 = if round {
        crate::math::rounded_to(e, 3)
    } else {
        e
    };
    if e2 > U32_LIMIT {
        U32_LIMIT as int
    } else {
        e2
    }
}

/// An instrument landing system: a localizer whose origin is the runway
/// threshold, built from a copy of the runway.
#[derive(Clone, Copy, Debug)]
pub struct ILS {
    pub origin: Point,
    pub runway: Runway,
}

impl ILS {
    pub open spec fn wf(&self) -> bool {
        within(self.origin, ILS_ORIGIN_LIMIT as int)
    }

    /// The bearing of the localizer: away from the threshold, opposite the runway.
    pub open spec fn heading_spec(&self) -> int {
        let h = self.runway.heading as int;
        if h >= 180 {
            h - 180
        } else {
            h + 180
        }
    }

    /// The far end of the localizer before it is turned to its bearing.
    pub open spec fn far_point(&self) -> Point {
        Point { x: self.origin.x, y: (self.origin.y + ILS_LENGTH) as i64 }
    }

    /// The capture triangle: the origin, and the far end turned 3 degrees to
    /// either side of the localizer's bearing.
    pub open spec fn corners(&self) -> (Point, Point, Point) {
        (
            self.origin,
            rotated(self.origin, self.far_point(), self.heading_spec() + ILS_SPREAD),
            rotated(self.origin, self.far_point(), self.heading_spec() - ILS_SPREAD),
        )
    }

    /// The glideslope altitude, in feet, at `position`.
    pub open spec fn altitude_spec(&self, position: Point) -> int {
        glideslope(
            self.runway.ils_max_altitude as int,
            floor_sqrt(dist2(position, self.origin)),
            self.runway.round_glideslope,
        )
    }

    /// The bearing of the localizer, opposite the runway's.
    pub fn heading(&self) -> (r: i64)
        ensures
            r == self.heading_spec(),
    {
        crate::math::invert_bearing(self.runway.heading as i64)
    }

    /// The capture triangle, apex at the threshold.
    pub fn as_triangle(&self) -> (r: [Point; 3])
        requires
            self.wf(),
        ensures
            r[0] == self.corners().0,
            r[1] == self.corners().1,
            r[2] == self.corners().2,
            near(r[1], self.origin, ILS_LENGTH as int),
            near(r[2], self.origin, ILS_LENGTH as int),
    {
        let far = Point { x: self.origin.x, y: self.origin.y + ILS_LENGTH };
        let h = self.heading();
        [self.origin, rotate_point(self.origin, far, h + ILS_SPREAD), rotate_point(self.origin, far, h - ILS_SPREAD)]
    }

    /// The centre line of the localizer, from the threshold outward.
    pub fn as_line(&self) -> (r: [Point; 2])
        requires
            self.wf(),
        ensures
            r[0] == self.origin,
            r[1] == rotated(self.origin, self.far_point(), self.heading_spec()),
            near(r[1], self.origin, ILS_LENGTH as int),
    {
        let far = Point { x: self.origin.x, y: self.origin.y + ILS_LENGTH };
        [self.origin, rotate_point(self.origin, far, self.heading())]
    }

    /// The distance of `position` from the localizer's centre line (to its
    /// nearer end beyond either end), in millimetres, rounded down.
    pub fn crosstrack_distance(&self, position: &Point) -> (r: u64)
        requires
            within(self.origin, (crate::geom::SEGMENT_LIMIT - ILS_LENGTH) as int),
            within(*position, crate::geom::SEGMENT_LIMIT as int),
        ensures
            crate::geom::segment_distance(
                self.origin,
                rotated(self.origin, self.far_point(), self.heading_spec()),
                *position,
                r as int,
            ),
    {
        let line = self.as_line();
        crate::geom::distance_line_and_point(&line, position)
    }

    /// The distance from the threshold, in millimetres, rounded down.
    pub fn distance(&self, position: &Point) -> (r: u64)
        requires
            self.wf(),
            within(*position, WORLD_LIMIT as int),
        ensures
            r == floor_sqrt(dist2(*position, self.origin)),
            crate::geom::is_floor_sqrt(r as int, dist2(*position, self.origin)),
    {
        point_distance(position, &self.origin)
    }

    /// The glideslope altitude, in feet, at `position`.
    pub fn altitude(&self, position: &Point) -> (r: u32)
        requires
            self.wf(),
            within(*position, WORLD_LIMIT as int),
        ensures
            r == self.altitude_spec(*position),
    {
        let d = self.distance(position);
        assert(d as int * d as int <= dist2(*position, self.origin));
        assert(dist2(*position, self.origin) <= 2 * (2 * ILS_ORIGIN_LIMIT) * (2 * ILS_ORIGIN_LIMIT)) by (nonlinear_arith)
            requires
                within(*position, WORLD_LIMIT as int),
                within(self.origin, ILS_ORIGIN_LIMIT as int),
        ;
        assert(d <= 2 * (2 * ILS_ORIGIN_LIMIT)) by (nonlinear_arith)
            requires
                d as int * d as int <= 2 * (2 * ILS_ORIGIN_LIMIT) * (2 * ILS_ORIGIN_LIMIT),
                d >= 0,
        ;
        let max_alt = self.runway.ils_max_altitude as u128;
        assert(max_alt * (d as u128) <= U32_LIMIT * (4 * ILS_ORIGIN_LIMIT)) by (nonlinear_arith)
            requires
                max_alt <= U32_LIMIT,
                d <= 4 * ILS_ORIGIN_LIMIT,
        ;
        let e: u128 = max_alt * (d as u128) / (ILS_LENGTH as u128);
        proof {
            let prod = max_alt * (d as u128);
            assert(prod / (ILS_LENGTH as int) <= prod) by (nonlinear_arith)
                requires
                    prod >= 0,
            ;
        }
        let rounded: u128 = if self.runway.round_glideslope {
            if e > 2 * U32_LIMIT as u128 {
                proof {
                    lemma_pow10_3();
                }
                e
            } else {
                crate::math::round_to_sf(e as u64, 3) as u128
            }
        } else {
            e
        };
        if rounded > U32_LIMIT as u128 {
            U32_LIMIT as u32
        } else {
            rounded as u32
        }
    }
}

proof fn lemma_pow10_3()
    ensures
        crate::math::pow10(3) == 1000,
{
    assert(crate::math::pow10(0) == 1);
    assert(crate::math::pow10(1) == 10);
    assert(crate::math::pow10(2) == 100);
}

/// A physical runway, placed relative to its airport.
#[derive(Clone, Copy, Debug)]
pub struct Runway {
    /// Offset from the airport's position, in millimetres.
    pub offset: Point,
    /// Bearing, in degrees.
    pub heading: u32,
    /// Metres.
    pub length: u32,
    /// Metres.
    pub width: u32,
    /// Altitude of the glideslope at the far end of the localizer, in feet.
    pub ils_max_altitude: u32,
    /// Whether glideslope altitudes are rounded to the nearest thousand feet.
    pub round_glideslope: bool,
}

impl Runway {
    /// Half the runway length, in millimetres.
    pub open spec fn half_length(&self) -> int {
        self.length as int * MM_PER_METRE / 2
    }

    /// The two ends of the runway centred on `origin`: first the threshold
    /// that approaching aircraft cross, then the far end.
    pub open spec fn ends(&self, origin: Point) -> (Point, Point) {
        (
            rotated(origin, Point { x: origin.x, y: (origin.y - self.half_length()) as i64 }, self.heading as int),
            rotated(origin, Point { x: origin.x, y: (origin.y + self.half_length()) as i64 }, self.heading as int),
        )
    }

    /// The localizer of this runway centred on `origin`.
    pub open spec fn ils_spec(&self, origin: Point) -> ILS {
        ILS { origin: self.ends(origin).0, runway: *self }
    }

    /// An aircraft within `LANDING_RADIUS` of the threshold has landed.
    pub open spec fn landed_at(&self, origin: Point, a: Aircraft) -> bool {
        dist2(a.position, self.ends(origin).0) < LANDING_RADIUS * LANDING_RADIUS
    }

    /// The runway's two ends when it is centred on `origin`.
    pub fn as_line(&self, origin: Point) -> (r: [Point; 2])
        requires
            within(origin, WORLD_LIMIT as int),
        ensures
            r[0] == self.ends(origin).0,
            r[1] == self.ends(origin).1,
            near(r[0], origin, self.half_length()),
            near(r[1], origin, self.half_length()),
    {
        let half: i64 = self.length as i64 * MM_PER_METRE / 2;
        [
            rotate_point(origin, Point { x: origin.x, y: origin.y - half }, self.heading as i64),
            rotate_point(origin, Point { x: origin.x, y: origin.y + half }, self.heading as i64),
        ]
    }

    /// The localizer of this runway centred on `origin`; a copy that does
    /// not follow later changes to the runway.
    pub fn ils(&self, origin: Point) -> (r: ILS)
        requires
            within(origin, WORLD_LIMIT as int),
        ensures
            r == self.ils_spec(origin),
            r.wf(),
    {
        let line = self.as_line(origin);
        ILS { origin: line[0], runway: *self }
    }

    /// Whether `aircraft` is within `LANDING_RADIUS` of the threshold.
    pub fn has_landed(&self, origin: Point, aircraft: &Aircraft) -> (r: bool)
        requires
            within(origin, WORLD_LIMIT as int),
            aircraft.wf(),
        ensures
            r == self.landed_at(origin, *aircraft),
    {
        let line = self.as_line(origin);
        is_point_in_circle(aircraft.position, line[0], LANDING_RADIUS)
    }
}

/// The point of the world where runway `r` of an airport at `position` is centred.
pub open spec fn runway_origin(position: Point, r: Runway) -> Point {
    Point { x: (position.x + r.offset.x) as i64, y: (position.y + r.offset.y) as i64 }
}

/// Every runway of `rs` is centred inside the world.
pub open spec fn runways_inside(position: Point, rs: Seq<Runway>) -> bool {
    forall|i: int|
        0 <= i < rs.len() ==> {
            let r = #[trigger] rs[i];
            -WORLD_LIMIT <= position.x + r.offset.x <= WORLD_LIMIT && -WORLD_LIMIT <= position.y + r.offset.y
                <= WORLD_LIMIT
        }
}

/// An airport: its position, ICAO code, and runways.
#[derive(Clone, Debug)]
pub struct Airport {
    pub position: Point,
    pub icao_code: String,
    pub takeoff_runways: Vec<Runway>,
    pub landing_runways: Vec<Runway>,
}

impl Airport {
    /// Every runway is centred inside the world.
    pub open spec fn wf(&self) -> bool {
        &&& runways_inside(self.position, self.takeoff_runways@)
        &&& runways_inside(self.position, self.landing_runways@)
    }

    /// Where `runway` is centred: the airport's position plus the runway's offset.
    pub fn origin(&self, runway: &Runway) -> (r: Point)
        requires
            -WORLD_LIMIT <= self.position.x + runway.offset.x <= WORLD_LIMIT,
            -WORLD_LIMIT <= self.position.y + runway.offset.y <= WORLD_LIMIT,
        ensures
            r == runway_origin(self.position, *runway),
            within(r, WORLD_LIMIT as int),
    {
        Point { x: self.position.x + runway.offset.x, y: self.position.y + runway.offset.y }
    }
}

/// Inside the localizer's capture triangle and not above its glideslope.
pub open spec fn captured(a: Aircraft, ils: ILS) -> bool {
    let (t0, t1, t2) = ils.corners();
    in_triangle(a.position, t0, t1, t2) && a.altitude.current <= ils.altitude_spec(a.position)
}

/// One runway's part of the landing check: an airborne aircraft near the
/// threshold has landed; one captured by the localizer is landing, turned
/// to the runway heading and sent to the glideslope altitude.
pub open spec fn landing_step(a: Aircraft, position: Point, r: Runway) -> Aircraft {
    let origin = runway_origin(position, r);
    let ils = r.ils_spec(origin);
    if grounded(a.status) {
        a
    } else if r.landed_at(origin, a) {
        Aircraft { status: AircraftStatus::Landed, ..a }
    } else if captured(a, ils) {
        altitude_commanded(
            heading_commanded(Aircraft { status: AircraftStatus::Landing, ..a }, r.heading as int, None),
            ils.altitude_spec(a.position),
        )
    } else {
        a
    }
}

/// The landing check over the runways `rs`, in order.
pub open spec fn landing_checked(a: Aircraft, position: Point, rs: Seq<Runway>) -> Aircraft
    decreases rs.len(),
{
    if rs.len() == 0 {
        a
    } else {
        landing_step(landing_checked(a, position, rs.drop_last()), position, rs.last())
    }
}

/// The landing check of a tick: only aircraft cleared to land take part.
pub open spec fn landing_evaluated(a: Aircraft, airport: Airport) -> Aircraft {
    if a.cleared_to_land {
        landing_checked(a, airport.position, airport.landing_runways@)
    } else {
        a
    }
}

impl Aircraft {
    /// Runs the landing check of a tick against every landing runway of
    /// `airport`, in order.
    pub fn evaluate_landing(&mut self, airport: &Airport)
        requires
            old(self).wf(),
            airport.wf(),
        ensures
            final(self).wf(),
            *final(self) == landing_evaluated(*old(self), *airport),
    {
        if !self.cleared_to_land {
            return;
        }
        let n = airport.landing_runways.len();
        let mut i: usize = 0;
        while i < n
            invariant
                n == airport.landing_runways@.len(),
                airport.wf(),
                i <= n,
                self.wf(),
                *self == landing_checked(*old(self), airport.position, airport.landing_runways@.subrange(0, i as int)),
            decreases n - i,
        {
            let runway = &airport.landing_runways[i];
            assert(airport.landing_runways@.subrange(0, i + 1).drop_last() =~= airport.landing_runways@.subrange(0, i as int));
            assert(runways_inside(airport.position, airport.landing_runways@));
            assert(-WORLD_LIMIT <= airport.position.x + airport.landing_runways@[i as int].offset.x <= WORLD_LIMIT);
            let origin = airport.origin(runway);
            if !self.is_grounded() {
                if runway.has_landed(origin, self) {
                    self.status = AircraftStatus::Landed;
                } else {
                    let ils = runway.ils(origin);
                    if self.is_localizer_captured(&ils) {
                        self.status = AircraftStatus::Landing;
                        let expected = ils.altitude(&self.position);
                        self.change_heading(runway.heading as i64, None);
                        self.change_altitude(expected);
                    }
                }
            }
            i = i + 1;
        }
        assert(airport.landing_runways@.subrange(0, n as int) =~= airport.landing_runways@);
    }
}

} // verus!
