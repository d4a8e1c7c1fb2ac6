use atc::aircraft::{
    aircraft_by_callsign, Aircraft, AircraftParameter, AircraftStatus, Airport, Callsign, HeadingParameter,
    Runway, TurnDirection, ILS_LENGTH, TURN_RATE,
};
use atc::atc::{Atc, AtcRequest};
use atc::command::AtcCommand;
use atc::geom::Point;

fn callsign(code: &str, number: &str) -> Callsign {
    Callsign { name: String::from("Test Air"), code: String::from(code), number: String::from(number) }
}

fn aircraft_at(x: i64, y: i64, heading: i64, altitude: u32, speed: u32) -> Aircraft {
    Aircraft::new(callsign("CYP", "2202"), Point { x, y }, heading, altitude, speed)
}

fn runway_north() -> Runway {
    Runway {
        offset: Point { x: 0, y: 0 },
        heading: 0,
        length: 2000,
        width: 45,
        ils_max_altitude: 3000,
        round_glideslope: false,
    }
}

#[test]
fn an_hour_east_at_250_knots_is_250_nautical_miles() {
    let mut a = aircraft_at(0, 0, 90, 5000, 250);
    a.advance(3_600_000_000);
    assert_eq!(Point { x: 463_000_000, y: 0 }, a.position);

    let mut b = aircraft_at(0, 0, 90, 5000, 250);
    for _ in 0..3600 {
        b.advance(1_000_000);
    }
    assert!((b.position.x - 463_000_000).abs() <= 1000);
    assert_eq!(0, b.position.y);
}

#[test]
fn heading_180_from_north_turns_right_through_90() {
    let mut a = aircraft_at(0, 0, 0, 5000, 200);
    a.command(AtcRequest(AtcCommand::ChangeHeading(180)));
    a.advance(90 * TURN_RATE);
    assert_eq!(90, a.heading.current);
    a.advance(90 * TURN_RATE);
    assert_eq!(180, a.heading.current);
    a.advance(TURN_RATE);
    assert_eq!(180, a.heading.current);
}

#[test]
fn same_target_twice_gives_one_transition() {
    let mut once = HeadingParameter::new(10);
    once.change(100, TURN_RATE);
    let mut twice = HeadingParameter::new(10);
    twice.change(100, TURN_RATE);
    twice.current(2_000_000);
    once.current(2_000_000);
    twice.change(100, TURN_RATE);
    for _ in 0..10 {
        assert_eq!(once.current(1_000_000), twice.current(1_000_000));
    }
    assert_eq!(100, once.current(0));

    let mut alt = AircraftParameter::new(1000);
    alt.change(2000, 30_000);
    assert_eq!(1500, alt.current(15_000_000));
    alt.change(2000, 30_000);
    assert_eq!(2000, alt.current(15_000_000));
}

#[test]
fn turns_follow_the_commanded_direction() {
    let mut left = HeadingParameter::new(0);
    left.change_with_turn(90, TURN_RATE, TurnDirection::Left);
    assert_eq!(315, left.current(45 * TURN_RATE));
    assert_eq!(90, left.current(225 * TURN_RATE));

    let mut right = HeadingParameter::new(0);
    right.change_with_turn(90, TURN_RATE, TurnDirection::Right);
    assert_eq!(45, right.current(45 * TURN_RATE));

    let mut back = HeadingParameter::new(0);
    back.change_with_turn(180, TURN_RATE, TurnDirection::Left);
    assert_eq!(270, back.current(90 * TURN_RATE));
}

#[test]
fn commands_clamp_speed_and_wrap_heading() {
    let mut a = aircraft_at(0, 0, 0, 5000, 200);
    a.change_speed(400);
    assert_eq!(250, a.speed.intended);
    a.change_speed(10);
    assert_eq!(150, a.speed.intended);
    a.change_heading(370, None);
    assert_eq!(10, a.heading.intended);
    a.change_heading(-90, None);
    assert_eq!(270, a.heading.intended);
    a.change_altitude(0);
    assert_eq!(0, a.altitude.intended);
    a.command(AtcRequest(AtcCommand::ClearedToLand(true)));
    assert!(a.cleared_to_land());
    assert!(!a.is_grounded());
}

#[test]
fn runway_threshold_and_localizer() {
    let r = runway_north();
    let origin = Point { x: 0, y: 0 };
    let line = r.as_line(origin);
    assert_eq!(Point { x: 0, y: -1_000_000 }, line[0]);
    assert_eq!(Point { x: 0, y: 1_000_000 }, line[1]);
    let ils = r.ils(origin);
    assert_eq!(Point { x: 0, y: -1_000_000 }, ils.origin);
    assert_eq!(180, ils.heading());
    let l = ils.as_line();
    assert_eq!(Point { x: 0, y: -1_000_000 - ILS_LENGTH }, l[1]);
    let t = ils.as_triangle();
    assert_eq!(ils.origin, t[0]);
    assert!(t[1].y < -15_000_000 && t[2].y < -15_000_000);
    assert!(t[1].x < 0 && t[2].x > 0);
    // the glideslope: 3000 ft at the far end, half of it half way
    assert_eq!(3000, ils.altitude(&Point { x: 0, y: -1_000_000 - ILS_LENGTH }));
    assert_eq!(1500, ils.altitude(&Point { x: 0, y: -1_000_000 - ILS_LENGTH / 2 }));
    assert_eq!(0, ils.altitude(&ils.origin));
    let rounded = Runway { round_glideslope: true, ..r }.ils(origin);
    assert_eq!(2000, rounded.altitude(&Point { x: 0, y: -1_000_000 - ILS_LENGTH / 2 }));
}

#[test]
fn localizer_capture_needs_the_cone_and_the_glideslope() {
    let ils = runway_north().ils(Point { x: 0, y: 0 });
    assert!(aircraft_at(0, -6_000_000, 0, 800, 180).is_localizer_captured(&ils));
    assert!(!aircraft_at(0, -6_000_000, 0, 5000, 180).is_localizer_captured(&ils));
    assert!(!aircraft_at(3_000_000, -6_000_000, 0, 800, 180).is_localizer_captured(&ils));
    assert!(!aircraft_at(0, 6_000_000, 0, 800, 180).is_localizer_captured(&ils));
}

#[test]
fn landing_needs_the_threshold_radius() {
    let r = runway_north();
    let origin = Point { x: 0, y: 0 };
    assert!(r.has_landed(origin, &aircraft_at(0, -1_200_000, 0, 0, 150)));
    assert!(!r.has_landed(origin, &aircraft_at(0, -1_500_000, 0, 0, 150)));
    assert!(!r.has_landed(origin, &aircraft_at(0, 0, 0, 0, 150)));
}

#[test]
fn airport_places_its_runways() {
    let airport = Airport {
        position: Point { x: 100, y: 200 },
        icao_code: String::from("LCPH"),
        takeoff_runways: vec![],
        landing_runways: vec![],
    };
    let r = Runway { offset: Point { x: 5, y: -7 }, ..runway_north() };
    assert_eq!(Point { x: 105, y: 193 }, airport.origin(&r));
}

#[test]
fn aircraft_are_found_by_callsign() {
    let list = vec![
        Aircraft::new(callsign("FDX", "261"), Point { x: 0, y: 0 }, 0, 1000, 200),
        Aircraft::new(callsign("CYP", "2202"), Point { x: 5, y: 0 }, 0, 1000, 200),
    ];
    let found = aircraft_by_callsign(&callsign("CYP", "2202"), &list).unwrap();
    assert_eq!(1, found.0);
    assert_eq!(Point { x: 5, y: 0 }, found.1.position);
    assert!(aircraft_by_callsign(&callsign("TRA", "1112"), &list).is_none());
}

#[test]
fn controller_reads_back_and_applies() {
    let mut atc = Atc::new(true);
    let mut a = Aircraft::new(
        Callsign { name: String::from("Cyprus Airways"), code: String::from("CYP"), number: String::from("2202") },
        Point { x: 0, y: 0 },
        90,
        6000,
        240,
    );
    let r = atc.command(&mut a, AtcCommand::ChangeHeading(180));
    assert_eq!("==> CYP2202, heading to 180", r.console);
    assert_eq!(Some(String::from("Cyprus Airways 2202, heading to 180")), r.speech);
    assert_eq!(180, a.heading.intended);
    let mut quiet = Atc::new(false);
    assert!(quiet.command(&mut a, AtcCommand::ClearedToLand(true)).speech.is_none());
    assert_eq!(AircraftStatus::Flight, a.status);
}

#[test]
fn crosstrack_distance_measures_from_the_centre_line() {
    let ils = runway_north().ils(Point { x: 0, y: 0 });
    assert_eq!(250_000, ils.crosstrack_distance(&Point { x: 250_000, y: -6_000_000 }));
    assert_eq!(0, ils.crosstrack_distance(&Point { x: 0, y: -3_000_000 }));
    // beyond the threshold: the distance to the threshold itself
    assert_eq!(500_000, ils.crosstrack_distance(&Point { x: 300_000, y: -600_000 }));
}
