use atc::aircraft::{Aircraft, AircraftStatus, Airport, Callsign, Runway};
use atc::atc::Atc;
use atc::command::{AtcCommand, CliCommand, CommandParseError};
use atc::geom::Point;
use atc::world::Game;

fn callsign(code: &str, number: &str) -> Callsign {
    Callsign { name: String::new(), code: String::from(code), number: String::from(number) }
}

fn airport() -> Airport {
    let runway = Runway {
        offset: Point { x: 0, y: 0 },
        heading: 0,
        length: 2000,
        width: 45,
        ils_max_altitude: 3000,
        round_glideslope: false,
    };
    Airport {
        position: Point { x: 0, y: 0 },
        icao_code: String::from("LCPH"),
        takeoff_runways: vec![runway],
        landing_runways: vec![runway],
    }
}

fn cleared(mut a: Aircraft) -> Aircraft {
    a.cleared_to_land = true;
    a
}

#[test]
fn captured_aircraft_starts_its_approach() {
    let a = cleared(Aircraft::new(callsign("CYP", "2202"), Point { x: 0, y: -6_000_000 }, 350, 800, 180));
    let mut game = Game::new(Atc::new(false), airport(), vec![a]);
    game.update(1000);
    let a = &game.aircraft[0];
    assert_eq!(AircraftStatus::Landing, a.status);
    assert_eq!(0, a.heading.intended);
    let ils = game.airport.landing_runways[0].ils(Point { x: 0, y: 0 });
    assert_eq!(ils.altitude(&a.position) as i64, a.altitude.intended);
    assert!((1010..=1013).contains(&a.altitude.intended));
}

#[test]
fn uncleared_aircraft_keeps_flying() {
    let a = Aircraft::new(callsign("CYP", "2202"), Point { x: 0, y: -6_000_000 }, 350, 800, 180);
    let mut game = Game::new(Atc::new(false), airport(), vec![a]);
    game.update(1000);
    assert_eq!(AircraftStatus::Flight, game.aircraft[0].status);
    assert_eq!(350, game.aircraft[0].heading.intended);
}

#[test]
fn landed_aircraft_leaves_the_world() {
    let a = cleared(Aircraft::new(callsign("CYP", "2202"), Point { x: 0, y: -1_200_000 }, 0, 100, 150));
    let b = Aircraft::new(callsign("FDX", "261"), Point { x: 50_000_000, y: 0 }, 0, 5000, 200);
    let mut game = Game::new(Atc::new(false), airport(), vec![a, b]);
    game.update(1000);
    assert_eq!(1, game.aircraft.len());
    assert_eq!("FDX261", game.aircraft[0].callsign.coded());
}

#[test]
fn selection_follows_its_aircraft() {
    let a = Aircraft::new(callsign("CYP", "2202"), Point { x: 50_000_000, y: 0 }, 0, 5000, 200);
    let b = cleared(Aircraft::new(callsign("FDX", "261"), Point { x: 0, y: -1_200_000 }, 0, 100, 150));
    let c = Aircraft::new(callsign("TRA", "1112"), Point { x: -50_000_000, y: 0 }, 0, 5000, 200);
    let mut game = Game::new(Atc::new(false), airport(), vec![a, b, c]);
    let out = game.command(CliCommand::from_string(String::from("sel tra1112")).remove(0));
    assert_eq!(vec!["Changing aircraft to TRA1112", "Now speaking to TRA1112"], out.console);
    assert_eq!(Some(2), game.selected_aircraft);
    game.update(1000);
    assert_eq!(2, game.aircraft.len());
    assert_eq!(Some(1), game.selected_aircraft);
    assert_eq!("TRA1112", game.aircraft[1].callsign.coded());
}

#[test]
fn selection_of_a_landed_aircraft_is_cleared() {
    let a = Aircraft::new(callsign("CYP", "2202"), Point { x: 50_000_000, y: 0 }, 0, 5000, 200);
    let b = cleared(Aircraft::new(callsign("FDX", "261"), Point { x: 0, y: -1_200_000 }, 0, 100, 150));
    let mut game = Game::new(Atc::new(false), airport(), vec![a, b]);
    game.command(CliCommand::from_string(String::from("FDX261")).remove(0));
    assert_eq!(Some(1), game.selected_aircraft);
    game.update(1000);
    assert_eq!(None, game.selected_aircraft);
}

#[test]
fn console_lists_selects_and_commands() {
    let a = Aircraft::new(callsign("CYP", "2202"), Point { x: 0, y: 0 }, 0, 5000, 200);
    let b = Aircraft::new(callsign("FDX", "261"), Point { x: 1000, y: 0 }, 0, 5000, 200);
    let mut game = Game::new(Atc::new(false), airport(), vec![a, b]);

    let out = game.command(CliCommand::Atc(AtcCommand::ChangeHeading(90)));
    assert!(out.console.is_empty());
    assert_eq!(0, game.aircraft[0].heading.intended);

    let out = game.command(CliCommand::from_string(String::from("LIST")).remove(0));
    assert_eq!(vec!["0: CYP2202", "1: FDX261"], out.console);

    let out = game.command(CliCommand::from_string(String::from("SEL ABC123")).remove(0));
    assert_eq!(
        vec!["Changing aircraft to ABC123", "Error: Aircraft with callsign ABC123 doesn't exist"],
        out.console
    );
    assert_eq!(None, game.selected_aircraft);

    game.command(CliCommand::from_string(String::from("SEL FDX261")).remove(0));
    let out = game.command(CliCommand::from_string(String::from("HDG 90")).remove(0));
    assert_eq!(vec!["==> FDX261, heading to 90"], out.console);
    assert!(out.speech.is_empty());
    assert_eq!(90, game.aircraft[1].heading.intended);
    assert_eq!(0, game.aircraft[0].heading.intended);

    let out = game.command(CliCommand::Invalid(CommandParseError::InvalidNumber));
    assert_eq!(vec!["Error: invalid number"], out.console);
}

#[test]
fn grounded_aircraft_do_not_move() {
    let mut a = Aircraft::new(callsign("CYP", "2202"), Point { x: 0, y: 0 }, 0, 0, 150);
    a.status = AircraftStatus::Taxi;
    a.advance(1_000_000);
    assert_eq!(Point { x: 0, y: 0 }, a.position);
}
