//! The controller: issues instructions to aircraft and reads them back.
use vstd::prelude::*;
use crate::aircraft::{altitude_commanded, heading_commanded, speed_commanded, Aircraft};
use crate::command::AtcCommand;

verus! {

/// The controller's station.
#[derive(Clone, Copy, Debug)]
pub struct Atc {
    /// Whether read-backs are also spoken aloud.
    pub tts_enabled: bool,
}

/// An instruction as sent to an aircraft.
pub struct AtcRequest(pub AtcCommand);

/// The instruction an aircraft acknowledges.
pub struct AtcReply(pub AtcCommand);

/// What the controller says for an instruction: the console line, and the
/// line to speak when speech is enabled.
pub struct AtcReadback {
    pub console: String,
    pub speech: Option<String>,
}

/// The aircraft after following `cmd`.
pub open spec fn commanded(a: Aircraft, cmd: AtcCommand) -> Aircraft {
    match cmd {
        AtcCommand::ChangeHeading(h) => heading_commanded(a, h as int, None),
        AtcCommand::ChangeHeadingWithTurnDirection(h, d) => heading_commanded(a, h as int, Some(d)),
        AtcCommand::ChangeAltitude(alt) => altitude_commanded(a, alt as int),
        AtcCommand::ChangeSpeed(spd) => speed_commanded(a, spd as int),
        AtcCommand::ClearedToLand(c) => Aircraft { cleared_to_land: c, ..a },
    }
}

impl Aircraft {
    /// Follows an instruction and acknowledges it.
    pub fn command(&mut self, cmd: AtcRequest) -> (r: AtcReply)
        requires
            old(self).wf(),
        ensures
            final(self).wf(),
            *final(self) == commanded(*old(self), cmd.0),
            r.0 == cmd.0,
    {
        match cmd.0 {
            AtcCommand::ChangeHeading(heading) => self.change_heading(heading as i64, None),
            AtcCommand::ChangeHeadingWithTurnDirection(heading, direction) => {
                self.change_heading(heading as i64, Some(direction))
            },
            AtcCommand::ChangeAltitude(altitude) => self.change_altitude(altitude),
            AtcCommand::ChangeSpeed(speed) => self.change_speed(speed),
            AtcCommand::ClearedToLand(is_cleared) => {
                self.cleared_to_land = is_cleared;
            },
        }
        AtcReply(cmd.0)
    }
}

impl Atc {
    pub fn new(enable_tts: bool) -> (r: Self)
        ensures
            r.tts_enabled == enable_tts,
    {
        Atc { tts_enabled: enable_tts }
    }

    /// Issues `cmd` to `aircraft` and returns the read-back: on the console
    /// `==> <coded callsign>, <instruction>`, spoken as
    /// `<spoken callsign>, <instruction>`.
    pub fn command(&mut self, aircraft: &mut Aircraft, cmd: AtcCommand) -> (r: AtcReadback)
        requires
            old(aircraft).wf(),
        ensures
            final(aircraft).wf(),
            *final(aircraft) == commanded(*old(aircraft), cmd),
            *final(self) == *old(self),
            r.console@ == "==> "@ + old(aircraft).callsign.code@ + old(aircraft).callsign.number@ + ", "@
                + cmd.text(),
            r.speech.is_some() == old(self).tts_enabled,
            r.speech.is_some() ==> r.speech.unwrap()@ == old(aircraft).callsign.name@ + seq![' ']
                + old(aircraft).callsign.number@ + ", "@ + cmd.text(),
    {
        let text = cmd.as_string();
        let coded = aircraft.callsign.coded();
        let console = String::from_str("==> ").concat(coded.as_str()).concat(", ").concat(text.as_str());
        let speech = if self.tts_enabled {
            let spoken = aircraft.callsign.spoken();
            Some(spoken.concat(", ").concat(text.as_str()))
        } else {
            None
        };
        aircraft.command(AtcRequest(cmd));
        AtcReadback { console, speech }
    }
}

} // verus!
