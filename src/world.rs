//! The simulated world: the airport, the aircraft, and the controller's
//! selection, advanced one tick at a time.
use vstd::prelude::*;
use crate::aircraft::{
    aircraft_by_callsign, first_with_callsign, flown_aircraft, grounded, landing_evaluated, Aircraft,
    Airport,
};
use crate::atc::{commanded, Atc};
use crate::command::{CliCommand, CommCommand};
use crate::text::{decimal, decimal_of};

verus! {

/// An aircraft after one tick of `dt` microseconds: it flies, then the
/// landing check runs.
#[verifier::opaque]
pub open spec fn ticked(a: Aircraft, airport: Airport, dt: i64) -> Aircraft {
    landing_evaluated(flown_aircraft(a, dt), airport)
}

/// The aircraft of `s` that are not on the ground, in order.
pub open spec fn airborne(s: Seq<Aircraft>) -> Seq<Aircraft>
    decreases s.len(),
{
    if s.len() == 0 {
        s
    } else if grounded(s.last().status) {
        airborne(s.drop_last())
    } else {
        airborne(s.drop_last()).push(s.last())
    }
}

/// The index that a selection of the aircraft flying as `code number`
/// points to in `s`.
pub open spec fn reselected(s: Seq<Aircraft>, code: Seq<char>, number: Seq<char>) -> Option<usize> {
    match first_with_callsign(s, code, number) {
        Some(i) => Some(i as usize),
        None => None,
    }
}

/// Lines for the console and for speech.
pub struct GameOutput {
    pub console: Vec<String>,
    pub speech: Vec<String>,
}

/// The airport, the aircraft around it, and the aircraft the controller
/// is speaking to.
pub struct Game {
    pub atc: Atc,
    pub airport: Airport,
    pub selected_aircraft: Option<usize>,
    pub aircraft: Vec<Aircraft>,
}

impl Game {
    pub open spec fn wf(&self) -> bool {
        &&& self.airport.wf()
        &&& forall|i: int| 0 <= i < self.aircraft@.len() ==> (#[trigger] self.aircraft@[i]).wf()
        &&& match self.selected_aircraft {
            Some(i) => i < self.aircraft@.len(),
            None => true,
        }
    }

    /// A world with nothing selected.
    pub fn new(atc: Atc, airport: Airport, aircraft: Vec<Aircraft>) -> (r: Self)
        requires
            airport.wf(),
            forall|i: int| 0 <= i < aircraft@.len() ==> (#[trigger] aircraft@[i]).wf(),
        ensures
            r.wf(),
            r.atc == atc,
            r.airport == airport,
            r.aircraft == aircraft,
            r.selected_aircraft.is_none(),
    {
        Game { atc, airport, selected_aircraft: None, aircraft }
    }

    /// Advances the world by `dt` microseconds: every aircraft flies and is
    /// checked for landing, aircraft on the ground leave the world, and the
    /// selection follows the selected aircraft to its new index, or is
    /// cleared when it has left.
    pub fn update(&mut self, dt: i64)
        requires
            old(self).wf(),
            dt >= 0,
        ensures
            final(self).wf(),
            final(self).aircraft@ == airborne(
                old(self).aircraft@.map_values(|a: Aircraft| ticked(a, old(self).airport, dt)),
            ),
            final(self).selected_aircraft == match old(self).selected_aircraft {
                Some(i) => reselected(
                    final(self).aircraft@,
                    old(self).aircraft@[i as int].callsign.code@,
                    old(self).aircraft@[i as int].callsign.number@,
                ),
                None => None,
            },
            forall|i: int| 0 <= i < final(self).aircraft@.len() ==> !grounded(#[trigger] final(self).aircraft@[i].status),
            final(self).airport == old(self).airport,
            final(self).atc == old(self).atc,
    {
        let selected = match self.selected_aircraft {
            Some(s) => Some(self.aircraft[s].callsign.copy()),
            None => None,
        };
        self.tick_all(dt);
        self.remove_grounded();
        self.selected_aircraft = match selected {
            Some(c) => match aircraft_by_callsign(&c, &self.aircraft) {
                Some((idx, _)) => Some(idx),
                None => None,
            },
            None => None,
        };
    }

    /// Flies every aircraft for `dt` and runs its landing check.
    fn tick_all(&mut self, dt: i64)
        requires
            old(self).wf(),
            dt >= 0,
        ensures
            final(self).aircraft@ == old(self).aircraft@.map_values(|a: Aircraft| ticked(a, old(self).airport, dt)),
            forall|i: int| 0 <= i < final(self).aircraft@.len() ==> (#[trigger] final(self).aircraft@[i]).wf(),
            final(self).airport == old(self).airport,
            final(self).atc == old(self).atc,
            final(self).selected_aircraft == old(self).selected_aircraft,
    {
        let ghost before = self.aircraft@;
        let n = self.aircraft.len();
        let mut i: usize = 0;
        while i < n
            invariant
                n == self.aircraft@.len(),
                n == before.len(),
                i <= n,
                dt >= 0,
                self.airport.wf(),
                self.airport == old(self).airport,
                before == old(self).aircraft@,
                forall|j: int| 0 <= j < i ==> self.aircraft@[j] == #[trigger] ticked(before[j], self.airport, dt),
                forall|j: int| i <= j < n ==> self.aircraft@[j] == before[j],
                forall|j: int| 0 <= j < n ==> (#[trigger] self.aircraft@[j]).wf(),
                self.atc == old(self).atc,
                self.selected_aircraft == old(self).selected_aircraft,
            decreases n - i,
        {
            let mut a = self.aircraft.remove(i);
            assert(a == before[i as int]);
            assert(a.wf());
            a.advance(dt);
            a.evaluate_landing(&self.airport);
            assert(a == ticked(before[i as int], self.airport, dt)) by {
                reveal(ticked);
            }
            self.aircraft.insert(i, a);
            i = i + 1;
        }
        assert(self.aircraft@ =~= before.map_values(|a: Aircraft| ticked(a, self.airport, dt)));
    }

    /// Removes the aircraft that are on the ground, keeping the order of the
    /// others. The selection may then point past the end: callers set it again.
    fn remove_grounded(&mut self)
        requires
            old(self).airport.wf(),
            forall|i: int| 0 <= i < old(self).aircraft@.len() ==> (#[trigger] old(self).aircraft@[i]).wf(),
        ensures
            final(self).aircraft@ == airborne(old(self).aircraft@),
            forall|i: int| 0 <= i < final(self).aircraft@.len() ==> (#[trigger] final(self).aircraft@[i]).wf(),
            forall|i: int| 0 <= i < final(self).aircraft@.len() ==> !grounded(#[trigger] final(self).aircraft@[i].status),
            final(self).airport == old(self).airport,
            final(self).atc == old(self).atc,
            final(self).selected_aircraft == old(self).selected_aircraft,
    {
        let ghost all = self.aircraft@;
        let mut k: usize = 0;
        let mut i: usize = 0;
        let n = self.aircraft.len();
        while k < n
            invariant
                n == all.len(),
                k <= n,
                i <= k,
                self.aircraft@ == airborne(all.subrange(0, k as int)) + all.subrange(k as int, n as int),
                airborne(all.subrange(0, k as int)).len() == i,
                forall|j: int| 0 <= j < all.len() ==> (#[trigger] all[j]).wf(),
                self.airport == old(self).airport,
                self.atc == old(self).atc,
                self.selected_aircraft == old(self).selected_aircraft,
            decreases n - k,
        {
            let ghost prefix = all.subrange(0, k as int);
            assert(all.subrange(0, k + 1).drop_last() =~= prefix);
            assert(all.subrange(0, k + 1).last() == all[k as int]);
            assert(self.aircraft@[i as int] == all[k as int]);
            if self.aircraft[i].is_grounded() {
                self.aircraft.remove(i);
                assert(self.aircraft@ =~= airborne(all.subrange(0, k + 1)) + all.subrange(k + 1, n as int));
            } else {
                assert(self.aircraft@ =~= airborne(all.subrange(0, k + 1)) + all.subrange(k + 1, n as int));
                i = i + 1;
            }
            k = k + 1;
        }
        assert(all.subrange(0, n as int) =~= all);
        assert(self.aircraft@ =~= airborne(all));
        proof {
            lemma_airborne_wf(all);
            lemma_airborne_not_grounded(all);
        }
    }

    /// Carries out a console command. Instructions go to the selected
    /// aircraft, and are dropped when none is selected; `LIST` lists the
    /// aircraft; selecting a callsign speaks to the first aircraft flying as
    /// it, or reports that none does.
    pub fn command(&mut self, cmd: CliCommand) -> (r: GameOutput)
        requires
            old(self).wf(),
        ensures
            final(self).wf(),
            final(self).airport == old(self).airport,
            final(self).aircraft@.len() == old(self).aircraft@.len(),
            match cmd {
                CliCommand::Atc(c) => match old(self).selected_aircraft {
                    Some(s) => {
                        &&& final(self).aircraft@ == old(self).aircraft@.update(
                            s as int,
                            commanded(old(self).aircraft@[s as int], c),
                        )
                        &&& final(self).selected_aircraft == old(self).selected_aircraft
                        &&& r.console@.len() == 1
                        &&& r.console@[0]@ == "==> "@ + old(self).aircraft@[s as int].callsign.code@
                            + old(self).aircraft@[s as int].callsign.number@ + ", "@ + c.text()
                    },
                    None => final(self).aircraft@ == old(self).aircraft@ && final(self).selected_aircraft
                        == old(self).selected_aircraft && r.console@.len() == 0,
                },
                CliCommand::Invalid(e) => final(self).aircraft@ == old(self).aircraft@
                    && final(self).selected_aircraft == old(self).selected_aircraft && r.console@.len() == 1
                    && r.console@[0]@ == "Error: "@ + e.text(),
                CliCommand::Comm(CommCommand::ListAircraft) => final(self).aircraft@ == old(self).aircraft@
                    && final(self).selected_aircraft == old(self).selected_aircraft && r.console@.len()
                    == old(self).aircraft@.len() && forall|i: int|
                    0 <= i < r.console@.len() ==> (#[trigger] r.console@[i])@ == decimal_of(i) + ": "@
                        + old(self).aircraft@[i].callsign.code@ + old(self).aircraft@[i].callsign.number@,
                CliCommand::Comm(CommCommand::ChangeAircraft(c)) => final(self).aircraft@ == old(
                    self,
                ).aircraft@ && match first_with_callsign(old(self).aircraft@, c.code@, c.number@) {
                    Some(i) => final(self).selected_aircraft == Some(i as usize) && r.console@.len() == 2
                        && r.console@[0]@ == "Changing aircraft to "@ + c.code@ + c.number@ && r.console@[1]@
                        == "Now speaking to "@ + old(self).aircraft@[i].callsign.code@ + old(
                        self,
                    ).aircraft@[i].callsign.number@,
                    None => final(self).selected_aircraft == old(self).selected_aircraft && r.console@.len()
                        == 2 && r.console@[0]@ == "Changing aircraft to "@ + c.code@ + c.number@ && r.console@[1]@ == "Error: Aircraft with callsign "@ + c.code@ + c.number@
                        + " doesn't exist"@,
                },
            },
    {
        let mut console: Vec<String> = Vec::new();
        let mut speech: Vec<String> = Vec::new();
        match cmd {
            CliCommand::Atc(c) => {
                match self.selected_aircraft {
                    Some(s) => {
                        let mut a = self.aircraft.remove(s);
                        let ghost old_aircraft = old(self).aircraft@;
                        assert(a == old_aircraft[s as int]);
                        let readback = self.atc.command(&mut a, c);
                        self.aircraft.insert(s, a);
                        assert(self.aircraft@ =~= old_aircraft.update(s as int, commanded(old_aircraft[s as int], c)));
                        assert forall|j: int| 0 <= j < self.aircraft@.len() implies (#[trigger] self.aircraft@[j]).wf() by {
                            if j != s {
                                assert(self.aircraft@[j] == old_aircraft[j]);
                            }
                        }
                        console.push(readback.console);
                        match readback.speech {
                            Some(line) => speech.push(line),
                            None => {},
                        }
                    },
                    None => {},
                }
            },
            CliCommand::Invalid(e) => {
                console.push(String::from_str("Error: ").concat(e.as_string().as_str()));
            },
            CliCommand::Comm(CommCommand::ListAircraft) => {
                let mut i: usize = 0;
                while i < self.aircraft.len()
                    invariant
                        i <= self.aircraft@.len(),
                        self.aircraft@ == old(self).aircraft@,
                        console@.len() == i,
                        forall|j: int|
                            0 <= j < i ==> (#[trigger] console@[j])@ == decimal_of(j) + ": "@
                                + self.aircraft@[j].callsign.code@ + self.aircraft@[j].callsign.number@,
                    decreases self.aircraft@.len() - i,
                {
                    let line = decimal(i as i128).concat(": ").concat(self.aircraft[i].callsign.coded().as_str());
                    let ghost before = console@;
                    console.push(line);
                    assert(console@ =~= before.push(line));
                    i = i + 1;
                }
            },
            CliCommand::Comm(CommCommand::ChangeAircraft(c)) => {
                console.push(String::from_str("Changing aircraft to ").concat(c.coded().as_str()));
                match aircraft_by_callsign(&c, &self.aircraft) {
                    Some((idx, a)) => {
                        console.push(String::from_str("Now speaking to ").concat(a.callsign.coded().as_str()));
                        self.selected_aircraft = Some(idx);
                    },
                    None => {
                        console.push(
                            String::from_str("Error: Aircraft with callsign ").concat(c.coded().as_str()).concat(
                                " doesn't exist",
                            ),
                        );
                    },
                }
            },
        }
        GameOutput { console, speech }
    }
}

proof fn lemma_airborne_wf(s: Seq<Aircraft>)
    requires
        forall|j: int| 0 <= j < s.len() ==> (#[trigger] s[j]).wf(),
    ensures
        forall|j: int| 0 <= j < airborne(s).len() ==> (#[trigger] airborne(s)[j]).wf(),
    decreases s.len(),
{
    if s.len() > 0 {
        let d = s.drop_last();
        assert forall|j: int| 0 <= j < d.len() implies (#[trigger] d[j]).wf() by {
            assert(d[j] == s[j]);
        }
        lemma_airborne_wf(d);
        let p = airborne(d);
        if !grounded(s.last().status) {
            assert forall|j: int| 0 <= j < airborne(s).len() implies (#[trigger] airborne(s)[j]).wf() by {
                if j < p.len() {
                    assert(airborne(s)[j] == p[j]);
                } else {
                    assert(airborne(s)[j] == s[s.len() - 1]);
                }
            }
        }
    }
}

/// No aircraft left after the grounded ones are removed is on the ground.
pub proof fn lemma_airborne_not_grounded(s: Seq<Aircraft>)
    ensures
        forall|j: int| 0 <= j < airborne(s).len() ==> !grounded(#[trigger] airborne(s)[j].status),
    decreases s.len(),
{
    if s.len() > 0 {
        let d = s.drop_last();
        lemma_airborne_not_grounded(d);
        let p = airborne(d);
        if !grounded(s.last().status) {
            assert forall|j: int| 0 <= j < airborne(s).len() implies !grounded(#[trigger] airborne(s)[j].status) by {
                if j < p.len() {
                    assert(airborne(s)[j] == p[j]);
                }
            }
        }
    }
}

} // verus!
