//! The controller's command line: tokens, ATC instructions, and console commands.
use vstd::prelude::*;
use crate::aircraft::{Callsign, TurnDirection};
use crate::text::{decimal, decimal_of, integer_of, is_space, parse_i32, parse_u32, to_upper, upper_of};

verus! {

/// The tokens of `s[i..]` when the token under way is `cur`: the maximal
/// runs of characters that are not spaces, in order.
pub open spec fn split_from(s: Seq<char>, i: int, cur: Seq<char>) -> Seq<Seq<char>>
    decreases s.len() - i,
{
    if i >= s.len() {
        if cur.len() > 0 {
            seq![cur]
        } else {
            seq![]
        }
    } else if is_space(s[i]) {
        (if cur.len() > 0 {
            seq![cur]
        } else {
            seq![]
        }) + split_from(s, i + 1, seq![])
    } else {
        split_from(s, i + 1, cur.push(s[i]))
    }
}

/// The whitespace-separated tokens of `s`.
pub open spec fn tokens_of(s: Seq<char>) -> Seq<Seq<char>> {
    split_from(s, 0, seq![])
}

/// The characters of each string.
pub open spec fn words(v: Seq<String>) -> Seq<Seq<char>> {
    v.map_values(|t: String| t@)
}

/// Splits `s` into its whitespace-separated tokens.
pub fn tokenize(s: &str) -> (r: Vec<String>)
    ensures
        words(r@) == tokens_of(s@),
{
    let n = s.unicode_len();
    let mut out: Vec<String> = Vec::new();
    let mut start: usize = 0;
    let mut i: usize = 0;
    assert(s@.subrange(0, 0) =~= Seq::<char>::empty());
    assert(words(out@) =~= Seq::<Seq<char>>::empty());
    assert(words(out@) + split_from(s@, 0, seq![]) =~= tokens_of(s@));
    while i < n
        invariant
            n == s@.len(),
            start <= i <= n,
            words(out@) + split_from(s@, i as int, s@.subrange(start as int, i as int)) == tokens_of(s@),
        decreases n - i,
    {
        let c = s.get_char(i);
        let ghost before = words(out@);
        if c == ' ' || c == '\t' || c == '\n' || c == '\r' || c == '\x0B' || c == '\x0C' {
            if i > start {
                let t = String::from_str(s.substring_char(start, i));
                out.push(t);
                assert(words(out@) =~= before + seq![s@.subrange(start as int, i as int)]);
            }
            assert(s@.subrange(i + 1, i + 1) =~= Seq::<char>::empty());
            proof {
                if i <= start {
                    assert(s@.subrange(start as int, i as int).len() == 0);
                }
                assert(words(out@) + split_from(s@, i + 1, seq![]) =~= before + split_from(
                    s@,
                    i as int,
                    s@.subrange(start as int, i as int),
                ));
            }
            start = i + 1;
        } else {
            assert(s@.subrange(start as int, i + 1) =~= s@.subrange(start as int, i as int).push(c));
        }
        i = i + 1;
    }
    if n > start {
        let t = String::from_str(s.substring_char(start, n));
        let ghost before = words(out@);
        out.push(t);
        assert(words(out@) =~= before + seq![s@.subrange(start as int, n as int)]);
    } else {
        assert(s@.subrange(start as int, n as int).len() == 0);
    }
    assert(words(out@) =~= tokens_of(s@)) by {
        let t = split_from(s@, n as int, s@.subrange(start as int, n as int));
        if n > start {
            assert(t == seq![s@.subrange(start as int, n as int)]);
        } else {
            assert(t == Seq::<Seq<char>>::empty());
        }
    }
    out
}

/// Whether `t` is the word `w`.
pub fn is_word(t: &str, w: &str) -> (r: bool)
    ensures
        r == (t@ == w@),
{
    let n = t.unicode_len();
    if n != w.unicode_len() {
        return false;
    }
    let mut i: usize = 0;
    while i < n
        invariant
            n == t@.len(),
            n == w@.len(),
            i <= n,
            forall|j: int| 0 <= j < i ==> t@[j] == w@[j],
        decreases n - i,
    {
        if t.get_char(i) != w.get_char(i) {
            return false;
        }
        i = i + 1;
    }
    assert(t@ =~= w@);
    true
}

/// Why a command could not be read.
#[derive(Clone, Copy, Debug, PartialEq, Eq, Structural)]
pub enum CommandParseError {
    /// The command's argument is missing at the end of the line.
    MissingArgument,
    /// The command's argument is not a number of the right kind.
    InvalidNumber,
}

impl CommandParseError {
    pub open spec fn text(self) -> Seq<char> {
        match self {
            CommandParseError::MissingArgument => "missing argument"@,
            CommandParseError::InvalidNumber => "invalid number"@,
        }
    }

    /// A short description of the error.
    pub fn as_string(&self) -> (r: String)
        ensures
            r@ == self.text(),
    {
        match self {
            CommandParseError::MissingArgument => String::from_str("missing argument"),
            CommandParseError::InvalidNumber => String::from_str("invalid number"),
        }
    }
}

/// An instruction from the controller to an aircraft.
#[derive(Clone, Copy, Debug, PartialEq, Eq, Structural)]
pub enum AtcCommand {
    ChangeHeading(i32),
    ChangeHeadingWithTurnDirection(i32, TurnDirection),
    ChangeAltitude(u32),
    ChangeSpeed(u32),
    ClearedToLand(bool),
}

/// The `i32` that `s` writes, if any.
pub open spec fn i32_of(s: Seq<char>) -> Option<i32> {
    match integer_of(s) {
        Some(v) => if i32::MIN <= v <= i32::MAX {
            Some(v as i32)
        } else {
            None
        },
        None => None,
    }
}

/// The `u32` that `s` writes, if any.
pub open spec fn u32_of(s: Seq<char>) -> Option<u32> {
    match integer_of(s) {
        Some(v) => if 0 <= v <= u32::MAX && s[0] != '-' {
            Some(v as u32)
        } else {
            None
        },
        None => None,
    }
}

/// An instruction word that takes a number after it.
pub open spec fn takes_argument(t: Seq<char>) -> bool {
    t == "HDG"@ || t == "TURNL"@ || t == "TURNR"@ || t == "ALT"@ || t == "SPD"@
}

/// The instruction that word `t` makes with argument `arg`.
pub open spec fn argument_command(t: Seq<char>, arg: Seq<char>) -> Result<AtcCommand, CommandParseError> {
    if t == "ALT"@ || t == "SPD"@ {
        match u32_of(arg) {
            Some(v) => Ok(
                if t == "ALT"@ {
                    AtcCommand::ChangeAltitude(v)
                } else {
                    AtcCommand::ChangeSpeed(v)
                },
            ),
            None => Err(CommandParseError::InvalidNumber),
        }
    } else {
        match i32_of(arg) {
            Some(v) => Ok(
                if t == "HDG"@ {
                    AtcCommand::ChangeHeading(v)
                } else if t == "TURNL"@ {
                    AtcCommand::ChangeHeadingWithTurnDirection(v, TurnDirection::Left)
                } else {
                    AtcCommand::ChangeHeadingWithTurnDirection(v, TurnDirection::Right)
                },
            ),
            None => Err(CommandParseError::InvalidNumber),
        }
    }
}

/// The instructions in the tokens `ts[i..]`: `LND` stands alone, the other
/// words take the next token as their number; other tokens are skipped.
pub open spec fn atc_parse(ts: Seq<Seq<char>>, i: int) -> Seq<Result<AtcCommand, CommandParseError>>
    decreases ts.len() - i,
{
    if i < 0 || i >= ts.len() {
        seq![]
    } else if ts[i] == "LND"@ {
        seq![Ok(AtcCommand::ClearedToLand(true))] + atc_parse(ts, i + 1)
    } else if takes_argument(ts[i]) {
        if i + 1 >= ts.len() {
            seq![Err(CommandParseError::MissingArgument)]
        } else {
            seq![argument_command(ts[i], ts[i + 1])] + atc_parse(ts, i + 2)
        }
    } else {
        atc_parse(ts, i + 1)
    }
}

fn argument_of(word: &str, arg: &str) -> (r: Result<AtcCommand, CommandParseError>)
    requires
        takes_argument(word@),
    ensures
        r == argument_command(word@, arg@),
{
    proof {
        reveal_strlit("ALT");
        reveal_strlit("SPD");
        reveal_strlit("HDG");
        reveal_strlit("TURNL");
    }
    if is_word(word, "ALT") || is_word(word, "SPD") {
        match parse_u32(arg) {
            Some(v) => Ok(
                if is_word(word, "ALT") {
                    AtcCommand::ChangeAltitude(v)
                } else {
                    AtcCommand::ChangeSpeed(v)
                },
            ),
            None => Err(CommandParseError::InvalidNumber),
        }
    } else {
        match parse_i32(arg) {
            Some(v) => Ok(
                if is_word(word, "HDG") {
                    AtcCommand::ChangeHeading(v)
                } else if is_word(word, "TURNL") {
                    AtcCommand::ChangeHeadingWithTurnDirection(v, TurnDirection::Left)
                } else {
                    AtcCommand::ChangeHeadingWithTurnDirection(v, TurnDirection::Right)
                },
            ),
            None => Err(CommandParseError::InvalidNumber),
        }
    }
}

impl AtcCommand {
    /// Reads the instructions in `parts`, each with its number; a malformed
    /// or missing number gives an error in its place.
    pub fn from_parts(parts: &Vec<String>) -> (r: Vec<Result<AtcCommand, CommandParseError>>)
        ensures
            r@ == atc_parse(words(parts@), 0),
    {
        let ghost ts = words(parts@);
        let n = parts.len();
        let mut out: Vec<Result<AtcCommand, CommandParseError>> = Vec::new();
        let mut i: usize = 0;
        proof {
            reveal_strlit("LND");
            reveal_strlit("HDG");
            reveal_strlit("TURNL");
            reveal_strlit("TURNR");
            reveal_strlit("ALT");
            reveal_strlit("SPD");
        }
        while i < n
            invariant
                n == parts@.len(),
                ts == words(parts@),
                i <= n,
                out@ + atc_parse(ts, i as int) == atc_parse(ts, 0),
            decreases n - i,
        {
            let t = parts[i].as_str();
            assert(ts[i as int] == t@);
            let ghost before = out@;
            if is_word(t, "LND") {
                out.push(Ok(AtcCommand::ClearedToLand(true)));
                assert(out@ + atc_parse(ts, i + 1) =~= before + atc_parse(ts, i as int));
                i = i + 1;
            } else if is_word(t, "HDG") || is_word(t, "TURNL") || is_word(t, "TURNR") || is_word(t, "ALT")
                || is_word(t, "SPD") {
                if i + 1 >= n {
                    out.push(Err(CommandParseError::MissingArgument));
                    assert(out@ =~= before + atc_parse(ts, i as int));
                    assert(atc_parse(ts, n as int) =~= Seq::<Result<AtcCommand, CommandParseError>>::empty());
                    assert(out@ + atc_parse(ts, n as int) =~= out@);
                    i = n;
                } else {
                    assert(ts[i + 1] == parts[i + 1]@);
                    let c = argument_of(t, parts[i + 1].as_str());
                    out.push(c);
                    assert(out@ + atc_parse(ts, i + 2) =~= before + atc_parse(ts, i as int));
                    i = i + 2;
                }
            } else {
                i = i + 1;
            }
        }
        assert(atc_parse(ts, i as int) =~= Seq::<Result<AtcCommand, CommandParseError>>::empty());
        assert(out@ + atc_parse(ts, i as int) =~= out@);
        out
    }

    /// What the instruction says, as read back to the pilot.
    pub open spec fn text(self) -> Seq<char> {
        match self {
            AtcCommand::ChangeHeading(h) => "heading to "@ + decimal_of(h as int),
            AtcCommand::ChangeHeadingWithTurnDirection(h, d) => "turn "@ + d.word() + " to "@ + decimal_of(
                h as int,
            ),
            AtcCommand::ChangeAltitude(a) => "altitude to "@ + decimal_of(a as int) + " feet"@,
            AtcCommand::ChangeSpeed(s) => "speed to "@ + decimal_of(s as int),
            AtcCommand::ClearedToLand(c) => if c {
                "cleared to land"@
            } else {
                "clearance to land cancelled"@
            },
        }
    }

    /// The instruction in words, such as `heading to 180`.
    pub fn as_string(&self) -> (r: String)
        ensures
            r@ == self.text(),
    {
        match self {
            AtcCommand::ChangeHeading(h) => {
                let n = decimal(*h as i128);
                String::from_str("heading to ").concat(n.as_str())
            },
            AtcCommand::ChangeHeadingWithTurnDirection(h, d) => {
                let n = decimal(*h as i128);
                let w = d.as_string();
                String::from_str("turn ").concat(w.as_str()).concat(" to ").concat(n.as_str())
            },
            AtcCommand::ChangeAltitude(a) => {
                let n = decimal(*a as i128);
                String::from_str("altitude to ").concat(n.as_str()).concat(" feet")
            },
            AtcCommand::ChangeSpeed(s) => {
                let n = decimal(*s as i128);
                String::from_str("speed to ").concat(n.as_str())
            },
            AtcCommand::ClearedToLand(c) => {
                if *c {
                    String::from_str("cleared to land")
                } else {
                    String::from_str("clearance to land cancelled")
                }
            },
        }
    }
}

/// A console command.
#[derive(Clone, Debug)]
pub enum CommCommand {
    /// Speak to the aircraft with this callsign.
    ChangeAircraft(Callsign),
    /// List the aircraft.
    ListAircraft,
}

/// A console command as values: a callsign by its code and number.
pub enum CommModel {
    ChangeAircraft(Seq<char>, Seq<char>),
    ListAircraft,
}

impl CommCommand {
    pub open spec fn model(self) -> CommModel {
        match self {
            CommCommand::ChangeAircraft(c) => CommModel::ChangeAircraft(c.code@, c.number@),
            CommCommand::ListAircraft => CommModel::ListAircraft,
        }
    }

    /// A copy of this command.
    pub fn copy(&self) -> (r: CommCommand)
        ensures
            r.model() == self.model(),
    {
        match self {
            CommCommand::ChangeAircraft(c) => CommCommand::ChangeAircraft(c.copy()),
            CommCommand::ListAircraft => CommCommand::ListAircraft,
        }
    }

    /// Reads the console commands in `parts`: `LIST`, `SEL` with the
    /// callsign after it, or a bare callsign; other tokens are skipped.
    pub fn from_parts(parts: &Vec<String>) -> (r: Vec<CommCommand>)
        ensures
            r@.map_values(|c: CommCommand| c.model()) == comm_parse(words(parts@), 0),
    {
        let ghost ts = words(parts@);
        let n = parts.len();
        let mut out: Vec<CommCommand> = Vec::new();
        let mut i: usize = 0;
        proof {
            reveal_strlit("LIST");
            reveal_strlit("SEL");
        }
        while i < n
            invariant
                n == parts@.len(),
                ts == words(parts@),
                i <= n,
                out@.map_values(|c: CommCommand| c.model()) + comm_parse(ts, i as int) == comm_parse(ts, 0),
            decreases n - i,
        {
            let t = parts[i].as_str();
            assert(ts[i as int] == t@);
            let ghost before = out@.map_values(|c: CommCommand| c.model());
            if is_word(t, "LIST") {
                out.push(CommCommand::ListAircraft);
                assert(out@.map_values(|c: CommCommand| c.model()) =~= before + seq![CommModel::ListAircraft]);
                assert(out@.map_values(|c: CommCommand| c.model()) + comm_parse(ts, i + 1) =~= before
                    + comm_parse(ts, i as int));
                i = i + 1;
            } else if is_word(t, "SEL") {
                if i + 1 < n {
                    assert(ts[i + 1] == parts[i + 1]@);
                    match Callsign::from_uppercased(parts[i + 1].as_str()) {
                        Some(c) => {
                            out.push(CommCommand::ChangeAircraft(c));
                            assert(out@.map_values(|c: CommCommand| c.model()) =~= before + callsign_model(ts[i + 1]));
                        },
                        None => {
                            assert(out@.map_values(|c: CommCommand| c.model()) =~= before + callsign_model(ts[i + 1]));
                        },
                    }
                    assert(out@.map_values(|c: CommCommand| c.model()) + comm_parse(ts, i + 2) =~= before
                        + comm_parse(ts, i as int));
                    i = i + 2;
                } else {
                    i = i + 1;
                }
            } else {
                match Callsign::from_uppercased(t) {
                    Some(c) => {
                        out.push(CommCommand::ChangeAircraft(c));
                        assert(out@.map_values(|c: CommCommand| c.model()) =~= before + callsign_model(ts[i as int]));
                    },
                    None => {
                        assert(out@.map_values(|c: CommCommand| c.model()) =~= before + callsign_model(ts[i as int]));
                    },
                }
                assert(out@.map_values(|c: CommCommand| c.model()) + comm_parse(ts, i + 1) =~= before
                    + comm_parse(ts, i as int));
                i = i + 1;
            }
        }
        assert(comm_parse(ts, i as int) =~= Seq::<CommModel>::empty());
        assert(out@.map_values(|c: CommCommand| c.model()) + comm_parse(ts, i as int) =~= out@.map_values(
            |c: CommCommand| c.model(),
        ));
        out
    }
}

/// The selection a token makes as a callsign: none unless it is longer
/// than three characters.
pub open spec fn callsign_model(t: Seq<char>) -> Seq<CommModel> {
    if t.len() > 3 {
        seq![CommModel::ChangeAircraft(t.subrange(0, 3), t.subrange(3, t.len() as int))]
    } else {
        seq![]
    }
}

/// The console commands in the tokens `ts[i..]`.
pub open spec fn comm_parse(ts: Seq<Seq<char>>, i: int) -> Seq<CommModel>
    decreases ts.len() - i,
{
    if i < 0 || i >= ts.len() {
        seq![]
    } else if ts[i] == "LIST"@ {
        seq![CommModel::ListAircraft] + comm_parse(ts, i + 1)
    } else if ts[i] == "SEL"@ {
        if i + 1 < ts.len() {
            callsign_model(ts[i + 1]) + comm_parse(ts, i + 2)
        } else {
            seq![]
        }
    } else {
        callsign_model(ts[i]) + comm_parse(ts, i + 1)
    }
}

/// A command typed at the console.
#[derive(Clone, Debug)]
pub enum CliCommand {
    Atc(AtcCommand),
    Comm(CommCommand),
    /// An instruction whose number could not be read.
    Invalid(CommandParseError),
}

/// A console command as values.
pub enum CliModel {
    Atc(AtcCommand),
    Comm(CommModel),
    Invalid(CommandParseError),
}

impl CliCommand {
    pub open spec fn model(self) -> CliModel {
        match self {
            CliCommand::Atc(a) => CliModel::Atc(a),
            CliCommand::Comm(c) => CliModel::Comm(c.model()),
            CliCommand::Invalid(e) => CliModel::Invalid(e),
        }
    }

    /// Reads an upper-cased line: its instructions if it has any, else its
    /// console commands.
    pub fn from_uppercased(s: &str) -> (r: Vec<CliCommand>)
        ensures
            r@.map_values(|c: CliCommand| c.model()) == cli_parse(tokens_of(s@)),
    {
        let parts = tokenize(s);
        let atc = AtcCommand::from_parts(&parts);
        let mut out: Vec<CliCommand> = Vec::new();
        if atc.len() > 0 {
            let mut i: usize = 0;
            while i < atc.len()
                invariant
                    i <= atc@.len(),
                    out@.map_values(|c: CliCommand| c.model()) =~= atc@.subrange(0, i as int).map_values(
                        |c: Result<AtcCommand, CommandParseError>| atc_model(c),
                    ),
                decreases atc@.len() - i,
            {
                let ghost before = out@;
                let item = match atc[i] {
                    Ok(c) => CliCommand::Atc(c),
                    Err(e) => CliCommand::Invalid(e),
                };
                assert(item.model() == atc_model(atc@[i as int]));
                out.push(item);
                assert(out@ =~= before.push(item));
                assert(out@.map_values(|c: CliCommand| c.model()) =~= before.map_values(|c: CliCommand| c.model()).push(
                    item.model(),
                ));
                assert(atc@.subrange(0, i + 1) =~= atc@.subrange(0, i as int).push(atc@[i as int]));
                assert(atc@.subrange(0, i + 1).map_values(|c: Result<AtcCommand, CommandParseError>| atc_model(c))
                    =~= atc@.subrange(0, i as int).map_values(|c: Result<AtcCommand, CommandParseError>| atc_model(c)).push(
                    atc_model(atc@[i as int]),
                ));
                i = i + 1;
            }
            assert(atc@.subrange(0, atc@.len() as int) =~= atc@);
        } else {
            let comm = CommCommand::from_parts(&parts);
            let mut i: usize = 0;
            while i < comm.len()
                invariant
                    i <= comm@.len(),
                    out@.map_values(|c: CliCommand| c.model()) =~= comm@.subrange(0, i as int).map_values(
                        |c: CommCommand| CliModel::Comm(c.model()),
                    ),
                decreases comm@.len() - i,
            {
                let ghost before = out@;
                let item = CliCommand::Comm(comm[i].copy());
                out.push(item);
                assert(out@ =~= before.push(item));
                assert(out@.map_values(|c: CliCommand| c.model()) =~= before.map_values(|c: CliCommand| c.model()).push(
                    item.model(),
                ));
                assert(comm@.subrange(0, i + 1) =~= comm@.subrange(0, i as int).push(comm@[i as int]));
                assert(comm@.subrange(0, i + 1).map_values(|c: CommCommand| CliModel::Comm(c.model()))
                    =~= comm@.subrange(0, i as int).map_values(|c: CommCommand| CliModel::Comm(c.model())).push(
                    CliModel::Comm(comm@[i as int].model()),
                ));
                i = i + 1;
            }
            assert(comm@.subrange(0, comm@.len() as int) =~= comm@);
            assert(comm@.map_values(|c: CommCommand| CliModel::Comm(c.model())) =~= comm@.map_values(
                |c: CommCommand| c.model(),
            ).map_values(|m: CommModel| CliModel::Comm(m)));
        }
        out
    }

    /// Reads a line after upper-casing it.
    pub fn from_string(s: String) -> (r: Vec<CliCommand>)
        ensures
            r@.map_values(|c: CliCommand| c.model()) == cli_parse(tokens_of(upper_of(s@))),
    {
        let upper = to_upper(s.as_str());
        Self::from_uppercased(upper.as_str())
    }
}

/// An instruction, or the error in its place, as a console command.
pub open spec fn atc_model(c: Result<AtcCommand, CommandParseError>) -> CliModel {
    match c {
        Ok(a) => CliModel::Atc(a),
        Err(e) => CliModel::Invalid(e),
    }
}

/// The commands of a line of tokens: its instructions when it holds any
/// instruction word, else its console commands.
pub open spec fn cli_parse(ts: Seq<Seq<char>>) -> Seq<CliModel> {
    let atc = atc_parse(ts, 0);
    if atc.len() > 0 {
        atc.map_values(|c: Result<AtcCommand, CommandParseError>| atc_model(c))
    } else {
        comm_parse(ts, 0).map_values(|m: CommModel| CliModel::Comm(m))
    }
}

} // verus!
