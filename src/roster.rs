//! Building a team from parsed roster records.
use vstd::prelude::*;
use crate::models::{Handedness, Player, Position, Skills, Team, position_code};

verus! {

broadcast use vstd::string::group_string_axioms;

/// One roster record, its fields already split out of the source text.
/// Skill ratings are in thousandths.
#[derive(Debug, Clone)]
pub struct PlayerCsvRow {
    pub number: u8,
    pub first_name: String,
    pub last_name: String,
    pub skating: u32,
    pub passing: u32,
    pub shooting: u32,
    pub defense: u32,
    pub stamina: u32,
    pub handedness: String,
    pub primary_position: String,
    pub secondary_position: Option<String>,
}

/// Why a roster could not be built.
#[derive(Debug, Clone)]
pub enum RosterError {
    UnknownPosition(String),
    UnknownHandedness(String),
}

pub open spec fn spec_parse_position(s: Seq<char>) -> Option<Position> {
    if s == position_code(Position::C) {
        Some(Position::C)
    } else if s == position_code(Position::RW) {
        Some(Position::RW)
    } else if s == position_code(Position::LW) {
        Some(Position::LW)
    } else if s == position_code(Position::RD) {
        Some(Position::RD)
    } else if s == position_code(Position::LD) {
        Some(Position::LD)
    } else {
        None
    }
}

pub open spec fn spec_parse_handedness(s: Seq<char>) -> Option<Handedness> {
    if s == seq!['L'] {
        Some(Handedness::L)
    } else if s == seq!['R'] {
        Some(Handedness::R)
    } else {
        None
    }
}

/// The decimal digit `d` as a character.
pub open spec fn digit_char(d: int) -> char {
    (('0' as int) + d) as char
}

/// A jersey number written with at least two digits.
pub open spec fn number_text(n: u8) -> Seq<char> {
    let v = n as int;
    if v < 100 {
        seq![digit_char(v / 10), digit_char(v % 10)]
    } else {
        seq![digit_char(v / 100), digit_char((v / 10) % 10), digit_char(v % 10)]
    }
}

/// A player's identifier: first name, last name, then the jersey number.
pub open spec fn player_id_of(first: Seq<char>, last: Seq<char>, number: u8) -> Seq<char> {
    first + last + number_text(number)
}

/// What `str::trim` keeps of `s`.
pub uninterp spec fn trim_of(s: Seq<char>) -> Seq<char>;

/// Relies on `str::trim`: the text without leading and trailing white space.
#[verifier::external_body]
fn trim_str(s: &str) -> (r: &str)
    ensures
        r@ == trim_of(s@),
{
    s.trim()
}

/// Whether a secondary-position field counts as present.
pub open spec fn secondary_given(s: Option<String>) -> bool {
    s is Some && trim_of(s->Some_0@).len() > 0
}

/// The player a valid record describes.
pub open spec fn row_player_ok(row: PlayerCsvRow, p: Player) -> bool {
    &&& p.player_id@ == player_id_of(row.first_name@, row.last_name@, row.number)
    &&& p.number == row.number
    &&& p.first_name@ == row.first_name@
    &&& p.last_name@ == row.last_name@
    &&& p.skills == Skills {
        skating: row.skating,
        passing: row.passing,
        shooting: row.shooting,
        defense: row.defense,
        stamina: row.stamina,
    }
    &&& p.current_stamina == row.stamina
    &&& Some(p.handedness) == spec_parse_handedness(row.handedness@)
    &&& Some(p.primary_position) == spec_parse_position(row.primary_position@)
    &&& p.secondary_position == if secondary_given(row.secondary_position) {
        spec_parse_position(row.secondary_position->Some_0@)
    } else {
        None
    }
}

/// Whether every code of a record is recognised.
pub open spec fn row_valid(row: PlayerCsvRow) -> bool {
    &&& spec_parse_handedness(row.handedness@) is Some
    &&& spec_parse_position(row.primary_position@) is Some
    &&& secondary_given(row.secondary_position) ==> spec_parse_position(
        row.secondary_position->Some_0@,
    ) is Some
}

/// The error that an invalid record gives: its handedness is checked first,
/// then its primary position, then its secondary one.
pub open spec fn row_error_ok(row: PlayerCsvRow, e: RosterError) -> bool {
    if spec_parse_handedness(row.handedness@) is None {
        e matches RosterError::UnknownHandedness(c) && c@ == row.handedness@
    } else if spec_parse_position(row.primary_position@) is None {
        e matches RosterError::UnknownPosition(c) && c@ == row.primary_position@
    } else {
        e matches RosterError::UnknownPosition(c) && c@ == row.secondary_position->Some_0@
    }
}

fn text_of(s: &str) -> (r: String)
    ensures
        r@ == s@,
{
    s.to_string()
}

/// Reads a position code: one of `C`, `RW`, `LW`, `RD`, `LD`.
pub fn parse_position(pos: &str) -> (r: Result<Position, RosterError>)
    ensures
        r matches Ok(p) ==> spec_parse_position(pos@) == Some(p),
        r is Err <==> spec_parse_position(pos@) is None,
        r matches Err(e) ==> (e matches RosterError::UnknownPosition(c) && c@ == pos@),
{
    let n = pos.unicode_len();
    if n == 1 {
        if pos.get_char(0) == 'C' {
            proof {
                assert(pos@ =~= seq!['C']);
            }
            return Ok(Position::C);
        }
    } else if n == 2 {
        let a = pos.get_char(0);
        let b = pos.get_char(1);
        if (a == 'R' || a == 'L') && (b == 'W' || b == 'D') {
            assert(pos@ =~= seq![a, b]);
            let p = if a == 'R' {
                if b == 'W' { Position::RW } else { Position::RD }
            } else {
                if b == 'W' { Position::LW } else { Position::LD }
            };
            return Ok(p);
        }
    }
    Err(RosterError::UnknownPosition(text_of(pos)))
}

/// Reads a handedness code: `L` or `R`.
pub fn parse_handedness(h: &str) -> (r: Result<Handedness, RosterError>)
    ensures
        r matches Ok(v) ==> spec_parse_handedness(h@) == Some(v),
        r is Err <==> spec_parse_handedness(h@) is None,
        r matches Err(e) ==> (e matches RosterError::UnknownHandedness(c) && c@ == h@),
{
    if h.unicode_len() == 1 {
        let c = h.get_char(0);
        assert(h@ =~= seq![c]);
        if c == 'L' {
            return Ok(Handedness::L);
        } else if c == 'R' {
            return Ok(Handedness::R);
        }
    }
    Err(RosterError::UnknownHandedness(text_of(h)))
}

fn digit_str(d: u8) -> (r: &'static str)
    requires
        d < 10,
    ensures
        r@ == seq![digit_char(d as int)],
{
    proof {
        reveal_strlit("0");
        reveal_strlit("1");
        reveal_strlit("2");
        reveal_strlit("3");
        reveal_strlit("4");
        reveal_strlit("5");
        reveal_strlit("6");
        reveal_strlit("7");
        reveal_strlit("8");
        reveal_strlit("9");
    }
    let r = match d {
        0 => "0",
        1 => "1",
        2 => "2",
        3 => "3",
        4 => "4",
        5 => "5",
        6 => "6",
        7 => "7",
        8 => "8",
        _ => "9",
    };
    assert(r@ =~= seq![digit_char(d as int)]);
    r
}

/// The identifier of a player: names, then the number padded to two digits
/// (`alexovechkin08`). Two players of equal names and number share it.
pub fn generate_player_id(first_name: &str, last_name: &str, number: u8) -> (r: String)
    ensures
        r@ == player_id_of(first_name@, last_name@, number),
{
    let mut s = text_of(first_name);
    s.append(last_name);
    if number >= 100 {
        s.append(digit_str(number / 100));
    }
    s.append(digit_str((number / 10) % 10));
    s.append(digit_str(number % 10));
    proof {
        if number < 100 {
            assert(((number / 10) % 10) == number / 10);
        }
        assert(s@ =~= player_id_of(first_name@, last_name@, number));
    }
    s
}

/// Builds a team from its roster records, in order. The first record with
/// an unrecognised code ends the work with that code's error, and no team
/// is returned.
pub fn build_team(team_name: &str, rows: &Vec<PlayerCsvRow>) -> (r: Result<Team, RosterError>)
    ensures
        r is Ok <==> forall|i: int| 0 <= i < rows@.len() ==> row_valid(#[trigger] rows@[i]),
        r matches Ok(t) ==> {
            &&& t.name@ == team_name@
            &&& t.players@.len() == rows@.len()
            &&& forall|i: int|
                0 <= i < rows@.len() ==> row_player_ok(#[trigger] rows@[i], t.players@[i])
        },
        r matches Err(e) ==> exists|k: int|
            0 <= k < rows@.len() && !row_valid(#[trigger] rows@[k]) && (forall|i: int|
                0 <= i < k ==> row_valid(#[trigger] rows@[i])) && row_error_ok(rows@[k], e),
{
    let mut players: Vec<Player> = Vec::new();
    let mut i: usize = 0;
    while i < rows.len()
        invariant
            i <= rows@.len(),
            players@.len() == i,
            forall|j: int| 0 <= j < i ==> row_valid(#[trigger] rows@[j]),
            forall|j: int| 0 <= j < i ==> row_player_ok(#[trigger] rows@[j], players@[j]),
        decreases rows@.len() - i,
    {
        let row = &rows[i];
        let player_id = generate_player_id(row.first_name.as_str(), row.last_name.as_str(), row.number);
        let handedness = match parse_handedness(row.handedness.as_str()) {
            Ok(h) => h,
            Err(e) => {
                assert(!row_valid(rows@[i as int]));
                return Err(e);
            },
        };
        let primary_position = match parse_position(row.primary_position.as_str()) {
            Ok(p) => p,
            Err(e) => {
                assert(!row_valid(rows@[i as int]));
                return Err(e);
            },
        };
        let secondary_position = match &row.secondary_position {
            Some(code) => {
                let trimmed = trim_str(code.as_str());
                if trimmed.unicode_len() > 0 {
                    match parse_position(code.as_str()) {
                        Ok(p) => Some(p),
                        Err(e) => {
                            assert(!row_valid(rows@[i as int]));
                            return Err(e);
                        },
                    }
                } else {
                    None
                }
            },
            None => None,
        };
        let player = Player {
            player_id,
            number: row.number,
            first_name: row.first_name.clone(),
            last_name: row.last_name.clone(),
            handedness,
            primary_position,
            secondary_position,
            skills: Skills {
                skating: row.skating,
                passing: row.passing,
                shooting: row.shooting,
                defense: row.defense,
                stamina: row.stamina,
            },
            current_stamina: row.stamina,
        };
        players.push(player);
        i = i + 1;
    }
    Ok(Team { name: text_of(team_name), players })
}

/// Building a team twice from the same records gives the same identifiers,
/// player by player.
pub proof fn lemma_ids_stable(rows: Seq<PlayerCsvRow>, first: Team, second: Team)
    requires
        first.players@.len() == rows.len(),
        second.players@.len() == rows.len(),
        forall|i: int| 0 <= i < rows.len() ==> row_player_ok(#[trigger] rows[i], first.players@[i]),
        forall|i: int| 0 <= i < rows.len() ==> row_player_ok(#[trigger] rows[i], second.players@[i]),
    ensures
        forall|i: int|
            0 <= i < rows.len() ==> (#[trigger] first.players@[i]).player_id@ == second.players@[i].player_id@,
{
    assert forall|i: int| 0 <= i < rows.len() implies (#[trigger] first.players@[i]).player_id@
        == second.players@[i].player_id@ by {
        assert(row_player_ok(rows[i], first.players@[i]));
        assert(row_player_ok(rows[i], second.players@[i]));
    }
}

} // verus!
