//! Players, teams, the puck and the rink.
use vstd::prelude::*;
use crate::motion::{RINK_LENGTH, RINK_WIDTH};

verus! {

/// A skater's position on the lineup card.
#[derive(Debug, Clone, Copy, PartialEq, Eq, Structural)]
pub enum Position {
    C,
    RW,
    LW,
    LD,
    RD,
}

/// The two-character-or-less code of a position, as rosters write it.
pub open spec fn position_code(p: Position) -> Seq<char> {
    match p {
        Position::C => seq!['C'],
        Position::RW => seq!['R', 'W'],
        Position::LW => seq!['L', 'W'],
        Position::LD => seq!['L', 'D'],
        Position::RD => seq!['R', 'D'],
    }
}

pub open spec fn is_defense_position(p: Position) -> bool {
    p == Position::LD || p == Position::RD
}

impl Position {
    /// The roster code of this position.
    pub fn code(&self) -> (r: &'static str)
        ensures
            r@ == position_code(*self),
    {
        proof {
            reveal_strlit("C");
            reveal_strlit("RW");
            reveal_strlit("LW");
            reveal_strlit("LD");
            reveal_strlit("RD");
        }
        match self {
            Position::C => "C",
            Position::RW => "RW",
            Position::LW => "LW",
            Position::LD => "LD",
            Position::RD => "RD",
        }
    }

    /// Whether this is one of the two defense positions.
    pub fn is_defense(&self) -> (r: bool)
        ensures
            r == is_defense_position(*self),
    {
        match self {
            Position::LD | Position::RD => true,
            _ => false,
        }
    }
}

/// The hand a player shoots with.
#[derive(Debug, Clone, Copy, PartialEq, Eq, Structural)]
pub enum Handedness {
    L,
    R,
}

/// Which of the two teams a skater plays for.
#[derive(Debug, Clone, Copy, PartialEq, Eq, Structural)]
pub enum TeamSide {
    Home,
    Away,
}

/// Skill ratings, each in thousandths.
#[derive(Debug, Clone, Copy, PartialEq, Eq, Structural)]
pub struct Skills {
    pub skating: u32,
    pub passing: u32,
    pub shooting: u32,
    pub defense: u32,
    pub stamina: u32,
}

/// A rostered player.
#[derive(Debug, Clone)]
pub struct Player {
    pub player_id: String,
    pub number: u8,
    pub first_name: String,
    pub last_name: String,
    pub handedness: Handedness,
    pub primary_position: Position,
    pub secondary_position: Option<Position>,
    pub skills: Skills,
    pub current_stamina: u32,
}

/// A team name and its full roster, in roster order.
#[derive(Debug, Clone)]
pub struct Team {
    pub name: String,
    pub players: Vec<Player>,
}

/// The puck: where it is, how it moves, and who holds it.
#[derive(Debug, Clone)]
pub struct Puck {
    pub x: i64,
    pub y: i64,
    pub velocity_x: i64,
    pub velocity_y: i64,
    pub possessed_by: Option<String>,
}

/// Fixed rink geometry.
#[derive(Debug)]
pub struct Rink {
    pub width: i64,
    pub length: i64,
    pub goal_line_left: i64,
    pub goal_line_right: i64,
    pub blue_line_left: i64,
    pub blue_line_right: i64,
    pub center_ice: (i64, i64),
    pub faceoff_spots: Vec<(i64, i64)>,
}

pub const GOAL_LINE_LEFT: i64 = 110;

pub const GOAL_LINE_RIGHT: i64 = 1890;

pub const CENTER_X: i64 = 1000;

pub const CENTER_Y: i64 = 425;

/// The geometry of a standard 200 by 85 foot rink.
pub open spec fn is_standard_rink(r: Rink) -> bool {
    &&& r.width == RINK_WIDTH
    &&& r.length == RINK_LENGTH
    &&& r.goal_line_left == GOAL_LINE_LEFT
    &&& r.goal_line_right == GOAL_LINE_RIGHT
    &&& r.blue_line_left == 750
    &&& r.blue_line_right == 1250
    &&& r.center_ice == (CENTER_X, CENTER_Y)
    &&& r.faceoff_spots@ == seq![(1000i64, 425i64), (690, 220), (690, 630), (1310, 220), (1310, 630)]
}

impl Rink {
    /// A standard rink: center ice, then the two spots of each end zone.
    pub fn standard() -> (r: Rink)
        ensures
            is_standard_rink(r),
    {
        let faceoff_spots: Vec<(i64, i64)> = vec![
            (1000, 425),
            (690, 220),
            (690, 630),
            (1310, 220),
            (1310, 630),
        ];
        Rink {
            width: RINK_WIDTH,
            length: RINK_LENGTH,
            goal_line_left: GOAL_LINE_LEFT,
            goal_line_right: GOAL_LINE_RIGHT,
            blue_line_left: 750,
            blue_line_right: 1250,
            center_ice: (CENTER_X, CENTER_Y),
            faceoff_spots,
        }
    }

    /// Whether `(x, y)` lies on this rink's surface, edges included.
    pub fn is_in_bounds(&self, x: i64, y: i64) -> (r: bool)
        ensures
            r == (0 <= x <= self.length && 0 <= y <= self.width),
    {
        x >= 0 && x <= self.length && y >= 0 && y <= self.width
    }
}

} // verus!
