//! Shots on goal, and the restart after a goal.
use vstd::prelude::*;
use crate::faceoff::{faceoff_skill, skill_defense};
use crate::motion::abs;
use crate::models::{Puck, TeamSide, CENTER_X, CENTER_Y, GOAL_LINE_LEFT, GOAL_LINE_RIGHT};
use crate::movement::carries;
use crate::puck::find_participant;
use crate::sim::{
    GameEvent, GamePhase, GameState, ShotResult, game_ok, participant_ok, team_of, REBOUND_SPEED,
    SHOT_RANGE, SKATERS,
};

verus! {

broadcast use vstd::string::group_string_axioms;

/// The goal line that `side` shoots at: home attacks toward larger x.
pub open spec fn attacked_goal_line(side: TeamSide) -> int {
    if side == TeamSide::Home { GOAL_LINE_RIGHT as int } else { GOAL_LINE_LEFT as int }
}

pub open spec fn min_int(a: int, b: int) -> int {
    if a < b { a } else { b }
}

/// How a shot ends. With shooting skill `s` and resistance `r` (both capped
/// at 1000) the roll is cut into four bands, in this order:
/// blocked below `r / 4`, then missed for `(1000 - s) / 4` more, then a goal
/// for `s * (1000 - r) / 2000` more, and saved for the rest. Rolls are drawn
/// below 1000, which the four bands cover.
pub open spec fn spec_shot_result(roll: int, shooting: int, resistance: int) -> ShotResult {
    let s = min_int(shooting, 1000);
    let r = min_int(resistance, 1000);
    let blocked = r / 4;
    let missed = blocked + (1000 - s) / 4;
    let goal = missed + s * (1000 - r) / 2000;
    if roll < blocked {
        ShotResult::Blocked
    } else if roll < missed {
        ShotResult::Missed
    } else if roll < goal {
        ShotResult::Goal
    } else {
        ShotResult::Saved
    }
}

/// Decides a shot from the roll, the shooter's skill and the resistance.
pub fn shot_result(roll: u32, shooting: u32, resistance: u32) -> (r: ShotResult)
    ensures
        r == spec_shot_result(roll as int, shooting as int, resistance as int),
{
    let s: u64 = if shooting < 1000 { shooting as u64 } else { 1000 };
    let r: u64 = if resistance < 1000 { resistance as u64 } else { 1000 };
    let blocked: u64 = r / 4;
    let missed: u64 = blocked + (1000 - s) / 4;
    assert(s * (1000 - r) <= 1000 * 1000) by (nonlinear_arith)
        requires
            s <= 1000,
            r <= 1000,
    ;
    let goal: u64 = missed + s * (1000 - r) / 2000;
    let roll = roll as u64;
    if roll < blocked {
        ShotResult::Blocked
    } else if roll < missed {
        ShotResult::Missed
    } else if roll < goal {
        ShotResult::Goal
    } else {
        ShotResult::Saved
    }
}

pub open spec fn other_side(side: TeamSide) -> TeamSide {
    if side == TeamSide::Home { TeamSide::Away } else { TeamSide::Home }
}

/// The shooting rating behind participant `i`.
pub open spec fn shooting_skill(g: GameState, i: int) -> int {
    let p = g.players_on_ice@[i];
    team_of(g, p.team_side).players@[p.roster_index as int].skills.shooting as int
}

/// `r` is the best defense rating among the skaters of `side` on the ice.
pub open spec fn is_resistance(g: GameState, side: TeamSide, r: int) -> bool {
    let ps = g.players_on_ice@;
    &&& forall|j: int| 0 <= j < ps.len() && (#[trigger] ps[j]).team_side == side ==> faceoff_skill(g, j) <= r
    &&& exists|j: int| 0 <= j < ps.len() && (#[trigger] ps[j]).team_side == side && faceoff_skill(g, j) == r
}

fn resistance_of(game: &GameState, side: TeamSide) -> (r: u32)
    requires
        game_ok(*game),
    ensures
        is_resistance(*game, side, r as int),
{
    let mut best: u32 = 0;
    let mut found: Option<usize> = None;
    let mut j: usize = 0;
    while j < game.players_on_ice.len()
        invariant
            game_ok(*game),
            j <= game.players_on_ice@.len(),
            forall|k: int| 0 <= k < j && (#[trigger] game.players_on_ice@[k]).team_side == side
                ==> faceoff_skill(*game, k) <= best,
            found is None ==> best == 0 && forall|k: int| 0 <= k < j ==> (#[trigger] game.players_on_ice@[k]).team_side != side,
            found matches Some(f) ==> f < j && game.players_on_ice@[f as int].team_side == side
                && faceoff_skill(*game, f as int) == best,
        decreases game.players_on_ice@.len() - j,
    {
        let mine = match (game.players_on_ice[j].team_side, side) {
            (TeamSide::Home, TeamSide::Home) => true,
            (TeamSide::Away, TeamSide::Away) => true,
            _ => false,
        };
        if mine {
            let d = skill_defense(game, j);
            if found.is_none() || d > best {
                best = d;
                found = Some(j);
            }
        }
        j = j + 1;
    }
    proof {
        let k: int = if side == TeamSide::Home { 0 } else { SKATERS as int };
        assert(participant_ok(*game, k));
    }
    best
}

fn skill_shooting(game: &GameState, i: usize) -> (r: u32)
    requires
        game_ok(*game),
        i < game.players_on_ice@.len(),
    ensures
        r == shooting_skill(*game, i as int),
{
    let p = &game.players_on_ice[i];
    assert(participant_ok(*game, i as int));
    match p.team_side {
        TeamSide::Home => game.home.players[p.roster_index].skills.shooting,
        TeamSide::Away => game.away.players[p.roster_index].skills.shooting,
    }
}

/// Carrier `i` is close enough to the goal line it attacks to shoot.
pub open spec fn in_shot_range(g: GameState, i: int) -> bool {
    let p = g.players_on_ice@[i];
    abs(p.x - attacked_goal_line(p.team_side)) < SHOT_RANGE
}

/// The state after carrier `i` shot and the shot ended in `res`.
pub open spec fn shot_taken(g: GameState, h: GameState, i: int, res: ShotResult) -> bool {
    let p = g.players_on_ice@[i];
    let n = g.events@.len();
    &&& h.puck.possessed_by is None
    &&& h.puck.x == g.puck.x && h.puck.y == g.puck.y
    &&& h.events@.subrange(0, n as int) == g.events@
    &&& h.events@[n as int] matches GameEvent::Shot { shooter, result }
    &&& shooter@ == p.player_id@ && result == res
    &&& if res == ShotResult::Goal {
        &&& h.events@.len() == n + 2
        &&& h.events@[n as int + 1] matches GameEvent::Goal { scorer, assist }
        &&& scorer@ == p.player_id@ && assist is None
        &&& h.phase == GamePhase::GoalScored
        &&& h.puck.velocity_x == 0 && h.puck.velocity_y == 0
    } else {
        &&& h.events@.len() == n + 1
        &&& h.phase == g.phase
        &&& h.puck.velocity_x == (if p.team_side == TeamSide::Home { -REBOUND_SPEED } else { REBOUND_SPEED as int })
        &&& h.puck.velocity_y == 0
    }
}

/// What the shot check does to a game with this roll.
pub open spec fn shots_step(g: GameState, h: GameState, roll: u32) -> bool {
    &&& h.time == g.time
    &&& h.home == g.home
    &&& h.away == g.away
    &&& h.rink == g.rink
    &&& h.players_on_ice == g.players_on_ice
    &&& (forall|i: int| 0 <= i < g.players_on_ice@.len() && #[trigger] carries(g, i)
        ==> !in_shot_range(g, i)) ==> {
        &&& h.puck == g.puck
        &&& h.events == g.events
        &&& h.phase == g.phase
    }
    &&& g.puck.possessed_by is None ==> h.puck == g.puck && h.events
        == g.events && h.phase == g.phase
    &&& g.puck.possessed_by is Some ==> exists|i: int|
        0 <= i < g.players_on_ice@.len() && #[trigger] carries(g, i) && (!in_shot_range(g, i) ==> (
        h.puck == g.puck && h.events == g.events && h.phase
            == g.phase)) && (in_shot_range(g, i) ==> exists|r: int|
            #[trigger] is_resistance(g, other_side(g.players_on_ice@[i].team_side), r)
                && shot_taken(g, h, i, spec_shot_result(
                roll as int,
                shooting_skill(g, i),
                r,
            )))
}

/// Lets a carrier within range of the goal line it attacks shoot. The
/// outcome comes from `roll` against the shooter's shooting rating and the
/// best defense rating of the other side on the ice. A goal stops play; any
/// other outcome leaves the puck loose, sliding back up the ice.
pub fn check_shots(game: &mut GameState, roll: u32)
    requires
        game_ok(*old(game)),
    ensures
        game_ok(*final(game)),
        shots_step(*old(game), *final(game), roll),
{
    let ghost g0 = *game;
    let i = match &game.puck.possessed_by {
        Some(id) => match find_participant(&game.players_on_ice, id) {
            Some(i) => i,
            None => {
                return;
            },
        },
        None => {
            return;
        },
    };
    assert(carries(g0, i as int));
    assert(participant_ok(g0, i as int));
    let side = game.players_on_ice[i].team_side;
    let x = game.players_on_ice[i].x;
    let line: i64 = match side {
        TeamSide::Home => GOAL_LINE_RIGHT,
        TeamSide::Away => GOAL_LINE_LEFT,
    };
    let dist: i64 = if x >= line { x - line } else { line - x };
    if dist >= SHOT_RANGE {
        return;
    }
    let shooting = skill_shooting(game, i);
    let other = match side {
        TeamSide::Home => TeamSide::Away,
        TeamSide::Away => TeamSide::Home,
    };
    let resistance = resistance_of(game, other);
    let result = shot_result(roll, shooting, resistance);
    let shooter = game.players_on_ice[i].player_id.clone();
    game.puck.possessed_by = None;
    match result {
        ShotResult::Goal => {
            let scorer = shooter.clone();
            game.events.push(GameEvent::Shot { shooter, result });
            game.events.push(GameEvent::Goal { scorer, assist: None });
            game.puck.velocity_x = 0;
            game.puck.velocity_y = 0;
            game.phase = GamePhase::GoalScored;
        },
        _ => {
            game.events.push(GameEvent::Shot { shooter, result });
            game.puck.velocity_x = match side {
                TeamSide::Home => -REBOUND_SPEED,
                TeamSide::Away => REBOUND_SPEED,
            };
            game.puck.velocity_y = 0;
        },
    }
    proof {
        assert(game.events@.subrange(0, g0.events@.len() as int) =~= g0.events@);
        assert(shot_taken(g0, *game, i as int, result));
        assert(is_resistance(g0, other_side(side), resistance as int));
        assert forall|k: int| 0 <= k < game.players_on_ice@.len() implies #[trigger] participant_ok(*game, k) by {
            assert(participant_ok(g0, k));
        }
    }
}

/// What the restart after a goal does to a game.
pub open spec fn reset_step(g: GameState, h: GameState) -> bool {
    &&& h.time == g.time
    &&& h.home == g.home
    &&& h.away == g.away
    &&& h.rink == g.rink
    &&& h.players_on_ice == g.players_on_ice
    &&& h.phase == GamePhase::Faceoff
    &&& h.puck == (Puck {
        x: CENTER_X,
        y: CENTER_Y,
        velocity_x: 0,
        velocity_y: 0,
        possessed_by: None
    })
    &&& h.events@.len() == g.events@.len() + 1
    &&& h.events@.subrange(0, g.events@.len() as int) == g.events@
    &&& h.events@.last() is TickLog
}

/// After a goal: the puck goes back to center ice, loose and still, and the
/// next tick is a faceoff.
pub fn reset_after_goal(game: &mut GameState)
    requires
        game_ok(*old(game)),
    ensures
        game_ok(*final(game)),
        reset_step(*old(game), *final(game)),
{
    let ghost g0 = *game;
    game.puck.possessed_by = None;
    game.puck.x = game.rink.center_ice.0;
    game.puck.y = game.rink.center_ice.1;
    game.puck.velocity_x = 0;
    game.puck.velocity_y = 0;
    game.phase = GamePhase::Faceoff;
    game.events.push(GameEvent::TickLog("puck back to center ice for the faceoff".to_string()));
    proof {
        assert(game.events@.subrange(0, g0.events@.len() as int) =~= g0.events@);
        assert forall|k: int| 0 <= k < game.players_on_ice@.len() implies #[trigger] participant_ok(*game, k) by {
            assert(participant_ok(g0, k));
        }
    }
}

} // verus!
