//! The movement AI: targets for each skater, then one bounded step each.
use vstd::prelude::*;
use crate::models::{Puck, TeamSide};
use crate::motion::{
    in_rink, dist_sq, is_ceil_sqrt, step_component, steer_toward, RINK_LENGTH, MAX_STEP,
};
use crate::sim::{GameState, SimPlayer, game_ok, participant_ok, slot, spec_slot, CARRY_ADVANCE};

verus! {

/// Participant `i` moved to `(x, y)` at `speed`, heading for `(tx, ty)`.
pub open spec fn moved(p: SimPlayer, x: i64, y: i64, speed: i64, tx: i64, ty: i64) -> SimPlayer {
    SimPlayer { x, y, speed, target_x: tx, target_y: ty, ..p }
}

/// All but the on-ice skaters' motion is as it was.
pub open spec fn only_motion_changed(g: GameState, h: GameState) -> bool {
    &&& h.time == g.time
    &&& h.home == g.home
    &&& h.away == g.away
    &&& h.puck == g.puck
    &&& h.rink == g.rink
    &&& h.events == g.events
    &&& h.phase == g.phase
    &&& h.players_on_ice@.len() == g.players_on_ice@.len()
}

fn set_motion(game: &mut GameState, i: usize, x: i64, y: i64, speed: i64, tx: i64, ty: i64)
    requires
        game_ok(*old(game)),
        i < old(game).players_on_ice@.len(),
        in_rink(x as int, y as int),
        in_rink(tx as int, ty as int),
        0 <= speed <= MAX_STEP,
    ensures
        game_ok(*final(game)),
        only_motion_changed(*old(game), *final(game)),
        final(game).players_on_ice@ == old(game).players_on_ice@.update(
            i as int,
            moved(old(game).players_on_ice@[i as int], x, y, speed, tx, ty),
        ),
{
    let ghost g0 = *game;
    let p = &game.players_on_ice[i];
    let np = SimPlayer {
        player_id: p.player_id.clone(),
        team_side: p.team_side,
        position: p.position,
        roster_index: p.roster_index,
        x,
        y,
        speed,
        target_x: tx,
        target_y: ty,
    };
    game.players_on_ice.set(i, np);
    proof {
        assert(game.players_on_ice@ =~= g0.players_on_ice@.update(
            i as int,
            moved(g0.players_on_ice@[i as int], x, y, speed, tx, ty),
        ));
        assert forall|j: int| 0 <= j < game.players_on_ice@.len() implies #[trigger] participant_ok(*game, j) by {
            assert(participant_ok(g0, j));
        }
        if game.puck.possessed_by is Some {
            let id = game.puck.possessed_by->Some_0;
            let k = choose|k: int| 0 <= k < g0.players_on_ice@.len() && (#[trigger] g0.players_on_ice@[k]).player_id@ == id@;
            assert(game.players_on_ice@[k].player_id@ == id@);
        }
    }
}

/// Participant `i` holds the puck.
pub open spec fn carries(g: GameState, i: int) -> bool {
    g.puck.possessed_by matches Some(id) && id@ == g.players_on_ice@[i].player_id@
}

pub open spec fn clamp(v: int, lo: int, hi: int) -> int {
    if v < lo { lo } else if v > hi { hi } else { v }
}

/// Where the movement AI sends participant `i`: a carrier heads for the
/// other team's end (home toward larger x), everyone else for their slot.
pub open spec fn ai_target(g: GameState, i: int) -> (int, int) {
    let p = g.players_on_ice@[i];
    if carries(g, i) {
        let dir = if p.team_side == TeamSide::Home { CARRY_ADVANCE as int } else { -CARRY_ADVANCE };
        (clamp(p.x + dir, 0, RINK_LENGTH as int), p.y as int)
    } else {
        let s = spec_slot(p.team_side, p.position);
        (s.0 as int, s.1 as int)
    }
}

fn carrier_check(puck: &Puck, p: &SimPlayer) -> (r: bool)
    ensures
        r == (puck.possessed_by matches Some(id) && id@ == p.player_id@),
{
    match &puck.possessed_by {
        Some(id) => id.eq(&p.player_id),
        None => false,
    }
}

/// What the movement AI does to a game: every target set, nothing else moved.
pub open spec fn ai_step(g: GameState, h: GameState) -> bool {
    &&& only_motion_changed(g, h)
    &&& forall|i: int|
        0 <= i < g.players_on_ice@.len() ==> {
            let p = g.players_on_ice@[i];
            let t = ai_target(g, i);
            #[trigger] h.players_on_ice@[i] == moved(p, p.x, p.y, p.speed, t.0 as i64, t.1 as i64)
                && t.0 == h.players_on_ice@[i].target_x
                && t.1 == h.players_on_ice@[i].target_y
        }
}

/// Sets every on-ice skater's target for this tick.
pub fn update_ai(game: &mut GameState)
    requires
        game_ok(*old(game)),
    ensures
        game_ok(*final(game)),
        ai_step(*old(game), *final(game)),
{
    let ghost g0 = *game;
    let mut i: usize = 0;
    while i < game.players_on_ice.len()
        invariant
            game_ok(*game),
            only_motion_changed(g0, *game),
            i <= game.players_on_ice@.len(),
            forall|j: int|
                i <= j < game.players_on_ice@.len() ==> #[trigger] game.players_on_ice@[j] == g0.players_on_ice@[j],
            forall|j: int|
                0 <= j < i ==> {
                    let p = g0.players_on_ice@[j];
                    let t = ai_target(g0, j);
                    #[trigger] game.players_on_ice@[j] == moved(p, p.x, p.y, p.speed, t.0 as i64, t.1 as i64)
                        && t.0 == game.players_on_ice@[j].target_x
                        && t.1 == game.players_on_ice@[j].target_y
                },
        decreases game.players_on_ice@.len() - i,
    {
        let p = &game.players_on_ice[i];
        assert(participant_ok(*game, i as int));
        let (tx, ty) = if carrier_check(&game.puck, p) {
            let ahead: i64 = match p.team_side {
                TeamSide::Home => p.x + CARRY_ADVANCE,
                TeamSide::Away => p.x - CARRY_ADVANCE,
            };
            let cx: i64 = if ahead < 0 { 0 } else if ahead > RINK_LENGTH { RINK_LENGTH } else { ahead };
            (cx, p.y)
        } else {
            slot(p.team_side, p.position)
        };
        let (x, y, speed) = (p.x, p.y, p.speed);
        set_motion(game, i, x, y, speed, tx, ty);
        i = i + 1;
    }
}

/// What one round of skating does to a game: every skater one bounded step on.
pub open spec fn positions_step(g: GameState, h: GameState) -> bool {
    &&& only_motion_changed(g, h)
    &&& forall|i: int|
        0 <= i < g.players_on_ice@.len() ==> {
            let p = g.players_on_ice@[i];
            let q = #[trigger] h.players_on_ice@[i];
            &&& q.player_id == p.player_id
            &&& q.team_side == p.team_side
            &&& q.position == p.position
            &&& q.roster_index == p.roster_index
            &&& q.target_x == p.target_x && q.target_y == p.target_y
            &&& dist_sq(q.x - p.x, q.y - p.y) <= MAX_STEP * MAX_STEP
            &&& dist_sq(p.target_x - p.x, p.target_y - p.y) <= MAX_STEP * MAX_STEP ==> q.x
                == p.target_x && q.y == p.target_y && is_ceil_sqrt(q.speed as int, dist_sq(p.target_x - p.x, p.target_y - p.y))
            &&& dist_sq(p.target_x - p.x, p.target_y - p.y) > MAX_STEP * MAX_STEP ==> exists|d: int|
                #[trigger] is_ceil_sqrt(d, dist_sq(p.target_x - p.x, p.target_y - p.y)) && q.x == p.x
                    + step_component(p.target_x - p.x, d) && q.y == p.y + step_component(
                    p.target_y - p.y,
                    d,
                ) && q.speed == MAX_STEP
        }
}

/// Moves every on-ice skater one bounded step toward its target.
pub fn update_positions(game: &mut GameState)
    requires
        game_ok(*old(game)),
    ensures
        game_ok(*final(game)),
        positions_step(*old(game), *final(game)),
{
    let ghost g0 = *game;
    let mut i: usize = 0;
    while i < game.players_on_ice.len()
        invariant
            game_ok(*game),
            only_motion_changed(g0, *game),
            i <= game.players_on_ice@.len(),
            forall|j: int|
                i <= j < game.players_on_ice@.len() ==> #[trigger] game.players_on_ice@[j] == g0.players_on_ice@[j],
            forall|j: int|
                0 <= j < i ==> {
                    let p = g0.players_on_ice@[j];
                    let q = #[trigger] game.players_on_ice@[j];
                    &&& q.player_id == p.player_id
                    &&& q.team_side == p.team_side
                    &&& q.position == p.position
                    &&& q.roster_index == p.roster_index
                    &&& q.target_x == p.target_x && q.target_y == p.target_y
                    &&& dist_sq(q.x - p.x, q.y - p.y) <= MAX_STEP * MAX_STEP
                    &&& dist_sq(p.target_x - p.x, p.target_y - p.y) <= MAX_STEP * MAX_STEP ==> q.x
                        == p.target_x && q.y == p.target_y && is_ceil_sqrt(q.speed as int, dist_sq(p.target_x - p.x, p.target_y - p.y))
                    &&& dist_sq(p.target_x - p.x, p.target_y - p.y) > MAX_STEP * MAX_STEP ==> exists|d: int|
                        #[trigger] is_ceil_sqrt(d, dist_sq(p.target_x - p.x, p.target_y - p.y)) && q.x == p.x
                            + step_component(p.target_x - p.x, d) && q.y == p.y + step_component(
                            p.target_y - p.y,
                            d,
                        ) && q.speed == MAX_STEP
                },
        decreases game.players_on_ice@.len() - i,
    {
        let p = &game.players_on_ice[i];
        assert(participant_ok(*game, i as int));
        let (tx, ty) = (p.target_x, p.target_y);
        let (x, y, speed) = steer_toward(p.x, p.y, tx, ty);
        set_motion(game, i, x, y, speed, tx, ty);
        i = i + 1;
    }
}

} // verus!
