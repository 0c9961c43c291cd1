//! Puck physics: carried, or loose and sliding until someone picks it up.
use vstd::prelude::*;
use crate::models::{Puck, TeamSide};
use crate::motion::{in_rink, dist_sq, RINK_LENGTH, RINK_WIDTH};
use crate::movement::{carries, clamp};
use crate::sim::{
    GameEvent, GameState, SimPlayer, game_ok, on_ice, participant_ok, team_of, MAX_PUCK_SPEED,
    PICKUP_RADIUS_SQ,
};

verus! {

/// A loose puck's speed after one tick of friction: nine tenths, rounded
/// toward zero.
pub open spec fn decayed(v: int) -> int {
    if v >= 0 { v * 9 / 10 } else { -((-v) * 9 / 10) }
}

/// A loose puck one tick on: moved by its velocity and stopped at the
/// boards, its velocity slowed by friction.
pub open spec fn drifted(pk: Puck) -> Puck {
    Puck {
        x: clamp(pk.x + pk.velocity_x, 0, RINK_LENGTH as int) as i64,
        y: clamp(pk.y + pk.velocity_y, 0, RINK_WIDTH as int) as i64,
        velocity_x: decayed(pk.velocity_x as int) as i64,
        velocity_y: decayed(pk.velocity_y as int) as i64,
        possessed_by: pk.possessed_by,
    }
}

pub open spec fn dist_to(p: SimPlayer, x: i64, y: i64) -> int {
    dist_sq(p.x - x, p.y - y)
}

/// `a` comes before `b` in character order, looking from index `i` on.
pub open spec fn id_less_from(a: Seq<char>, b: Seq<char>, i: int) -> bool
    decreases a.len() - i,
{
    if i < 0 || i >= a.len() {
        0 <= i < b.len()
    } else if i >= b.len() {
        false
    } else if a[i] != b[i] {
        a[i] < b[i]
    } else {
        id_less_from(a, b, i + 1)
    }
}

/// Identifier order: character by character, a prefix first.
pub open spec fn id_less(a: Seq<char>, b: Seq<char>) -> bool {
    id_less_from(a, b, 0)
}

pub open spec fn side_rank(side: TeamSide) -> int {
    if side == TeamSide::Home { 0 } else { 1 }
}

/// The tie-break order among skaters: home before away, then by identifier.
pub open spec fn precedes(a: SimPlayer, b: SimPlayer) -> bool {
    side_rank(a.team_side) < side_rank(b.team_side) || (a.team_side == b.team_side && id_less(
        a.player_id@,
        b.player_id@,
    ))
}

proof fn lemma_id_less_irreflexive(a: Seq<char>, i: int)
    requires
        0 <= i,
    ensures
        !id_less_from(a, a, i),
    decreases a.len() - i,
{
    if i < a.len() {
        lemma_id_less_irreflexive(a, i + 1);
    }
}

proof fn lemma_id_less_transitive(a: Seq<char>, b: Seq<char>, c: Seq<char>, i: int)
    requires
        0 <= i,
        id_less_from(a, b, i),
        id_less_from(b, c, i),
    ensures
        id_less_from(a, c, i),
    decreases a.len() - i,
{
    if i < a.len() && i < b.len() && i < c.len() && a[i] == b[i] && b[i] == c[i] {
        lemma_id_less_transitive(a, b, c, i + 1);
    }
}

proof fn lemma_id_less_total(a: Seq<char>, b: Seq<char>, i: int)
    requires
        0 <= i <= a.len(),
        i <= b.len(),
        !id_less_from(a, b, i),
        !id_less_from(b, a, i),
    ensures
        a.len() == b.len(),
        forall|k: int| i <= k < a.len() ==> a[k] == b[k],
    decreases a.len() - i,
{
    if i < a.len() && i < b.len() {
        if a[i] == b[i] {
            lemma_id_less_total(a, b, i + 1);
        } else {
            assert(a[i] < b[i] || b[i] < a[i]);
        }
    }
}

proof fn lemma_precedes_order(a: SimPlayer, b: SimPlayer, c: SimPlayer)
    ensures
        !precedes(a, a),
        precedes(a, b) && precedes(b, c) ==> precedes(a, c),
        !precedes(a, b) && !precedes(b, a) ==> a.team_side == b.team_side && a.player_id@ == b.player_id@,
{
    lemma_id_less_irreflexive(a.player_id@, 0);
    if precedes(a, b) && precedes(b, c) && a.team_side == b.team_side && b.team_side == c.team_side {
        lemma_id_less_transitive(a.player_id@, b.player_id@, c.player_id@, 0);
    }
    if !precedes(a, b) && !precedes(b, a) {
        lemma_id_less_total(a.player_id@, b.player_id@, 0);
        assert(a.player_id@ =~= b.player_id@);
    }
}

/// Whether identifier `a` comes before `b`.
fn id_before(a: &String, b: &String) -> (r: bool)
    ensures
        r == id_less(a@, b@),
{
    let sa = a.as_str();
    let sb = b.as_str();
    let na = sa.unicode_len();
    let nb = sb.unicode_len();
    let mut i: usize = 0;
    while i < na && i < nb
        invariant
            na == a@.len(),
            nb == b@.len(),
            sa@ == a@,
            sb@ == b@,
            i <= na,
            i <= nb,
            id_less_from(a@, b@, 0) == id_less_from(a@, b@, i as int),
        decreases na - i,
    {
        let ca = sa.get_char(i);
        let cb = sb.get_char(i);
        if ca != cb {
            return ca < cb;
        }
        i = i + 1;
    }
    na < nb
}

fn precedes_exec(a: &SimPlayer, b: &SimPlayer) -> (r: bool)
    ensures
        r == precedes(*a, *b),
{
    match (a.team_side, b.team_side) {
        (TeamSide::Home, TeamSide::Away) => true,
        (TeamSide::Away, TeamSide::Home) => false,
        _ => id_before(&a.player_id, &b.player_id),
    }
}

/// Participant `i` is the skater who picks up a loose puck at `(x, y)`:
/// within reach and nearest; among the nearest, first in tie-break order, and
/// first listed among any that share its side and identifier.
pub open spec fn picks_up(ps: Seq<SimPlayer>, x: i64, y: i64, i: int) -> bool {
    &&& 0 <= i < ps.len()
    &&& dist_to(ps[i], x, y) <= PICKUP_RADIUS_SQ
    &&& forall|j: int| 0 <= j < ps.len() ==> dist_to(#[trigger] ps[j], x, y) >= dist_to(ps[i], x, y)
    &&& forall|j: int|
        0 <= j < ps.len() && dist_to(#[trigger] ps[j], x, y) == dist_to(ps[i], x, y) ==> !precedes(
            ps[j],
            ps[i],
        )
    &&& forall|j: int|
        0 <= j < i && dist_to(#[trigger] ps[j], x, y) == dist_to(ps[i], x, y) ==> precedes(ps[i], ps[j])
}

fn decay(v: i64) -> (r: i64)
    requires
        -MAX_PUCK_SPEED <= v <= MAX_PUCK_SPEED,
    ensures
        r == decayed(v as int),
        -MAX_PUCK_SPEED <= r <= MAX_PUCK_SPEED,
{
    if v >= 0 { v * 9 / 10 } else { -((-v) * 9 / 10) }
}

fn clamp_exec(v: i64, lo: i64, hi: i64) -> (r: i64)
    requires
        lo <= hi,
    ensures
        r == clamp(v as int, lo as int, hi as int),
{
    if v < lo { lo } else if v > hi { hi } else { v }
}

/// Index of the participant that `id` names.
pub(crate) fn find_participant(ps: &Vec<SimPlayer>, id: &String) -> (r: Option<usize>)
    ensures
        r matches Some(i) ==> i < ps@.len() && ps@[i as int].player_id@ == id@,
        r is None ==> !on_ice(ps@, id@),
{
    let mut i: usize = 0;
    while i < ps.len()
        invariant
            i <= ps@.len(),
            forall|j: int| 0 <= j < i ==> (#[trigger] ps@[j]).player_id@ != id@,
        decreases ps@.len() - i,
    {
        if ps[i].player_id.eq(id) {
            return Some(i);
        }
        i = i + 1;
    }
    None
}

/// What puck physics does to a game in one tick.
pub open spec fn puck_step(g: GameState, h: GameState) -> bool {
    &&& h.time == g.time
    &&& h.home == g.home
    &&& h.away == g.away
    &&& h.rink == g.rink
    &&& h.phase == g.phase
    &&& h.players_on_ice == g.players_on_ice
    &&& g.puck.possessed_by is Some ==> {
        &&& h.puck.possessed_by == g.puck.possessed_by
        &&& h.events == g.events
        &&& h.puck.velocity_x == 0 && h.puck.velocity_y == 0
        &&& exists|i: int|
            0 <= i < g.players_on_ice@.len() && #[trigger] carries(g, i)
                && h.puck.x == g.players_on_ice@[i].x
                && h.puck.y == g.players_on_ice@[i].y
    }
    &&& g.puck.possessed_by is None ==> {
        let d = drifted(g.puck);
        let ps = g.players_on_ice@;
        let n = g.events@.len();
        if exists|i: int| 0 <= i < ps.len() && dist_to(#[trigger] ps[i], d.x, d.y) <= PICKUP_RADIUS_SQ {
            exists|i: int|
                #[trigger] picks_up(ps, d.x, d.y, i) && (h.puck.possessed_by matches Some(id)
                    && id@ == ps[i].player_id@) && h.puck.x == ps[i].x && h.puck.y
                    == ps[i].y && h.puck.velocity_x == 0 && h.puck.velocity_y == 0
                    && h.events@.len() == n + 1 && h.events@.subrange(0, n as int)
                    == g.events@ && (h.events@[n as int] matches GameEvent::PossessionChange { team, player }
                    && team@ == team_of(g, ps[i].team_side).name@ && player@ == ps[i].player_id@)
        } else {
            h.puck == d && h.events == g.events
        }
    }
}

/// Keeps the puck on its carrier's stick, or lets a loose puck drift, slow
/// down, and be picked up by the nearest skater within reach (equally near
/// skaters go home side first, then by identifier).
pub fn update_puck(game: &mut GameState)
    requires
        game_ok(*old(game)),
    ensures
        game_ok(*final(game)),
        puck_step(*old(game), *final(game)),
{
    let ghost g0 = *game;
    match &game.puck.possessed_by {
        Some(id) => {
            match find_participant(&game.players_on_ice, id) {
                Some(i) => {
                    assert(participant_ok(*game, i as int));
                    game.puck.x = game.players_on_ice[i].x;
                    game.puck.y = game.players_on_ice[i].y;
                    game.puck.velocity_x = 0;
                    game.puck.velocity_y = 0;
                    assert(carries(g0, i as int));
                },
                None => {},
            }
        },
        None => {
            let nx = clamp_exec(game.puck.x + game.puck.velocity_x, 0, RINK_LENGTH);
            let ny = clamp_exec(game.puck.y + game.puck.velocity_y, 0, RINK_WIDTH);
            let nvx = decay(game.puck.velocity_x);
            let nvy = decay(game.puck.velocity_y);
            game.puck.x = nx;
            game.puck.y = ny;
            game.puck.velocity_x = nvx;
            game.puck.velocity_y = nvy;
            assert(game.puck == drifted(g0.puck));
            let mut best: Option<usize> = None;
            let mut best_d: i64 = 0;
            let mut j: usize = 0;
            while j < game.players_on_ice.len()
                invariant
                    game_ok(g0),
                    game.players_on_ice == g0.players_on_ice,
                    game.puck == drifted(g0.puck),
                    in_rink(nx as int, ny as int),
                    nx == game.puck.x && ny == game.puck.y,
                    j <= game.players_on_ice@.len(),
                    best is None ==> forall|k: int|
                        0 <= k < j ==> dist_to(#[trigger] g0.players_on_ice@[k], nx, ny) > PICKUP_RADIUS_SQ,
                    best matches Some(b) ==> {
                        &&& b < j
                        &&& best_d == dist_to(g0.players_on_ice@[b as int], nx, ny)
                        &&& best_d <= PICKUP_RADIUS_SQ
                        &&& forall|k: int| 0 <= k < j ==> dist_to(#[trigger] g0.players_on_ice@[k], nx, ny) >= best_d
                        &&& forall|k: int|
                            0 <= k < j && dist_to(#[trigger] g0.players_on_ice@[k], nx, ny) == best_d ==> !precedes(
                                g0.players_on_ice@[k],
                                g0.players_on_ice@[b as int],
                            )
                        &&& forall|k: int|
                            0 <= k < b && dist_to(#[trigger] g0.players_on_ice@[k], nx, ny) == best_d ==> precedes(
                                g0.players_on_ice@[b as int],
                                g0.players_on_ice@[k],
                            )
                    },
                decreases game.players_on_ice@.len() - j,
            {
                let p = &game.players_on_ice[j];
                assert(participant_ok(g0, j as int));
                let dx: i64 = p.x - nx;
                let dy: i64 = p.y - ny;
                assert(0 <= dx * dx <= RINK_LENGTH * RINK_LENGTH) by (nonlinear_arith)
                    requires
                        -RINK_LENGTH <= dx <= RINK_LENGTH,
                ;
                assert(0 <= dy * dy <= RINK_WIDTH * RINK_WIDTH) by (nonlinear_arith)
                    requires
                        -RINK_WIDTH <= dy <= RINK_WIDTH,
                ;
                let d: i64 = dx * dx + dy * dy;
                proof {
                    let pj = g0.players_on_ice@[j as int];
                    lemma_precedes_order(pj, pj, pj);
                }
                if d <= PICKUP_RADIUS_SQ {
                    match best {
                        None => {
                            best = Some(j);
                            best_d = d;
                        },
                        Some(b) => {
                            if d < best_d {
                                best = Some(j);
                                best_d = d;
                            } else if d == best_d && precedes_exec(p, &game.players_on_ice[b]) {
                                proof {
                                    let pj = g0.players_on_ice@[j as int];
                                    let pb = g0.players_on_ice@[b as int];
                                    assert forall|k: int| 0 <= k < j && dist_to(#[trigger] g0.players_on_ice@[k], nx, ny) == best_d
                                        implies !precedes(g0.players_on_ice@[k], pj) && precedes(pj, g0.players_on_ice@[k]) by {
                                        let pk = g0.players_on_ice@[k];
                                        lemma_precedes_order(pk, pj, pb);
                                        lemma_precedes_order(pj, pb, pk);
                                        lemma_precedes_order(pb, pk, pb);
                                        if !precedes(pb, pk) {
                                            assert(pk.team_side == pb.team_side && pk.player_id@ == pb.player_id@);
                                        }
                                    }
                                }
                                best = Some(j);
                                best_d = d;
                            }
                        },
                    }
                }
                j = j + 1;
            }
            match best {
                Some(b) => {
                    assert(participant_ok(g0, b as int));
                    assert(picks_up(g0.players_on_ice@, nx, ny, b as int));
                    let p = &game.players_on_ice[b];
                    game.puck.possessed_by = Some(p.player_id.clone());
                    game.puck.x = p.x;
                    game.puck.y = p.y;
                    game.puck.velocity_x = 0;
                    game.puck.velocity_y = 0;
                    let team = match p.team_side {
                        TeamSide::Home => game.home.name.clone(),
                        TeamSide::Away => game.away.name.clone(),
                    };
                    let player = p.player_id.clone();
                    game.events.push(GameEvent::PossessionChange { team, player });
                    assert(g0.players_on_ice@[b as int].player_id@ == game.puck.possessed_by->Some_0@);
                    assert(game.events@.subrange(0, g0.events@.len() as int) =~= g0.events@);
                },
                None => {},
            }
        },
    }
    proof {
        assert forall|i: int| 0 <= i < game.players_on_ice@.len() implies #[trigger] participant_ok(*game, i) by {
            assert(participant_ok(g0, i));
        }
    }
}

} // verus!
