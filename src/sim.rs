//! The game state and the tick-by-tick engine.
use vstd::prelude::*;
use rand::rngs::StdRng;
use crate::dice::draw_below;
use crate::faceoff::{
    faceoff_note, faceoff_note_text, faceoff_resolved, handle_faceoff, sole_center, spec_faceoff_error,
};
use crate::models::{Player, Position, Puck, Rink, Team, TeamSide, is_standard_rink, CENTER_X, CENTER_Y};
use crate::motion::{in_rink, dist_sq, RINK_LENGTH, RINK_WIDTH, MAX_STEP};
use crate::movement::{ai_step, positions_step, update_ai, update_positions};
use crate::puck::{puck_step, update_puck};
use crate::shots::{check_shots, reset_after_goal, reset_step, shots_step};

verus! {

broadcast use vstd::string::group_string_axioms;

/// Something that happened during a tick.
#[derive(Debug)]
pub enum GameEvent {
    FaceoffResult { winner_team: TeamSide, winner_player: String },
    Pass { from_player: String, to_player: String },
    Shot { shooter: String, result: ShotResult },
    Goal { scorer: String, assist: Option<String> },
    LoosePuck { x: i64, y: i64 },
    PossessionChange { team: String, player: String },
    TickLog(String),
}

/// The coarse state of play.
#[derive(Debug, Clone, Copy, PartialEq, Eq, Structural)]
pub enum GamePhase {
    Faceoff,
    InPlay,
    GoalScored,
    Stoppage,
}

/// How a shot attempt ends.
#[derive(Debug, Clone, Copy, PartialEq, Eq, Structural)]
pub enum ShotResult {
    Saved,
    Missed,
    Blocked,
    Goal,
}

/// A player on the ice: a handle into a roster plus where the skater is.
#[derive(Debug)]
pub struct SimPlayer {
    pub player_id: String,
    pub team_side: TeamSide,
    pub position: Position,
    /// Index of the player in its team's roster.
    pub roster_index: usize,
    pub x: i64,
    pub y: i64,
    pub speed: i64,
    pub target_x: i64,
    pub target_y: i64,
}

/// The whole state of a game.
#[derive(Debug)]
pub struct GameState {
    pub time: u32,
    pub home: Team,
    pub away: Team,
    pub puck: Puck,
    pub rink: Rink,
    pub players_on_ice: Vec<SimPlayer>,
    /// Events of the tick under way; empty between ticks.
    pub events: Vec<GameEvent>,
    pub phase: GamePhase,
}

/// Skaters per side on the ice.
pub const SKATERS: usize = 5;

/// How far ahead of a puck carrier the carrier's target is set.
pub const CARRY_ADVANCE: i64 = 20;

/// Fastest a loose puck may travel per tick, along either axis.
pub const MAX_PUCK_SPEED: i64 = 2000;

/// Squared distance within which a skater picks up a loose puck.
pub const PICKUP_RADIUS_SQ: i64 = 900;

/// Distance from the goal line within which a carrier shoots.
pub const SHOT_RANGE: i64 = 100;

/// Speed given to the puck by a shot that does not score.
pub const REBOUND_SPEED: i64 = 30;

/// Faceoff scores closer than this are a tie.
pub const TIE_BAND: u64 = 100;

/// Faceoff jitter is drawn below this.
pub const JITTER_RANGE: u32 = 200;

/// Shot rolls are drawn below this.
pub const ROLL_RANGE: u32 = 1000;

pub open spec fn side_of_slot(i: int) -> TeamSide {
    if i < SKATERS { TeamSide::Home } else { TeamSide::Away }
}

pub open spec fn team_of(g: GameState, side: TeamSide) -> Team {
    match side {
        TeamSide::Home => g.home,
        TeamSide::Away => g.away,
    }
}

/// Where a skater who does not carry the puck stands. The away side's slots
/// mirror the home side's through center ice.
pub open spec fn spec_slot(side: TeamSide, pos: Position) -> (i64, i64) {
    let h: (i64, i64) = match pos {
        Position::C => (980, 425),
        Position::LW => (900, 640),
        Position::RW => (900, 210),
        Position::LD => (800, 600),
        Position::RD => (800, 250),
    };
    match side {
        TeamSide::Home => h,
        TeamSide::Away => ((RINK_LENGTH - h.0) as i64, (RINK_WIDTH - h.1) as i64),
    }
}

/// Participant `i` is a well-placed handle into its roster.
pub open spec fn participant_ok(g: GameState, i: int) -> bool {
    let p = g.players_on_ice@[i];
    let t = team_of(g, p.team_side);
    &&& p.team_side == side_of_slot(i)
    &&& p.roster_index < t.players@.len()
    &&& t.players@[p.roster_index as int].player_id@ == p.player_id@
    &&& in_rink(p.x as int, p.y as int)
    &&& in_rink(p.target_x as int, p.target_y as int)
    &&& 0 <= p.speed <= MAX_STEP
}

/// `id` names a skater on the ice.
pub open spec fn on_ice(ps: Seq<SimPlayer>, id: Seq<char>) -> bool {
    exists|i: int| 0 <= i < ps.len() && (#[trigger] ps[i]).player_id@ == id
}

pub open spec fn possession_ok(g: GameState) -> bool {
    g.puck.possessed_by matches Some(id) ==> on_ice(g.players_on_ice@, id@)
}

pub open spec fn puck_ok(pk: Puck) -> bool {
    &&& in_rink(pk.x as int, pk.y as int)
    &&& -MAX_PUCK_SPEED <= pk.velocity_x <= MAX_PUCK_SPEED
    &&& -MAX_PUCK_SPEED <= pk.velocity_y <= MAX_PUCK_SPEED
}

/// The invariant of a game between ticks.
pub open spec fn game_ok(g: GameState) -> bool {
    &&& g.players_on_ice@.len() == 2 * SKATERS
    &&& forall|i: int| 0 <= i < g.players_on_ice@.len() ==> #[trigger] participant_ok(g, i)
    &&& possession_ok(g)
    &&& puck_ok(g.puck)
    &&& is_standard_rink(g.rink)
}

/// The legal moves of the phase machine, staying put included.
pub open spec fn phase_edge(a: GamePhase, b: GamePhase) -> bool {
    ||| a == b
    ||| a == GamePhase::Faceoff && b == GamePhase::InPlay
    ||| a == GamePhase::InPlay && b == GamePhase::GoalScored
    ||| a == GamePhase::GoalScored && b == GamePhase::Faceoff
    ||| a == GamePhase::InPlay && b == GamePhase::Stoppage
}

pub(crate) fn slot(side: TeamSide, pos: Position) -> (r: (i64, i64))
    ensures
        r == spec_slot(side, pos),
        in_rink(r.0 as int, r.1 as int),
{
    let h: (i64, i64) = match pos {
        Position::C => (980, 425),
        Position::LW => (900, 640),
        Position::RW => (900, 210),
        Position::LD => (800, 600),
        Position::RD => (800, 250),
    };
    match side {
        TeamSide::Home => h,
        TeamSide::Away => (RINK_LENGTH - h.0, RINK_WIDTH - h.1),
    }
}

/// Participant `i` is as a game starts: the player's primary position,
/// standing still at that position's slot, which is also its target.
pub open spec fn starting_skater(g: GameState, i: int) -> bool {
    let p = g.players_on_ice@[i];
    let s = spec_slot(p.team_side, p.position);
    &&& p.roster_index == (if i < SKATERS { i } else { i - SKATERS })
    &&& p.position == team_of(g, p.team_side).players@[p.roster_index as int].primary_position
    &&& p.x == s.0 && p.y == s.1
    &&& p.target_x == s.0 && p.target_y == s.1
    &&& p.speed == 0
}

/// Puts the first five of each roster on the ice, each at its slot.
fn populate_starting_lineups(game: &mut GameState)
    requires
        old(game).players_on_ice@.len() == 0,
        old(game).home.players@.len() >= SKATERS,
        old(game).away.players@.len() >= SKATERS,
    ensures
        final(game).players_on_ice@.len() == 2 * SKATERS,
        forall|i: int| 0 <= i < 2 * SKATERS ==> #[trigger] participant_ok(*final(game), i),
        forall|i: int| 0 <= i < 2 * SKATERS ==> #[trigger] starting_skater(*final(game), i),
        final(game).home == old(game).home,
        final(game).away == old(game).away,
        final(game).puck == old(game).puck,
        final(game).rink == old(game).rink,
        final(game).events == old(game).events,
        final(game).time == old(game).time,
        final(game).phase == old(game).phase,
{
    let mut k: usize = 0;
    while k < 2 * SKATERS
        invariant
            k <= 2 * SKATERS,
            game.players_on_ice@.len() == k,
            game.home == old(game).home,
            game.away == old(game).away,
            game.puck == old(game).puck,
            game.rink == old(game).rink,
            game.events == old(game).events,
            game.time == old(game).time,
            game.phase == old(game).phase,
            game.home.players@.len() >= SKATERS,
            game.away.players@.len() >= SKATERS,
            forall|i: int| 0 <= i < k ==> #[trigger] participant_ok(*game, i),
            forall|i: int| 0 <= i < k ==> #[trigger] starting_skater(*game, i),
        decreases 2 * SKATERS - k,
    {
        let (side, idx) = if k < SKATERS { (TeamSide::Home, k) } else { (TeamSide::Away, k - SKATERS) };
        let player: &Player = match side {
            TeamSide::Home => &game.home.players[idx],
            TeamSide::Away => &game.away.players[idx],
        };
        let (sx, sy) = slot(side, player.primary_position);
        let sp = SimPlayer {
            player_id: player.player_id.clone(),
            team_side: side,
            position: player.primary_position,
            roster_index: idx,
            x: sx,
            y: sy,
            speed: 0,
            target_x: sx,
            target_y: sy,
        };
        let ghost prev = *game;
        game.players_on_ice.push(sp);
        assert forall|i: int| 0 <= i < k + 1 implies #[trigger] participant_ok(*game, i) by {
            if i < k {
                assert(participant_ok(prev, i));
                assert(game.players_on_ice@[i] == prev.players_on_ice@[i]);
            }
        }
        assert forall|i: int| 0 <= i < k + 1 implies #[trigger] starting_skater(*game, i) by {
            if i < k {
                assert(starting_skater(prev, i));
                assert(game.players_on_ice@[i] == prev.players_on_ice@[i]);
            }
        }
        k = k + 1;
    }
}

impl GameState {
    /// A game about to start: clock at zero, puck at center ice, the first
    /// five of each roster on the ice, a faceoff to come.
    pub fn new(home: Team, away: Team) -> (g: GameState)
        requires
            home.players@.len() >= SKATERS,
            away.players@.len() >= SKATERS,
        ensures
            game_ok(g),
            g.time == 0,
            g.home == home,
            g.away == away,
            g.phase == GamePhase::Faceoff,
            g.events@.len() == 0,
            g.puck.possessed_by is None,
            g.puck.x == CENTER_X && g.puck.y == CENTER_Y,
            g.puck.velocity_x == 0 && g.puck.velocity_y == 0,
            forall|i: int| 0 <= i < 2 * SKATERS ==> #[trigger] starting_skater(g, i),
    {
        let mut game = GameState {
            time: 0,
            home,
            away,
            puck: Puck { x: CENTER_X, y: CENTER_Y, velocity_x: 0, velocity_y: 0, possessed_by: None },
            rink: Rink::standard(),
            players_on_ice: Vec::new(),
            events: Vec::new(),
            phase: GamePhase::Faceoff,
        };
        populate_starting_lineups(&mut game);
        game
    }

    /// The name of the team playing on `side`.
    pub fn get_team_name(&self, side: TeamSide) -> (r: &str)
        ensures
            r@ == team_of(*self, side).name@,
    {
        match side {
            TeamSide::Home => self.home.name.as_str(),
            TeamSide::Away => self.away.name.as_str(),
        }
    }
}

/// The invariant does not look at the clock, the phase or the events.
pub(crate) proof fn lemma_game_ok_frame(g: GameState, h: GameState)
    requires
        game_ok(g),
        h.players_on_ice == g.players_on_ice,
        h.home == g.home,
        h.away == g.away,
        h.puck == g.puck,
        h.rink == g.rink,
    ensures
        game_ok(h),
{
    assert forall|i: int| 0 <= i < h.players_on_ice@.len() implies #[trigger] participant_ok(h, i) by {
        assert(participant_ok(g, i));
    }
}

/// The work of a tick, by the phase it starts in, before the clock moves and
/// the events are handed out.
pub open spec fn phase_work(g: GameState, w: GameState, home_jitter: u32, away_jitter: u32, roll: u32) -> bool {
    match g.phase {
        GamePhase::Faceoff => {
            &&& w.time == g.time
            &&& w.home == g.home
            &&& w.away == g.away
            &&& w.rink == g.rink
            &&& w.players_on_ice == g.players_on_ice
            &&& match spec_faceoff_error(g.players_on_ice@) {
                None => exists|ch: int, ca: int|
                    #[trigger] sole_center(g.players_on_ice@, TeamSide::Home, ch) && #[trigger] sole_center(
                        g.players_on_ice@,
                        TeamSide::Away,
                        ca,
                    ) && faceoff_resolved(g, w, home_jitter, away_jitter, ch, ca),
                Some(e) => {
                    &&& w.puck == g.puck
                    &&& w.phase == g.phase
                    &&& w.events@.len() == g.events@.len() + 1
                    &&& w.events@.subrange(0, g.events@.len() as int) == g.events@
                    &&& w.events@.last() matches GameEvent::TickLog(text)
                    &&& text@ == faceoff_note(e)
                },
            }
        },
        GamePhase::InPlay => exists|g1: GameState, g2: GameState, g3: GameState|
            #[trigger] ai_step(g, g1) && #[trigger] positions_step(g1, g2) && #[trigger] puck_step(g2, g3)
                && shots_step(g3, w, roll),
        GamePhase::GoalScored => reset_step(g, w),
        GamePhase::Stoppage => w == g,
    }
}

/// `h` is `w` with the clock one tick on and its events, `r`, handed out.
pub open spec fn settled(g: GameState, w: GameState, h: GameState, r: Seq<GameEvent>) -> bool {
    &&& h.time == g.time + 1
    &&& h.home == w.home
    &&& h.away == w.away
    &&& h.puck == w.puck
    &&& h.rink == w.rink
    &&& h.players_on_ice == w.players_on_ice
    &&& h.phase == w.phase
    &&& h.events@.len() == 0
    &&& r == w.events@
}

/// The skaters on the ice are the same, index by index, in `g` and `h`.
pub open spec fn same_skaters(g: GameState, h: GameState) -> bool {
    &&& h.players_on_ice@.len() == g.players_on_ice@.len()
    &&& forall|i: int|
        0 <= i < g.players_on_ice@.len() ==> {
            let p = g.players_on_ice@[i];
            let q = #[trigger] h.players_on_ice@[i];
            q.player_id == p.player_id && q.team_side == p.team_side && q.position == p.position
                && q.roster_index == p.roster_index
        }
}

/// No skater moved farther than one step between `g` and `h`.
pub open spec fn moves_bounded(g: GameState, h: GameState) -> bool {
    &&& h.players_on_ice@.len() == g.players_on_ice@.len()
    &&& forall|i: int|
        0 <= i < g.players_on_ice@.len() ==> dist_sq(
            #[trigger] h.players_on_ice@[i].x - g.players_on_ice@[i].x,
            h.players_on_ice@[i].y - g.players_on_ice@[i].y,
        ) <= MAX_STEP * MAX_STEP
}

/// One whole tick with these draws takes `g` to `h` and hands out `r`.
pub open spec fn tick_step(
    g: GameState,
    h: GameState,
    r: Seq<GameEvent>,
    home_jitter: u32,
    away_jitter: u32,
    roll: u32,
) -> bool {
    exists|w: GameState| #[trigger] phase_work(g, w, home_jitter, away_jitter, roll) && settled(g, w, h, r)
}

/// A tick whose draws were in range took `g` to `h` and handed out `r`.
pub open spec fn tick_drawn(g: GameState, h: GameState, r: Seq<GameEvent>) -> bool {
    exists|hj: u32, aj: u32, roll: u32|
        hj < JITTER_RANGE && aj < JITTER_RANGE && roll < ROLL_RANGE && #[trigger] tick_step(g, h, r, hj, aj, roll)
}

/// What a tick may do to the phase, by the phase it starts in.
pub open spec fn tick_phase(g: GameState, phase: GamePhase) -> bool {
    match g.phase {
        GamePhase::Faceoff => phase == if spec_faceoff_error(g.players_on_ice@) is None {
            GamePhase::InPlay
        } else {
            GamePhase::Faceoff
        },
        GamePhase::InPlay => phase == GamePhase::InPlay || phase == GamePhase::GoalScored,
        GamePhase::GoalScored => phase == GamePhase::Faceoff,
        GamePhase::Stoppage => phase == GamePhase::Stoppage,
    }
}

/// One tick, given its random draws. The phase decides the work: a faceoff
/// (a lineup that cannot take it logs why and waits), or the movement AI,
/// skating, puck physics and shots in that order, or the reset after a
/// goal; a stoppage waits. The clock then advances, and the tick's events
/// are handed back, leaving none in the game.
pub fn play_tick(game: &mut GameState, home_jitter: u32, away_jitter: u32, shot_roll: u32) -> (r: Vec<GameEvent>)
    requires
        game_ok(*old(game)),
        old(game).time < u32::MAX,
    ensures
        game_ok(*final(game)),
        final(game).time == old(game).time + 1,
        final(game).events@.len() == 0,
        r@.subrange(0, old(game).events@.len() as int) == old(game).events@,
        final(game).home == old(game).home,
        final(game).away == old(game).away,
        tick_phase(*old(game), final(game).phase),
        phase_edge(old(game).phase, final(game).phase),
        final(game).players_on_ice@.len() == old(game).players_on_ice@.len(),
        forall|i: int|
            0 <= i < old(game).players_on_ice@.len() ==> dist_sq(
                #[trigger] final(game).players_on_ice@[i].x - old(game).players_on_ice@[i].x,
                final(game).players_on_ice@[i].y - old(game).players_on_ice@[i].y,
            ) <= MAX_STEP * MAX_STEP,
        final(game).puck.possessed_by matches Some(id) ==> on_ice(final(game).players_on_ice@, id@),
        tick_step(*old(game), *final(game), r@, home_jitter, away_jitter, shot_roll),
        same_skaters(*old(game), *final(game)),
{
    let ghost g0 = *game;
    match game.phase {
        GamePhase::Faceoff => {
            match handle_faceoff(game, home_jitter, away_jitter) {
                Ok(()) => {
                    assert(phase_work(g0, *game, home_jitter, away_jitter, shot_roll));
                },
                Err(e) => {
                    let ghost g1 = *game;
                    game.events.push(GameEvent::TickLog(faceoff_note_text(e)));
                    proof {
                        lemma_game_ok_frame(g1, *game);
                        assert(game.events@.subrange(0, g0.events@.len() as int) =~= g0.events@);
                        assert(phase_work(g0, *game, home_jitter, away_jitter, shot_roll));
                    }
                },
            }
        },
        GamePhase::InPlay => {
            update_ai(game);
            let ghost g1 = *game;
            update_positions(game);
            let ghost g2 = *game;
            update_puck(game);
            let ghost g3 = *game;
            check_shots(game, shot_roll);
            proof {
                assert(ai_step(g0, g1) && positions_step(g1, g2) && puck_step(g2, g3) && shots_step(g3, *game, shot_roll));
                assert(phase_work(g0, *game, home_jitter, away_jitter, shot_roll));
                assert forall|i: int| 0 <= i < g0.players_on_ice@.len() implies dist_sq(
                    #[trigger] game.players_on_ice@[i].x - g0.players_on_ice@[i].x,
                    game.players_on_ice@[i].y - g0.players_on_ice@[i].y,
                ) <= MAX_STEP * MAX_STEP by {
                    assert(g1.players_on_ice@[i].x == g0.players_on_ice@[i].x);
                    assert(g1.players_on_ice@[i].y == g0.players_on_ice@[i].y);
                    assert(g2.players_on_ice@[i] == game.players_on_ice@[i]);
                }
            }
        },
        GamePhase::GoalScored => {
            reset_after_goal(game);
            assert(phase_work(g0, *game, home_jitter, away_jitter, shot_roll));
        },
        GamePhase::Stoppage => {},
    }
    let ghost w = *game;
    proof {
        assert(phase_work(g0, w, home_jitter, away_jitter, shot_roll));
        if g0.phase != GamePhase::InPlay {
            assert(same_skaters(g0, w));
        }
        if g0.phase != GamePhase::InPlay {
            assert forall|i: int| 0 <= i < g0.players_on_ice@.len() implies dist_sq(
                #[trigger] game.players_on_ice@[i].x - g0.players_on_ice@[i].x,
                game.players_on_ice@[i].y - g0.players_on_ice@[i].y,
            ) <= MAX_STEP * MAX_STEP by {
                assert(game.players_on_ice@[i] == g0.players_on_ice@[i]);
                assert(dist_sq(0, 0) == 0);
            }
        }
    }
    game.time = game.time + 1;
    let mut out: Vec<GameEvent> = Vec::new();
    std::mem::swap(&mut out, &mut game.events);
    proof {
        lemma_game_ok_frame(w, *game);
        assert(out@.subrange(0, g0.events@.len() as int) =~= g0.events@);
        assert(settled(g0, w, *game, out@));
    }
    out
}

/// One tick, drawing what it needs from `rng`: two faceoff jitters below
/// 200 when a faceoff is due, a shot roll below 1000 when play is on.
pub fn simulate_tick(game: &mut GameState, rng: &mut StdRng) -> (r: Vec<GameEvent>)
    requires
        game_ok(*old(game)),
        old(game).time < u32::MAX,
    ensures
        game_ok(*final(game)),
        final(game).time == old(game).time + 1,
        final(game).events@.len() == 0,
        r@.subrange(0, old(game).events@.len() as int) == old(game).events@,
        final(game).home == old(game).home,
        final(game).away == old(game).away,
        tick_phase(*old(game), final(game).phase),
        phase_edge(old(game).phase, final(game).phase),
        final(game).players_on_ice@.len() == old(game).players_on_ice@.len(),
        forall|i: int|
            0 <= i < old(game).players_on_ice@.len() ==> dist_sq(
                #[trigger] final(game).players_on_ice@[i].x - old(game).players_on_ice@[i].x,
                final(game).players_on_ice@[i].y - old(game).players_on_ice@[i].y,
            ) <= MAX_STEP * MAX_STEP,
        final(game).puck.possessed_by matches Some(id) ==> on_ice(final(game).players_on_ice@, id@),
        tick_drawn(*old(game), *final(game), r@),
        same_skaters(*old(game), *final(game)),
{
    let (hj, aj, roll) = match game.phase {
        GamePhase::Faceoff => (draw_below(rng, JITTER_RANGE), draw_below(rng, JITTER_RANGE), 0),
        GamePhase::InPlay => (0, 0, draw_below(rng, ROLL_RANGE)),
        _ => (0, 0, 0),
    };
    let ghost g0 = *game;
    let r = play_tick(game, hj, aj, roll);
    assert(tick_step(g0, *game, r@, hj, aj, roll));
    r
}

/// Runs `ticks` ticks and returns each tick's events, in order.
pub fn simulate_ticks(game: &mut GameState, rng: &mut StdRng, ticks: u32) -> (r: Vec<Vec<GameEvent>>)
    requires
        game_ok(*old(game)),
        old(game).time + ticks <= u32::MAX,
    ensures
        game_ok(*final(game)),
        final(game).time == old(game).time + ticks,
        ticks == 0 ==> *final(game) == *old(game),
        ticks > 0 ==> final(game).events@.len() == 0,
        r@.len() == ticks,
        final(game).home == old(game).home,
        final(game).away == old(game).away,
        exists|states: Seq<GameState>|
            states.len() == ticks + 1 && states[0] == *old(game) && states[ticks as int] == *final(game)
                && forall|k: int|
                0 <= k < ticks ==> #[trigger] tick_drawn(states[k], states[k + 1], r@[k]@)
                    && moves_bounded(states[k], states[k + 1]) && states[k + 1].events@.len() == 0
                    && possession_ok(states[k + 1]),
{
    let mut out: Vec<Vec<GameEvent>> = Vec::new();
    let ghost mut states: Seq<GameState> = seq![*game];
    let mut k: u32 = 0;
    while k < ticks
        invariant
            game_ok(*game),
            k <= ticks,
            game.time == old(game).time + k,
            old(game).time + ticks <= u32::MAX,
            out@.len() == k,
            k > 0 ==> game.events@.len() == 0,
            k == 0 ==> *game == *old(game),
            game.home == old(game).home,
            game.away == old(game).away,
            states.len() == k + 1,
            states[0] == *old(game),
            states[k as int] == *game,
            forall|j: int|
                0 <= j < k ==> #[trigger] tick_drawn(states[j], states[j + 1], out@[j]@) && moves_bounded(
                    states[j],
                    states[j + 1],
                ) && states[j + 1].events@.len() == 0 && possession_ok(states[j + 1]),
        decreases ticks - k,
    {
        let ghost before = *game;
        let events = simulate_tick(game, rng);
        proof {
            assert(moves_bounded(before, *game));
        }
        out.push(events);
        proof {
            states = states.push(*game);
        }
        k = k + 1;
    }
    out
}

} // verus!
