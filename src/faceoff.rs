//! The opening faceoff: who takes the puck, or a loose puck at center ice.
use vstd::prelude::*;
use crate::models::{Position, TeamSide, is_defense_position, CENTER_X, CENTER_Y};
use crate::motion::abs;
use crate::sim::{
    GameEvent, GamePhase, GameState, SimPlayer, game_ok, participant_ok, team_of, JITTER_RANGE, TIE_BAND,
};

verus! {

broadcast use vstd::string::group_string_axioms;

/// A role that the faceoff needs and the lineup lacks.
#[derive(Debug, Clone, Copy, PartialEq, Eq, Structural)]
pub enum FaceoffError {
    /// The side does not have exactly one center on the ice.
    CenterCount(TeamSide),
    /// The side has no defenseman on the ice.
    NoDefense(TeamSide),
}

/// Who wins a faceoff with these scores: nobody when they are within the
/// tie band, else the higher.
pub open spec fn spec_faceoff_winner(home_score: int, away_score: int) -> Option<TeamSide> {
    if abs(home_score - away_score) < TIE_BAND {
        None
    } else if home_score > away_score {
        Some(TeamSide::Home)
    } else {
        Some(TeamSide::Away)
    }
}

pub open spec fn is_center_of(p: SimPlayer, side: TeamSide) -> bool {
    p.team_side == side && p.position == Position::C
}

pub open spec fn is_defense_of(p: SimPlayer, side: TeamSide) -> bool {
    p.team_side == side && is_defense_position(p.position)
}

/// `c` is the one center of `side` on the ice.
pub open spec fn sole_center(ps: Seq<SimPlayer>, side: TeamSide, c: int) -> bool {
    &&& 0 <= c < ps.len()
    &&& is_center_of(ps[c], side)
    &&& forall|j: int| 0 <= j < ps.len() && j != c ==> !is_center_of(#[trigger] ps[j], side)
}

/// `d` is the first defenseman of `side` in lineup order.
pub open spec fn first_defense(ps: Seq<SimPlayer>, side: TeamSide, d: int) -> bool {
    &&& 0 <= d < ps.len()
    &&& is_defense_of(ps[d], side)
    &&& forall|j: int| 0 <= j < d ==> !is_defense_of(#[trigger] ps[j], side)
}

pub open spec fn has_sole_center(ps: Seq<SimPlayer>, side: TeamSide) -> bool {
    exists|c: int| sole_center(ps, side, c)
}

pub open spec fn has_defense(ps: Seq<SimPlayer>, side: TeamSide) -> bool {
    exists|d: int| 0 <= d < ps.len() && is_defense_of(#[trigger] ps[d], side)
}

/// The error a faceoff gives when the lineup lacks a role: the home side is
/// checked before the away side, the center before the defense.
pub open spec fn spec_faceoff_error(ps: Seq<SimPlayer>) -> Option<FaceoffError> {
    if !has_sole_center(ps, TeamSide::Home) {
        Some(FaceoffError::CenterCount(TeamSide::Home))
    } else if !has_defense(ps, TeamSide::Home) {
        Some(FaceoffError::NoDefense(TeamSide::Home))
    } else if !has_sole_center(ps, TeamSide::Away) {
        Some(FaceoffError::CenterCount(TeamSide::Away))
    } else if !has_defense(ps, TeamSide::Away) {
        Some(FaceoffError::NoDefense(TeamSide::Away))
    } else {
        None
    }
}

/// The faceoff skill of participant `i`: its player's defense rating.
pub open spec fn faceoff_skill(g: GameState, i: int) -> int {
    let p = g.players_on_ice@[i];
    team_of(g, p.team_side).players@[p.roster_index as int].skills.defense as int
}

/// The state after a faceoff that the centers `ch` and `ca` took with these
/// jitters.
pub open spec fn faceoff_resolved(
    g: GameState,
    h: GameState,
    home_jitter: u32,
    away_jitter: u32,
    ch: int,
    ca: int,
) -> bool {
    let ps = g.players_on_ice@;
    let n = g.events@.len();
    &&& h.phase == GamePhase::InPlay
    &&& h.events@.len() == n + 1
    &&& h.events@.subrange(0, n as int) == g.events@
    &&& match spec_faceoff_winner(
        faceoff_skill(g, ch) + home_jitter,
        faceoff_skill(g, ca) + away_jitter,
    ) {
        None => {
            &&& h.puck.possessed_by is None
            &&& h.puck.x == CENTER_X && h.puck.y == CENTER_Y
            &&& h.puck.velocity_x == g.puck.velocity_x && h.puck.velocity_y == g.puck.velocity_y
            &&& h.events@[n as int] == GameEvent::LoosePuck { x: CENTER_X, y: CENTER_Y }
        },
        Some(side) => {
            let c = if side == TeamSide::Home { ch } else { ca };
            &&& exists|d: int|
                #[trigger] first_defense(ps, side, d) && (h.puck.possessed_by matches Some(id)
                    && id@ == ps[d].player_id@)
            &&& h.puck.x == g.puck.x && h.puck.y == g.puck.y
            &&& h.puck.velocity_x == g.puck.velocity_x && h.puck.velocity_y == g.puck.velocity_y
            &&& h.events@[n as int] matches GameEvent::FaceoffResult { winner_team, winner_player }
                && winner_team == side && winner_player@ == ps[c].player_id@
        },
    }
}

/// Finds the sole center and the first defenseman of `side`.
fn find_roles(ps: &Vec<SimPlayer>, side: TeamSide) -> (r: Result<(usize, usize), FaceoffError>)
    ensures
        r matches Ok((c, d)) ==> sole_center(ps@, side, c as int) && first_defense(
            ps@,
            side,
            d as int,
        ),
        r is Ok <==> has_sole_center(ps@, side) && has_defense(ps@, side),
        r matches Err(e) ==> if !has_sole_center(ps@, side) {
            e == FaceoffError::CenterCount(side)
        } else {
            e == FaceoffError::NoDefense(side)
        },
{
    let mut center: Option<usize> = None;
    let mut second: bool = false;
    let mut defense: Option<usize> = None;
    let mut k: usize = 0;
    while k < ps.len()
        invariant
            k <= ps@.len(),
            center is None ==> forall|j: int| 0 <= j < k ==> !is_center_of(#[trigger] ps@[j], side),
            center matches Some(c) ==> {
                &&& c < k
                &&& is_center_of(ps@[c as int], side)
                &&& !second ==> forall|j: int|
                    0 <= j < k && j != c ==> !is_center_of(#[trigger] ps@[j], side)
                &&& second ==> exists|j: int|
                    0 <= j < k && j != c && is_center_of(#[trigger] ps@[j], side)
            },
            center is None ==> !second,
            defense is None ==> forall|j: int| 0 <= j < k ==> !is_defense_of(#[trigger] ps@[j], side),
            defense matches Some(d) ==> d < k && first_defense(ps@, side, d as int),
        decreases ps@.len() - k,
    {
        let p = &ps[k];
        let mine = match (p.team_side, side) {
            (TeamSide::Home, TeamSide::Home) => true,
            (TeamSide::Away, TeamSide::Away) => true,
            _ => false,
        };
        if mine && p.position == Position::C {
            match center {
                None => {
                    center = Some(k);
                },
                Some(_) => {
                    second = true;
                },
            }
        }
        if mine && defense.is_none() && p.position.is_defense() {
            defense = Some(k);
        }
        k = k + 1;
    }
    match center {
        None => Err(FaceoffError::CenterCount(side)),
        Some(c) => {
            if second {
                proof {
                    assert forall|x: int| !sole_center(ps@, side, x) by {
                        if sole_center(ps@, side, x) {
                            let j = choose|j: int|
                                0 <= j < k && j != c && is_center_of(#[trigger] ps@[j], side);
                            assert(x == c as int);
                        }
                    }
                }
                Err(FaceoffError::CenterCount(side))
            } else {
                assert(sole_center(ps@, side, c as int));
                match defense {
                    None => Err(FaceoffError::NoDefense(side)),
                    Some(d) => Ok((c, d)),
                }
            }
        },
    }
}

/// The defense rating behind participant `i`.
pub(crate) fn skill_defense(game: &GameState, i: usize) -> (r: u32)
    requires
        game_ok(*game),
        i < game.players_on_ice@.len(),
    ensures
        r == faceoff_skill(*game, i as int),
{
    let p = &game.players_on_ice[i];
    assert(participant_ok(*game, i as int));
    match p.team_side {
        TeamSide::Home => game.home.players[p.roster_index].skills.defense,
        TeamSide::Away => game.away.players[p.roster_index].skills.defense,
    }
}

/// Who wins a faceoff with these scores.
pub fn faceoff_winner(home_score: u64, away_score: u64) -> (r: Option<TeamSide>)
    ensures
        r == spec_faceoff_winner(home_score as int, away_score as int),
{
    let diff: u64 = if home_score >= away_score { home_score - away_score } else { away_score - home_score };
    if diff < TIE_BAND {
        None
    } else if home_score > away_score {
        Some(TeamSide::Home)
    } else {
        Some(TeamSide::Away)
    }
}

/// Resolves the opening faceoff. Each center scores its defense rating plus
/// its side's jitter. A tie leaves the puck loose at center ice; otherwise the
/// winning side's first defenseman takes the puck. Play is then on.
///
/// A lineup without exactly one center and at least one defenseman per side
/// cannot take the faceoff: the error says which role is missing, and the
/// game is left as it was.
pub fn handle_faceoff(game: &mut GameState, home_jitter: u32, away_jitter: u32) -> (r: Result<(), FaceoffError>)
    requires
        game_ok(*old(game)),
    ensures
        game_ok(*final(game)),
        final(game).time == old(game).time,
        final(game).home == old(game).home,
        final(game).away == old(game).away,
        final(game).rink == old(game).rink,
        final(game).players_on_ice == old(game).players_on_ice,
        r is Err <==> spec_faceoff_error(old(game).players_on_ice@) is Some,
        r matches Err(e) ==> {
            &&& spec_faceoff_error(old(game).players_on_ice@) == Some(e)
            &&& final(game).puck == old(game).puck
            &&& final(game).phase == old(game).phase
            &&& final(game).events == old(game).events
        },
        r is Ok ==> exists|ch: int, ca: int|
            #[trigger] sole_center(old(game).players_on_ice@, TeamSide::Home, ch) && #[trigger] sole_center(
                old(game).players_on_ice@,
                TeamSide::Away,
                ca,
            ) && faceoff_resolved(*old(game), *final(game), home_jitter, away_jitter, ch, ca),
{
    let (hc, hd) = match find_roles(&game.players_on_ice, TeamSide::Home) {
        Ok(roles) => roles,
        Err(e) => {
            return Err(e);
        },
    };
    let (ac, ad) = match find_roles(&game.players_on_ice, TeamSide::Away) {
        Ok(roles) => roles,
        Err(e) => {
            return Err(e);
        },
    };
    let ghost g0 = *game;
    let home_score: u64 = skill_defense(game, hc) as u64 + home_jitter as u64;
    let away_score: u64 = skill_defense(game, ac) as u64 + away_jitter as u64;
    match faceoff_winner(home_score, away_score) {
        None => {
            game.puck.possessed_by = None;
            game.puck.x = game.rink.center_ice.0;
            game.puck.y = game.rink.center_ice.1;
            game.events.push(GameEvent::LoosePuck { x: game.puck.x, y: game.puck.y });
        },
        Some(side) => {
            let (c, d) = match side {
                TeamSide::Home => (hc, hd),
                TeamSide::Away => (ac, ad),
            };
            game.puck.possessed_by = Some(game.players_on_ice[d].player_id.clone());
            let winner_player = game.players_on_ice[c].player_id.clone();
            game.events.push(GameEvent::FaceoffResult { winner_team: side, winner_player });
            assert(first_defense(g0.players_on_ice@, side, d as int));
        },
    }
    game.phase = GamePhase::InPlay;
    proof {
        assert(game.events@.subrange(0, g0.events@.len() as int) =~= g0.events@);
        assert(faceoff_resolved(g0, *game, home_jitter, away_jitter, hc as int, ac as int));
        assert forall|i: int| 0 <= i < game.players_on_ice@.len() implies #[trigger] participant_ok(*game, i) by {
            assert(participant_ok(g0, i));
        }
    }
    Ok(())
}

/// A center whose defense rating leads by at least the tie band plus the
/// jitter range wins the faceoff, whatever the jitters: the puck goes to a
/// defenseman of that side.
pub proof fn lemma_stronger_center_wins(
    g: GameState,
    h: GameState,
    home_jitter: u32,
    away_jitter: u32,
    ch: int,
    ca: int,
)
    requires
        faceoff_resolved(g, h, home_jitter, away_jitter, ch, ca),
        home_jitter < JITTER_RANGE,
        away_jitter < JITTER_RANGE,
        faceoff_skill(g, ch) >= faceoff_skill(g, ca) + TIE_BAND + JITTER_RANGE,
    ensures
        h.puck.possessed_by is Some,
        h.events@.last() matches GameEvent::FaceoffResult { winner_team, winner_player }
            && winner_team == TeamSide::Home && winner_player@ == g.players_on_ice@[ch].player_id@,
        exists|d: int|
            #[trigger] first_defense(g.players_on_ice@, TeamSide::Home, d)
                && h.puck.possessed_by->Some_0@ == g.players_on_ice@[d].player_id@,
{
    assert(spec_faceoff_winner(
        faceoff_skill(g, ch) + home_jitter,
        faceoff_skill(g, ca) + away_jitter,
    ) == Some(TeamSide::Home));
}

/// A faceoff whose scores land within the tie band leaves the puck loose at
/// the rink's center-ice point.
pub proof fn lemma_faceoff_tie_centers_puck(
    g: GameState,
    h: GameState,
    home_jitter: u32,
    away_jitter: u32,
    ch: int,
    ca: int,
)
    requires
        game_ok(g),
        faceoff_resolved(g, h, home_jitter, away_jitter, ch, ca),
        abs((faceoff_skill(g, ch) + home_jitter) - (faceoff_skill(g, ca) + away_jitter)) < TIE_BAND,
    ensures
        h.puck.possessed_by is None,
        h.puck.x == g.rink.center_ice.0,
        h.puck.y == g.rink.center_ice.1,
{
}

/// The log line for a lineup that cannot take the faceoff, naming the role
/// that is missing.
pub open spec fn faceoff_note(e: FaceoffError) -> Seq<char> {
    match e {
        FaceoffError::CenterCount(TeamSide::Home) => "faceoff waits: home needs exactly one center"@,
        FaceoffError::CenterCount(TeamSide::Away) => "faceoff waits: away needs exactly one center"@,
        FaceoffError::NoDefense(TeamSide::Home) => "faceoff waits: home has no defenseman"@,
        FaceoffError::NoDefense(TeamSide::Away) => "faceoff waits: away has no defenseman"@,
    }
}

/// The log line for a faceoff error.
pub fn faceoff_note_text(e: FaceoffError) -> (r: String)
    ensures
        r@ == faceoff_note(e),
{
    match e {
        FaceoffError::CenterCount(TeamSide::Home) => "faceoff waits: home needs exactly one center".to_string(),
        FaceoffError::CenterCount(TeamSide::Away) => "faceoff waits: away needs exactly one center".to_string(),
        FaceoffError::NoDefense(TeamSide::Home) => "faceoff waits: home has no defenseman".to_string(),
        FaceoffError::NoDefense(TeamSide::Away) => "faceoff waits: away has no defenseman".to_string(),
    }
}

} // verus!
