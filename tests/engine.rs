use hockey_sim::models::{Handedness, Player, Position, Rink, Skills, Team, TeamSide};
use hockey_sim::motion::{ceil_sqrt, steer_toward, MAX_STEP};
use hockey_sim::faceoff::{faceoff_winner, handle_faceoff, FaceoffError};
use hockey_sim::movement::{update_ai, update_positions};
use hockey_sim::puck::update_puck;
use hockey_sim::shots::{check_shots, shot_result};
use hockey_sim::sim::{
    play_tick, simulate_tick, simulate_ticks, GameEvent, GamePhase, GameState, ShotResult,
};
use rand::rngs::StdRng;
use rand::SeedableRng;

fn player(name: &str, number: u8, pos: Position, defense: u32, shooting: u32) -> Player {
    Player {
        player_id: format!("{}{:02}", name, number),
        number,
        first_name: name.to_string(),
        last_name: String::new(),
        handedness: Handedness::L,
        primary_position: pos,
        secondary_position: None,
        skills: Skills { skating: 800, passing: 800, shooting, defense, stamina: 900 },
        current_stamina: 900,
    }
}

fn team(name: &str, prefix: &str, center_defense: u32) -> Team {
    Team {
        name: name.to_string(),
        players: vec![
            player(&format!("{}c", prefix), 1, Position::C, center_defense, 800),
            player(&format!("{}lw", prefix), 2, Position::LW, 300, 800),
            player(&format!("{}rw", prefix), 3, Position::RW, 300, 800),
            player(&format!("{}ld", prefix), 4, Position::LD, 600, 500),
            player(&format!("{}rd", prefix), 5, Position::RD, 600, 500),
            player(&format!("{}x", prefix), 6, Position::C, 100, 100),
        ],
    }
}

fn game(home_def: u32, away_def: u32) -> GameState {
    GameState::new(team("Capitals", "h", home_def), team("Hurricanes", "a", away_def))
}

#[test]
fn new_game_starts_at_center_with_ten_skaters() {
    let g = game(500, 500);
    assert_eq!(g.time, 0);
    assert_eq!(g.phase, GamePhase::Faceoff);
    assert_eq!(g.players_on_ice.len(), 10);
    assert!(g.players_on_ice[..5].iter().all(|p| p.team_side == TeamSide::Home));
    assert!(g.players_on_ice[5..].iter().all(|p| p.team_side == TeamSide::Away));
    assert_eq!(g.players_on_ice[0].player_id, "hc01");
    assert_eq!(g.players_on_ice[5].player_id, "ac01");
    assert_eq!((g.puck.x, g.puck.y), g.rink.center_ice);
    assert!(g.puck.possessed_by.is_none());
    assert!(g.events.is_empty());
    assert_eq!(g.get_team_name(TeamSide::Home), "Capitals");
    assert_eq!(g.get_team_name(TeamSide::Away), "Hurricanes");
}

#[test]
fn standard_rink_geometry() {
    let r = Rink::standard();
    assert_eq!((r.length, r.width), (2000, 850));
    assert_eq!(r.center_ice, (1000, 425));
    assert_eq!(r.faceoff_spots.len(), 5);
    assert!(r.is_in_bounds(0, 0));
    assert!(r.is_in_bounds(2000, 850));
    assert!(!r.is_in_bounds(2001, 10));
    assert!(!r.is_in_bounds(10, -1));
}

#[test]
fn faceoff_winner_respects_tie_band() {
    assert_eq!(faceoff_winner(1000, 950), None);
    assert_eq!(faceoff_winner(950, 1049), None);
    assert_eq!(faceoff_winner(1100, 1000), Some(TeamSide::Home));
    assert_eq!(faceoff_winner(600, 1100), Some(TeamSide::Away));
}

#[test]
fn stronger_home_center_wins_every_seeded_trial() {
    for seed in 0..200u64 {
        let mut g = game(900, 500);
        let mut rng = StdRng::seed_from_u64(seed);
        let events = simulate_tick(&mut g, &mut rng);
        assert_eq!(events.len(), 1);
        match &events[0] {
            GameEvent::FaceoffResult { winner_team, winner_player } => {
                assert_eq!(*winner_team, TeamSide::Home);
                assert_eq!(winner_player, "hc01");
            }
            other => panic!("unexpected {:?}", other),
        }
        assert_eq!(g.puck.possessed_by.as_deref(), Some("hld04"));
        assert_eq!(g.phase, GamePhase::InPlay);
    }
}

#[test]
fn faceoff_tie_leaves_puck_loose_at_center() {
    let mut g = game(700, 700);
    g.puck.x = 10;
    g.puck.y = 10;
    g.puck.velocity_x = 4;
    g.puck.velocity_y = -3;
    handle_faceoff(&mut g, 50, 120).unwrap();
    assert_eq!((g.puck.velocity_x, g.puck.velocity_y), (4, -3));
    assert!(g.puck.possessed_by.is_none());
    assert_eq!((g.puck.x, g.puck.y), g.rink.center_ice);
    assert!(matches!(g.events[0], GameEvent::LoosePuck { x: 1000, y: 425 }));
    assert_eq!(g.phase, GamePhase::InPlay);
}

#[test]
fn faceoff_away_win_goes_to_away_defense() {
    let mut g = game(500, 700);
    handle_faceoff(&mut g, 0, 0).unwrap();
    assert_eq!(g.puck.possessed_by.as_deref(), Some("ald04"));
    assert!(matches!(&g.events[0], GameEvent::FaceoffResult { winner_team: TeamSide::Away, .. }));
}

#[test]
fn faceoff_without_center_is_an_error() {
    let mut home = team("Capitals", "h", 500);
    home.players[0].primary_position = Position::LW;
    let mut g = GameState::new(home, team("Hurricanes", "a", 500));
    assert_eq!(handle_faceoff(&mut g, 0, 0), Err(FaceoffError::CenterCount(TeamSide::Home)));
    assert_eq!(g.phase, GamePhase::Faceoff);
    assert!(g.events.is_empty());
    let events = play_tick(&mut g, 0, 0, 0);
    match &events[0] {
        GameEvent::TickLog(text) => assert_eq!(text, "faceoff waits: home needs exactly one center"),
        other => panic!("unexpected {:?}", other),
    }
    assert_eq!(g.phase, GamePhase::Faceoff);
    assert_eq!(g.time, 1);
}

#[test]
fn faceoff_without_defense_is_an_error() {
    let mut away = team("Hurricanes", "a", 500);
    away.players[3].primary_position = Position::LW;
    away.players[4].primary_position = Position::RW;
    let mut g = GameState::new(team("Capitals", "h", 500), away);
    assert_eq!(handle_faceoff(&mut g, 0, 0), Err(FaceoffError::NoDefense(TeamSide::Away)));
}

#[test]
fn two_centers_is_an_error() {
    let mut home = team("Capitals", "h", 500);
    home.players[1].primary_position = Position::C;
    let mut g = GameState::new(home, team("Hurricanes", "a", 500));
    assert_eq!(handle_faceoff(&mut g, 0, 0), Err(FaceoffError::CenterCount(TeamSide::Home)));
}

#[test]
fn ceil_sqrt_values() {
    assert_eq!(ceil_sqrt(0), 0);
    assert_eq!(ceil_sqrt(1), 1);
    assert_eq!(ceil_sqrt(10), 4);
    assert_eq!(ceil_sqrt(16), 4);
    assert_eq!(ceil_sqrt(17), 5);
    assert_eq!(ceil_sqrt(5_000_000), 2237);
}

#[test]
fn steering_caps_and_snaps() {
    assert_eq!(steer_toward(0, 0, 100, 0), (15, 0, 15));
    assert_eq!(steer_toward(100, 0, 0, 0), (85, 0, 15));
    assert_eq!(steer_toward(0, 0, 30, 40), (9, 12, 15));
    assert_eq!(steer_toward(10, 10, 19, 22), (19, 22, 15));
    assert_eq!(steer_toward(10, 10, 13, 14), (13, 14, 5));
    assert_eq!(steer_toward(7, 7, 7, 7), (7, 7, 0));
    let (x, y, _) = steer_toward(0, 0, 2000, 850);
    assert!(x * x + y * y <= MAX_STEP * MAX_STEP);
}

#[test]
fn carrier_heads_for_attacking_end() {
    let mut g = game(900, 500);
    handle_faceoff(&mut g, 0, 0).unwrap();
    update_ai(&mut g);
    let d = &g.players_on_ice[3];
    assert_eq!((d.target_x, d.target_y), (d.x + 20, d.y));
    let c = &g.players_on_ice[5];
    assert_eq!((c.target_x, c.target_y), (1020, 425));
}

#[test]
fn movement_is_bounded_every_tick() {
    let mut g = game(900, 500);
    let mut rng = StdRng::seed_from_u64(7);
    for _ in 0..150 {
        let before: Vec<(i64, i64, i64, i64)> =
            g.players_on_ice.iter().map(|p| (p.x, p.y, p.target_x, p.target_y)).collect();
        let events = simulate_tick(&mut g, &mut rng);
        assert!(g.events.is_empty());
        drop(events);
        for (p, b) in g.players_on_ice.iter().zip(before.iter()) {
            let (dx, dy) = (p.x - b.0, p.y - b.1);
            assert!(dx * dx + dy * dy <= MAX_STEP * MAX_STEP);
        }
        if let Some(id) = &g.puck.possessed_by {
            assert!(g.players_on_ice.iter().any(|p| &p.player_id == id));
        }
    }
}

#[test]
fn update_positions_snaps_close_targets() {
    let mut g = game(500, 500);
    g.players_on_ice[0].target_x = g.players_on_ice[0].x + 9;
    g.players_on_ice[0].target_y = g.players_on_ice[0].y - 12;
    g.players_on_ice[1].target_x = g.players_on_ice[1].x + 100;
    let (x1, y1) = (g.players_on_ice[1].x, g.players_on_ice[1].y);
    update_positions(&mut g);
    assert_eq!(g.players_on_ice[0].x, g.players_on_ice[0].target_x);
    assert_eq!(g.players_on_ice[0].y, g.players_on_ice[0].target_y);
    assert_eq!((g.players_on_ice[1].x, g.players_on_ice[1].y), (x1 + 15, y1));
}

#[test]
fn events_never_accumulate() {
    let mut g = game(900, 500);
    let mut rng = StdRng::seed_from_u64(3);
    let all = simulate_ticks(&mut g, &mut rng, 40);
    assert_eq!(all.len(), 40);
    assert_eq!(g.time, 40);
    assert!(g.events.is_empty());
    assert!(matches!(all[0][0], GameEvent::FaceoffResult { .. }));
}

#[test]
fn possessed_puck_follows_carrier() {
    let mut g = game(900, 500);
    handle_faceoff(&mut g, 0, 0).unwrap();
    g.players_on_ice[3].x = 1234;
    g.players_on_ice[3].y = 321;
    update_puck(&mut g);
    assert_eq!((g.puck.x, g.puck.y), (1234, 321));
    assert_eq!((g.puck.velocity_x, g.puck.velocity_y), (0, 0));
}

#[test]
fn loose_puck_drifts_slows_and_is_picked_up() {
    let mut g = game(500, 500);
    g.puck.x = 100;
    g.puck.y = 100;
    g.puck.velocity_x = 50;
    g.puck.velocity_y = -7;
    update_puck(&mut g);
    assert_eq!((g.puck.x, g.puck.y), (150, 93));
    assert_eq!((g.puck.velocity_x, g.puck.velocity_y), (45, -6));
    assert!(g.puck.possessed_by.is_none());
    assert!(g.events.is_empty());

    g.puck.x = 1999;
    g.puck.velocity_x = 20;
    update_puck(&mut g);
    assert_eq!(g.puck.x, 2000);

    // home center sits at (980, 425), away center at (1020, 425)
    g.puck.x = 1000;
    g.puck.y = 425;
    g.puck.velocity_x = 5;
    g.puck.velocity_y = 0;
    update_puck(&mut g);
    assert_eq!(g.puck.possessed_by.as_deref(), Some("ac01"));
    assert_eq!((g.puck.x, g.puck.y), (1020, 425));
    match &g.events[0] {
        GameEvent::PossessionChange { team, player } => {
            assert_eq!(team, "Hurricanes");
            assert_eq!(player, "ac01");
        }
        other => panic!("unexpected {:?}", other),
    }
}

#[test]
fn equidistant_pickup_goes_to_first_listed() {
    let mut g = game(500, 500);
    g.puck.x = 1000;
    g.puck.y = 425;
    update_puck(&mut g);
    assert_eq!(g.puck.possessed_by.as_deref(), Some("hc01"));
}

#[test]
fn shot_result_bands() {
    assert_eq!(shot_result(0, 1000, 0), ShotResult::Goal);
    assert_eq!(shot_result(499, 1000, 0), ShotResult::Goal);
    assert_eq!(shot_result(500, 1000, 0), ShotResult::Saved);
    assert_eq!(shot_result(100, 1000, 1000), ShotResult::Blocked);
    assert_eq!(shot_result(100, 0, 0), ShotResult::Missed);
    // s = 800, r = 600: blocked < 150, missed < 200, goal < 200 + 160 = 360
    assert_eq!(shot_result(149, 800, 600), ShotResult::Blocked);
    assert_eq!(shot_result(199, 800, 600), ShotResult::Missed);
    assert_eq!(shot_result(359, 800, 600), ShotResult::Goal);
    assert_eq!(shot_result(360, 800, 600), ShotResult::Saved);
    assert_eq!(shot_result(10, 5000, 0), ShotResult::Goal);
}

#[test]
fn shot_in_range_scores_and_resets() {
    let mut g = game(900, 500);
    handle_faceoff(&mut g, 0, 0).unwrap();
    g.events.clear();
    g.players_on_ice[3].x = 1850;
    // home defense "hld04" shooting 500, away best defense 600:
    // blocked < 150, missed < 275, goal < 275 + 100 = 375
    check_shots(&mut g, 300);
    assert_eq!(g.events.len(), 2);
    assert!(matches!(&g.events[0], GameEvent::Shot { result: ShotResult::Goal, .. }));
    match &g.events[1] {
        GameEvent::Goal { scorer, assist } => {
            assert_eq!(scorer, "hld04");
            assert!(assist.is_none());
        }
        other => panic!("unexpected {:?}", other),
    }
    assert_eq!(g.phase, GamePhase::GoalScored);
    assert!(g.puck.possessed_by.is_none());
    g.events.clear();
    let events = play_tick(&mut g, 0, 0, 0);
    assert!(matches!(events[0], GameEvent::TickLog(_)));
    assert_eq!(g.phase, GamePhase::Faceoff);
    assert_eq!((g.puck.x, g.puck.y), (1000, 425));
}

#[test]
fn missed_shot_rebounds_up_ice() {
    let mut g = game(900, 500);
    handle_faceoff(&mut g, 0, 0).unwrap();
    g.events.clear();
    g.players_on_ice[3].x = 1850;
    check_shots(&mut g, 200);
    assert_eq!(g.events.len(), 1);
    assert!(matches!(&g.events[0], GameEvent::Shot { result: ShotResult::Missed, .. }));
    assert_eq!(g.phase, GamePhase::InPlay);
    assert_eq!((g.puck.velocity_x, g.puck.velocity_y), (-30, 0));
    assert!(g.puck.possessed_by.is_none());
}

#[test]
fn no_shot_out_of_range() {
    let mut g = game(900, 500);
    handle_faceoff(&mut g, 0, 0).unwrap();
    g.events.clear();
    g.players_on_ice[3].x = 1790;
    check_shots(&mut g, 0);
    assert!(g.events.is_empty());
    assert_eq!(g.puck.possessed_by.as_deref(), Some("hld04"));
}

#[test]
fn same_side_tie_goes_by_identifier() {
    let mut g = game(500, 500);
    // "hrw03" is listed before "hld04", but "hld04" comes first by identifier
    g.players_on_ice[2].x = 500;
    g.players_on_ice[2].y = 410;
    g.players_on_ice[3].x = 500;
    g.players_on_ice[3].y = 440;
    g.puck.x = 500;
    g.puck.y = 425;
    update_puck(&mut g);
    assert_eq!(g.puck.possessed_by.as_deref(), Some("hld04"));
}

fn faceoff_outcome(seed: u64) -> Option<TeamSide> {
    let mut g = game(700, 700);
    let mut rng = StdRng::seed_from_u64(seed);
    let events = simulate_tick(&mut g, &mut rng);
    match &events[0] {
        GameEvent::FaceoffResult { winner_team, .. } => Some(*winner_team),
        GameEvent::LoosePuck { x, y } => {
            assert_eq!((*x, *y), (1000, 425));
            assert_eq!((g.puck.x, g.puck.y), g.rink.center_ice);
            assert!(g.puck.possessed_by.is_none());
            None
        }
        other => panic!("unexpected {:?}", other),
    }
}

#[test]
fn seeded_faceoffs_reproduce_and_vary() {
    let outcomes: Vec<Option<TeamSide>> = (0..60u64).map(faceoff_outcome).collect();
    let again: Vec<Option<TeamSide>> = (0..60u64).map(faceoff_outcome).collect();
    assert_eq!(outcomes, again);
    assert!(outcomes.iter().any(|o| o.is_none()));
    assert!(outcomes.iter().any(|o| o.is_some()));
}

#[test]
fn zero_ticks_leave_the_game_alone() {
    let mut g = game(900, 500);
    g.events.push(GameEvent::TickLog("pending".to_string()));
    let mut rng = StdRng::seed_from_u64(5);
    let all = simulate_ticks(&mut g, &mut rng, 0);
    assert!(all.is_empty());
    assert_eq!(g.time, 0);
    assert_eq!(g.events.len(), 1);
}

#[test]
fn lineup_starts_still_at_slots() {
    let g = game(500, 500);
    let c = &g.players_on_ice[0];
    assert_eq!(c.position, Position::C);
    assert_eq!((c.x, c.y, c.target_x, c.target_y, c.speed), (980, 425, 980, 425, 0));
    let ald = &g.players_on_ice[8];
    assert_eq!(ald.position, Position::LD);
    assert_eq!((ald.x, ald.y, ald.target_x, ald.target_y, ald.speed), (1200, 250, 1200, 250, 0));
}

#[test]
fn away_missing_defense_logs_the_role() {
    let mut away = team("Hurricanes", "a", 500);
    away.players[3].primary_position = Position::LW;
    away.players[4].primary_position = Position::RW;
    let mut g = GameState::new(team("Capitals", "h", 500), away);
    let events = play_tick(&mut g, 0, 0, 0);
    match &events[0] {
        GameEvent::TickLog(text) => assert_eq!(text, "faceoff waits: away has no defenseman"),
        other => panic!("unexpected {:?}", other),
    }
}
