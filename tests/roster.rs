use hockey_sim::models::{Handedness, Position};
use hockey_sim::roster::{
    build_team, generate_player_id, parse_handedness, parse_position, PlayerCsvRow, RosterError,
};

fn row(first: &str, last: &str, number: u8, hand: &str, primary: &str, secondary: Option<&str>) -> PlayerCsvRow {
    PlayerCsvRow {
        number,
        first_name: first.to_string(),
        last_name: last.to_string(),
        skating: 850,
        passing: 700,
        shooting: 950,
        defense: 400,
        stamina: 800,
        handedness: hand.to_string(),
        primary_position: primary.to_string(),
        secondary_position: secondary.map(|s| s.to_string()),
    }
}

#[test]
fn parses_every_position_code() {
    assert_eq!(parse_position("C").unwrap(), Position::C);
    assert_eq!(parse_position("RW").unwrap(), Position::RW);
    assert_eq!(parse_position("LW").unwrap(), Position::LW);
    assert_eq!(parse_position("RD").unwrap(), Position::RD);
    assert_eq!(parse_position("LD").unwrap(), Position::LD);
}

#[test]
fn rejects_unknown_position_code() {
    match parse_position("G") {
        Err(RosterError::UnknownPosition(code)) => assert_eq!(code, "G"),
        other => panic!("unexpected {:?}", other),
    }
    assert!(parse_position("").is_err());
    assert!(parse_position("c").is_err());
    assert!(parse_position("RDX").is_err());
}

#[test]
fn parses_handedness_codes() {
    assert_eq!(parse_handedness("L").unwrap(), Handedness::L);
    assert_eq!(parse_handedness("R").unwrap(), Handedness::R);
    match parse_handedness("X") {
        Err(RosterError::UnknownHandedness(code)) => assert_eq!(code, "X"),
        other => panic!("unexpected {:?}", other),
    }
}

#[test]
fn player_id_pads_number_to_two_digits() {
    assert_eq!(generate_player_id("alex", "ovechkin", 8), "alexovechkin08");
    assert_eq!(generate_player_id("Sebastian", "Aho", 20), "SebastianAho20");
    assert_eq!(generate_player_id("a", "b", 0), "ab00");
    assert_eq!(generate_player_id("a", "b", 255), "ab255");
}

#[test]
fn position_codes_round_trip() {
    for p in [Position::C, Position::RW, Position::LW, Position::LD, Position::RD] {
        assert_eq!(parse_position(p.code()).unwrap(), p);
    }
    assert!(Position::LD.is_defense());
    assert!(Position::RD.is_defense());
    assert!(!Position::C.is_defense());
}

#[test]
fn builds_team_in_order() {
    let rows = vec![
        row("alex", "ovechkin", 8, "R", "LW", None),
        row("john", "carlson", 74, "R", "RD", Some("LD")),
        row("dylan", "strome", 17, "L", "C", Some("   ")),
    ];
    let team = build_team("Capitals", &rows).unwrap();
    assert_eq!(team.name, "Capitals");
    assert_eq!(team.players.len(), 3);
    assert_eq!(team.players[0].player_id, "alexovechkin08");
    assert_eq!(team.players[0].primary_position, Position::LW);
    assert_eq!(team.players[0].secondary_position, None);
    assert_eq!(team.players[1].secondary_position, Some(Position::LD));
    assert_eq!(team.players[2].secondary_position, None);
    assert_eq!(team.players[1].handedness, Handedness::R);
    assert_eq!(team.players[0].skills.shooting, 950);
    assert_eq!(team.players[0].current_stamina, 800);
}

#[test]
fn bad_code_aborts_the_whole_roster() {
    let rows = vec![
        row("alex", "ovechkin", 8, "R", "LW", None),
        row("john", "carlson", 74, "Q", "ZZ", None),
    ];
    match build_team("Capitals", &rows) {
        Err(RosterError::UnknownHandedness(code)) => assert_eq!(code, "Q"),
        other => panic!("unexpected {:?}", other),
    }
    let rows = vec![row("john", "carlson", 74, "R", "ZZ", None)];
    match build_team("Capitals", &rows) {
        Err(RosterError::UnknownPosition(code)) => assert_eq!(code, "ZZ"),
        other => panic!("unexpected {:?}", other),
    }
    let rows = vec![row("john", "carlson", 74, "R", "RD", Some(" X "))];
    match build_team("Capitals", &rows) {
        Err(RosterError::UnknownPosition(code)) => assert_eq!(code, " X "),
        other => panic!("unexpected {:?}", other),
    }
}

#[test]
fn identifiers_are_stable_across_loads() {
    let rows = vec![
        row("alex", "ovechkin", 8, "R", "LW", None),
        row("john", "carlson", 74, "R", "RD", None),
    ];
    let a = build_team("Capitals", &rows).unwrap();
    let b = build_team("Capitals", &rows).unwrap();
    for (x, y) in a.players.iter().zip(b.players.iter()) {
        assert_eq!(x.player_id.as_bytes(), y.player_id.as_bytes());
    }
}
