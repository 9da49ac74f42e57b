use thavalon::{Error, Game, Player, Role, ShuffleMode};

const RUNS: usize = 300;

fn names(count: usize) -> Vec<String> {
    let all = [
        "Ada", "Brook", "Cleo", "Dag", "Esme", "Finn", "Gwen", "Hale", "Ines", "Jory", "Kit",
        "Lou",
    ];
    all[..count].iter().map(|name| name.to_string()).collect()
}

fn roles_of(game: &Game) -> Vec<Role> {
    game.players().iter().map(Player::role).collect()
}

fn names_of(game: &Game) -> Vec<String> {
    game.players().iter().map(|player| player.name().clone()).collect()
}

fn evil_expected(player_count: usize) -> usize {
    match player_count {
        5 | 6 => 2,
        7 | 8 | 9 => 3,
        10 => 4,
        _ => panic!("no split for {player_count} players"),
    }
}

fn assert_ready(game: &Game, given: &[String]) {
    let player_count = given.len();
    assert_eq!(game.players().len(), player_count);
    assert_eq!(game.good_wins(), 0);
    assert_eq!(game.evil_wins(), 0);
    assert_eq!(game.mission_attempts(), 0);
    assert!(game.current_king_index() < player_count);

    let roles = roles_of(game);
    for (at, role) in roles.iter().enumerate() {
        assert!(!roles[..at].contains(role), "{role:?} dealt twice in {roles:?}");
        assert!(role.available_range().contains(&player_count), "{role:?} at {player_count}");
    }
    let evil = roles.iter().filter(|role| role.is_evil()).count();
    assert_eq!(evil, evil_expected(player_count));
    assert_eq!(roles.len() - evil, player_count - evil_expected(player_count));
    assert_eq!(roles.contains(&Role::Tristan), roles.contains(&Role::Iseult), "{roles:?}");

    let mut seated = names_of(game);
    let mut expected = given.to_vec();
    seated.sort();
    expected.sort();
    assert_eq!(seated, expected);
}

#[test]
fn new_with_four_names_is_refused() {
    match Game::new(names(4), ShuffleMode::Full) {
        Err(Error::InvalidPlayerCount(count)) => assert_eq!(count, 4),
        Err(error) => panic!("unexpected error {error:?}"),
        Ok(game) => panic!("unexpected game {game:?}"),
    }
}

#[test]
fn new_refuses_every_unsupported_size_in_both_modes() {
    for count in [0, 1, 2, 3, 4, 11, 12] {
        for mode in [ShuffleMode::Full, ShuffleMode::KingOnly] {
            match Game::new(names(count), mode) {
                Err(error) => assert_eq!(error, Error::InvalidPlayerCount(count)),
                Ok(game) => panic!("unexpected game {game:?}"),
            }
        }
    }
}

#[test]
fn new_with_five_names_and_full_shuffle_is_ready() {
    let given = names(5);
    let game = Game::new(given.clone(), ShuffleMode::Full).unwrap();
    assert_eq!(game.players().len(), 5);
    assert_eq!(game.good_wins(), 0);
    assert_eq!(game.evil_wins(), 0);
    assert_eq!(game.mission_attempts(), 0);
    let roles = roles_of(&game);
    assert_eq!(roles.iter().filter(|role| !role.is_evil()).count(), 3);
    assert_eq!(roles.iter().filter(|role| role.is_evil()).count(), 2);
    assert_eq!(roles.contains(&Role::Tristan), roles.contains(&Role::Iseult));
    assert_ready(&game, &given);
}

#[test]
fn new_is_ready_at_every_size_in_both_modes() {
    for count in 5..=10 {
        for mode in [ShuffleMode::Full, ShuffleMode::KingOnly] {
            for _ in 0..RUNS {
                let given = names(count);
                let game = Game::new(given.clone(), mode).unwrap();
                assert_ready(&game, &given);
            }
        }
    }
}

#[test]
fn five_players_never_get_a_role_of_larger_tables() {
    for _ in 0..RUNS {
        let game = Game::new(names(5), ShuffleMode::Full).unwrap();
        for role in roles_of(&game) {
            assert!(
                !matches!(
                    role,
                    Role::Arthur | Role::Titania | Role::Agravaine | Role::Colgrevance
                ),
                "{role:?} at a table of five"
            );
        }
    }
}

#[test]
fn five_players_may_get_nimue_and_larger_tables_never_do() {
    let mut seen = false;
    for _ in 0..RUNS {
        let game = Game::new(names(5), ShuffleMode::Full).unwrap();
        seen = seen || roles_of(&game).contains(&Role::Nimue);
    }
    assert!(seen);
    for count in 6..=10 {
        for _ in 0..RUNS {
            let game = Game::new(names(count), ShuffleMode::Full).unwrap();
            assert!(!roles_of(&game).contains(&Role::Nimue));
        }
    }
}

#[test]
fn current_king_index_is_a_seat_at_the_table() {
    for count in 5..=10 {
        for _ in 0..RUNS {
            let game = Game::new(names(count), ShuffleMode::Full).unwrap();
            assert!(game.current_king_index() < game.players().len());
        }
    }
}

#[test]
fn current_king_index_reaches_every_seat() {
    let mut seen = [false; 5];
    for _ in 0..RUNS {
        let game = Game::new(names(5), ShuffleMode::KingOnly).unwrap();
        seen[game.current_king_index()] = true;
    }
    assert_eq!(seen, [true; 5]);
}

#[test]
fn king_only_keeps_the_names_in_the_order_given() {
    for count in 5..=10 {
        for _ in 0..RUNS {
            let given = names(count);
            let game = Game::new(given.clone(), ShuffleMode::KingOnly).unwrap();
            assert_eq!(names_of(&game), given);
        }
    }
}

#[test]
fn full_shuffle_moves_the_players() {
    let given = names(5);
    let mut moved = false;
    for _ in 0..RUNS {
        let game = Game::new(given.clone(), ShuffleMode::Full).unwrap();
        moved = moved || names_of(&game) != given;
    }
    assert!(moved);
}

#[test]
fn duplicate_and_empty_names_pass_through() {
    let given: Vec<String> =
        ["Ada", "Ada", "", "", "Brook"].iter().map(|name| name.to_string()).collect();
    let game = Game::new(given.clone(), ShuffleMode::KingOnly).unwrap();
    assert_eq!(names_of(&game), given);
    assert_ready(&game, &given);
}

#[test]
fn pair_players_seats_names_with_roles_by_position() {
    let players = Game::pair_players(
        names(5),
        vec![Role::Mordred, Role::Merlin, Role::Tristan, Role::Iseult, Role::Morgana],
    );
    let seated: Vec<(&str, Role)> =
        players.iter().map(|player| (player.name().as_str(), player.role())).collect();
    assert_eq!(
        seated,
        vec![
            ("Ada", Role::Mordred),
            ("Brook", Role::Merlin),
            ("Cleo", Role::Tristan),
            ("Dag", Role::Iseult),
            ("Esme", Role::Morgana),
        ]
    );
}

#[test]
fn pair_players_stops_at_the_shorter_list() {
    let players = Game::pair_players(names(3), vec![Role::Mordred, Role::Merlin]);
    let seated: Vec<(&str, Role)> =
        players.iter().map(|player| (player.name().as_str(), player.role())).collect();
    assert_eq!(seated, vec![("Ada", Role::Mordred), ("Brook", Role::Merlin)]);

    let players = Game::pair_players(names(1), vec![Role::Nimue, Role::Merlin, Role::Arthur]);
    let seated: Vec<(&str, Role)> =
        players.iter().map(|player| (player.name().as_str(), player.role())).collect();
    assert_eq!(seated, vec![("Ada", Role::Nimue)]);

    assert!(Game::pair_players(vec![], vec![Role::Nimue]).is_empty());
    assert!(Game::pair_players(names(2), vec![]).is_empty());
}
