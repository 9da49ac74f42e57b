use thavalon::{Role, SuccessCard, MAX_PLAYERS, MIN_PLAYERS};

const GOOD: [Role; 8] = [
    Role::Merlin,
    Role::Percival,
    Role::Tristan,
    Role::Iseult,
    Role::Lancelot,
    Role::Nimue,
    Role::Arthur,
    Role::Titania,
];

const EVIL: [Role; 5] =
    [Role::Mordred, Role::Morgana, Role::Maelagant, Role::Agravaine, Role::Colgrevance];

#[test]
fn entries_list_every_role_once_in_catalogue_order() {
    assert_eq!(
        Role::ENTRIES,
        [
            Role::Merlin,
            Role::Percival,
            Role::Tristan,
            Role::Iseult,
            Role::Lancelot,
            Role::Nimue,
            Role::Arthur,
            Role::Titania,
            Role::Mordred,
            Role::Morgana,
            Role::Maelagant,
            Role::Agravaine,
            Role::Colgrevance,
        ]
    );
    assert_eq!(Role::ENTRIES.len(), GOOD.len() + EVIL.len());
}

#[test]
fn player_bounds_are_five_and_ten() {
    assert_eq!(MIN_PLAYERS, 5);
    assert_eq!(MAX_PLAYERS, 10);
}

#[test]
fn is_evil_matches_the_faction_table() {
    for role in GOOD {
        assert!(!role.is_evil(), "{role:?}");
    }
    for role in EVIL {
        assert!(role.is_evil(), "{role:?}");
    }
}

#[test]
fn can_see_matches_the_visibility_table() {
    // One row per observer and one column per target, both in catalogue order.
    let table: [&str; 13] = [
        "....1....1111", // Merlin
        "1........1...", // Percival
        "..11.........", // Tristan
        "..11.........", // Iseult
        ".............", // Lancelot
        ".............", // Nimue
        ".............", // Arthur
        ".............", // Titania
        ".......11111.", // Mordred
        ".......11111.", // Morgana
        ".......11111.", // Maelagant
        ".......11111.", // Agravaine
        ".............", // Colgrevance
    ];
    for (row, observer) in Role::ENTRIES.iter().enumerate() {
        for (column, target) in Role::ENTRIES.iter().enumerate() {
            let expected = table[row].as_bytes()[column] == b'1';
            assert_eq!(observer.can_see(target), expected, "{observer:?} -> {target:?}");
        }
    }
}

#[test]
fn merlin_does_not_see_mordred() {
    assert!(!Role::Merlin.can_see(&Role::Mordred));
    assert!(Role::Merlin.can_see(&Role::Lancelot));
    assert!(Role::Merlin.can_see(&Role::Colgrevance));
    assert!(!Role::Merlin.can_see(&Role::Merlin));
}

#[test]
fn percival_sees_merlin_and_morgana_only() {
    for target in Role::ENTRIES {
        let expected = target == Role::Merlin || target == Role::Morgana;
        assert_eq!(Role::Percival.can_see(&target), expected, "{target:?}");
    }
}

#[test]
fn lovers_see_only_each_other() {
    for lover in [Role::Tristan, Role::Iseult] {
        for target in Role::ENTRIES {
            let expected = target == Role::Tristan || target == Role::Iseult;
            assert_eq!(lover.can_see(&target), expected, "{lover:?} -> {target:?}");
        }
    }
}

#[test]
fn seeing_is_not_symmetric() {
    assert!(Role::Merlin.can_see(&Role::Morgana));
    assert!(!Role::Morgana.can_see(&Role::Merlin));
    assert!(Role::Mordred.can_see(&Role::Titania));
    assert!(!Role::Titania.can_see(&Role::Mordred));
    assert!(!Role::Colgrevance.can_see(&Role::Mordred));
    assert!(!Role::Mordred.can_see(&Role::Colgrevance));
}

#[test]
fn can_play_matches_the_card_table() {
    for role in Role::ENTRIES {
        assert_eq!(role.can_play(SuccessCard::Success), role != Role::Agravaine, "{role:?}");
        assert_eq!(role.can_play(SuccessCard::Failure), EVIL.contains(&role), "{role:?}");
        assert_eq!(
            role.can_play(SuccessCard::Reversal),
            role == Role::Lancelot || role == Role::Maelagant,
            "{role:?}"
        );
    }
}

#[test]
fn agravaine_may_only_fail() {
    assert!(!Role::Agravaine.can_play(SuccessCard::Success));
    assert!(Role::Agravaine.can_play(SuccessCard::Failure));
    assert!(!Role::Agravaine.can_play(SuccessCard::Reversal));
}

#[test]
fn available_range_matches_the_size_table() {
    let expected: [(Role, usize, usize); 13] = [
        (Role::Merlin, 5, 10),
        (Role::Percival, 5, 10),
        (Role::Tristan, 5, 10),
        (Role::Iseult, 5, 10),
        (Role::Lancelot, 5, 10),
        (Role::Nimue, 5, 5),
        (Role::Arthur, 7, 10),
        (Role::Titania, 7, 10),
        (Role::Mordred, 5, 10),
        (Role::Morgana, 5, 10),
        (Role::Maelagant, 5, 10),
        (Role::Agravaine, 8, 10),
        (Role::Colgrevance, 10, 10),
    ];
    for (role, low, high) in expected {
        assert_eq!(role.available_range(), low..=high, "{role:?}");
    }
}

#[test]
fn available_range_decides_membership_at_each_size() {
    assert!(Role::Nimue.available_range().contains(&5));
    assert!(!Role::Nimue.available_range().contains(&6));
    assert!(!Role::Arthur.available_range().contains(&6));
    assert!(Role::Arthur.available_range().contains(&7));
    assert!(!Role::Agravaine.available_range().contains(&7));
    assert!(Role::Agravaine.available_range().contains(&8));
    assert!(!Role::Colgrevance.available_range().contains(&9));
    assert!(Role::Colgrevance.available_range().contains(&10));
    assert!(!Role::Merlin.available_range().contains(&4));
    assert!(!Role::Merlin.available_range().contains(&11));
}
