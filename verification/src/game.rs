//! The assembled game and the errors of setting one up.

use crate::random::{gen_index, shuffle};
use crate::role::Role;
use crate::sampling::{lemma_valid_role_set_permutes, supported, valid_role_set};
use crate::sequences::{is_permutation, lemma_permutation_len, lemma_permutation_map_values};
use rand::thread_rng;
use vstd::prelude::*;

verus! {

/// Why a game could not be set up.
#[derive(Debug, Clone, Copy, PartialEq, Eq, Structural)]
pub enum Error {
    /// The number of players is not one the game is defined for.
    InvalidPlayerCount(usize),
    /// No draw satisfied the lovers' rule within the allowed attempts.
    UnsatisfiableConstraint,
}

/// How seats are randomised once roles are dealt.
#[derive(Debug, Clone, Copy, PartialEq, Eq, Structural)]
pub enum ShuffleMode {
    /// Keep the players in the order given; only the king's seat is drawn.
    KingOnly,
    /// Permute the whole table.
    Full,
}

/// A player and the role dealt to them.
#[derive(Debug)]
pub struct Player {
    name: String,
    role: Role,
}

/// What a `Player` stands for: a name and the role dealt to it.
pub struct PlayerView {
    pub name: Seq<char>,
    pub role: Role,
}

impl View for Player {
    type V = PlayerView;

    closed spec fn view(&self) -> PlayerView {
        PlayerView { name: self.name@, role: self.role }
    }
}

impl Player {
    /// The player's name.
    pub fn name(&self) -> (name: &String)
        ensures
            name@ == self@.name,
    {
        &self.name
    }

    /// The role dealt to the player.
    pub fn role(&self) -> (role: Role)
        ensures
            role == self@.role,
    {
        self.role
    }
}

/// The seats that a list of players stands for.
pub open spec fn seats(players: Seq<Player>) -> Seq<PlayerView> {
    players.map_values(|player: Player| player@)
}

/// The texts that a list of names stands for.
pub open spec fn texts(names: Seq<String>) -> Seq<Seq<char>> {
    names.map_values(|name: String| name@)
}

/// Each name seated with the role at the same position, as far as both lists
/// reach.
pub open spec fn paired(names: Seq<Seq<char>>, roles: Seq<Role>) -> Seq<PlayerView> {
    Seq::new(
        if names.len() <= roles.len() {
            names.len()
        } else {
            roles.len()
        },
        |i: int| PlayerView { name: names[i], role: roles[i] },
    )
}

/// A game ready to start.
#[derive(Debug)]
pub struct Game {
    players: Vec<Player>,
    good_wins: u8,
    evil_wins: u8,
    mission_attempts: u8,
    current_king: usize,
}

/// What a `Game` stands for.
pub struct GameView {
    pub players: Seq<PlayerView>,
    pub good_wins: nat,
    pub evil_wins: nat,
    pub mission_attempts: nat,
    pub current_king: nat,
}

impl GameView {
    /// The players' names, seat by seat.
    pub open spec fn names(self) -> Seq<Seq<char>> {
        self.players.map_values(|player: PlayerView| player.name)
    }

    /// The players' roles, seat by seat.
    pub open spec fn roles(self) -> Seq<Role> {
        self.players.map_values(|player: PlayerView| player.role)
    }

    /// The roles at the table are a valid set for its size, and the king
    /// sits at the table.
    pub open spec fn well_formed(self) -> bool {
        &&& valid_role_set(self.roles(), self.players.len() as int)
        &&& self.current_king < self.players.len()
    }

    /// Nothing has been played yet.
    pub open spec fn fresh(self) -> bool {
        self.good_wins == 0 && self.evil_wins == 0 && self.mission_attempts == 0
    }
}

impl View for Game {
    type V = GameView;

    closed spec fn view(&self) -> GameView {
        GameView {
            players: seats(self.players@),
            good_wins: self.good_wins as nat,
            evil_wins: self.evil_wins as nat,
            mission_attempts: self.mission_attempts as nat,
            current_king: self.current_king as nat,
        }
    }
}

impl Game {
    /// Every game is well formed.
    #[verifier::type_invariant]
    spec fn seated(&self) -> bool {
        self@.well_formed()
    }

    /// Sets up a game for `player_names`: deals a valid set of roles to the
    /// names in the order given, picks a king's seat, and in `Full` mode
    /// permutes the table afterwards.
    ///
    /// Names are taken as they come: empty and repeated ones are seated like
    /// any other. A list of unsupported length is refused. For a supported
    /// length the draw may still give up, and that is the only other failure.
    pub fn new(player_names: Vec<String>, shuffle_mode: ShuffleMode) -> (made: Result<Game, Error>)
        ensures
            match made {
                Ok(game) => {
                    &&& game@.well_formed()
                    &&& game@.fresh()
                    &&& game@.players.len() == player_names@.len()
                    &&& is_permutation(game@.names(), texts(player_names@))
                    &&& shuffle_mode == ShuffleMode::KingOnly ==> game@.names() == texts(
                        player_names@,
                    )
                },
                Err(Error::InvalidPlayerCount(count)) => {
                    &&& !supported(player_names@.len() as int)
                    &&& count == player_names@.len()
                },
                Err(Error::UnsatisfiableConstraint) => supported(player_names@.len() as int),
            },
    {
        let mut rng = thread_rng();
        let ghost names = texts(player_names@);
        let roles = Self::get_roles(player_names.len())?;
        let ghost dealt = roles@;
        let mut players = Self::pair_players(player_names, roles);
        let ghost seated = seats(players@);
        assert(seated.map_values(|player: PlayerView| player.name) =~= names);
        assert(seated.map_values(|player: PlayerView| player.role) =~= dealt);

        let current_king = gen_index(&mut rng, players.len());
        if matches!(shuffle_mode, ShuffleMode::Full) {
            let ghost before = players@;
            shuffle(&mut rng, &mut players);
            proof {
                let moved = seats(players@);
                lemma_permutation_len(before, players@);
                lemma_permutation_map_values(before, players@, |player: Player| player@);
                lemma_permutation_map_values(seated, moved, |player: PlayerView| player.name);
                lemma_permutation_map_values(seated, moved, |player: PlayerView| player.role);
                lemma_valid_role_set_permutes(
                    dealt,
                    moved.map_values(|player: PlayerView| player.role),
                    dealt.len() as int,
                );
            }
        }
        Ok(Game { players, good_wins: 0, evil_wins: 0, mission_attempts: 0, current_king })
    }

    /// The players, seat by seat. Whoever holds a game holds a well-formed
    /// one.
    pub fn players(&self) -> (players: &Vec<Player>)
        ensures
            seats(players@) == self@.players,
            self@.well_formed(),
    {
        proof {
            use_type_invariant(self);
        }
        &self.players
    }

    /// How many missions the good side has won.
    pub fn good_wins(&self) -> (wins: u8)
        ensures
            wins == self@.good_wins,
    {
        self.good_wins
    }

    /// How many missions the evil side has won.
    pub fn evil_wins(&self) -> (wins: u8)
        ensures
            wins == self@.evil_wins,
    {
        self.evil_wins
    }

    /// How many proposals have been made for the current mission.
    pub fn mission_attempts(&self) -> (attempts: u8)
        ensures
            attempts == self@.mission_attempts,
    {
        self.mission_attempts
    }

    /// The seat of the current king, which is always a seat at the table.
    pub fn current_king_index(&self) -> (seat: usize)
        ensures
            seat == self@.current_king,
            seat < self@.players.len(),
    {
        proof {
            use_type_invariant(self);
        }
        self.current_king
    }

    /// Seats each name with the role at the same position, as far as both
    /// lists reach.
    pub fn pair_players(player_names: Vec<String>, roles: Vec<Role>) -> (players: Vec<Player>)
        ensures
            seats(players@) == paired(texts(player_names@), roles@),
    {
        let ghost expected = paired(texts(player_names@), roles@);
        let mut players: Vec<Player> = Vec::new();
        for name in names: player_names
            invariant
                names.seq() == player_names@,
                expected == paired(texts(player_names@), roles@),
                players@.len() == if names.index() <= roles@.len() {
                    names.index() as int
                } else {
                    roles@.len() as int
                },
                forall|i: int| 0 <= i < players@.len() ==> (#[trigger] players@[i])@ == expected[i],
        {
            let seat = players.len();
            if seat < roles.len() {
                players.push(Player { name, role: roles[seat] });
            }
        }
        assert(seats(players@) =~= expected);
        players
    }
}

} // verus!
