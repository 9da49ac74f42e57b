//! Hidden-role assignment for a game of Thavalon: the role catalogue, the
//! good/evil split for each table size, and the constrained random draw that
//! seats a set of players. The protocol of the small demonstration server
//! lives in `web`.

pub mod game;
pub mod random;
pub mod role;
pub mod sampling;
pub mod sequences;
pub mod web;

pub use game::{Error, Game, Player, ShuffleMode};
pub use role::{Role, SuccessCard, MAX_PLAYERS, MIN_PLAYERS};
pub use sampling::MAX_DRAW_ATTEMPTS;
