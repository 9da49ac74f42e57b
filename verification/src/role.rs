//! The role catalogue: alignment, who sees whom, which cards a role may play
//! and the table sizes at which a role may appear.

use std::ops::RangeInclusive;
use vstd::prelude::*;

verus! {

/// The smallest supported table.
pub const MIN_PLAYERS: usize = 5;

/// The largest supported table.
pub const MAX_PLAYERS: usize = 10;

/// A card played to resolve a mission.
#[derive(Debug, Clone, Copy, PartialEq, Eq, Structural)]
pub enum SuccessCard {
    Success,
    Failure,
    Reversal,
}

/// A hidden role. The set is closed; everything a role does follows from its
/// variant.
#[derive(Debug, Clone, Copy, PartialEq, Eq, Structural)]
pub enum Role {
    Merlin,
    Percival,
    Tristan,
    Iseult,
    Lancelot,
    Nimue,
    Arthur,
    Titania,
    Mordred,
    Morgana,
    Maelagant,
    Agravaine,
    Colgrevance,
}

/// Every role, in catalogue order: what `Role::ENTRIES` holds.
pub open spec fn catalogue() -> Seq<Role> {
    seq![
        Role::Merlin,
        Role::Percival,
        Role::Tristan,
        Role::Iseult,
        Role::Lancelot,
        Role::Nimue,
        Role::Arthur,
        Role::Titania,
        Role::Mordred,
        Role::Morgana,
        Role::Maelagant,
        Role::Agravaine,
        Role::Colgrevance,
    ]
}

/// The catalogue lists every role, and each of them once.
pub proof fn lemma_catalogue_complete()
    ensures
        Role::ENTRIES@ == catalogue(),
        catalogue().no_duplicates(),
        forall|role: Role| catalogue().contains(role),
{
    assert forall|role: Role| catalogue().contains(role) by {
        let at: int = match role {
            Role::Merlin => 0,
            Role::Percival => 1,
            Role::Tristan => 2,
            Role::Iseult => 3,
            Role::Lancelot => 4,
            Role::Nimue => 5,
            Role::Arthur => 6,
            Role::Titania => 7,
            Role::Mordred => 8,
            Role::Morgana => 9,
            Role::Maelagant => 10,
            Role::Agravaine => 11,
            Role::Colgrevance => 12,
        };
        assert(catalogue()[at] == role);
    }
}

/// Every role may appear at some table, and only at tables of a supported
/// size.
pub proof fn lemma_range_is_supported(role: Role)
    ensures
        MIN_PLAYERS <= role.min_players() <= role.max_players() <= MAX_PLAYERS,
{
}

/// An evil role is told of nobody but evil roles and Titania.
pub proof fn lemma_evil_sees_evil(observer: Role, target: Role)
    requires
        observer.is_evil(),
        observer.can_see(&target),
    ensures
        target.is_evil() || target == Role::Titania,
{
}

/// The lovers are seen by each other and by nobody else.
pub proof fn lemma_lovers_are_hidden(observer: Role, target: Role)
    requires
        target == Role::Tristan || target == Role::Iseult,
    ensures
        observer.can_see(&target) <==> observer == Role::Tristan || observer == Role::Iseult,
{
}

/// Every role has a card that it may play.
pub proof fn lemma_every_role_can_play(role: Role)
    ensures
        role.can_play(SuccessCard::Success) || role.can_play(SuccessCard::Failure),
{
}

impl Role {
    /// Every role, in catalogue order.
    pub const ENTRIES: [Role; 13] = [
        Role::Merlin,
        Role::Percival,
        Role::Tristan,
        Role::Iseult,
        Role::Lancelot,
        Role::Nimue,
        Role::Arthur,
        Role::Titania,
        Role::Mordred,
        Role::Morgana,
        Role::Maelagant,
        Role::Agravaine,
        Role::Colgrevance,
    ];

    /// The evil faction.
    pub open spec fn spec_is_evil(&self) -> bool {
        *self == Role::Mordred || *self == Role::Morgana || *self == Role::Maelagant
            || *self == Role::Agravaine || *self == Role::Colgrevance
    }

    /// Whether the role belongs to the evil faction.
    #[verifier::when_used_as_spec(spec_is_evil)]
    pub fn is_evil(&self) -> (evil: bool)
        ensures
            evil == self.spec_is_evil(),
    {
        matches!(
            self,
            Role::Mordred | Role::Morgana | Role::Maelagant | Role::Agravaine | Role::Colgrevance
        )
    }

    /// Whether `self` is told who `other` is: Merlin sees Lancelot and every
    /// evil role but Mordred; Percival sees Merlin and Morgana; the lovers see
    /// each other; the evil roles other than Colgrevance see one another and
    /// Titania. Nobody else sees anything.
    pub open spec fn spec_can_see(&self, other: &Role) -> bool {
        match *self {
            Role::Merlin => *other == Role::Lancelot || (other.spec_is_evil() && *other
                != Role::Mordred),
            Role::Percival => *other == Role::Merlin || *other == Role::Morgana,
            Role::Tristan | Role::Iseult => *other == Role::Tristan || *other == Role::Iseult,
            Role::Mordred | Role::Morgana | Role::Maelagant | Role::Agravaine => *other
                == Role::Titania || (other.spec_is_evil() && *other != Role::Colgrevance),
            _ => false,
        }
    }

    /// Whether `self` is told who `other` is.
    #[verifier::when_used_as_spec(spec_can_see)]
    pub fn can_see(&self, other: &Role) -> (sees: bool)
        ensures
            sees == self.spec_can_see(other),
    {
        matches!(
            (self, other),
            (
                Role::Merlin,
                Role::Lancelot | Role::Morgana | Role::Maelagant | Role::Agravaine
                | Role::Colgrevance,
            ) | (Role::Percival, Role::Merlin | Role::Morgana) | (
                Role::Tristan | Role::Iseult,
                Role::Tristan | Role::Iseult,
            ) | (
                Role::Mordred | Role::Morgana | Role::Maelagant | Role::Agravaine,
                Role::Mordred | Role::Morgana | Role::Maelagant | Role::Agravaine | Role::Titania,
            )
        )
    }

    /// Whether the role may play `card`: everyone but Agravaine may play a
    /// success, exactly the evil roles may play a failure, and only Lancelot
    /// and Maelagant may play a reversal.
    pub open spec fn spec_can_play(&self, card: SuccessCard) -> bool {
        match card {
            SuccessCard::Success => *self != Role::Agravaine,
            SuccessCard::Failure => self.spec_is_evil(),
            SuccessCard::Reversal => *self == Role::Lancelot || *self == Role::Maelagant,
        }
    }

    /// Whether the role may play `card`.
    #[verifier::when_used_as_spec(spec_can_play)]
    pub fn can_play(&self, card: SuccessCard) -> (allowed: bool)
        ensures
            allowed == self.spec_can_play(card),
    {
        match (self, card) {
            (Role::Agravaine, SuccessCard::Success) => false,
            (_, SuccessCard::Success) => true,
            (_, SuccessCard::Failure) => self.is_evil(),
            (Role::Lancelot | Role::Maelagant, SuccessCard::Reversal) => true,
            (_, SuccessCard::Reversal) => false,
        }
    }

    /// The fewest players with which the role may appear.
    pub open spec fn min_players(self) -> int {
        match self {
            Role::Arthur | Role::Titania => 7,
            Role::Agravaine => 8,
            Role::Colgrevance => 10,
            _ => MIN_PLAYERS as int,
        }
    }

    /// The most players with which the role may appear.
    pub open spec fn max_players(self) -> int {
        match self {
            Role::Nimue => 5,
            _ => MAX_PLAYERS as int,
        }
    }

    /// The inclusive range of table sizes at which the role may appear.
    pub fn available_range(&self) -> (range: RangeInclusive<usize>)
        ensures
            range@.start == self.min_players(),
            range@.end == self.max_players(),
            !range@.exhausted,
    {
        let lower_bound: usize = match self {
            Role::Arthur => 7,
            Role::Titania => 7,
            Role::Agravaine => 8,
            Role::Colgrevance => 10,
            _ => MIN_PLAYERS,
        };
        let upper_bound: usize = match self {
            Role::Nimue => 5,
            _ => MAX_PLAYERS,
        };
        lower_bound..=upper_bound
    }
}

} // verus!
