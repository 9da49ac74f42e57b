//! Which sets of roles may be dealt at a table, and how one is drawn.

use crate::game::{Error, Game};
use crate::random::{choose_multiple, is_selection, shuffle};
use crate::role::{catalogue, lemma_catalogue_complete, Role, MAX_PLAYERS, MIN_PLAYERS};
use crate::sequences::{
    count_in_prefix, is_permutation, lemma_distinct_members_are_selection,
    lemma_filter_keeps_all, lemma_filter_len_counts, lemma_filter_len_partition,
    lemma_filter_members, lemma_filter_no_duplicates, lemma_partition_permutes,
    lemma_permutation_contains, lemma_permutation_filter_len, lemma_permutation_len,
    lemma_permutation_no_duplicates, lemma_selection_distinct,
};
use rand::thread_rng;
use vstd::prelude::*;
use vstd::seq_lib::*;

verus! {

/// The most draws `Game::get_roles` makes before it gives up.
pub const MAX_DRAW_ATTEMPTS: usize = 1000;

/// The table sizes the game is defined for.
pub open spec fn supported(player_count: int) -> bool {
    MIN_PLAYERS <= player_count <= MAX_PLAYERS
}

/// How many good roles a table of `player_count` holds.
pub open spec fn good_count(player_count: int) -> int
    recommends
        supported(player_count),
{
    if player_count == 5 {
        3
    } else if player_count == 6 {
        4
    } else if player_count == 7 {
        4
    } else if player_count == 8 {
        5
    } else if player_count == 9 {
        6
    } else {
        6
    }
}

/// How many evil roles a table of `player_count` holds.
pub open spec fn evil_count(player_count: int) -> int
    recommends
        supported(player_count),
{
    if player_count == 5 {
        2
    } else if player_count == 6 {
        2
    } else if player_count == 7 {
        3
    } else if player_count == 8 {
        3
    } else if player_count == 9 {
        3
    } else {
        4
    }
}

/// The two counts fill the table: at every supported size there is one role
/// for each player.
pub proof fn lemma_counts_fill_table(player_count: int)
    requires
        supported(player_count),
    ensures
        good_count(player_count) + evil_count(player_count) == player_count,
        0 < evil_count(player_count) < good_count(player_count),
{
}

/// Whether `role` may be dealt at a table of `player_count`.
pub open spec fn may_appear(role: Role, player_count: int) -> bool {
    role.min_players() <= player_count <= role.max_players()
}

/// Membership of one of the two pools: the roles of one faction that may be
/// dealt at a table of `player_count`.
pub open spec fn in_pool(evil: bool, player_count: int) -> spec_fn(Role) -> bool {
    |role: Role| role.is_evil() == evil && may_appear(role, player_count)
}

/// One of the two pools, in catalogue order.
pub open spec fn pool(evil: bool, player_count: int) -> Seq<Role> {
    catalogue().filter(in_pool(evil, player_count))
}

/// Membership of the evil faction, as a predicate.
pub open spec fn is_evil_role() -> spec_fn(Role) -> bool {
    |role: Role| role.is_evil()
}

/// How many of `roles` are evil.
pub open spec fn evil_roles_in(roles: Seq<Role>) -> nat {
    roles.filter(is_evil_role()).len()
}

/// The lovers' rule: Tristan and Iseult are dealt together or not at all.
pub open spec fn lovers_agree(roles: Seq<Role>) -> bool {
    roles.contains(Role::Tristan) == roles.contains(Role::Iseult)
}

/// What may be dealt at a table of `player_count`: one role a seat, no role
/// twice, none that may not appear at this size, as many evil ones as the
/// table asks for, and the lovers together or absent.
pub open spec fn valid_role_set(roles: Seq<Role>, player_count: int) -> bool {
    &&& supported(player_count)
    &&& roles.len() == player_count
    &&& roles.no_duplicates()
    &&& forall|i: int| 0 <= i < roles.len() ==> may_appear(#[trigger] roles[i], player_count)
    &&& evil_roles_in(roles) == evil_count(player_count)
    &&& lovers_agree(roles)
}

/// No role stands twice in the catalogue, so none stands twice in a pool.
pub proof fn lemma_pool_distinct(evil: bool, player_count: int)
    ensures
        pool(evil, player_count).no_duplicates(),
{
    lemma_catalogue_complete();
    lemma_filter_no_duplicates(catalogue(), in_pool(evil, player_count));
}

/// At every supported table size each pool holds at least as many roles as
/// are dealt from it.
pub proof fn lemma_pools_suffice(player_count: int)
    requires
        supported(player_count),
    ensures
        pool(true, player_count).len() >= evil_count(player_count),
        pool(false, player_count).len() >= good_count(player_count),
{
    reveal_with_fuel(count_in_prefix, 14);
    catalogue().lemma_take_len();
    lemma_filter_len_counts(catalogue(), in_pool(true, player_count), 13);
    lemma_filter_len_counts(catalogue(), in_pool(false, player_count), 13);
}

/// Dealing the full number of good roles from the good pool and of evil roles
/// from the evil pool gives a valid set as soon as the lovers' rule holds.
pub proof fn lemma_draw_is_valid(good_draw: Seq<Role>, evil_draw: Seq<Role>, player_count: int)
    requires
        supported(player_count),
        is_selection(good_draw, pool(false, player_count)),
        is_selection(evil_draw, pool(true, player_count)),
        good_draw.len() == good_count(player_count),
        evil_draw.len() == evil_count(player_count),
        lovers_agree(good_draw + evil_draw),
    ensures
        valid_role_set(good_draw + evil_draw, player_count),
{
    let roles = good_draw + evil_draw;
    let good_pool = pool(false, player_count);
    let evil_pool = pool(true, player_count);
    lemma_pool_distinct(false, player_count);
    lemma_pool_distinct(true, player_count);
    lemma_selection_distinct(good_draw, good_pool);
    lemma_selection_distinct(evil_draw, evil_pool);
    assert forall|i: int| 0 <= i < good_draw.len() implies !(#[trigger] good_draw[i]).is_evil()
        && may_appear(good_draw[i], player_count) by {
        lemma_filter_members(catalogue(), in_pool(false, player_count), good_draw[i]);
    }
    assert forall|i: int| 0 <= i < evil_draw.len() implies (#[trigger] evil_draw[i]).is_evil()
        && may_appear(evil_draw[i], player_count) by {
        lemma_filter_members(catalogue(), in_pool(true, player_count), evil_draw[i]);
    }
    lemma_no_dup_in_concat(good_draw, evil_draw);
    assert(evil_roles_in(roles) == evil_count(player_count)) by {
        Seq::filter_distributes_over_add(good_draw, evil_draw, is_evil_role());
        assert(good_draw.all(|role: Role| !is_evil_role()(role)));
        good_draw.lemma_all_neg_filter_empty(is_evil_role());
        assert(evil_draw.all(is_evil_role()));
        lemma_filter_keeps_all(evil_draw, is_evil_role());
    }
}

/// A set that may be dealt at a table of `player_count`, to show that there
/// is one.
pub open spec fn sample_table(player_count: int) -> Seq<Role>
    recommends
        supported(player_count),
{
    let evil = seq![Role::Mordred, Role::Morgana, Role::Maelagant, Role::Agravaine];
    if player_count == 5 {
        seq![Role::Merlin, Role::Percival, Role::Lancelot] + evil.take(2)
    } else if player_count == 6 {
        seq![Role::Merlin, Role::Percival, Role::Tristan, Role::Iseult] + evil.take(2)
    } else if player_count == 7 {
        seq![Role::Merlin, Role::Percival, Role::Lancelot, Role::Arthur] + evil.take(3)
    } else if player_count == 8 {
        seq![Role::Merlin, Role::Percival, Role::Lancelot, Role::Arthur, Role::Titania]
            + evil.take(3)
    } else {
        seq![
            Role::Merlin,
            Role::Percival,
            Role::Tristan,
            Role::Iseult,
            Role::Lancelot,
            Role::Arthur,
        ] + evil.take(player_count - 6)
    }
}

/// At every supported table size some set of roles may be dealt, so a draw
/// gives up by chance only, never by necessity.
pub proof fn lemma_every_table_can_be_dealt(player_count: int)
    requires
        supported(player_count),
    ensures
        valid_role_set(sample_table(player_count), player_count),
{
    let roles = sample_table(player_count);
    reveal_with_fuel(count_in_prefix, 11);
    roles.lemma_take_len();
    lemma_filter_len_counts(roles, is_evil_role(), roles.len());
    assert(roles[2] == Role::Tristan <==> roles[3] == Role::Iseult);
}

/// Membership of the good faction, as a predicate.
pub open spec fn is_good_role() -> spec_fn(Role) -> bool {
    |role: Role| !role.is_evil()
}

/// Every valid set is a rearrangement of a draw that is accepted: of the
/// table's number of good roles from the good pool, followed by its number
/// of evil roles from the evil pool, with the lovers together or absent. So
/// the valid sets are exactly what dealing can give.
pub proof fn lemma_valid_set_is_a_draw(roles: Seq<Role>, player_count: int)
    requires
        valid_role_set(roles, player_count),
    ensures
        ({
            let good_draw = roles.filter(is_good_role());
            let evil_draw = roles.filter(is_evil_role());
            &&& is_selection(good_draw, pool(false, player_count))
            &&& is_selection(evil_draw, pool(true, player_count))
            &&& good_draw.len() == good_count(player_count)
            &&& evil_draw.len() == evil_count(player_count)
            &&& lovers_agree(good_draw + evil_draw)
            &&& is_permutation(good_draw + evil_draw, roles)
        }),
{
    let good_draw = roles.filter(is_good_role());
    let evil_draw = roles.filter(is_evil_role());
    lemma_filter_len_partition(roles, is_evil_role(), is_good_role());
    lemma_partition_permutes(roles, is_evil_role(), is_good_role());
    lemma_permutation_contains(good_draw + evil_draw, roles, Role::Tristan);
    lemma_permutation_contains(good_draw + evil_draw, roles, Role::Iseult);
    lemma_catalogue_complete();
    lemma_filter_no_duplicates(roles, is_good_role());
    lemma_filter_no_duplicates(roles, is_evil_role());
    assert forall|i: int| 0 <= i < good_draw.len() implies pool(false, player_count).contains(
        #[trigger] good_draw[i],
    ) by {
        lemma_pool_holds_eligible(roles, is_good_role(), good_draw[i], player_count);
    }
    assert forall|i: int| 0 <= i < evil_draw.len() implies pool(true, player_count).contains(
        #[trigger] evil_draw[i],
    ) by {
        lemma_pool_holds_eligible(roles, is_evil_role(), evil_draw[i], player_count);
    }
    lemma_distinct_members_are_selection(good_draw, pool(false, player_count));
    lemma_distinct_members_are_selection(evil_draw, pool(true, player_count));
}

/// A role kept by a filter of a valid set stands in the pool of its faction.
proof fn lemma_pool_holds_eligible(
    roles: Seq<Role>,
    kept: spec_fn(Role) -> bool,
    role: Role,
    player_count: int,
)
    requires
        valid_role_set(roles, player_count),
        roles.filter(kept).contains(role),
    ensures
        pool(role.is_evil(), player_count).contains(role),
{
    lemma_filter_members(roles, kept, role);
    let at = choose|at: int| 0 <= at < roles.len() && roles[at] == role;
    assert(may_appear(roles[at], player_count));
    lemma_catalogue_complete();
    let listed = choose|listed: int| 0 <= listed < catalogue().len() && catalogue()[listed] == role;
    catalogue().lemma_filter_contains(in_pool(role.is_evil(), player_count), listed);
}

/// A valid set holds the table's number of good roles.
pub proof fn lemma_good_roles_in_valid_set(roles: Seq<Role>, player_count: int)
    requires
        valid_role_set(roles, player_count),
    ensures
        roles.filter(is_good_role()).len() == good_count(player_count),
{
    lemma_filter_len_partition(roles, is_evil_role(), is_good_role());
}

/// At the smallest table the roles that need a larger one are never dealt.
pub proof fn lemma_smallest_table_roles(roles: Seq<Role>)
    requires
        valid_role_set(roles, MIN_PLAYERS as int),
    ensures
        !roles.contains(Role::Arthur),
        !roles.contains(Role::Titania),
        !roles.contains(Role::Agravaine),
        !roles.contains(Role::Colgrevance),
{
}

/// Above the smallest table the role that is limited to it is never dealt.
pub proof fn lemma_larger_table_roles(roles: Seq<Role>, player_count: int)
    requires
        valid_role_set(roles, player_count),
        player_count > MIN_PLAYERS,
    ensures
        !roles.contains(Role::Nimue),
{
}

/// Rearranging a valid set leaves it valid.
pub proof fn lemma_valid_role_set_permutes(roles: Seq<Role>, dealt: Seq<Role>, player_count: int)
    requires
        valid_role_set(roles, player_count),
        is_permutation(roles, dealt),
    ensures
        valid_role_set(dealt, player_count),
{
    lemma_permutation_len(roles, dealt);
    lemma_permutation_no_duplicates(roles, dealt);
    lemma_permutation_filter_len(roles, dealt, is_evil_role());
    lemma_permutation_contains(roles, dealt, Role::Tristan);
    lemma_permutation_contains(roles, dealt, Role::Iseult);
    assert forall|i: int| 0 <= i < dealt.len() implies may_appear(
        #[trigger] dealt[i],
        player_count,
    ) by {
        lemma_permutation_contains(roles, dealt, dealt[i]);
        let at = choose|at: int| 0 <= at < roles.len() && roles[at] == dealt[i];
        assert(may_appear(roles[at], player_count));
    }
}

impl Game {
    /// The number of good and of evil roles at a table of `player_count`.
    pub fn get_counts(player_count: usize) -> (counts: Result<(usize, usize), Error>)
        ensures
            match counts {
                Ok((good, evil)) => {
                    &&& supported(player_count as int)
                    &&& good == good_count(player_count as int)
                    &&& evil == evil_count(player_count as int)
                    &&& good + evil == player_count
                },
                Err(error) => {
                    &&& !supported(player_count as int)
                    &&& error == Error::InvalidPlayerCount(player_count)
                },
            },
    {
        let res = match player_count {
            5 => (3, 2),
            6 => (4, 2),
            7 => (4, 3),
            8 => (5, 3),
            9 => (6, 3),
            10 => (6, 4),
            _ => return Err(Error::InvalidPlayerCount(player_count)),
        };
        Ok(res)
    }

    /// The evil and the good roles that may be dealt at a table of
    /// `player_count`, each in catalogue order.
    pub fn eligible_pools(player_count: usize) -> (pools: (Vec<Role>, Vec<Role>))
        ensures
            pools.0@ == pool(true, player_count as int),
            pools.1@ == pool(false, player_count as int),
    {
        let entries = Role::ENTRIES;
        let mut evil_roles: Vec<Role> = Vec::new();
        let mut good_roles: Vec<Role> = Vec::new();
        let mut next: usize = 0;
        while next < entries.len()
            invariant
                next <= entries.len(),
                entries@ == catalogue(),
                evil_roles@ == catalogue().take(next as int).filter(
                    in_pool(true, player_count as int),
                ),
                good_roles@ == catalogue().take(next as int).filter(
                    in_pool(false, player_count as int),
                ),
            decreases entries.len() - next,
        {
            let role = entries[next];
            proof {
                let seen = catalogue().take(next as int);
                catalogue().lemma_take_succ_push(next as int);
                seen.lemma_filter_push(role, in_pool(true, player_count as int));
                seen.lemma_filter_push(role, in_pool(false, player_count as int));
            }
            if role.available_range().contains(&player_count) {
                if role.is_evil() {
                    evil_roles.push(role);
                } else {
                    good_roles.push(role);
                }
            }
            next += 1;
        }
        proof {
            catalogue().lemma_take_len();
        }
        (evil_roles, good_roles)
    }

    /// Whether `wanted` is among `roles`.
    fn holds(roles: &Vec<Role>, wanted: Role) -> (found: bool)
        ensures
            found == roles@.contains(wanted),
    {
        let mut at: usize = 0;
        while at < roles.len()
            invariant
                at <= roles.len(),
                forall|i: int| 0 <= i < at ==> roles@[i] != wanted,
            decreases roles.len() - at,
        {
            if roles[at] == wanted {
                return true;
            }
            at += 1;
        }
        false
    }

    /// Whether `roles` keeps the lovers' rule.
    pub fn keeps_lovers_together(roles: &Vec<Role>) -> (kept: bool)
        ensures
            kept == lovers_agree(roles@),
    {
        !(Self::holds(roles, Role::Tristan) ^ Self::holds(roles, Role::Iseult))
    }

    /// Joins the two halves of a draw, good roles first, and accepts the
    /// result if it keeps the lovers' rule.
    pub fn accept_draw(good_draw: Vec<Role>, evil_draw: Vec<Role>) -> (accepted: Option<Vec<Role>>)
        ensures
            accepted is Some <==> lovers_agree(good_draw@ + evil_draw@),
            accepted matches Some(roles) ==> roles@ == good_draw@ + evil_draw@,
    {
        let mut roles = good_draw;
        let mut rest = evil_draw;
        roles.append(&mut rest);
        if Self::keeps_lovers_together(&roles) {
            Some(roles)
        } else {
            None
        }
    }

    /// Deals the roles for a table of `player_count`, drawing at most
    /// `max_attempts` times: each draw takes the table's number of good
    /// roles from the good pool and of evil roles from the evil pool, and the
    /// first draw that keeps the lovers' rule is shuffled and returned.
    ///
    /// Which draw comes up is left to chance, so for a supported size all
    /// that is promised is that a set that comes back is valid, and that
    /// giving up is the only failure.
    pub fn get_roles_within(player_count: usize, max_attempts: usize) -> (dealt: Result<
        Vec<Role>,
        Error,
    >)
        ensures
            match dealt {
                Ok(roles) => valid_role_set(roles@, player_count as int),
                Err(Error::InvalidPlayerCount(count)) => {
                    &&& !supported(player_count as int)
                    &&& count == player_count
                },
                Err(Error::UnsatisfiableConstraint) => supported(player_count as int),
            },
            max_attempts == 0 ==> dealt is Err,
    {
        let (good_needed, evil_needed) = Self::get_counts(player_count)?;
        let (evil_roles, good_roles) = Self::eligible_pools(player_count);
        let mut rng = thread_rng();
        let mut attempts: usize = 0;
        while attempts < max_attempts
            invariant
                supported(player_count as int),
                good_needed == good_count(player_count as int),
                evil_needed == evil_count(player_count as int),
                good_roles@ == pool(false, player_count as int),
                evil_roles@ == pool(true, player_count as int),
            decreases max_attempts - attempts,
        {
            let good_draw = choose_multiple(&mut rng, &good_roles, good_needed);
            let evil_draw = choose_multiple(&mut rng, &evil_roles, evil_needed);
            let ghost drawn = good_draw@ + evil_draw@;
            proof {
                lemma_pools_suffice(player_count as int);
                if lovers_agree(drawn) {
                    lemma_draw_is_valid(good_draw@, evil_draw@, player_count as int);
                }
            }
            if let Some(mut roles) = Self::accept_draw(good_draw, evil_draw) {
                shuffle(&mut rng, &mut roles);
                proof {
                    lemma_valid_role_set_permutes(drawn, roles@, player_count as int);
                }
                return Ok(roles);
            }
            attempts += 1;
        }
        Err(Error::UnsatisfiableConstraint)
    }

    /// Deals the roles for a table of `player_count`, giving up after
    /// `MAX_DRAW_ATTEMPTS` draws.
    pub fn get_roles(player_count: usize) -> (dealt: Result<Vec<Role>, Error>)
        ensures
            match dealt {
                Ok(roles) => valid_role_set(roles@, player_count as int),
                Err(Error::InvalidPlayerCount(count)) => {
                    &&& !supported(player_count as int)
                    &&& count == player_count
                },
                Err(Error::UnsatisfiableConstraint) => supported(player_count as int),
            },
    {
        Self::get_roles_within(player_count, MAX_DRAW_ATTEMPTS)
    }
}

} // verus!
