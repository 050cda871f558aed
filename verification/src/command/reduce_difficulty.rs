use vstd::prelude::*;
use crate::attack_types::{attack_at, attack_index, AttackType};
use crate::generator::place::{generated_place, new as new_place};
use crate::my_little_rpg_errors::MyError;
use crate::rng::replace_random_place;
use crate::the_world::difficulty::Difficulty;
use crate::the_world::game::{get_random_attack_type_from_unlocked, Game, GameView};
use crate::the_world::treasure_types::TreasureMap;

verus! {

/// What reducing the difficulty gives back: the new difficulty, its cost (none)
/// and the treasure.
#[derive(Clone, PartialEq, Eq, Debug)]
pub struct Report {
    pub new_difficulty: Difficulty,
    pub paid_cost: TreasureMap,
    pub new_cost: TreasureMap,
    pub leftover_spending_treasure: TreasureMap,
}

/// `after` is `before` reduced on attack type `t`. With `m` the minimum of `t`
/// and `h` half of it: where `h` is below 4 and more than one element is
/// unlocked, `t` is removed and the simultaneous maximum, then minimum, are
/// capped by what is left; otherwise the maximum of `t` becomes `h`, at least 2,
/// and its minimum half of that, at least 1 and at most `m`.
pub open spec fn reduction(before: Difficulty, after: Difficulty, t: AttackType) -> bool {
    let i = attack_index(t) as int;
    let m = before.min_resistance.spec_get(t)->0;
    let h = m / 2;
    if h < 4 && before.max_resistance.spec_len() > 1 {
        &&& after.max_resistance@ == before.max_resistance@.update(i, None)
        &&& after.min_resistance@ == before.min_resistance@.update(i, None)
        &&& after.max_simultaneous_resistances == if before.max_simultaneous_resistances
            > after.max_resistance.spec_len() {
            after.max_resistance.spec_len() as u8
        } else {
            before.max_simultaneous_resistances
        }
        &&& after.min_simultaneous_resistances == if before.min_simultaneous_resistances
            > after.max_simultaneous_resistances {
            after.max_simultaneous_resistances
        } else {
            before.min_simultaneous_resistances
        }
    } else {
        let new_max: u64 = if h < 2 { 2 } else { h };
        let half = if h / 2 < 1 { 1 } else { h / 2 };
        let new_min: u64 = if half < m { half } else { m };
        &&& after.max_resistance@ == before.max_resistance@.update(i, Some(new_max))
        &&& after.min_resistance@ == before.min_resistance@.update(i, Some(new_min))
        &&& after.max_simultaneous_resistances == before.max_simultaneous_resistances
        &&& after.min_simultaneous_resistances == before.min_simultaneous_resistances
    }
}

/// Reducing the difficulty costs nothing: zero gold.
pub fn execute_execute_reduce_difficulty_cost() -> (r: TreasureMap)
    ensures
        r == (TreasureMap { gold: Some(0) }),
{
    TreasureMap::gold(0)
}

/// Reduces the difficulty on a random unlocked attack type (see `reduction`),
/// then replaces a random place with one rolled from the new difficulty.
pub fn execute(game: &mut Game) -> (r: Result<Report, MyError>)
    requires
        old(game).difficulty.well_formed(),
        old(game).places@.len() > 0,
    ensures
        ({
            let g = old(game).deep_view();
            let d = final(game).difficulty;
            &&& r is Ok
            &&& exists|t: AttackType| #[trigger] g.difficulty.min_resistance.spec_get(t) is Some
                && reduction(g.difficulty, d, t)
            &&& d.well_formed()
            &&& exists|i: int| 0 <= i < g.places.len() && generated_place(#[trigger] final(game).places@[i], d)
                && final(game).places@ == g.places.update(i, final(game).places@[i])
            &&& final(game).deep_view() == (GameView {
                places: final(game).places@,
                difficulty: d,
                random_generator_state: final(game).random_generator_state,
                ..g
            })
            &&& r->Ok_0.new_difficulty == d
            &&& r->Ok_0.paid_cost == (TreasureMap { gold: Some(0) })
            &&& r->Ok_0.new_cost == (TreasureMap { gold: Some(0) })
            &&& r->Ok_0.leftover_spending_treasure == g.treasure
        }),
{
    let ghost d0 = game.difficulty;
    let attack_type = get_random_attack_type_from_unlocked(&mut game.random_generator_state, &game.difficulty.min_resistance);
    let minimum = game.difficulty.min_resistance.get(attack_type).unwrap();
    let new_max_value = minimum / 2;
    let elements = game.difficulty.max_resistance.len();
    proof {
        crate::attack_types::lemma_attack_index_roundtrip(attack_type);
    }
    if new_max_value < 4 && elements > 1 {
        game.difficulty.max_resistance.remove(attack_type);
        game.difficulty.min_resistance.remove(attack_type);
        let remaining = game.difficulty.max_resistance.len();
        if (game.difficulty.max_simultaneous_resistances as usize) > remaining {
            game.difficulty.max_simultaneous_resistances = remaining as u8;
        }
        if game.difficulty.min_simultaneous_resistances > game.difficulty.max_simultaneous_resistances {
            game.difficulty.min_simultaneous_resistances = game.difficulty.max_simultaneous_resistances;
        }
        proof {
            let d = game.difficulty;
            lemma_removal_well_formed(d0, d, attack_type);
        }
    } else {
        let new_max = if new_max_value < 2 { 2 } else { new_max_value };
        let half = if new_max_value / 2 < 1 { 1 } else { new_max_value / 2 };
        let new_min = if half < minimum { half } else { minimum };
        game.difficulty.max_resistance.insert(attack_type, new_max);
        game.difficulty.min_resistance.insert(attack_type, new_min);
        proof {
            let d = game.difficulty;
            assert forall|t: AttackType| (#[trigger] d.max_resistance.spec_get(t) is Some) == (d.min_resistance.spec_get(t) is Some) by {
                crate::attack_types::lemma_attack_index_injective(t, attack_type);
                assert((d0.max_resistance.spec_get(t) is Some) == (d0.min_resistance.spec_get(t) is Some));
            }
            assert forall|t: AttackType| #[trigger] d.min_resistance.spec_get(t) is Some
                implies d.min_resistance.spec_get(t)->0 <= d.max_resistance.spec_get(t)->0 by {
                crate::attack_types::lemma_attack_index_injective(t, attack_type);
                assert((d0.max_resistance.spec_get(t) is Some) == (d0.min_resistance.spec_get(t) is Some));
                if t != attack_type {
                    assert(d0.min_resistance.spec_get(t)->0 <= d0.max_resistance.spec_get(t)->0);
                }
            }
            crate::the_world::game::lemma_len_positive(d.min_resistance, attack_type);
        }
    }
    let ghost d1 = game.difficulty;
    assert(reduction(d0, d1, attack_type));
    let place = new_place(game);
    let ghost places_before = game.places@;
    replace_random_place(&mut game.random_generator_state, &mut game.places, place);
    proof {
        let i = choose|i: int| 0 <= i < places_before.len() && game.places@ == places_before.update(i, place);
        assert(game.places@[i] == place);
        assert(generated_place(game.places@[i], game.difficulty));
        assert(d0.min_resistance.spec_get(attack_type) is Some && reduction(d0, game.difficulty, attack_type));
        assert(old(game).deep_view().difficulty == d0);
        assert(old(game).deep_view().difficulty.min_resistance.spec_get(attack_type) is Some);
    }
    Ok(Report {
        new_difficulty: game.difficulty,
        paid_cost: execute_execute_reduce_difficulty_cost(),
        new_cost: execute_execute_reduce_difficulty_cost(),
        leftover_spending_treasure: game.treasure,
    })
}

/// Removing an attack type from a well-formed difficulty with more than one
/// element leaves it well formed.
proof fn lemma_removal_well_formed(before: Difficulty, after: Difficulty, t: AttackType)
    requires
        before.well_formed(),
        before.max_resistance.spec_len() > 1,
        after.max_resistance@ == before.max_resistance@.update(attack_index(t) as int, None),
        after.min_resistance@ == before.min_resistance@.update(attack_index(t) as int, None),
    ensures
        after.well_formed(),
{
    crate::attack_types::lemma_attack_index_roundtrip(t);
    assert forall|u: AttackType| (#[trigger] after.max_resistance.spec_get(u) is Some) == (after.min_resistance.spec_get(u) is Some) by {
        crate::attack_types::lemma_attack_index_injective(u, t);
        assert((before.max_resistance.spec_get(u) is Some) == (before.min_resistance.spec_get(u) is Some));
    }
    assert forall|u: AttackType| #[trigger] after.min_resistance.spec_get(u) is Some
        implies after.min_resistance.spec_get(u)->0 <= after.max_resistance.spec_get(u)->0 by {
        crate::attack_types::lemma_attack_index_injective(u, t);
        assert((before.max_resistance.spec_get(u) is Some) == (before.min_resistance.spec_get(u) is Some));
        assert(before.min_resistance.spec_get(u)->0 <= before.max_resistance.spec_get(u)->0);
    }
    let u = lemma_other_present(before.max_resistance, t);
    crate::attack_types::lemma_attack_index_injective(u, t);
    assert(after.max_resistance.spec_get(u) is Some);
    assert(after.min_resistance.spec_get(u) is Some);
    crate::the_world::game::lemma_len_positive(after.min_resistance, u);
}

/// A map with more than one attack type present has one other than `t`.
proof fn lemma_other_present(m: crate::attack_types::DamageMap, t: AttackType) -> (u: AttackType)
    requires
        m.spec_len() > 1,
    ensures
        m.spec_get(u) is Some,
        u != t,
{
    crate::attack_types::lemma_attack_index_roundtrip(t);
    let i = attack_index(t) as int;
    let cleared = m@.update(i, None);
    crate::attack_types::lemma_count_some_clear(m@, 9, i);
    let j = crate::attack_types::lemma_count_some_witness(cleared, 9);
    crate::attack_types::lemma_attack_at_roundtrip(j);
    attack_at(j)
}


/// Reducing the difficulty on attack type `t` touches only `t`: every other
/// attack type keeps its bounds; the minimum of `t` does not rise (it is gone
/// where `t` is removed); its maximum becomes at most its old maximum (or 2);
/// and neither number of simultaneous elements rises.
pub proof fn lemma_reduction_only_lowers(before: Difficulty, after: Difficulty, t: AttackType)
    requires
        before.well_formed(),
        before.min_resistance.spec_get(t) is Some,
        reduction(before, after, t),
    ensures
        forall|u: AttackType| u != t ==> #[trigger] after.min_resistance.spec_get(u) == before.min_resistance.spec_get(u)
            && after.max_resistance.spec_get(u) == before.max_resistance.spec_get(u),
        after.min_resistance.spec_get(t) is Some ==> after.min_resistance.spec_get(t)->0
            <= before.min_resistance.spec_get(t)->0,
        after.max_resistance.spec_get(t) is Some ==> after.max_resistance.spec_get(t)->0
            <= (if before.max_resistance.spec_get(t)->0 < 2 { 2 } else { before.max_resistance.spec_get(t)->0 }),
        after.max_simultaneous_resistances <= before.max_simultaneous_resistances,
        after.min_simultaneous_resistances <= before.min_simultaneous_resistances,
{
    assert forall|u: AttackType| u != t implies #[trigger] after.min_resistance.spec_get(u) == before.min_resistance.spec_get(u)
        && after.max_resistance.spec_get(u) == before.max_resistance.spec_get(u) by {
        crate::attack_types::lemma_attack_index_injective(u, t);
        crate::attack_types::lemma_attack_index_roundtrip(u);
    }
    crate::attack_types::lemma_attack_index_roundtrip(t);
    assert(before.min_resistance.spec_get(t)->0 <= before.max_resistance.spec_get(t)->0);
}

} // verus!
