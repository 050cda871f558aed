use vstd::prelude::*;
use crate::attack_types::{attack_index, AttackType};
use crate::my_little_rpg_errors::{refused, MyError};
use crate::the_world::difficulty::Difficulty;
use crate::the_world::game::{
    after_payment, can_pay, cannot_pay_text, get_random_attack_type_from_unlocked, pay_crafting_cost, Game,
    GameView,
};
use crate::the_world::treasure_types::TreasureMap;

verus! {

/// What raising a maximum resistance gives back: the new difficulty, the cost
/// paid, the cost of the next raise and the treasure left.
#[derive(Clone, PartialEq, Eq, Debug)]
pub struct ExecuteExpandMaxElementReport {
    pub new_difficulty: Difficulty,
    pub paid_cost: TreasureMap,
    pub new_cost: TreasureMap,
    pub leftover_spending_treasure: TreasureMap,
}

/// The cost of raising a maximum resistance of `d`: the average maximum
/// resistance, rounded down, in gold.
pub open spec fn expand_max_element_cost(d: Difficulty) -> TreasureMap {
    TreasureMap { gold: Some((d.max_resistance.spec_sum() / d.max_resistance.spec_len() as int) as u64) }
}

/// What raising a maximum resistance costs: the average maximum resistance in gold.
pub fn execute_expand_max_element_calculate_cost(game: &Game) -> (r: TreasureMap)
    requires
        game.difficulty.max_resistance.spec_len() > 0,
        game.difficulty.max_resistance.spec_sum() <= u64::MAX,
    ensures
        r == expand_max_element_cost(game.difficulty),
{
    let sum = game.difficulty.max_resistance.sum();
    let len = game.difficulty.max_resistance.len();
    TreasureMap::gold(sum / (len as u64))
}

/// Pays for and raises the maximum resistance of a random unlocked attack type
/// by the gold paid. A cost that cannot be paid is refused and changes nothing.
pub fn execute(game: &mut Game) -> (r: Result<ExecuteExpandMaxElementReport, MyError>)
    requires
        old(game).difficulty.well_formed(),
        old(game).difficulty.max_resistance.spec_sum() * 2 <= u64::MAX,
    ensures
        ({
            let g = old(game).deep_view();
            let cost = expand_max_element_cost(g.difficulty);
            &&& !can_pay(g.treasure, cost) ==> refused(r, cannot_pay_text(cost, g.treasure))
                && final(game).deep_view() == g
            &&& can_pay(g.treasure, cost) ==> {
                let d = final(game).difficulty;
                &&& r is Ok
                &&& exists|t: AttackType| #[trigger] g.difficulty.max_resistance.spec_get(t) is Some
                    && d.max_resistance@ == g.difficulty.max_resistance@.update(
                        attack_index(t) as int,
                        Some((g.difficulty.max_resistance.spec_get(t)->0 + cost.gold->0) as u64),
                    )
                &&& d.min_resistance == g.difficulty.min_resistance
                &&& d.max_simultaneous_resistances == g.difficulty.max_simultaneous_resistances
                &&& d.min_simultaneous_resistances == g.difficulty.min_simultaneous_resistances
                &&& d.well_formed()
                &&& final(game).deep_view() == (GameView {
                    difficulty: d,
                    treasure: after_payment(g.treasure, cost),
                    random_generator_state: final(game).random_generator_state,
                    ..g
                })
                &&& r->Ok_0.new_difficulty == d
                &&& r->Ok_0.paid_cost == cost
                &&& r->Ok_0.new_cost == expand_max_element_cost(d)
                &&& r->Ok_0.leftover_spending_treasure == after_payment(g.treasure, cost)
            }
        }),
{
    proof {
        crate::command::roll_modifier::lemma_difficulty_sums(game.difficulty);
        lemma_max_len_positive(game.difficulty);
    }
    let crafting_cost = execute_expand_max_element_calculate_cost(game);
    match pay_crafting_cost(game, &crafting_cost) {
        Ok(()) => {},
        Err(e) => {
            return Err(e);
        },
    }
    let max_resistance_diff: u64 = match crafting_cost.gold {
        Some(v) => v,
        None => 0,
    };
    let ghost d0 = game.difficulty;
    let attack_type = get_random_attack_type_from_unlocked(&mut game.random_generator_state, &game.difficulty.max_resistance);
    let current = game.difficulty.max_resistance.get(attack_type).unwrap();
    proof {
        lemma_average_at_most_sum(d0);
    }
    game.difficulty.max_resistance.insert(attack_type, current + max_resistance_diff);
    proof {
        let d = game.difficulty;
        crate::attack_types::lemma_attack_index_roundtrip(attack_type);
        assert forall|t: AttackType| (#[trigger] d.max_resistance.spec_get(t) is Some) == (d.min_resistance.spec_get(t) is Some) by {
            crate::attack_types::lemma_attack_index_injective(t, attack_type);
        }
        assert forall|t: AttackType| #[trigger] d.min_resistance.spec_get(t) is Some
            implies d.min_resistance.spec_get(t)->0 <= d.max_resistance.spec_get(t)->0 by {
            crate::attack_types::lemma_attack_index_injective(t, attack_type);
        }
        lemma_max_sum_bound(d0, d, attack_type);
        lemma_max_len_positive(d);
    }
    let new_cost = execute_expand_max_element_calculate_cost(game);
    Ok(ExecuteExpandMaxElementReport {
        new_difficulty: game.difficulty,
        paid_cost: crafting_cost,
        new_cost,
        leftover_spending_treasure: game.treasure,
    })
}

/// A well-formed difficulty has at least one maximum resistance.
pub proof fn lemma_max_len_positive(d: Difficulty)
    requires
        d.well_formed(),
    ensures
        d.max_resistance.spec_len() > 0,
{
    let t = d.min_resistance.lemma_present_type();
    assert(d.max_resistance.spec_get(t) is Some);
    crate::the_world::game::lemma_len_positive(d.max_resistance, t);
}

/// The average maximum resistance is at most their sum.
proof fn lemma_average_at_most_sum(d: Difficulty)
    requires
        d.max_resistance.spec_len() > 0,
    ensures
        d.max_resistance.spec_sum() / d.max_resistance.spec_len() as int <= d.max_resistance.spec_sum(),
{
    crate::attack_types::lemma_sum_some_monotone(d.max_resistance@, 0, 9);
    let s = d.max_resistance.spec_sum();
    let n = d.max_resistance.spec_len() as int;
    assert(s / n <= s) by (nonlinear_arith)
        requires
            s >= 0,
            n >= 1,
    ;
}

/// Raising one maximum by at most the sum keeps the sum within twice the old sum.
proof fn lemma_max_sum_bound(before: Difficulty, after: Difficulty, t: AttackType)
    requires
        after.max_resistance@ == before.max_resistance@.update(
            attack_index(t) as int,
            Some((before.max_resistance.spec_get(t)->0
                + before.max_resistance.spec_sum() / before.max_resistance.spec_len() as int) as u64),
        ),
        before.max_resistance.spec_get(t) is Some,
        before.max_resistance.spec_len() > 0,
        before.max_resistance.spec_sum() * 2 <= u64::MAX,
    ensures
        after.max_resistance.spec_sum() <= u64::MAX,
{
    crate::attack_types::lemma_attack_index_roundtrip(t);
    lemma_average_at_most_sum(before);
    let avg = before.max_resistance.spec_sum() / before.max_resistance.spec_len() as int;
    crate::command::roll_modifier::lemma_value_le_sum(before.max_resistance@, 9, attack_index(t) as int);
    crate::attack_types::lemma_sum_some_update(
        before.max_resistance@,
        9,
        attack_index(t) as int,
        (before.max_resistance.spec_get(t)->0 + avg) as u64,
    );
}

} // verus!
