use vstd::prelude::*;
use crate::attack_types::{attack_at, attack_index, AttackType};
use crate::my_little_rpg_errors::{refused, MyError};
use crate::the_world::difficulty::Difficulty;
use crate::the_world::game::{after_payment, can_pay, cannot_pay_text, pay_crafting_cost, Game, GameView};
use crate::the_world::treasure_types::TreasureMap;

verus! {

/// What expanding the elements gives back: the attack type unlocked, the cost
/// paid, the cost of the next expansion and the treasure left.
#[derive(Clone, PartialEq, Eq, Debug)]
pub struct ExecuteExpandElementsReport {
    pub new_element_type: AttackType,
    pub paid_cost: TreasureMap,
    pub new_cost: TreasureMap,
    pub leftover_spending_treasure: TreasureMap,
}

/// The cost of one more element with `elements` elements: ten gold per element.
pub open spec fn expand_elements_cost(elements: nat) -> TreasureMap {
    TreasureMap { gold: Some((elements * 10) as u64) }
}

/// `after` is `before` with attack type `t` resisting from 1 to 2.
pub open spec fn element_added(before: Difficulty, after: Difficulty, t: AttackType) -> bool {
    &&& after.max_resistance@ == before.max_resistance@.update(attack_index(t) as int, Some(2u64))
    &&& after.min_resistance@ == before.min_resistance@.update(attack_index(t) as int, Some(1u64))
    &&& after.max_simultaneous_resistances == before.max_simultaneous_resistances
    &&& after.min_simultaneous_resistances == before.min_simultaneous_resistances
}

/// What one more element costs: ten gold per element of the maximum resistances.
pub fn execute_expand_elements_calculate_cost(game: &Game) -> (r: TreasureMap)
    ensures
        r == expand_elements_cost(game.difficulty.max_resistance.spec_len()),
{
    TreasureMap::gold((game.difficulty.max_resistance.len() * 10) as u64)
}

/// Pays for and unlocks the attack type whose position in the canonical order
/// is the number of elements, resisting from 1 to 2. With every element unlocked
/// it is refused; so is a cost that cannot be paid. A refusal changes nothing.
pub fn execute(game: &mut Game) -> (r: Result<ExecuteExpandElementsReport, MyError>)
    ensures
        ({
            let g = old(game).deep_view();
            let n = g.difficulty.max_resistance.spec_len();
            let cost = expand_elements_cost(n);
            &&& n >= 9 ==> refused(r, "Already at maximum elements."@) && final(game).deep_view() == g
            &&& n < 9 && !can_pay(g.treasure, cost) ==> refused(r, cannot_pay_text(cost, g.treasure))
                && final(game).deep_view() == g
            &&& n < 9 && can_pay(g.treasure, cost) ==> {
                let d = final(game).difficulty;
                &&& r is Ok
                &&& element_added(g.difficulty, d, attack_at(n as int))
                &&& g.difficulty.well_formed() ==> d.well_formed()
                &&& final(game).deep_view() == (GameView {
                    difficulty: d,
                    treasure: after_payment(g.treasure, cost),
                    ..g
                })
                &&& r->Ok_0.new_element_type == attack_at(n as int)
                &&& r->Ok_0.paid_cost == cost
                &&& r->Ok_0.new_cost == expand_elements_cost(d.max_resistance.spec_len())
                &&& r->Ok_0.leftover_spending_treasure == after_payment(g.treasure, cost)
            }
        }),
{
    let difficulty_max_resistance_number = game.difficulty.max_resistance.len();
    let all = AttackType::get_all();
    if difficulty_max_resistance_number >= all.len() {
        let m = String::from_str("Already at maximum elements.");
        return Err(MyError::create_execute_command_error(m));
    }
    let crafting_cost = execute_expand_elements_calculate_cost(game);
    match pay_crafting_cost(game, &crafting_cost) {
        Ok(()) => {},
        Err(e) => {
            return Err(e);
        },
    }
    let new_element = all[difficulty_max_resistance_number];
    game.difficulty.max_resistance.insert(new_element, 2);
    game.difficulty.min_resistance.insert(new_element, 1);
    proof {
        let d0 = old(game).difficulty;
        let d = game.difficulty;
        if d0.well_formed() {
            assert forall|t: AttackType| (#[trigger] d.max_resistance.spec_get(t) is Some) == (d.min_resistance.spec_get(t) is Some) by {
                crate::attack_types::lemma_attack_index_injective(t, new_element);
                assert((d0.max_resistance.spec_get(t) is Some) == (d0.min_resistance.spec_get(t) is Some));
            }
            assert forall|t: AttackType| #[trigger] d.min_resistance.spec_get(t) is Some
                implies d.min_resistance.spec_get(t)->0 <= d.max_resistance.spec_get(t)->0 by {
                crate::attack_types::lemma_attack_index_injective(t, new_element);
                assert((d0.max_resistance.spec_get(t) is Some) == (d0.min_resistance.spec_get(t) is Some));
                if t != new_element {
                    assert(d0.min_resistance.spec_get(t)->0 <= d0.max_resistance.spec_get(t)->0);
                }
            }
            crate::attack_types::lemma_attack_index_roundtrip(new_element);
            crate::the_world::game::lemma_len_positive(d.min_resistance, new_element);
        }
    }
    let new_cost = execute_expand_elements_calculate_cost(game);
    Ok(ExecuteExpandElementsReport {
        new_element_type: new_element,
        paid_cost: crafting_cost,
        new_cost,
        leftover_spending_treasure: game.treasure,
    })
}


/// Each element the maximum resistances hold makes the next one ten gold
/// dearer, starting from nothing.
pub proof fn lemma_expand_elements_cost_grows(elements: nat)
    requires
        (elements + 1) * 10 <= u64::MAX,
    ensures
        expand_elements_cost(0).gold == Some(0u64),
        expand_elements_cost(elements + 1).gold->0 == expand_elements_cost(elements).gold->0 + 10,
{
}

} // verus!
