use vstd::prelude::*;
use rand_pcg::Lcg64Xsh32;
use crate::attack_types::{attack_at, attack_index, lemma_attack_at_roundtrip, lemma_attack_index_roundtrip, AttackType};
use crate::my_little_rpg_errors::{refused, MyError};
use crate::rng::choose_attack_type;
use crate::the_world::difficulty::Difficulty;
use crate::the_world::game::{after_payment, can_pay, cannot_pay_text, pay_crafting_cost, Game, GameView};
use crate::the_world::treasure_types::TreasureMap;

verus! {

/// What raising a minimum resistance gives back: the new difficulty, the cost
/// paid, the cost of the next raise and the treasure left.
#[derive(Clone, PartialEq, Eq, Debug)]
pub struct ExecuteExpandMinElementReport {
    pub new_difficulty: Difficulty,
    pub paid_cost: TreasureMap,
    pub new_cost: TreasureMap,
    pub leftover_spending_treasure: TreasureMap,
}

/// The cost of raising a minimum resistance of `d`: the average minimum
/// resistance, rounded down, in gold.
pub open spec fn expand_min_element_cost(d: Difficulty) -> TreasureMap {
    TreasureMap { gold: Some((d.min_resistance.spec_sum() / d.min_resistance.spec_len() as int) as u64) }
}

/// The minimum resistance of `t` can be raised by `diff` and stay below its maximum.
pub open spec fn upgradable(d: Difficulty, t: AttackType, diff: u64) -> bool {
    d.min_resistance.spec_get(t) is Some && d.min_resistance.spec_get(t)->0 + diff < d.max_resistance.spec_get(t)->0
}

/// The message when no minimum resistance can be raised.
pub open spec fn nothing_upgradable_text() -> Seq<char> {
    "There are no element minimum values that can be upgraded, consider expanding a max element value."@
}

/// What raising a minimum resistance costs: the average minimum resistance in gold.
pub fn execute_expand_min_element_calculate_cost(game: &Game) -> (r: TreasureMap)
    requires
        game.difficulty.min_resistance.spec_len() > 0,
        game.difficulty.min_resistance.spec_sum() <= u64::MAX,
    ensures
        r == expand_min_element_cost(game.difficulty),
{
    let sum = game.difficulty.min_resistance.sum();
    let len = game.difficulty.min_resistance.len();
    TreasureMap::gold(sum / (len as u64))
}

/// A random attack type among those whose minimum can be raised by `diff`, in
/// the canonical order each equally likely; `None` where there is none.
fn random_upgradable_attack_type(rng: &mut Lcg64Xsh32, d: &Difficulty, diff: u64) -> (r: Option<AttackType>)
    requires
        d.well_formed(),
    ensures
        r matches Some(t) ==> upgradable(*d, t, diff),
        r is None ==> forall|t: AttackType| !upgradable(*d, t, diff),
        r is None ==> *final(rng) == *old(rng),
{
    let mut candidates: Vec<AttackType> = Vec::new();
    let mut i: usize = 0;
    while i < 9
        invariant
            i <= 9,
            d.well_formed(),
            forall|k: int| 0 <= k < candidates@.len() ==> upgradable(*d, #[trigger] candidates@[k], diff),
            forall|j: int| 0 <= j < i ==> upgradable(*d, attack_at(j), diff) ==> candidates@.contains(attack_at(j)),
        decreases 9 - i,
    {
        let t = AttackType::from_index(i);
        proof {
            lemma_attack_at_roundtrip(i as int);
        }
        match (d.min_resistance.get(t), d.max_resistance.get(t)) {
            (Some(low), Some(high)) => {
                if low < high && diff < high - low {
                    let ghost before = candidates@;
                    candidates.push(t);
                    proof {
                        assert(candidates@[before.len() as int] == t);
                        assert forall|j: int| 0 <= j < i + 1 && upgradable(*d, attack_at(j), diff)
                            implies candidates@.contains(attack_at(j)) by {
                            if j < i {
                                let w = choose|w: int| 0 <= w < before.len() && before[w] == attack_at(j);
                                assert(candidates@[w] == attack_at(j));
                            }
                        }
                    }
                }
            },
            _ => {},
        }
        i = i + 1;
    }
    if candidates.len() == 0 {
        proof {
            assert forall|t: AttackType| !upgradable(*d, t, diff) by {
                lemma_attack_index_roundtrip(t);
                if upgradable(*d, t, diff) {
                    assert(candidates@.contains(attack_at(attack_index(t) as int)));
                }
            }
        }
        return None;
    }
    let t = choose_attack_type(rng, &candidates);
    proof {
        let k = choose|k: int| 0 <= k < candidates@.len() && candidates@[k] == t;
        assert(upgradable(*d, candidates@[k], diff));
    }
    Some(t)
}

/// Pays for and raises the minimum resistance of a random attack type by the
/// gold paid, choosing among those whose minimum stays below their maximum. A
/// cost that cannot be paid is refused and changes nothing. Where no minimum can
/// be raised the cost stays paid and the command is refused.
pub fn execute(game: &mut Game) -> (r: Result<ExecuteExpandMinElementReport, MyError>)
    requires
        old(game).difficulty.well_formed(),
        old(game).difficulty.max_resistance.spec_sum() <= u64::MAX,
    ensures
        ({
            let g = old(game).deep_view();
            let cost = expand_min_element_cost(g.difficulty);
            let diff = cost.gold->0;
            &&& !can_pay(g.treasure, cost) ==> refused(r, cannot_pay_text(cost, g.treasure))
                && final(game).deep_view() == g
            &&& can_pay(g.treasure, cost) && (forall|t: AttackType| !upgradable(g.difficulty, t, diff))
                ==> refused(r, nothing_upgradable_text())
                && final(game).deep_view() == (GameView { treasure: after_payment(g.treasure, cost), ..g })
            &&& can_pay(g.treasure, cost) && (exists|t: AttackType| upgradable(g.difficulty, t, diff)) ==> {
                let d = final(game).difficulty;
                &&& r is Ok
                &&& exists|t: AttackType| #[trigger] upgradable(g.difficulty, t, diff)
                    && d.min_resistance@ == g.difficulty.min_resistance@.update(
                        attack_index(t) as int,
                        Some((g.difficulty.min_resistance.spec_get(t)->0 + diff) as u64),
                    )
                &&& d.max_resistance == g.difficulty.max_resistance
                &&& d.max_simultaneous_resistances == g.difficulty.max_simultaneous_resistances
                &&& d.min_simultaneous_resistances == g.difficulty.min_simultaneous_resistances
                &&& d.well_formed()
                &&& final(game).deep_view() == (GameView {
                    difficulty: d,
                    treasure: after_payment(g.treasure, cost),
                    random_generator_state: final(game).random_generator_state,
                    ..g
                })
                &&& r->Ok_0.new_difficulty == d
                &&& r->Ok_0.paid_cost == cost
                &&& r->Ok_0.new_cost == expand_min_element_cost(d)
                &&& r->Ok_0.leftover_spending_treasure == after_payment(g.treasure, cost)
            }
        }),
{
    proof {
        crate::command::roll_modifier::lemma_difficulty_sums(game.difficulty);
        let t = game.difficulty.min_resistance.lemma_present_type();
        crate::the_world::game::lemma_len_positive(game.difficulty.min_resistance, t);
    }
    let crafting_cost = execute_expand_min_element_calculate_cost(game);
    match pay_crafting_cost(game, &crafting_cost) {
        Ok(()) => {},
        Err(e) => {
            return Err(e);
        },
    }
    let min_resistance_diff: u64 = match crafting_cost.gold {
        Some(v) => v,
        None => 0,
    };
    let ghost d0 = game.difficulty;
    let picked = random_upgradable_attack_type(&mut game.random_generator_state, &game.difficulty, min_resistance_diff);
    let attack_type = match picked {
        Some(t) => t,
        None => {
            proof {
                assert(game.random_generator_state == old(game).random_generator_state);
            }
            let m = String::from_str(
                "There are no element minimum values that can be upgraded, consider expanding a max element value.",
            );
            return Err(MyError::create_execute_command_error(m));
        },
    };
    let current = game.difficulty.min_resistance.get(attack_type).unwrap();
    game.difficulty.min_resistance.insert(attack_type, current + min_resistance_diff);
    proof {
        let d = game.difficulty;
        lemma_attack_index_roundtrip(attack_type);
        assert forall|t: AttackType| (#[trigger] d.max_resistance.spec_get(t) is Some) == (d.min_resistance.spec_get(t) is Some) by {
            crate::attack_types::lemma_attack_index_injective(t, attack_type);
        }
        assert forall|t: AttackType| #[trigger] d.min_resistance.spec_get(t) is Some
            implies d.min_resistance.spec_get(t)->0 <= d.max_resistance.spec_get(t)->0 by {
            crate::attack_types::lemma_attack_index_injective(t, attack_type);
        }
        crate::the_world::game::lemma_len_positive(d.min_resistance, attack_type);
        crate::command::roll_modifier::lemma_difficulty_sums(d);
    }
    let new_cost = execute_expand_min_element_calculate_cost(game);
    Ok(ExecuteExpandMinElementReport {
        new_difficulty: game.difficulty,
        paid_cost: crafting_cost,
        new_cost,
        leftover_spending_treasure: game.treasure,
    })
}

} // verus!
