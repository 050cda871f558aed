use vstd::prelude::*;
use crate::attack_types::{attack_index, AttackType, DamageMap};
use crate::rng::gen_range_inclusive_u64;
use crate::the_world::difficulty::Difficulty;
use crate::the_world::game::{get_random_attack_type_from_unlocked, Game, GameView};
use crate::the_world::place::Place;
use crate::the_world::treasure_types::TreasureMap;

verus! {

/// The most resistance rolls a place of `d` gets: the simultaneous maximum,
/// capped by the number of unlocked attack types, and at least one.
pub open spec fn most_rolls(d: Difficulty) -> int {
    let high = if d.max_simultaneous_resistances < d.min_resistance.spec_len() {
        d.max_simultaneous_resistances as int
    } else {
        d.min_resistance.spec_len() as int
    };
    if high < 1 {
        1
    } else {
        high
    }
}

/// The fewest resistance rolls a place of `d` gets: the simultaneous minimum,
/// capped by the number of unlocked attack types and by the most rolls, and at
/// least one.
pub open spec fn fewest_rolls(d: Difficulty) -> int {
    let low = if d.min_simultaneous_resistances < d.min_resistance.spec_len() {
        d.min_simultaneous_resistances as int
    } else {
        d.min_resistance.spec_len() as int
    };
    let capped = if low < most_rolls(d) {
        low
    } else {
        most_rolls(d)
    };
    if capped < 1 {
        1
    } else {
        capped
    }
}

/// `ts` and `vs` are the rolls of a place of `d`: as many attack types as
/// values, between the fewest and the most rolls, each attack type unlocked in
/// `d` and each value within the bounds that `d` gives its attack type.
pub open spec fn place_rolls(ts: Seq<AttackType>, vs: Seq<u64>, d: Difficulty) -> bool {
    &&& ts.len() == vs.len()
    &&& fewest_rolls(d) <= ts.len() <= most_rolls(d)
    &&& forall|i: int| 0 <= i < ts.len() ==> {
        &&& (#[trigger] d.min_resistance.spec_get(ts[i])) is Some
        &&& d.min_resistance.spec_get(ts[i])->0 <= vs[i]
        &&& vs[i] <= d.max_resistance.spec_get(ts[i])->0
    }
}

/// The resistance that the rolls `ts`, `vs` leave: each roll sets its attack
/// type's resistance, a later roll of a type replacing an earlier one.
pub open spec fn rolled_resistance(ts: Seq<AttackType>, vs: Seq<u64>) -> Seq<Option<u64>>
    decreases ts.len(),
{
    if ts.len() == 0 {
        Seq::new(9, |i: int| None::<u64>)
    } else {
        rolled_resistance(ts.drop_last(), vs).update(attack_index(ts.last()) as int, Some(vs[ts.len() - 1]))
    }
}

/// The gold that the rolls `ts`, `vs` reward under `d`: each adds its value and
/// its attack type's maximum, saturating at `u64::MAX`.
pub open spec fn rolled_gold(ts: Seq<AttackType>, vs: Seq<u64>, d: Difficulty) -> u64
    decreases ts.len(),
{
    if ts.len() == 0 {
        0
    } else {
        let sum = rolled_gold(ts.drop_last(), vs, d) + vs[ts.len() - 1]
            + d.max_resistance.spec_get(ts.last())->0;
        if sum > u64::MAX {
            u64::MAX
        } else {
            sum as u64
        }
    }
}

/// `p` could have been rolled from `d`: it rewards an item rolled within `d`,
/// it resists at least one attack type, every resistance lies within the bounds
/// that `d` gives that attack type, and its resistance and gold reward are those
/// of some rolls of a place of `d`.
pub open spec fn generated_place(p: Place, d: Difficulty) -> bool {
    &&& p.item_reward_possible_rolls == d
    &&& p.resistance.spec_len() > 0
    &&& forall|t|
        #[trigger] p.resistance.spec_get(t) is Some ==> {
            &&& d.min_resistance.spec_get(t) is Some
            &&& d.min_resistance.spec_get(t)->0 <= p.resistance.spec_get(t)->0
            &&& p.resistance.spec_get(t)->0 <= d.max_resistance.spec_get(t)->0
        }
    &&& p.reward.gold is Some
    &&& exists|ts: Seq<AttackType>, vs: Seq<u64>| #![trigger place_rolls(ts, vs, d)]
        place_rolls(ts, vs, d) && p.resistance@ == rolled_resistance(ts, vs)
            && p.reward.gold == Some(rolled_gold(ts, vs, d))
}

/// Rolls a new place from the game's difficulty. The number of resistance rolls
/// lies between the simultaneous minimum and maximum, both capped by the number
/// of unlocked attack types (and is at least one); each roll picks a random
/// unlocked attack type and a value within its bounds. The gold reward is the
/// sum, over the rolls, of the rolled value and the attack type's maximum.
pub fn new(game: &mut Game) -> (r: Place)
    requires
        old(game).difficulty.well_formed(),
    ensures
        generated_place(r, old(game).difficulty),
        final(game).deep_view() == (GameView {
            random_generator_state: final(game).random_generator_state,
            ..old(game).deep_view()
        }),
{
    let difficulty = game.difficulty;
    let unlocked = difficulty.min_resistance.len();
    let min_sim = difficulty.min_simultaneous_resistances as usize;
    let max_sim = difficulty.max_simultaneous_resistances as usize;
    let high = if max_sim < unlocked { max_sim } else { unlocked };
    let low0 = if min_sim < unlocked { min_sim } else { unlocked };
    let low = if low0 < high { low0 } else { high };
    let rolled = gen_range_inclusive_u64(&mut game.random_generator_state, low as u64, high as u64);
    let rolls: u64 = if rolled == 0 { 1 } else { rolled };

    let mut resistance = DamageMap::new();
    let mut gold: u64 = 0;
    let ghost mut ts: Seq<AttackType> = Seq::empty();
    let ghost mut vs: Seq<u64> = Seq::empty();
    proof {
        assert(resistance@ =~= rolled_resistance(ts, vs));
    }
    let mut i: u64 = 0;
    while i < rolls
        invariant
            ts.len() == i,
            vs.len() == i,
            resistance@ == rolled_resistance(ts, vs),
            gold == rolled_gold(ts, vs, difficulty),
            forall|k: int| 0 <= k < ts.len() ==> {
                &&& (#[trigger] difficulty.min_resistance.spec_get(ts[k])) is Some
                &&& difficulty.min_resistance.spec_get(ts[k])->0 <= vs[k]
                &&& vs[k] <= difficulty.max_resistance.spec_get(ts[k])->0
            },
            game.difficulty == difficulty,
            difficulty.well_formed(),
            i <= rolls,
            rolls >= 1,
            i > 0 ==> resistance.spec_len() > 0,
            forall|t|
                #[trigger] resistance.spec_get(t) is Some ==> {
                    &&& difficulty.min_resistance.spec_get(t) is Some
                    &&& difficulty.min_resistance.spec_get(t)->0 <= resistance.spec_get(t)->0
                    &&& resistance.spec_get(t)->0 <= difficulty.max_resistance.spec_get(t)->0
                },
            game.deep_view() == (GameView {
                random_generator_state: game.random_generator_state,
                ..old(game).deep_view()
            }),
        decreases rolls - i,
    {
        let t = get_random_attack_type_from_unlocked(
            &mut game.random_generator_state,
            &difficulty.min_resistance,
        );
        let low_value = difficulty.min_resistance.get(t).unwrap();
        let high_value = difficulty.max_resistance.get(t).unwrap();
        let value = gen_range_inclusive_u64(&mut game.random_generator_state, low_value, high_value);
        let ghost prev = resistance;
        resistance.insert(t, value);
        gold = gold.saturating_add(value).saturating_add(high_value);
        proof {
            let ts_before = ts;
            let vs_before = vs;
            ts = ts.push(t);
            vs = vs.push(value);
            assert(ts.drop_last() =~= ts_before);
            lemma_rolled_resistance_values(ts_before, vs_before, vs);
            lemma_rolled_gold_values(ts_before, vs_before, vs, difficulty);
            assert forall|k: int| 0 <= k < ts.len() implies {
                &&& (#[trigger] difficulty.min_resistance.spec_get(ts[k])) is Some
                &&& difficulty.min_resistance.spec_get(ts[k])->0 <= vs[k]
                &&& vs[k] <= difficulty.max_resistance.spec_get(ts[k])->0
            } by {
                if k < ts_before.len() {
                    assert(ts[k] == ts_before[k]);
                    assert(vs[k] == vs_before[k]);
                }
            }
            assert(resistance.spec_get(t) is Some);
            assert forall|u|
                #[trigger] resistance.spec_get(u) is Some implies {
                    &&& difficulty.min_resistance.spec_get(u) is Some
                    &&& difficulty.min_resistance.spec_get(u)->0 <= resistance.spec_get(u)->0
                    &&& resistance.spec_get(u)->0 <= difficulty.max_resistance.spec_get(u)->0
                } by {
                crate::attack_types::lemma_attack_index_injective(u, t);
                if u != t {
                    assert(prev.spec_get(u) == resistance.spec_get(u));
                }
            }
            crate::the_world::game::lemma_len_positive(resistance, t);
        }
        i = i + 1;
    }
    let r = Place { resistance, reward: TreasureMap::gold(gold), item_reward_possible_rolls: difficulty };
    assert(place_rolls(ts, vs, difficulty));
    r
}

/// The resistance of some rolls depends only on their own values.
proof fn lemma_rolled_resistance_values(ts: Seq<AttackType>, v1: Seq<u64>, v2: Seq<u64>)
    requires
        v1.len() >= ts.len(),
        v2.len() >= ts.len(),
        forall|i: int| 0 <= i < ts.len() ==> v1[i] == v2[i],
    ensures
        rolled_resistance(ts, v1) == rolled_resistance(ts, v2),
    decreases ts.len(),
{
    if ts.len() > 0 {
        lemma_rolled_resistance_values(ts.drop_last(), v1, v2);
    }
}

/// The gold of some rolls depends only on their own values.
proof fn lemma_rolled_gold_values(ts: Seq<AttackType>, v1: Seq<u64>, v2: Seq<u64>, d: Difficulty)
    requires
        v1.len() >= ts.len(),
        v2.len() >= ts.len(),
        forall|i: int| 0 <= i < ts.len() ==> v1[i] == v2[i],
    ensures
        rolled_gold(ts, v1, d) == rolled_gold(ts, v2, d),
    decreases ts.len(),
{
    if ts.len() > 0 {
        lemma_rolled_gold_values(ts.drop_last(), v1, v2, d);
    }
}

} // verus!
