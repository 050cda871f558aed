use vstd::prelude::*;
use rand_pcg::Lcg64Xsh32;
use crate::attack_types::{
    attack_at, attack_index, lemma_attack_at_roundtrip, lemma_attack_index_roundtrip,
    lemma_count_some_bound, lemma_sum_some_monotone, sum_some, AttackType,
};
use crate::rng::{gen_range_i32, gen_range_inclusive_u64, gen_range_u64, gen_range_u8, gen_range_usize};
use crate::the_world::difficulty::Difficulty;
use crate::the_world::game::{get_random_attack_type_from_unlocked, present_attack_types, present_types};
use crate::the_world::item::{gain_options, Cost, CostSpec, CraftingInfo, Gain, Modifier, ModifierSpec};
use crate::the_world::item_resource::Type;
use crate::the_world::treasure_types::TreasureType;

verus! {

/// The largest modulus that a place requirement can roll when there are
/// `places_count` places: one below the place count, at least 2 and at most 254.
pub open spec fn modulus_cap(places_count: usize) -> int {
    if places_count < 3 {
        2
    } else if places_count < 255 {
        places_count - 1
    } else {
        254
    }
}

/// The largest value that one rolled cost can add to the budget under `info`:
/// the sum of the maximum resistances, the place count times the largest
/// modulus, or 255 for wins in a row, whichever is largest.
pub open spec fn largest_cost_value(info: CraftingInfo) -> int {
    let sum = info.possible_rolls.max_resistance.spec_sum();
    let places = info.places_count * modulus_cap(info.places_count);
    let larger = if sum < places {
        places
    } else {
        sum
    };
    if larger < 255 {
        255
    } else {
        larger
    }
}

/// The largest budget that the costs of one modifier can add up to under
/// `info`: no cost is rolled once the budget reaches `max_budget(info)`, so it
/// stays below that plus the largest value of one cost.
pub open spec fn budget_bound(info: CraftingInfo) -> int {
    if max_budget(info) == 0 {
        0
    } else {
        max_budget(info) - 1 + largest_cost_value(info)
    }
}

/// What crafting needs of `info`: well-formed rolls, a simultaneous maximum of
/// at least one and below 255 (the number of costs is drawn below it plus one,
/// a `u8`), the place count times the largest modulus within `usize`, and twice
/// the largest budget within `u64` (a gain's amount is drawn from twice its
/// share of the budget).
pub open spec fn craftable(info: CraftingInfo) -> bool {
    &&& info.possible_rolls.well_formed()
    &&& 1 <= info.possible_rolls.max_simultaneous_resistances < 255
    &&& info.places_count * modulus_cap(info.places_count) <= usize::MAX
    &&& 2 * budget_bound(info) <= u64::MAX
}

/// Under `craftable`, the budget lies below the resistance sum, which fits in
/// `u64`; a positive budget's bound covers the largest value of one cost; and
/// twice the place count fits in `usize`.
proof fn lemma_craftable_bounds(info: CraftingInfo)
    requires
        craftable(info),
    ensures
        0 <= max_budget(info) <= info.possible_rolls.max_resistance.spec_sum(),
        info.possible_rolls.max_resistance.spec_sum() <= u64::MAX,
        max_budget(info) > 0 ==> budget_bound(info) == max_budget(info) - 1 + largest_cost_value(info),
        largest_cost_value(info) >= info.possible_rolls.max_resistance.spec_sum(),
        largest_cost_value(info) >= info.places_count * modulus_cap(info.places_count),
        largest_cost_value(info) >= 255,
        info.places_count * 2 <= usize::MAX,
{
    let s = info.possible_rolls.max_resistance.spec_sum();
    let sim = info.possible_rolls.max_simultaneous_resistances as int;
    lemma_sum_some_monotone(info.possible_rolls.max_resistance@, 0, 9);
    assert(s >= 0);
    let m = max_budget(info);
    assert(0 <= m <= s) by (nonlinear_arith)
        requires
            s >= 0,
            sim >= 1,
            m == s / sim,
    ;
    assert(m == 0 ==> s < sim) by (nonlinear_arith)
        requires
            s >= 0,
            sim >= 1,
            m == s / sim,
    ;
    let p = info.places_count as int;
    let cap = modulus_cap(info.places_count);
    assert(p * 2 <= p * cap) by (nonlinear_arith)
        requires
            p >= 0,
            cap >= 2,
    ;
}

/// Whether crafting can roll modifiers for `info` (see `craftable`).
pub fn is_craftable(info: &CraftingInfo) -> (r: bool)
    ensures
        r == craftable(*info),
{
    let d = info.possible_rolls;
    if !d.is_well_formed() {
        return false;
    }
    if d.max_simultaneous_resistances < 1 || d.max_simultaneous_resistances >= 255 {
        return false;
    }
    let p = info.places_count;
    let cap: usize = if p < 3 {
        2
    } else if p < 255 {
        p - 1
    } else {
        254
    };
    assert(cap == modulus_cap(p));
    let places_value = match p.checked_mul(cap) {
        Some(v) => v,
        None => {
            return false;
        },
    };
    proof {
        lemma_sum_some_monotone(d.max_resistance@, 0, 9);
    }
    let sum = match d.max_resistance.checked_sum() {
        Some(v) => v,
        None => {
            assert(max_budget(*info) > 0) by (nonlinear_arith)
                requires
                    d.max_resistance.spec_sum() > u64::MAX,
                    1 <= d.max_simultaneous_resistances < 255,
                    max_budget(*info) == d.max_resistance.spec_sum() / (d.max_simultaneous_resistances as int),
            ;
            return false;
        },
    };
    let budget = sum / (d.max_simultaneous_resistances as u64);
    assert(budget == max_budget(*info));
    if budget == 0 {
        return true;
    }
    let places_u64 = places_value as u64;
    let larger = if sum < places_u64 { places_u64 } else { sum };
    let largest = if larger < 255 { 255 } else { larger };
    assert(largest == largest_cost_value(*info));
    match (budget - 1).checked_add(largest) {
        Some(bound) => bound.checked_mul(2).is_some(),
        None => false,
    }
}

/// `t` is unlocked in `d` and `v` is at most its maximum.
pub open spec fn within_maximum(d: Difficulty, t: AttackType, v: u64) -> bool {
    d.min_resistance.spec_get(t) is Some && v <= d.max_resistance.spec_get(t)->0
}

/// The number that bounds a rolled wins-in-a-row cost: twice the place count,
/// capped at 255.
pub open spec fn wins_bound(places_count: usize) -> int {
    if places_count * 2 < 255 {
        places_count * 2
    } else {
        255
    }
}

/// `s` holds no value twice.
pub open spec fn distinct_values(s: Seq<u8>) -> bool {
    forall|i: int, j: int| 0 <= i < j < s.len() ==> s[i] != s[j]
}

/// The shapes a crafted cost can take under `info`: attack and resistance
/// requirements name an unlocked attack type and stay within its maximum, sum
/// requirements within the sum of the maxima, item resource costs are positive
/// amounts of mana, a place modulus lies in `2..255` with between one and
/// `modulus - 1` distinct valid remainders below it, and wins in a row stay below
/// the bound given by the place count.
pub open spec fn rolled_cost(c: CostSpec, info: CraftingInfo) -> bool {
    let d = info.possible_rolls;
    match c {
        CostSpec::FlatMinAttackRequirement(t, v) => within_maximum(d, t, v),
        CostSpec::FlatMaxAttackRequirement(t, v) => within_maximum(d, t, v),
        CostSpec::FlatMinResistanceRequirement(t, v) => within_maximum(d, t, v),
        CostSpec::FlatMaxResistanceRequirement(t, v) => within_maximum(d, t, v),
        CostSpec::FlatSumMinAttackRequirement(v) => v <= d.max_resistance.spec_sum(),
        CostSpec::FlatSumMaxAttackRequirement(v) => v <= d.max_resistance.spec_sum(),
        CostSpec::FlatMinSumResistanceRequirement(v) => v <= d.max_resistance.spec_sum(),
        CostSpec::FlatMaxSumResistanceRequirement(v) => v <= d.max_resistance.spec_sum(),
        CostSpec::FlatItemResource(t, v) => t == Type::Mana && 1 <= v,
        CostSpec::FlatMinItemResourceRequirement(t, v) => t == Type::Mana && 1 <= v,
        CostSpec::FlatMaxItemResourceRequirement(t, v) => t == Type::Mana && 1 <= v,
        CostSpec::PlaceLimitedByIndexModulus(m, vs) => {
            &&& 2 <= m < 255
            &&& 1 <= vs.len() < m
            &&& distinct_values(vs)
            &&& forall|i: int| 0 <= i < vs.len() ==> #[trigger] vs[i] < m
        },
        CostSpec::MinWinsInARow(v) => 1 <= v && v < (if wins_bound(info.places_count) < 2 {
            2
        } else {
            wins_bound(info.places_count)
        }),
        CostSpec::MaxWinsInARow(v) => v < (if wins_bound(info.places_count) < 1 {
            1
        } else {
            wins_bound(info.places_count)
        }),
    }
}

/// A gain with its amount set to zero: what kind of gain it is.
pub open spec fn gain_kind(g: Gain) -> Gain {
    match g {
        Gain::FlatDamage(t, _) => Gain::FlatDamage(t, 0),
        Gain::PercentageIncreaseDamage(t, _) => Gain::PercentageIncreaseDamage(t, 0),
        Gain::FlatItemResource(t, _) => Gain::FlatItemResource(t, 0),
        Gain::FlatResistanceReduction(t, _) => Gain::FlatResistanceReduction(t, 0),
        Gain::PercentageIncreaseResistanceReduction(t, _) => Gain::PercentageIncreaseResistanceReduction(t, 0),
        Gain::FlatDamageAgainstHighestResistance(_) => Gain::FlatDamageAgainstHighestResistance(0),
        Gain::PercentageIncreaseDamageAgainstHighestResistance(_) => Gain::PercentageIncreaseDamageAgainstHighestResistance(0),
        Gain::FlatDamageAgainstLowestResistance(_) => Gain::FlatDamageAgainstLowestResistance(0),
        Gain::PercentageIncreaseDamageAgainstLowestResistance(_) => Gain::PercentageIncreaseDamageAgainstLowestResistance(0),
        Gain::PercentageIncreaseTreasure(t, _) => Gain::PercentageIncreaseTreasure(t, 0),
        Gain::FlatIncreaseRewardedItems(_) => Gain::FlatIncreaseRewardedItems(0),
    }
}

/// A crafted gain: its kind is one that the unlocked attack types of `info`
/// offer, and every amount but flat damage and flat resistance reduction is at
/// least one.
pub open spec fn rolled_gain(g: Gain, info: CraftingInfo) -> bool {
    &&& gain_options(present_types(info.possible_rolls.min_resistance@, 9)).contains(gain_kind(g))
    &&& match g {
        Gain::FlatDamage(_, _) => true,
        Gain::FlatResistanceReduction(_, _) => true,
        Gain::PercentageIncreaseDamage(_, v) => v >= 1,
        Gain::FlatItemResource(_, v) => v >= 1,
        Gain::PercentageIncreaseResistanceReduction(_, v) => v >= 1,
        Gain::FlatDamageAgainstHighestResistance(v) => v >= 1,
        Gain::PercentageIncreaseDamageAgainstHighestResistance(v) => v >= 1,
        Gain::FlatDamageAgainstLowestResistance(v) => v >= 1,
        Gain::PercentageIncreaseDamageAgainstLowestResistance(v) => v >= 1,
        Gain::PercentageIncreaseTreasure(_, v) => v >= 1,
        Gain::FlatIncreaseRewardedItems(v) => v >= 1,
    }
}

/// The smallest number of elements a crafted modifier rolls gains for.
pub open spec fn minimum_elements(info: CraftingInfo) -> int {
    let d = info.possible_rolls;
    if d.min_resistance.spec_len() < d.min_simultaneous_resistances {
        d.min_resistance.spec_len() as int
    } else {
        d.min_simultaneous_resistances as int
    }
}

/// The largest number of elements a crafted modifier rolls gains for.
pub open spec fn maximum_elements(info: CraftingInfo) -> int {
    let d = info.possible_rolls;
    if d.max_resistance.spec_len() < d.max_simultaneous_resistances {
        d.max_resistance.spec_len() as int
    } else {
        d.max_simultaneous_resistances as int
    }
}

/// How many gains a crafted modifier has: one per element count from the
/// minimum to the maximum, both included.
pub open spec fn gain_count(info: CraftingInfo) -> int {
    if minimum_elements(info) <= maximum_elements(info) {
        maximum_elements(info) - minimum_elements(info) + 1
    } else {
        0
    }
}

/// A modifier crafted under `info`: at most the simultaneous maximum of costs,
/// each of a rolled shape, and `gain_count(info)` rolled gains.
pub open spec fn rolled_modifier(m: ModifierSpec, info: CraftingInfo) -> bool {
    &&& m.costs.len() <= info.possible_rolls.max_simultaneous_resistances
    &&& forall|i: int| 0 <= i < m.costs.len() ==> rolled_cost(#[trigger] m.costs[i], info)
    &&& m.gains.len() == gain_count(info)
    &&& forall|i: int| 0 <= i < m.gains.len() ==> rolled_gain(#[trigger] m.gains[i], info)
}

/// The budget below which the costs of a crafted modifier keep being rolled:
/// the sum of the maximum resistances divided by the simultaneous maximum.
pub open spec fn max_budget(info: CraftingInfo) -> int {
    info.possible_rolls.max_resistance.spec_sum() / (info.possible_rolls.max_simultaneous_resistances as int)
}

/// What a rolled cost adds to the budget of the gains, when `left` of the
/// budget was still open as it was rolled; `drawn` is how many remainders were
/// drawn for a place modulus, repeats included. A requirement adds its value, a
/// requirement from above (a maximum) how far it lies below the highest value
/// it could have taken, and a place modulus the place count times the modulus
/// divided by the draws.
pub open spec fn cost_value(c: CostSpec, info: CraftingInfo, left: int, drawn: int) -> int {
    let d = info.possible_rolls;
    match c {
        CostSpec::FlatItemResource(_, v) => v as int,
        CostSpec::FlatMinItemResourceRequirement(_, v) => v as int,
        CostSpec::FlatMaxItemResourceRequirement(_, v) => left - v,
        CostSpec::FlatMinAttackRequirement(_, v) => v as int,
        CostSpec::FlatMaxAttackRequirement(t, v) => d.max_resistance.spec_get(t)->0 - v,
        CostSpec::FlatSumMinAttackRequirement(v) => v as int,
        CostSpec::FlatSumMaxAttackRequirement(v) => d.max_resistance.spec_sum() - v,
        CostSpec::PlaceLimitedByIndexModulus(m, _) => modulus_value(info.places_count, m, drawn),
        CostSpec::FlatMinResistanceRequirement(_, v) => v as int,
        CostSpec::FlatMaxResistanceRequirement(t, v) => d.max_resistance.spec_get(t)->0 - v,
        CostSpec::FlatMinSumResistanceRequirement(v) => v as int,
        CostSpec::FlatMaxSumResistanceRequirement(v) => d.max_resistance.spec_sum() - v,
        CostSpec::MinWinsInARow(v) => v as int,
        CostSpec::MaxWinsInARow(v) => wins_bound(info.places_count) - v,
    }
}

/// What a place modulus `m` with `drawn` remainders drawn adds to the budget:
/// the place count times the modulus divided by the draws.
pub open spec fn modulus_value(places_count: usize, m: u8, drawn: int) -> int {
    places_count * (m as int / drawn)
}

/// `drawn` holds, for each place modulus among `costs`, a number of draws: at
/// least as many as the remainders kept and fewer than the modulus.
pub open spec fn draws_fit(costs: Seq<CostSpec>, drawn: Seq<int>) -> bool {
    &&& drawn.len() == costs.len()
    &&& forall|i: int| 0 <= i < costs.len() ==> match #[trigger] costs[i] {
        CostSpec::PlaceLimitedByIndexModulus(m, vs) => vs.len() <= drawn[i] < m,
        _ => true,
    }
}

/// The budget that `costs` add up to, one after the other, each given what is
/// left of `max` at its turn.
pub open spec fn costs_budget(costs: Seq<CostSpec>, info: CraftingInfo, max: int, drawn: Seq<int>) -> int
    decreases costs.len(),
{
    if costs.len() == 0 {
        0
    } else {
        let before = costs_budget(costs.drop_last(), info, max, drawn);
        before + cost_value(costs.last(), info, max - before, drawn[costs.len() - 1])
    }
}

/// A rolled cost respects the budget `left` still open as it was rolled: a
/// requirement on attacks or resistances is at most `left`, and a mana amount
/// is at least one and below `left` (below 2 where at most one is left).
pub open spec fn within_left(c: CostSpec, left: int) -> bool {
    let mana_cap = if left < 2 {
        2
    } else {
        left
    };
    match c {
        CostSpec::FlatMinAttackRequirement(_, v) => v <= left,
        CostSpec::FlatMaxAttackRequirement(_, v) => v <= left,
        CostSpec::FlatSumMinAttackRequirement(v) => v <= left,
        CostSpec::FlatSumMaxAttackRequirement(v) => v <= left,
        CostSpec::FlatMinResistanceRequirement(_, v) => v <= left,
        CostSpec::FlatMaxResistanceRequirement(_, v) => v <= left,
        CostSpec::FlatMinSumResistanceRequirement(v) => v <= left,
        CostSpec::FlatMaxSumResistanceRequirement(v) => v <= left,
        CostSpec::FlatItemResource(_, v) => 1 <= v < mana_cap,
        CostSpec::FlatMinItemResourceRequirement(_, v) => 1 <= v < mana_cap,
        CostSpec::FlatMaxItemResourceRequirement(_, v) => 1 <= v < mana_cap,
        _ => true,
    }
}

/// Each of `costs` was rolled while the budget of the ones before it was below
/// `max`, and respects what was left of `max` at its turn.
pub open spec fn rolled_below(costs: Seq<CostSpec>, info: CraftingInfo, max: int, drawn: Seq<int>) -> bool {
    forall|i: int| 0 <= i < costs.len() ==> {
        &&& #[trigger] costs_budget(costs.take(i), info, max, drawn) < max
        &&& within_left(costs[i], max - costs_budget(costs.take(i), info, max, drawn))
    }
}

/// `budget` is what the costs `costs` of a crafted modifier add up to, each of
/// them rolled while the budget was below `max_budget(info)` and within what was
/// left of it.
pub open spec fn budget_of_costs(costs: Seq<CostSpec>, info: CraftingInfo, budget: int) -> bool {
    exists|drawn: Seq<int>| #![trigger draws_fit(costs, drawn)]
        draws_fit(costs, drawn) && budget == costs_budget(costs, info, max_budget(info), drawn)
            && rolled_below(costs, info, max_budget(info), drawn)
}

/// `x`, but at least one.
pub open spec fn at_least_one(x: int) -> int {
    if x < 1 {
        1
    } else {
        x
    }
}

/// `x` as a `u16`, saturating at `u16::MAX`.
pub open spec fn saturated_u16(x: int) -> u16 {
    if x <= u16::MAX {
        x as u16
    } else {
        u16::MAX
    }
}

/// The lowest roll of flat damage on `t`: its minimum resistance, zero where it is locked.
pub open spec fn damage_roll_low(info: CraftingInfo, t: AttackType) -> u64 {
    match info.possible_rolls.min_resistance.spec_get(t) {
        Some(v) => v,
        None => 0,
    }
}

/// The highest roll of flat damage on `t`: its maximum resistance, one where it is locked.
pub open spec fn damage_roll_high(info: CraftingInfo, t: AttackType) -> u64 {
    match info.possible_rolls.max_resistance.spec_get(t) {
        Some(v) => v,
        None => 1,
    }
}

/// The flat damage that a roll `v` buys with `share` of the budget: half the
/// roll, at least one, times twice the share, saturating at `u64::MAX`.
pub open spec fn flat_damage_amount(v: u64, share: u64) -> u64 {
    let product = at_least_one(v as int / 2) * (2 * share);
    if product > u64::MAX {
        u64::MAX
    } else {
        product as u64
    }
}

/// `g` is what a gain of its kind comes to for `share` of the budget: flat
/// damage and flat resistance reduction from a roll within the attack type's
/// bounds; the percentages of damage, resistance reduction and treasure the
/// share itself; mana twice the share; the gains against the highest and the
/// lowest resistance a half and a quarter of it, and extra rewarded items a
/// tenth. Each is at least one (but the flat damages of a zero share), and
/// those held in a `u16` saturate.
pub open spec fn gain_for_share(g: Gain, share: u64, info: CraftingInfo) -> bool {
    match g {
        Gain::FlatDamage(t, a) => exists|v: u64|
            damage_roll_low(info, t) <= v <= damage_roll_high(info, t) && a == #[trigger] flat_damage_amount(v, share),
        Gain::FlatResistanceReduction(t, a) => exists|v: u64|
            damage_roll_low(info, t) <= v <= damage_roll_high(info, t) && a == #[trigger] flat_damage_amount(v, share),
        Gain::PercentageIncreaseDamage(_, p) => p == saturated_u16(at_least_one(share as int)),
        Gain::FlatItemResource(_, a) => a == at_least_one(2 * share),
        Gain::PercentageIncreaseResistanceReduction(_, p) => p == saturated_u16(at_least_one(share as int)),
        Gain::FlatDamageAgainstHighestResistance(a) => a == at_least_one(share as int / 2),
        Gain::PercentageIncreaseDamageAgainstHighestResistance(p) => p == saturated_u16(at_least_one(share as int / 2)),
        Gain::FlatDamageAgainstLowestResistance(a) => a == at_least_one(share as int / 4),
        Gain::PercentageIncreaseDamageAgainstLowestResistance(p) => p == saturated_u16(at_least_one(share as int / 4)),
        Gain::PercentageIncreaseTreasure(_, p) => p == saturated_u16(at_least_one(share as int)),
        Gain::FlatIncreaseRewardedItems(n) => n == saturated_u16(at_least_one(share as int / 10)),
    }
}

/// What a gain of each kind comes to for `share` of the budget, written out:
/// with `sat(x)` for `x` capped at `u16::MAX` and `one(x)` for `x` but at least
/// one, the damage, resistance reduction and treasure percentages are
/// `sat(one(share))`; mana is `one(2 * share)`; the gains against the highest
/// and the lowest resistance `one(share / 2)` and `one(share / 4)` (the
/// percentages saturated); extra rewarded items `sat(one(share / 10))`; flat
/// damage and flat resistance reduction are, for some roll `v` within the attack
/// type's bounds (0 and 1 where it is locked), `one(v / 2) * 2 * share`, capped
/// at `u64::MAX`.
pub proof fn lemma_gain_for_share_amounts(g: Gain, share: u64, info: CraftingInfo)
    ensures
        gain_for_share(g, share, info) <== ({
            let one = |x: int| if x < 1 { 1 } else { x };
            let sat = |x: int| if x > 65535 { 65535 } else { x };
            match g {
                Gain::PercentageIncreaseDamage(_, p) => p == sat(one(share as int)),
                Gain::PercentageIncreaseResistanceReduction(_, p) => p == sat(one(share as int)),
                Gain::PercentageIncreaseTreasure(_, p) => p == sat(one(share as int)),
                Gain::FlatItemResource(_, a) => a == one(2 * share),
                Gain::FlatDamageAgainstHighestResistance(a) => a == one(share as int / 2),
                Gain::PercentageIncreaseDamageAgainstHighestResistance(p) => p == sat(one(share as int / 2)),
                Gain::FlatDamageAgainstLowestResistance(a) => a == one(share as int / 4),
                Gain::PercentageIncreaseDamageAgainstLowestResistance(p) => p == sat(one(share as int / 4)),
                Gain::FlatIncreaseRewardedItems(n) => n == sat(one(share as int / 10)),
                _ => false,
            }
        }),
        gain_for_share(g, share, info) ==> ({
            let one = |x: int| if x < 1 { 1 } else { x };
            let sat = |x: int| if x > 65535 { 65535 } else { x };
            let low = |t: AttackType| match info.possible_rolls.min_resistance.spec_get(t) {
                Some(v) => v as int,
                None => 0,
            };
            let high = |t: AttackType| match info.possible_rolls.max_resistance.spec_get(t) {
                Some(v) => v as int,
                None => 1,
            };
            let bought = |v: u64| if one(v as int / 2) * (2 * share) > u64::MAX {
                u64::MAX as int
            } else {
                one(v as int / 2) * (2 * share)
            };
            match g {
                Gain::PercentageIncreaseDamage(_, p) => p == sat(one(share as int)),
                Gain::PercentageIncreaseResistanceReduction(_, p) => p == sat(one(share as int)),
                Gain::PercentageIncreaseTreasure(_, p) => p == sat(one(share as int)),
                Gain::FlatItemResource(_, a) => a == one(2 * share),
                Gain::FlatDamageAgainstHighestResistance(a) => a == one(share as int / 2),
                Gain::PercentageIncreaseDamageAgainstHighestResistance(p) => p == sat(one(share as int / 2)),
                Gain::FlatDamageAgainstLowestResistance(a) => a == one(share as int / 4),
                Gain::PercentageIncreaseDamageAgainstLowestResistance(p) => p == sat(one(share as int / 4)),
                Gain::FlatIncreaseRewardedItems(n) => n == sat(one(share as int / 10)),
                Gain::FlatDamage(t, a) => exists|v: u64| low(t) <= v <= high(t) && a == #[trigger] bought(v),
                Gain::FlatResistanceReduction(t, a) => exists|v: u64| low(t) <= v <= high(t) && a == #[trigger] bought(v),
            }
        }),
{
    let one = |x: int| if x < 1 { 1 } else { x };
    let bought = |v: u64| if one(v as int / 2) * (2 * share) > u64::MAX {
        u64::MAX as int
    } else {
        one(v as int / 2) * (2 * share)
    };
    match g {
        Gain::FlatDamage(t, a) => {
            if gain_for_share(g, share, info) {
                let v = choose|v: u64|
                    damage_roll_low(info, t) <= v <= damage_roll_high(info, t) && a == #[trigger] flat_damage_amount(v, share);
                assert(a == bought(v));
            }
        },
        Gain::FlatResistanceReduction(t, a) => {
            if gain_for_share(g, share, info) {
                let v = choose|v: u64|
                    damage_roll_low(info, t) <= v <= damage_roll_high(info, t) && a == #[trigger] flat_damage_amount(v, share);
                assert(a == bought(v));
            }
        },
        _ => {},
    }
}

/// The sum of `s`.
pub open spec fn share_sum(s: Seq<u64>) -> int
    decreases s.len(),
{
    if s.len() == 0 {
        0
    } else {
        share_sum(s.drop_last()) + s.last()
    }
}

/// `shares` split `budget` the way the gains of a modifier take it: one after
/// the other, each but the last takes at least one while some of the budget is
/// left and nothing once it is spent, and the last takes the rest.
pub open spec fn shares_of(shares: Seq<u64>, budget: int) -> bool {
    &&& shares.len() > 0 ==> share_sum(shares) == budget
    &&& forall|i: int| 0 <= i < shares.len() - 1 ==> (#[trigger] shares[i] >= 1 <==> share_sum(shares.take(i)) < budget)
}

/// The gains `gains` are bought, one for one, by shares that split `budget`.
pub open spec fn gains_for_budget(gains: Seq<Gain>, budget: int, info: CraftingInfo) -> bool {
    exists|shares: Seq<u64>| #![trigger shares_of(shares, budget)]
        shares.len() == gains.len() && shares_of(shares, budget)
            && forall|i: int| 0 <= i < gains.len() ==> gain_for_share(#[trigger] gains[i], shares[i], info)
}

/// A modifier crafted under `info`: of rolled shapes, with gains bought by
/// shares of the budget that its costs add up to.
pub open spec fn crafted_modifier(m: ModifierSpec, info: CraftingInfo) -> bool {
    &&& rolled_modifier(m, info)
    &&& exists|budget: int| #![trigger budget_of_costs(m.costs, info, budget)]
        budget_of_costs(m.costs, info, budget) && gains_for_budget(m.gains, budget, info)
}

pub proof fn lemma_value_le_sum(s: Seq<Option<u64>>, n: nat, i: int)
    requires
        0 <= i < n,
        s[i] is Some,
    ensures
        s[i]->0 <= sum_some(s, n),
    decreases n,
{
    if i < n - 1 {
        lemma_value_le_sum(s, (n - 1) as nat, i);
        lemma_sum_some_monotone(s, 0, (n - 1) as nat);
        assert(sum_some(s, (n - 1) as nat) <= sum_some(s, n));
    } else {
        lemma_sum_some_monotone(s, 0, (n - 1) as nat);
    }
}

proof fn lemma_sum_le(a: Seq<Option<u64>>, b: Seq<Option<u64>>, n: nat)
    requires
        forall|i: int| 0 <= i < n ==> ((#[trigger] a[i]) is Some ==> b[i] is Some && a[i]->0 <= b[i]->0),
        forall|i: int| 0 <= i < n ==> ((#[trigger] b[i]) is Some ==> a[i] is Some),
    ensures
        sum_some(a, n) <= sum_some(b, n),
    decreases n,
{
    if n > 0 {
        lemma_sum_le(a, b, (n - 1) as nat);
        let k = n - 1;
        assert(a[k] is Some ==> b[k] is Some);
        assert(b[k] is Some ==> a[k] is Some);
    }
}

/// In a well-formed difficulty the minimum sum is at most the maximum sum, and
/// each maximum is at most the maximum sum.
pub proof fn lemma_difficulty_sums(d: Difficulty)
    requires
        d.well_formed(),
    ensures
        d.min_resistance.spec_sum() <= d.max_resistance.spec_sum(),
        forall|t: AttackType| #[trigger] d.max_resistance.spec_get(t) is Some
            ==> d.max_resistance.spec_get(t)->0 <= d.max_resistance.spec_sum(),
{
    assert forall|i: int| 0 <= i < 9 implies ((#[trigger] d.min_resistance@[i]) is Some
        ==> d.max_resistance@[i] is Some && d.min_resistance@[i]->0 <= d.max_resistance@[i]->0) by {
        lemma_attack_at_roundtrip(i);
        let t = attack_at(i);
        assert(d.max_resistance.spec_get(t) is Some == d.min_resistance.spec_get(t) is Some);
        if d.min_resistance.spec_get(t) is Some {
            assert(d.min_resistance.spec_get(t)->0 <= d.max_resistance.spec_get(t)->0);
        }
    }
    assert forall|i: int| 0 <= i < 9 implies ((#[trigger] d.max_resistance@[i]) is Some
        ==> d.min_resistance@[i] is Some) by {
        lemma_attack_at_roundtrip(i);
        let t = attack_at(i);
        assert(d.max_resistance.spec_get(t) is Some == d.min_resistance.spec_get(t) is Some);
    }
    lemma_sum_le(d.min_resistance@, d.max_resistance@, 9);
    assert forall|t: AttackType| #[trigger] d.max_resistance.spec_get(t) is Some
        implies d.max_resistance.spec_get(t)->0 <= d.max_resistance.spec_sum() by {
        lemma_attack_index_roundtrip(t);
        lemma_value_le_sum(d.max_resistance@, 9, attack_index(t) as int);
    }
}

/// The cost vector grew by exactly one cost, which is `c`.
pub open spec fn pushed(before: Seq<Cost>, after: Seq<Cost>, c: Cost) -> bool {
    after == before.push(c)
}

/// Rolls a random modifier for an item with crafting info `crafting_info`: first
/// its costs, then its gains, whose budget is what the costs add up to.
pub fn execute_craft(random_generator_state: &mut Lcg64Xsh32, crafting_info: &CraftingInfo) -> (r: Modifier)
    requires
        craftable(*crafting_info),
    ensures
        crafted_modifier(r.deep_view(), *crafting_info),
{
    let d = crafting_info.possible_rolls;
    let min_len = d.min_resistance.len();
    let min_sim = d.min_simultaneous_resistances as usize;
    let max_len = d.max_resistance.len();
    let max_sim = d.max_simultaneous_resistances as usize;
    let minimum_elements = if min_len < min_sim { min_len } else { min_sim };
    let maximum_elements = if max_len < max_sim { max_len } else { max_sim };
    let (modifier_costs, cost) = execute_craft_roll_modifier_costs(random_generator_state, crafting_info);
    let modifier_gain = execute_craft_roll_modifier_benefits(
        random_generator_state,
        crafting_info,
        cost,
        minimum_elements,
        maximum_elements,
    );
    let r = Modifier { costs: modifier_costs, gains: modifier_gain };
    assert(forall|i: int| 0 <= i < r.costs@.len() ==> #[trigger] r.deep_view().costs[i] == r.costs@[i].deep_view());
    assert(budget_of_costs(r.deep_view().costs, *crafting_info, cost as int));
    r
}

/// Rolls the costs of a modifier: up to the simultaneous maximum of random cost
/// kinds, each adding to an accumulated cost while that stays below the average
/// maximum resistance per simultaneous element. Returns the costs and the
/// accumulated cost.
fn execute_craft_roll_modifier_costs(
    random_generator_state: &mut Lcg64Xsh32,
    crafting_info: &CraftingInfo,
) -> (r: (Vec<Cost>, u64))
    requires
        craftable(*crafting_info),
    ensures
        r.0@.len() <= crafting_info.possible_rolls.max_simultaneous_resistances,
        forall|i: int| 0 <= i < r.0@.len() ==> rolled_cost(#[trigger] r.0@[i].deep_view(), *crafting_info),
        r.1 <= budget_bound(*crafting_info),
        budget_of_costs(r.0.deep_view(), *crafting_info, r.1 as int),
{
    proof {
        lemma_difficulty_sums(crafting_info.possible_rolls);
        lemma_craftable_bounds(*crafting_info);
    }
    let mut modifier_costs: Vec<Cost> = Vec::new();
    let mut accumulated_cost: u64 = 0;
    let max_cost = crafting_info.possible_rolls.max_resistance.sum()
        / (crafting_info.possible_rolls.max_simultaneous_resistances as u64);
    let number_of_costs = gen_range_u8(
        random_generator_state,
        0,
        crafting_info.possible_rolls.max_simultaneous_resistances + 1,
    );
    let ghost mut drawn: Seq<int> = Seq::empty();
    proof {
        assert(modifier_costs.deep_view() =~= Seq::<CostSpec>::empty());
    }
    let mut i: u8 = 0;
    while i < number_of_costs
        invariant
            craftable(*crafting_info),
            crafting_info.possible_rolls.min_resistance.spec_sum()
                <= crafting_info.possible_rolls.max_resistance.spec_sum(),
            forall|t: AttackType| #[trigger] crafting_info.possible_rolls.max_resistance.spec_get(t) is Some
                ==> crafting_info.possible_rolls.max_resistance.spec_get(t)->0
                <= crafting_info.possible_rolls.max_resistance.spec_sum(),
            max_cost <= crafting_info.possible_rolls.max_resistance.spec_sum(),
            i <= number_of_costs,
            number_of_costs <= crafting_info.possible_rolls.max_simultaneous_resistances,
            modifier_costs@.len() <= i,
            accumulated_cost <= budget_bound(*crafting_info),
            forall|k: int| 0 <= k < modifier_costs@.len()
                ==> rolled_cost(#[trigger] modifier_costs@[k].deep_view(), *crafting_info),
            max_cost == max_budget(*crafting_info),
            draws_fit(modifier_costs.deep_view(), drawn),
            accumulated_cost == costs_budget(modifier_costs.deep_view(), *crafting_info, max_cost as int, drawn),
            rolled_below(modifier_costs.deep_view(), *crafting_info, max_cost as int, drawn),
        decreases number_of_costs - i,
    {
        if accumulated_cost < max_cost {
            let ghost before = modifier_costs@;
            let ghost before_view = modifier_costs.deep_view();
            let kind = gen_range_i32(random_generator_state, 0, 14);
            let added = if kind == 0 {
                add_flat_min_attack(random_generator_state, crafting_info, &mut modifier_costs, accumulated_cost, max_cost)
            } else if kind == 1 {
                add_flat_max_attack(random_generator_state, crafting_info, &mut modifier_costs, accumulated_cost, max_cost)
            } else if kind == 2 {
                add_place_limited_by_index_modulus(random_generator_state, crafting_info, &mut modifier_costs)
            } else if kind == 3 {
                add_flat_sum_min_attach(random_generator_state, crafting_info, &mut modifier_costs, accumulated_cost, max_cost)
            } else if kind == 4 {
                add_flat_sum_max_attack(random_generator_state, crafting_info, &mut modifier_costs, accumulated_cost, max_cost)
            } else if kind == 5 {
                add_flat_min_item_resource(random_generator_state, &mut modifier_costs, accumulated_cost, max_cost)
            } else if kind == 6 {
                add_flat_max_item_resource(random_generator_state, &mut modifier_costs, accumulated_cost, max_cost)
            } else if kind == 7 {
                add_min_resistance(random_generator_state, crafting_info, &mut modifier_costs, accumulated_cost, max_cost)
            } else if kind == 8 {
                add_flat_max_resistance(random_generator_state, crafting_info, &mut modifier_costs, accumulated_cost, max_cost)
            } else if kind == 9 {
                add_flat_min_sum_resistance(random_generator_state, crafting_info, &mut modifier_costs, accumulated_cost, max_cost)
            } else if kind == 10 {
                add_flat_max_sum_resistance(random_generator_state, crafting_info, &mut modifier_costs, accumulated_cost, max_cost)
            } else if kind == 11 {
                add_min_wins_in_row(random_generator_state, crafting_info, &mut modifier_costs)
            } else if kind == 12 {
                add_max_wins_in_row(random_generator_state, crafting_info, &mut modifier_costs)
            } else {
                add_flat_item_resource(random_generator_state, &mut modifier_costs, accumulated_cost, max_cost)
            };
            proof {
                assert(modifier_costs@.len() == before.len() + 1);
                assert forall|k: int| 0 <= k < modifier_costs@.len()
                    implies rolled_cost(#[trigger] modifier_costs@[k].deep_view(), *crafting_info) by {
                    if k < before.len() {
                        assert(modifier_costs@[k] == before[k]);
                    }
                }
            }
            proof {
                let c = modifier_costs@.last().deep_view();
                assert(modifier_costs.deep_view() =~= before_view.push(c));
                let left = max_cost - accumulated_cost;
                let n: int = match c {
                    CostSpec::PlaceLimitedByIndexModulus(m, vs) => choose|n: int|
                        vs.len() <= n < m && added == #[trigger] modulus_value(crafting_info.places_count, m, n),
                    _ => 0,
                };
                assert(added == cost_value(c, *crafting_info, left, n));
                let drawn_before = drawn;
                drawn = drawn.push(n);
                lemma_costs_budget_draws(before_view, *crafting_info, max_cost as int, drawn_before, drawn);
                assert(modifier_costs.deep_view().drop_last() =~= before_view);
                assert forall|k: int| 0 <= k < modifier_costs.deep_view().len() implies match #[trigger] modifier_costs.deep_view()[k] {
                    CostSpec::PlaceLimitedByIndexModulus(m, vs) => vs.len() <= drawn[k] < m,
                    _ => true,
                } by {
                    if k < before_view.len() {
                        assert(modifier_costs.deep_view()[k] == before_view[k]);
                        assert(drawn[k] == drawn_before[k]);
                    }
                }
                assert(within_left(c, left));
                assert forall|k: int| 0 <= k < modifier_costs.deep_view().len() implies {
                    &&& #[trigger] costs_budget(modifier_costs.deep_view().take(k), *crafting_info, max_cost as int, drawn)
                        < max_cost
                    &&& within_left(
                        modifier_costs.deep_view()[k],
                        max_cost - costs_budget(modifier_costs.deep_view().take(k), *crafting_info, max_cost as int, drawn),
                    )
                } by {
                    if k < before_view.len() {
                        assert(modifier_costs.deep_view().take(k) =~= before_view.take(k));
                        assert(modifier_costs.deep_view()[k] == before_view[k]);
                        lemma_costs_budget_draws(before_view.take(k), *crafting_info, max_cost as int, drawn_before, drawn);
                    } else {
                        assert(modifier_costs.deep_view().take(k) =~= before_view);
                    }
                }
            }
            accumulated_cost = accumulated_cost + added;
        }
        i = i + 1;
    }
    (modifier_costs, accumulated_cost)
}

/// The budget of `costs` depends only on the first `costs.len()` draws.
proof fn lemma_costs_budget_draws(costs: Seq<CostSpec>, info: CraftingInfo, max: int, d1: Seq<int>, d2: Seq<int>)
    requires
        d1.len() >= costs.len(),
        d2.len() >= costs.len(),
        forall|i: int| 0 <= i < costs.len() ==> d1[i] == d2[i],
    ensures
        costs_budget(costs, info, max, d1) == costs_budget(costs, info, max, d2),
    decreases costs.len(),
{
    if costs.len() > 0 {
        lemma_costs_budget_draws(costs.drop_last(), info, max, d1, d2);
    }
}

/// Pushes a minimum attack requirement on a random unlocked attack type, rolled
/// within its bounds and capped by the budget left; returns the rolled value.
fn add_flat_min_attack(
    random_generator_state: &mut Lcg64Xsh32,
    crafting_info: &CraftingInfo,
    modifier_costs: &mut Vec<Cost>,
    accumulated_cost: u64,
    max_cost: u64,
) -> (r: u64)
    requires
        craftable(*crafting_info),
        accumulated_cost < max_cost,
    ensures
        final(modifier_costs)@.len() == old(modifier_costs)@.len() + 1,
        pushed(old(modifier_costs)@, final(modifier_costs)@, final(modifier_costs)@.last()),
        final(modifier_costs)@.last() matches Cost::FlatMinAttackRequirement(t, v) && v == r
            && within_maximum(crafting_info.possible_rolls, t, v),
        r <= max_cost - accumulated_cost,
{
    let (attack_type, value) = roll_capped_attack_value(random_generator_state, crafting_info, accumulated_cost, max_cost);
    modifier_costs.push(Cost::FlatMinAttackRequirement(attack_type, value));
    value
}

/// A random unlocked attack type and a value rolled within its bounds, capped by
/// the budget left.
fn roll_capped_attack_value(
    random_generator_state: &mut Lcg64Xsh32,
    crafting_info: &CraftingInfo,
    accumulated_cost: u64,
    max_cost: u64,
) -> (r: (AttackType, u64))
    requires
        craftable(*crafting_info),
        accumulated_cost < max_cost,
    ensures
        within_maximum(crafting_info.possible_rolls, r.0, r.1),
        r.1 <= max_cost - accumulated_cost,
{
    let d = crafting_info.possible_rolls;
    let attack_type = get_random_attack_type_from_unlocked(random_generator_state, &d.min_resistance);
    assert(d.max_resistance.spec_get(attack_type) is Some);
    let minimum_value = d.min_resistance.get(attack_type).unwrap();
    let maximum_value = d.max_resistance.get(attack_type).unwrap();
    let rolled = gen_range_inclusive_u64(random_generator_state, minimum_value, maximum_value);
    let left = max_cost - accumulated_cost;
    let value = if left < rolled { left } else { rolled };
    (attack_type, value)
}

/// Pushes a maximum attack requirement on a random unlocked attack type; returns
/// how far the requirement lies below the attack type's maximum.
fn add_flat_max_attack(
    random_generator_state: &mut Lcg64Xsh32,
    crafting_info: &CraftingInfo,
    modifier_costs: &mut Vec<Cost>,
    accumulated_cost: u64,
    max_cost: u64,
) -> (r: u64)
    requires
        craftable(*crafting_info),
        accumulated_cost < max_cost,
    ensures
        final(modifier_costs)@.len() == old(modifier_costs)@.len() + 1,
        pushed(old(modifier_costs)@, final(modifier_costs)@, final(modifier_costs)@.last()),
        final(modifier_costs)@.last() matches Cost::FlatMaxAttackRequirement(t, v)
            && within_maximum(crafting_info.possible_rolls, t, v)
            && v <= max_cost - accumulated_cost
            && r == crafting_info.possible_rolls.max_resistance.spec_get(t)->0 - v,
{
    let (attack_type, value) = roll_capped_attack_value(random_generator_state, crafting_info, accumulated_cost, max_cost);
    let maximum_value = crafting_info.possible_rolls.max_resistance.get(attack_type).unwrap();
    modifier_costs.push(Cost::FlatMaxAttackRequirement(attack_type, value));
    maximum_value - value
}

/// Pushes a requirement that the place index, modulo a random modulus, is one of
/// a few random remainders; returns the place count times the modulus divided by
/// the number of remainders drawn.
fn add_place_limited_by_index_modulus(
    random_generator_state: &mut Lcg64Xsh32,
    crafting_info: &CraftingInfo,
    modifier_costs: &mut Vec<Cost>,
) -> (r: u64)
    requires
        craftable(*crafting_info),
    ensures
        final(modifier_costs)@.len() == old(modifier_costs)@.len() + 1,
        pushed(old(modifier_costs)@, final(modifier_costs)@, final(modifier_costs)@.last()),
        rolled_cost(final(modifier_costs)@.last().deep_view(), *crafting_info),
        final(modifier_costs)@.last() matches Cost::PlaceLimitedByIndexModulus(m, vs)
            && exists|n: int| vs@.len() <= n < m && r == #[trigger] modulus_value(crafting_info.places_count, m, n),
        r <= crafting_info.places_count * modulus_cap(crafting_info.places_count),
{
    let capped = if crafting_info.places_count < 255 { crafting_info.places_count } else { 255 };
    let max_modulus = if capped < 3 { 3 } else { capped };
    let modulus = gen_range_usize(random_generator_state, 2, max_modulus) as u8;
    let number_of_valid_values = gen_range_u8(random_generator_state, 1, modulus);
    let mut valid_numbers: Vec<u8> = Vec::new();
    let mut k: u8 = 0;
    while k < number_of_valid_values
        invariant
            2 <= modulus < 255,
            k <= number_of_valid_values,
            1 <= number_of_valid_values < modulus,
            valid_numbers@.len() <= k,
            k > 0 ==> valid_numbers@.len() >= 1,
            distinct_values(valid_numbers@),
            forall|i: int| 0 <= i < valid_numbers@.len() ==> #[trigger] valid_numbers@[i] < modulus,
        decreases number_of_valid_values - k,
    {
        let v = gen_range_u8(random_generator_state, 0, modulus);
        if !contains_u8(&valid_numbers, v) {
            let ghost before = valid_numbers@;
            valid_numbers.push(v);
            proof {
                assert forall|i: int, j: int| 0 <= i < j < valid_numbers@.len()
                    implies valid_numbers@[i] != valid_numbers@[j] by {
                    if j == before.len() {
                        assert(valid_numbers@[i] == before[i]);
                        assert(before.contains(before[i]));
                    }
                }
            }
        }
        k = k + 1;
    }
    modifier_costs.push(Cost::PlaceLimitedByIndexModulus(modulus, valid_numbers));
    let quotient = modulus / number_of_valid_values;
    assert(quotient <= modulus) by (nonlinear_arith)
        requires
            number_of_valid_values >= 1,
            quotient == modulus / number_of_valid_values,
    ;
    let ratio = quotient as usize;
    let ghost cap = modulus_cap(crafting_info.places_count);
    assert(modulus as int <= cap);
    assert(crafting_info.places_count * ratio <= crafting_info.places_count * cap) by (nonlinear_arith)
        requires
            ratio <= cap,
    ;
    let r = (crafting_info.places_count * ratio) as u64;
    assert(r == modulus_value(crafting_info.places_count, modulus, number_of_valid_values as int));
    r
}

fn contains_u8(v: &Vec<u8>, x: u8) -> (r: bool)
    ensures
        r == v@.contains(x),
{
    let mut i: usize = 0;
    while i < v.len()
        invariant
            i <= v@.len(),
            forall|j: int| 0 <= j < i ==> v@[j] != x,
        decreases v@.len() - i,
    {
        if v[i] == x {
            return true;
        }
        i = i + 1;
    }
    false
}

/// Pushes a requirement on the sum of attacks, rolled between the sums of the
/// minimum and maximum resistances and capped by the budget left; returns it.
fn add_flat_sum_min_attach(
    random_generator_state: &mut Lcg64Xsh32,
    crafting_info: &CraftingInfo,
    modifier_costs: &mut Vec<Cost>,
    accumulated_cost: u64,
    max_cost: u64,
) -> (r: u64)
    requires
        craftable(*crafting_info),
        accumulated_cost < max_cost,
    ensures
        final(modifier_costs)@.len() == old(modifier_costs)@.len() + 1,
        pushed(old(modifier_costs)@, final(modifier_costs)@, Cost::FlatSumMinAttackRequirement(r)),
        r <= max_cost - accumulated_cost,
        r <= crafting_info.possible_rolls.max_resistance.spec_sum(),
{
    let (value, _) = roll_capped_sum(random_generator_state, crafting_info, accumulated_cost, max_cost);
    modifier_costs.push(Cost::FlatSumMinAttackRequirement(value));
    value
}

/// A value rolled between the sums of the minimum and the maximum resistances,
/// capped by the budget left, and the maximum sum.
fn roll_capped_sum(
    random_generator_state: &mut Lcg64Xsh32,
    crafting_info: &CraftingInfo,
    accumulated_cost: u64,
    max_cost: u64,
) -> (r: (u64, u64))
    requires
        craftable(*crafting_info),
        accumulated_cost < max_cost,
    ensures
        r.0 <= max_cost - accumulated_cost,
        r.0 <= r.1,
        r.1 == crafting_info.possible_rolls.max_resistance.spec_sum(),
{
    proof {
        lemma_difficulty_sums(crafting_info.possible_rolls);
        lemma_craftable_bounds(*crafting_info);
    }
    let minimum_value = crafting_info.possible_rolls.min_resistance.sum();
    let maximum_value = crafting_info.possible_rolls.max_resistance.sum();
    let rolled = gen_range_inclusive_u64(random_generator_state, minimum_value, maximum_value);
    let left = max_cost - accumulated_cost;
    let value = if left < rolled { left } else { rolled };
    (value, maximum_value)
}

/// Pushes an upper bound on the sum of attacks; returns how far it lies below the
/// maximum sum.
fn add_flat_sum_max_attack(
    random_generator_state: &mut Lcg64Xsh32,
    crafting_info: &CraftingInfo,
    modifier_costs: &mut Vec<Cost>,
    accumulated_cost: u64,
    max_cost: u64,
) -> (r: u64)
    requires
        craftable(*crafting_info),
        accumulated_cost < max_cost,
    ensures
        final(modifier_costs)@.len() == old(modifier_costs)@.len() + 1,
        pushed(old(modifier_costs)@, final(modifier_costs)@, final(modifier_costs)@.last()),
        final(modifier_costs)@.last() matches Cost::FlatSumMaxAttackRequirement(v)
            && v <= crafting_info.possible_rolls.max_resistance.spec_sum()
            && v <= max_cost - accumulated_cost
            && r == crafting_info.possible_rolls.max_resistance.spec_sum() - v,
{
    let (value, maximum_value) = roll_capped_sum(random_generator_state, crafting_info, accumulated_cost, max_cost);
    modifier_costs.push(Cost::FlatSumMaxAttackRequirement(value));
    maximum_value - value
}

/// A positive amount below the budget left (below 2 where at most one is left).
fn roll_item_resource_amount(random_generator_state: &mut Lcg64Xsh32, accumulated_cost: u64, max_cost: u64) -> (r: u64)
    requires
        accumulated_cost < max_cost,
    ensures
        1 <= r,
        r < (if max_cost - accumulated_cost < 2 { 2 } else { max_cost - accumulated_cost }),
{
    let left = max_cost - accumulated_cost;
    let high = if left < 2 { 2 } else { left };
    gen_range_u64(random_generator_state, 1, high)
}

/// Pushes a minimum mana requirement; returns its amount.
fn add_flat_min_item_resource(
    random_generator_state: &mut Lcg64Xsh32,
    modifier_costs: &mut Vec<Cost>,
    accumulated_cost: u64,
    max_cost: u64,
) -> (r: u64)
    requires
        accumulated_cost < max_cost,
    ensures
        pushed(old(modifier_costs)@, final(modifier_costs)@, Cost::FlatMinItemResourceRequirement(Type::Mana, r)),
        1 <= r <= max_cost - accumulated_cost,
        r < (if max_cost - accumulated_cost < 2 { 2 } else { max_cost - accumulated_cost }),
{
    let cost = roll_item_resource_amount(random_generator_state, accumulated_cost, max_cost);
    modifier_costs.push(Cost::FlatMinItemResourceRequirement(Type::Mana, cost));
    cost
}

/// Pushes a maximum mana requirement; returns the budget left minus its amount.
fn add_flat_max_item_resource(
    random_generator_state: &mut Lcg64Xsh32,
    modifier_costs: &mut Vec<Cost>,
    accumulated_cost: u64,
    max_cost: u64,
) -> (r: u64)
    requires
        accumulated_cost < max_cost,
    ensures
        final(modifier_costs)@.len() == old(modifier_costs)@.len() + 1,
        pushed(old(modifier_costs)@, final(modifier_costs)@, final(modifier_costs)@.last()),
        final(modifier_costs)@.last() matches Cost::FlatMaxItemResourceRequirement(t, v)
            && t == Type::Mana && 1 <= v && r == (max_cost - accumulated_cost) - v
            && v < (if max_cost - accumulated_cost < 2 { 2 } else { max_cost - accumulated_cost }),
{
    let cost = roll_item_resource_amount(random_generator_state, accumulated_cost, max_cost);
    modifier_costs.push(Cost::FlatMaxItemResourceRequirement(Type::Mana, cost));
    (max_cost - accumulated_cost) - cost
}

/// Pushes a minimum resistance requirement on a random unlocked attack type;
/// returns the rolled value.
fn add_min_resistance(
    random_generator_state: &mut Lcg64Xsh32,
    crafting_info: &CraftingInfo,
    modifier_costs: &mut Vec<Cost>,
    accumulated_cost: u64,
    max_cost: u64,
) -> (r: u64)
    requires
        craftable(*crafting_info),
        accumulated_cost < max_cost,
    ensures
        final(modifier_costs)@.len() == old(modifier_costs)@.len() + 1,
        pushed(old(modifier_costs)@, final(modifier_costs)@, final(modifier_costs)@.last()),
        final(modifier_costs)@.last() matches Cost::FlatMinResistanceRequirement(t, v) && v == r
            && within_maximum(crafting_info.possible_rolls, t, v),
        r <= max_cost - accumulated_cost,
{
    let (attack_type, value) = roll_capped_attack_value(random_generator_state, crafting_info, accumulated_cost, max_cost);
    modifier_costs.push(Cost::FlatMinResistanceRequirement(attack_type, value));
    value
}

/// Pushes a maximum resistance requirement on a random unlocked attack type;
/// returns how far it lies below the attack type's maximum.
fn add_flat_max_resistance(
    random_generator_state: &mut Lcg64Xsh32,
    crafting_info: &CraftingInfo,
    modifier_costs: &mut Vec<Cost>,
    accumulated_cost: u64,
    max_cost: u64,
) -> (r: u64)
    requires
        craftable(*crafting_info),
        accumulated_cost < max_cost,
    ensures
        final(modifier_costs)@.len() == old(modifier_costs)@.len() + 1,
        pushed(old(modifier_costs)@, final(modifier_costs)@, final(modifier_costs)@.last()),
        final(modifier_costs)@.last() matches Cost::FlatMaxResistanceRequirement(t, v)
            && within_maximum(crafting_info.possible_rolls, t, v)
            && v <= max_cost - accumulated_cost
            && r == crafting_info.possible_rolls.max_resistance.spec_get(t)->0 - v,
{
    let (attack_type, value) = roll_capped_attack_value(random_generator_state, crafting_info, accumulated_cost, max_cost);
    let maximum_value = crafting_info.possible_rolls.max_resistance.get(attack_type).unwrap();
    modifier_costs.push(Cost::FlatMaxResistanceRequirement(attack_type, value));
    maximum_value - value
}

/// Pushes a requirement on the sum of resistances; returns it.
fn add_flat_min_sum_resistance(
    random_generator_state: &mut Lcg64Xsh32,
    crafting_info: &CraftingInfo,
    modifier_costs: &mut Vec<Cost>,
    accumulated_cost: u64,
    max_cost: u64,
) -> (r: u64)
    requires
        craftable(*crafting_info),
        accumulated_cost < max_cost,
    ensures
        pushed(old(modifier_costs)@, final(modifier_costs)@, Cost::FlatMinSumResistanceRequirement(r)),
        r <= max_cost - accumulated_cost,
        r <= crafting_info.possible_rolls.max_resistance.spec_sum(),
{
    let (value, _) = roll_capped_sum(random_generator_state, crafting_info, accumulated_cost, max_cost);
    modifier_costs.push(Cost::FlatMinSumResistanceRequirement(value));
    value
}

/// Pushes an upper bound on the sum of resistances; returns how far it lies below
/// the maximum sum.
fn add_flat_max_sum_resistance(
    random_generator_state: &mut Lcg64Xsh32,
    crafting_info: &CraftingInfo,
    modifier_costs: &mut Vec<Cost>,
    accumulated_cost: u64,
    max_cost: u64,
) -> (r: u64)
    requires
        craftable(*crafting_info),
        accumulated_cost < max_cost,
    ensures
        final(modifier_costs)@.len() == old(modifier_costs)@.len() + 1,
        pushed(old(modifier_costs)@, final(modifier_costs)@, final(modifier_costs)@.last()),
        final(modifier_costs)@.last() matches Cost::FlatMaxSumResistanceRequirement(v)
            && v <= crafting_info.possible_rolls.max_resistance.spec_sum()
            && v <= max_cost - accumulated_cost
            && r == crafting_info.possible_rolls.max_resistance.spec_sum() - v,
{
    let (value, maximum_value) = roll_capped_sum(random_generator_state, crafting_info, accumulated_cost, max_cost);
    modifier_costs.push(Cost::FlatMaxSumResistanceRequirement(value));
    maximum_value - value
}

/// Twice the place count, capped at 255.
fn wins_cap(places_count: usize) -> (r: u8)
    requires
        places_count * 2 <= usize::MAX,
    ensures
        r == wins_bound(places_count),
{
    if places_count * 2 < 255 {
        (places_count * 2) as u8
    } else {
        255
    }
}

/// Pushes a minimum number of wins in a row; returns it.
fn add_min_wins_in_row(
    random_generator_state: &mut Lcg64Xsh32,
    crafting_info: &CraftingInfo,
    modifier_costs: &mut Vec<Cost>,
) -> (r: u64)
    requires
        craftable(*crafting_info),
    ensures
        final(modifier_costs)@.len() == old(modifier_costs)@.len() + 1,
        pushed(old(modifier_costs)@, final(modifier_costs)@, final(modifier_costs)@.last()),
        final(modifier_costs)@.last() matches Cost::MinWinsInARow(v) && v == r
            && rolled_cost(CostSpec::MinWinsInARow(v), *crafting_info),
{
    let cap = wins_cap(crafting_info.places_count);
    let high = if cap < 2 { 2 } else { cap };
    let value = gen_range_u8(random_generator_state, 1, high);
    modifier_costs.push(Cost::MinWinsInARow(value));
    value as u64
}

/// Pushes a maximum number of wins in a row; returns how far it lies below the
/// bound given by the place count.
fn add_max_wins_in_row(
    random_generator_state: &mut Lcg64Xsh32,
    crafting_info: &CraftingInfo,
    modifier_costs: &mut Vec<Cost>,
) -> (r: u64)
    requires
        craftable(*crafting_info),
    ensures
        final(modifier_costs)@.len() == old(modifier_costs)@.len() + 1,
        pushed(old(modifier_costs)@, final(modifier_costs)@, final(modifier_costs)@.last()),
        final(modifier_costs)@.last() matches Cost::MaxWinsInARow(v)
            && rolled_cost(CostSpec::MaxWinsInARow(v), *crafting_info)
            && r == wins_bound(crafting_info.places_count) - v,
{
    let max_value = wins_cap(crafting_info.places_count);
    let high = if max_value < 1 { 1 } else { max_value };
    let value = gen_range_u8(random_generator_state, 0, high);
    modifier_costs.push(Cost::MaxWinsInARow(value));
    (max_value - value) as u64
}

/// Pushes a mana cost; returns its amount.
fn add_flat_item_resource(
    random_generator_state: &mut Lcg64Xsh32,
    modifier_costs: &mut Vec<Cost>,
    accumulated_cost: u64,
    max_cost: u64,
) -> (r: u64)
    requires
        accumulated_cost < max_cost,
    ensures
        pushed(old(modifier_costs)@, final(modifier_costs)@, Cost::FlatItemResource(Type::Mana, r)),
        1 <= r <= max_cost - accumulated_cost,
        r < (if max_cost - accumulated_cost < 2 { 2 } else { max_cost - accumulated_cost }),
{
    let cost = roll_item_resource_amount(random_generator_state, accumulated_cost, max_cost);
    modifier_costs.push(Cost::FlatItemResource(Type::Mana, cost));
    cost
}

/// Rolls the gains of a modifier: one per element count from `minimum_elements`
/// to `maximum_elements`, both included. Each takes a share of the cost budget
/// (the last one what is left) and a random kind among those that the unlocked
/// attack types offer. A share is drawn from `1..=left` while some budget is left
/// and is zero once it is spent.
fn execute_craft_roll_modifier_benefits(
    random_generator_state: &mut Lcg64Xsh32,
    crafting_info: &CraftingInfo,
    cost: u64,
    minimum_elements: usize,
    maximum_elements: usize,
) -> (r: Vec<Gain>)
    requires
        craftable(*crafting_info),
        2 * cost <= u64::MAX,
        maximum_elements <= 255,
    ensures
        r@.len() == (if minimum_elements <= maximum_elements {
            maximum_elements - minimum_elements + 1
        } else {
            0
        }),
        forall|i: int| 0 <= i < r@.len() ==> rolled_gain(#[trigger] r@[i], *crafting_info),
        gains_for_budget(r@, cost as int, *crafting_info),
{
    let attack_types = present_attack_types(&crafting_info.possible_rolls.min_resistance);
    proof {
        lemma_count_some_bound(crafting_info.possible_rolls.min_resistance@, 9);
    }
    let ghost options = gain_options(present_types(crafting_info.possible_rolls.min_resistance@, 9));
    let all_modifier_gain_options = Gain::get_all_given_attack_types(attack_types);
    let mut leftover_cost = cost;
    let mut modifier_gain: Vec<Gain> = Vec::new();
    let ghost mut shares: Seq<u64> = Seq::empty();
    if minimum_elements <= maximum_elements {
        let mut i = minimum_elements;
        while i <= maximum_elements
            invariant
                craftable(*crafting_info),
                minimum_elements <= i <= maximum_elements + 1,
                maximum_elements <= 255,
                modifier_gain@.len() == i - minimum_elements,
                leftover_cost <= cost,
                2 * cost <= u64::MAX,
                all_modifier_gain_options@ == options,
                options == gain_options(present_types(crafting_info.possible_rolls.min_resistance@, 9)),
                forall|k: int| 0 <= k < modifier_gain@.len() ==> rolled_gain(#[trigger] modifier_gain@[k], *crafting_info),
                shares.len() == modifier_gain@.len(),
                share_sum(shares) + leftover_cost == cost,
                forall|k: int| 0 <= k < shares.len() ==> gain_for_share(#[trigger] modifier_gain@[k], shares[k], *crafting_info),
                i <= maximum_elements ==> forall|k: int| 0 <= k < shares.len()
                    ==> (#[trigger] shares[k] >= 1 <==> share_sum(shares.take(k)) < cost),
                i > maximum_elements ==> shares_of(shares, cost as int),
            decreases maximum_elements + 1 - i,
        {
            let cost_bonus = if i == maximum_elements {
                leftover_cost
            } else if leftover_cost == 0 {
                0
            } else {
                gen_range_inclusive_u64(random_generator_state, 1, leftover_cost)
            };
            leftover_cost = leftover_cost - cost_bonus;
            let gain_size = all_modifier_gain_options.len();
            let modifier_index = gen_range_usize(random_generator_state, 0, gain_size);
            let option = all_modifier_gain_options[modifier_index];
            let gain = roll_gain(random_generator_state, crafting_info, cost_bonus, option);
            proof {
                lemma_gain_options_kinds(present_types(crafting_info.possible_rolls.min_resistance@, 9), modifier_index as int);
                assert(options[modifier_index as int] == gain_kind(gain));
                assert(options.contains(gain_kind(gain)));
            }
            let ghost before = modifier_gain@;
            let ghost shares_before = shares;
            modifier_gain.push(gain);
            proof {
                assert forall|k: int| 0 <= k < modifier_gain@.len()
                    implies rolled_gain(#[trigger] modifier_gain@[k], *crafting_info) by {
                    if k < before.len() {
                        assert(modifier_gain@[k] == before[k]);
                    }
                }
                shares = shares.push(cost_bonus);
                assert(shares.drop_last() =~= shares_before);
                assert(shares.take(shares_before.len() as int) =~= shares_before);
                assert forall|k: int| 0 <= k < shares.len()
                    implies gain_for_share(#[trigger] modifier_gain@[k], shares[k], *crafting_info) by {
                    if k < before.len() {
                        assert(modifier_gain@[k] == before[k]);
                        assert(shares[k] == shares_before[k]);
                    }
                }
                assert forall|k: int| 0 <= k < shares_before.len()
                    implies (#[trigger] shares[k] >= 1 <==> share_sum(shares.take(k)) < cost) by {
                    assert(shares[k] == shares_before[k]);
                    assert(shares.take(k) =~= shares_before.take(k));
                }
            }
            i = i + 1;
        }
    }
    assert(shares_of(shares, cost as int));
    modifier_gain
}

/// Every gain that `gain_options` offers has amount zero.
proof fn lemma_gain_options_kinds(types: Seq<AttackType>, k: int)
    requires
        0 <= k < gain_options(types).len(),
    ensures
        gain_kind(gain_options(types)[k]) == gain_options(types)[k],
{
}

/// `x` as a `u16`, saturating at `u16::MAX`.
fn saturating_u16(x: u64) -> (r: u16)
    ensures
        r == (if x <= u16::MAX { x } else { u16::MAX as u64 }),
{
    if x <= 0xffff {
        x as u16
    } else {
        0xffff
    }
}

/// A gain of the same kind as `option` whose amount is drawn from `cost_bonus`:
/// flat damage and flat resistance reduction from a random roll of the attack
/// type; the percentages from the bonus itself; mana from twice the bonus; the
/// gains against the highest and lowest resistance from a half and a quarter of
/// it, and extra rewarded items from a tenth. Amounts other than the flat damage
/// ones are at least one; those that are `u16` saturate.
fn roll_gain(random_generator_state: &mut Lcg64Xsh32, crafting_info: &CraftingInfo, cost_bonus: u64, option: Gain) -> (r: Gain)
    requires
        craftable(*crafting_info),
        2 * cost_bonus <= u64::MAX,
    ensures
        gain_kind(r) == gain_kind(option),
        gain_for_share(r, cost_bonus, *crafting_info),
        match r {
            Gain::FlatDamage(_, _) => true,
            Gain::FlatResistanceReduction(_, _) => true,
            Gain::PercentageIncreaseDamage(_, v) => v >= 1,
            Gain::FlatItemResource(_, v) => v >= 1,
            Gain::PercentageIncreaseResistanceReduction(_, v) => v >= 1,
            Gain::FlatDamageAgainstHighestResistance(v) => v >= 1,
            Gain::PercentageIncreaseDamageAgainstHighestResistance(v) => v >= 1,
            Gain::FlatDamageAgainstLowestResistance(v) => v >= 1,
            Gain::PercentageIncreaseDamageAgainstLowestResistance(v) => v >= 1,
            Gain::PercentageIncreaseTreasure(_, v) => v >= 1,
            Gain::FlatIncreaseRewardedItems(v) => v >= 1,
        },
{
    let at_least_one = if cost_bonus < 1 { 1 } else { cost_bonus };
    let half = if cost_bonus / 2 < 1 { 1 } else { cost_bonus / 2 };
    let quarter = if cost_bonus / 4 < 1 { 1 } else { cost_bonus / 4 };
    let tenth = if cost_bonus / 10 < 1 { 1 } else { cost_bonus / 10 };
    match option {
        Gain::FlatDamage(attack_type, _) => {
            let damage = randomize_flat_damage(random_generator_state, crafting_info, cost_bonus, attack_type);
            Gain::FlatDamage(attack_type, damage)
        },
        Gain::PercentageIncreaseDamage(attack_type, _) => {
            Gain::PercentageIncreaseDamage(attack_type, saturating_u16(at_least_one))
        },
        Gain::FlatItemResource(item_resource_type, _) => {
            let doubled = cost_bonus * 2;
            Gain::FlatItemResource(item_resource_type, if doubled < 1 { 1 } else { doubled })
        },
        Gain::FlatResistanceReduction(attack_type, _) => {
            let damage = randomize_flat_damage(random_generator_state, crafting_info, cost_bonus, attack_type);
            Gain::FlatResistanceReduction(attack_type, damage)
        },
        Gain::PercentageIncreaseResistanceReduction(attack_type, _) => {
            Gain::PercentageIncreaseResistanceReduction(attack_type, saturating_u16(at_least_one))
        },
        Gain::FlatDamageAgainstHighestResistance(_) => Gain::FlatDamageAgainstHighestResistance(half),
        Gain::PercentageIncreaseDamageAgainstHighestResistance(_) => {
            Gain::PercentageIncreaseDamageAgainstHighestResistance(saturating_u16(half))
        },
        Gain::FlatDamageAgainstLowestResistance(_) => Gain::FlatDamageAgainstLowestResistance(quarter),
        Gain::PercentageIncreaseDamageAgainstLowestResistance(_) => {
            Gain::PercentageIncreaseDamageAgainstLowestResistance(saturating_u16(quarter))
        },
        Gain::PercentageIncreaseTreasure(treasure_type, _) => {
            Gain::PercentageIncreaseTreasure(treasure_type, saturating_u16(at_least_one))
        },
        Gain::FlatIncreaseRewardedItems(_) => Gain::FlatIncreaseRewardedItems(saturating_u16(tenth)),
    }
}

/// Flat damage for a gain: a roll within the attack type's bounds (0 and 1 where
/// it is locked), halved and at least one, times twice the cost bonus, saturating
/// at `u64::MAX`.
fn randomize_flat_damage(
    random_generator_state: &mut Lcg64Xsh32,
    crafting_info: &CraftingInfo,
    cost_bonus: u64,
    attack_type: AttackType,
) -> (r: u64)
    requires
        craftable(*crafting_info),
        2 * cost_bonus <= u64::MAX,
    ensures
        exists|v: u64|
            damage_roll_low(*crafting_info, attack_type) <= v <= damage_roll_high(*crafting_info, attack_type)
                && r == #[trigger] flat_damage_amount(v, cost_bonus),
{
    let d = crafting_info.possible_rolls;
    let min_damage = match d.min_resistance.get(attack_type) {
        Some(v) => v,
        None => 0,
    };
    let max_damage = match d.max_resistance.get(attack_type) {
        Some(v) => v,
        None => 1,
    };
    assert(min_damage <= max_damage);
    let raw = gen_range_inclusive_u64(random_generator_state, min_damage, max_damage);
    let rolled = raw / 2;
    let base = if rolled < 1 { 1 } else { rolled };
    let r = match base.checked_mul(cost_bonus * 2) {
        Some(v) => v,
        None => u64::MAX,
    };
    assert(r == flat_damage_amount(raw, cost_bonus));
    r
}

} // verus!
