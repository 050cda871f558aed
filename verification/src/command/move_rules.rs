use vstd::prelude::*;
use crate::attack_types::{attack_index, attack_name, damage_map_text, sum_some, AttackType, DamageMap};
use crate::text::{decimal, push_decimal};
use crate::the_world::item::{Cost, CostSpec, Gain, Item, ItemSpec, Modifier, ModifierSpec};
use crate::the_world::item_resource::{resource_name, resource_text, ResourceMap};
use crate::the_world::place::{amount_or_zero, Place};
use crate::the_world::treasure_types::TreasureBonus;
use crate::attack_types::{attack_at, lemma_attack_index_roundtrip, lemma_attack_at_roundtrip};

verus! {

/// The costs of all modifiers, one modifier after the other.
pub open spec fn all_costs(mods: Seq<ModifierSpec>) -> Seq<CostSpec>
    decreases mods.len(),
{
    if mods.len() == 0 {
        Seq::empty()
    } else {
        all_costs(mods.drop_last()) + mods.last().costs
    }
}

/// The gains of all modifiers, one modifier after the other.
pub open spec fn all_gains(mods: Seq<ModifierSpec>) -> Seq<Gain>
    decreases mods.len(),
{
    if mods.len() == 0 {
        Seq::empty()
    } else {
        all_gains(mods.drop_last()) + mods.last().gains
    }
}

/// Decimal notation of a non-negative integer.
pub open spec fn num(x: int) -> Seq<char> {
    decimal(x as nat)
}

/// Values written as a list, such as `1, 3, 4`.
pub open spec fn u8_items_text(v: Seq<u8>) -> Seq<char>
    decreases v.len(),
{
    if v.len() == 0 {
        Seq::empty()
    } else if v.len() == 1 {
        num(v[0] as int)
    } else {
        u8_items_text(v.drop_last()) + ", "@ + num(v.last() as int)
    }
}

/// What a cost checks, given the damage dealt so far, the item resources, the
/// wins in a row, the place and its index: `None` when it is fulfilled, else
/// the reason. A cost that only consumes resources is always fulfilled here.
pub open spec fn cost_check(
    c: CostSpec,
    damage: Seq<Option<u64>>,
    resources: ResourceMap,
    wins_in_a_row: u64,
    place: Place,
    index: usize,
) -> Option<Seq<char>> {
    match c {
        CostSpec::FlatItemResource(_, _) => None,
        CostSpec::FlatMinItemResourceRequirement(t, amount) => {
            let have = amount_or_zero(resources.mana);
            if have < amount {
                Some(
                    "Did not fulfill the FlatMinItemResourceRequirement of "@ + num(amount as int)
                        + " "@ + resource_name(t) + ", only had "@ + num(have) + "."@,
                )
            } else {
                None
            }
        },
        CostSpec::FlatMaxItemResourceRequirement(t, amount) => {
            let have = amount_or_zero(resources.mana);
            if have > amount {
                Some(
                    "Did not fulfill the FlatMaxItemResourceRequirement of "@ + num(amount as int)
                        + " "@ + resource_name(t) + ", had "@ + num(have)
                        + " and that is too much."@,
                )
            } else {
                None
            }
        },
        CostSpec::FlatMinAttackRequirement(t, amount) => {
            if amount_or_zero(damage[attack_index(t) as int]) < amount {
                Some(
                    "Did not fulfill the FlatMinAttackRequirement of "@ + num(amount as int) + " "@
                        + attack_name(t) + " damage, only did "@ + damage_map_text(damage)
                        + " damage."@,
                )
            } else {
                None
            }
        },
        CostSpec::FlatMaxAttackRequirement(t, amount) => {
            if amount_or_zero(damage[attack_index(t) as int]) > amount {
                Some(
                    "Did not fulfill the FlatMaxAttackRequirement of "@ + num(amount as int) + " "@
                        + attack_name(t) + " damage, did "@ + damage_map_text(damage)
                        + " damage and that is too much."@,
                )
            } else {
                None
            }
        },
        CostSpec::FlatSumMinAttackRequirement(amount) => {
            if sum_some(damage, 9) < amount {
                Some(
                    "Did not fulfill the FlatSumMinAttackRequirement of "@ + num(amount as int)
                        + " damage, only did "@ + damage_map_text(damage) + " damage."@,
                )
            } else {
                None
            }
        },
        CostSpec::FlatSumMaxAttackRequirement(amount) => {
            if sum_some(damage, 9) > amount {
                Some(
                    "Did not fulfill the FlatSumMaxAttackRequirement of "@ + num(amount as int)
                        + " damage, did "@ + damage_map_text(damage)
                        + " damage damage and that is too much."@,
                )
            } else {
                None
            }
        },
        CostSpec::PlaceLimitedByIndexModulus(modulus, valid) => {
            let rest = index as int % modulus as int;
            if !valid.contains(rest as u8) {
                Some(
                    "Did not fulfill the PlaceLimitedByIndexModulus: "@ + num(index as int) + " % "@
                        + num(modulus as int) + " = "@ + num(rest) + " and that is not contained in ["@
                        + u8_items_text(valid) + "]."@,
                )
            } else {
                None
            }
        },
        CostSpec::FlatMinResistanceRequirement(t, amount) => {
            let r = amount_or_zero(place.resistance@[attack_index(t) as int]);
            if r < amount {
                Some(
                    "Did not fulfill the FlatMinResistanceRequirement of "@ + num(amount as int)
                        + " "@ + attack_name(t) + " damage, place only has "@ + num(r) + " damage."@,
                )
            } else {
                None
            }
        },
        CostSpec::FlatMaxResistanceRequirement(t, amount) => {
            let r = amount_or_zero(place.resistance@[attack_index(t) as int]);
            if r > amount {
                Some(
                    "Did not fulfill the FlatMaxResistanceRequirement of "@ + num(amount as int)
                        + " "@ + attack_name(t) + " damage, place has "@ + num(r)
                        + " damage and that is too much."@,
                )
            } else {
                None
            }
        },
        CostSpec::FlatMinSumResistanceRequirement(amount) => {
            let r = sum_some(place.resistance@, 9);
            if r < amount {
                Some(
                    "Did not fulfill the FlatMinSumResistanceRequirement of "@ + num(amount as int)
                        + " damage, place only has "@ + num(r) + " damage."@,
                )
            } else {
                None
            }
        },
        CostSpec::FlatMaxSumResistanceRequirement(amount) => {
            let r = sum_some(place.resistance@, 9);
            if r > amount {
                Some(
                    "Did not fulfill the FlatMaxSumResistanceRequirement of "@ + num(amount as int)
                        + " damage, place has "@ + num(r) + " damage and that is too much."@,
                )
            } else {
                None
            }
        },
        CostSpec::MinWinsInARow(amount) => {
            if wins_in_a_row < amount {
                Some(
                    "Did not fulfill the MinWinsInARow of "@ + num(amount as int) + " win, only hase "@
                        + num(wins_in_a_row as int) + " wins in a row."@,
                )
            } else {
                None
            }
        },
        CostSpec::MaxWinsInARow(amount) => {
            if wins_in_a_row > amount {
                Some(
                    "Did not fulfill the MaxWinsInARow of "@ + num(amount as int) + " win, have "@
                        + num(wins_in_a_row as int) + " wins in a row and that is too much."@,
                )
            } else {
                None
            }
        },
    }
}

/// Checking `c` stays within what a `u64` holds and does not divide by zero.
pub open spec fn cost_check_fits(c: CostSpec, damage: Seq<Option<u64>>, place: Place) -> bool {
    match c {
        CostSpec::FlatSumMinAttackRequirement(_) => sum_some(damage, 9) <= u64::MAX,
        CostSpec::FlatSumMaxAttackRequirement(_) => sum_some(damage, 9) <= u64::MAX,
        CostSpec::FlatMinSumResistanceRequirement(_) => sum_some(place.resistance@, 9) <= u64::MAX,
        CostSpec::FlatMaxSumResistanceRequirement(_) => sum_some(place.resistance@, 9) <= u64::MAX,
        CostSpec::PlaceLimitedByIndexModulus(modulus, _) => modulus != 0,
        _ => true,
    }
}

fn push_u8_items(s: &mut String, v: &Vec<u8>)
    ensures
        final(s)@ == old(s)@ + u8_items_text(v@),
{
    let ghost start = s@;
    let mut i: usize = 0;
    while i < v.len()
        invariant
            i <= v@.len(),
            s@ == start + u8_items_text(v@.subrange(0, i as int)),
        decreases v@.len() - i,
    {
        if i > 0 {
            s.append(", ");
        }
        push_decimal(s, v[i] as u64);
        proof {
            let sub = v@.subrange(0, i + 1);
            assert(sub.drop_last() =~= v@.subrange(0, i as int));
            assert(s@ =~= start + u8_items_text(sub));
        }
        i = i + 1;
    }
    assert(v@.subrange(0, v@.len() as int) =~= v@);
}

fn contains_u8(v: &Vec<u8>, x: u8) -> (r: bool)
    ensures
        r == v@.contains(x),
{
    let mut i: usize = 0;
    while i < v.len()
        invariant
            i <= v@.len(),
            forall|k: int| 0 <= k < i ==> v@[k] != x,
        decreases v@.len() - i,
    {
        if v[i] == x {
            return true;
        }
        i = i + 1;
    }
    false
}

/// Checks one cost; `None` when it is fulfilled, else the reason.
pub fn check_cost(
    c: &Cost,
    damage: &DamageMap,
    resources: &ResourceMap,
    wins_in_a_row: u64,
    place: &Place,
    index: usize,
) -> (r: Option<String>)
    requires
        cost_check_fits(c.deep_view(), damage@, *place),
    ensures
        r is None <==> cost_check(c.deep_view(), damage@, *resources, wins_in_a_row, *place, index) is None,
        r is Some ==> r->0@ == cost_check(c.deep_view(), damage@, *resources, wins_in_a_row, *place, index)->0,
{
    match c {
        Cost::FlatItemResource(_, _) => None,
        Cost::FlatMinItemResourceRequirement(t, amount) => {
            let have = match resources.get(*t) {
                Some(v) => v,
                None => 0,
            };
            if have < *amount {
                let mut s = String::new();
                s.append("Did not fulfill the FlatMinItemResourceRequirement of ");
                push_decimal(&mut s, *amount);
                s.append(" ");
                s.append(t.name());
                s.append(", only had ");
                push_decimal(&mut s, have);
                s.append(".");
                Some(s)
            } else {
                None
            }
        },
        Cost::FlatMaxItemResourceRequirement(t, amount) => {
            let have = match resources.get(*t) {
                Some(v) => v,
                None => 0,
            };
            if have > *amount {
                let mut s = String::new();
                s.append("Did not fulfill the FlatMaxItemResourceRequirement of ");
                push_decimal(&mut s, *amount);
                s.append(" ");
                s.append(t.name());
                s.append(", had ");
                push_decimal(&mut s, have);
                s.append(" and that is too much.");
                Some(s)
            } else {
                None
            }
        },
        Cost::FlatMinAttackRequirement(t, amount) => {
            let dealt = match damage.get(*t) {
                Some(v) => v,
                None => 0,
            };
            if dealt < *amount {
                let mut s = String::new();
                s.append("Did not fulfill the FlatMinAttackRequirement of ");
                push_decimal(&mut s, *amount);
                s.append(" ");
                s.append(t.name());
                s.append(" damage, only did ");
                damage.push_text(&mut s);
                s.append(" damage.");
                Some(s)
            } else {
                None
            }
        },
        Cost::FlatMaxAttackRequirement(t, amount) => {
            let dealt = match damage.get(*t) {
                Some(v) => v,
                None => 0,
            };
            if dealt > *amount {
                let mut s = String::new();
                s.append("Did not fulfill the FlatMaxAttackRequirement of ");
                push_decimal(&mut s, *amount);
                s.append(" ");
                s.append(t.name());
                s.append(" damage, did ");
                damage.push_text(&mut s);
                s.append(" damage and that is too much.");
                Some(s)
            } else {
                None
            }
        },
        Cost::FlatSumMinAttackRequirement(amount) => {
            if damage.sum() < *amount {
                let mut s = String::new();
                s.append("Did not fulfill the FlatSumMinAttackRequirement of ");
                push_decimal(&mut s, *amount);
                s.append(" damage, only did ");
                damage.push_text(&mut s);
                s.append(" damage.");
                Some(s)
            } else {
                None
            }
        },
        Cost::FlatSumMaxAttackRequirement(amount) => {
            if damage.sum() > *amount {
                let mut s = String::new();
                s.append("Did not fulfill the FlatSumMaxAttackRequirement of ");
                push_decimal(&mut s, *amount);
                s.append(" damage, did ");
                damage.push_text(&mut s);
                s.append(" damage damage and that is too much.");
                Some(s)
            } else {
                None
            }
        },
        Cost::PlaceLimitedByIndexModulus(modulus, valid_values) => {
            let rest = index % (*modulus as usize);
            if !contains_u8(valid_values, rest as u8) {
                let mut s = String::new();
                s.append("Did not fulfill the PlaceLimitedByIndexModulus: ");
                push_decimal(&mut s, index as u64);
                s.append(" % ");
                push_decimal(&mut s, *modulus as u64);
                s.append(" = ");
                push_decimal(&mut s, rest as u64);
                s.append(" and that is not contained in [");
                push_u8_items(&mut s, valid_values);
                s.append("].");
                Some(s)
            } else {
                None
            }
        },
        Cost::FlatMinResistanceRequirement(t, amount) => {
            let r = match place.resistance.get(*t) {
                Some(v) => v,
                None => 0,
            };
            if r < *amount {
                let mut s = String::new();
                s.append("Did not fulfill the FlatMinResistanceRequirement of ");
                push_decimal(&mut s, *amount);
                s.append(" ");
                s.append(t.name());
                s.append(" damage, place only has ");
                push_decimal(&mut s, r);
                s.append(" damage.");
                Some(s)
            } else {
                None
            }
        },
        Cost::FlatMaxResistanceRequirement(t, amount) => {
            let r = match place.resistance.get(*t) {
                Some(v) => v,
                None => 0,
            };
            if r > *amount {
                let mut s = String::new();
                s.append("Did not fulfill the FlatMaxResistanceRequirement of ");
                push_decimal(&mut s, *amount);
                s.append(" ");
                s.append(t.name());
                s.append(" damage, place has ");
                push_decimal(&mut s, r);
                s.append(" damage and that is too much.");
                Some(s)
            } else {
                None
            }
        },
        Cost::FlatMinSumResistanceRequirement(amount) => {
            let r = place.resistance.sum();
            if r < *amount {
                let mut s = String::new();
                s.append("Did not fulfill the FlatMinSumResistanceRequirement of ");
                push_decimal(&mut s, *amount);
                s.append(" damage, place only has ");
                push_decimal(&mut s, r);
                s.append(" damage.");
                Some(s)
            } else {
                None
            }
        },
        Cost::FlatMaxSumResistanceRequirement(amount) => {
            let r = place.resistance.sum();
            if r > *amount {
                let mut s = String::new();
                s.append("Did not fulfill the FlatMaxSumResistanceRequirement of ");
                push_decimal(&mut s, *amount);
                s.append(" damage, place has ");
                push_decimal(&mut s, r);
                s.append(" damage and that is too much.");
                Some(s)
            } else {
                None
            }
        },
        Cost::MinWinsInARow(amount) => {
            if wins_in_a_row < *amount as u64 {
                let mut s = String::new();
                s.append("Did not fulfill the MinWinsInARow of ");
                push_decimal(&mut s, *amount as u64);
                s.append(" win, only hase ");
                push_decimal(&mut s, wins_in_a_row);
                s.append(" wins in a row.");
                Some(s)
            } else {
                None
            }
        },
        Cost::MaxWinsInARow(amount) => {
            if wins_in_a_row > *amount as u64 {
                let mut s = String::new();
                s.append("Did not fulfill the MaxWinsInARow of ");
                push_decimal(&mut s, *amount as u64);
                s.append(" win, have ");
                push_decimal(&mut s, wins_in_a_row);
                s.append(" wins in a row and that is too much.");
                Some(s)
            } else {
                None
            }
        },
    }
}


/// Goes through `costs` in order: consuming costs add up the resource price,
/// the others are checked; the first unfulfilled one gives its reason.
pub open spec fn eval_costs(
    costs: Seq<CostSpec>,
    damage: Seq<Option<u64>>,
    resources: ResourceMap,
    wins_in_a_row: u64,
    place: Place,
    index: usize,
) -> Result<Option<u64>, Seq<char>>
    decreases costs.len(),
{
    if costs.len() == 0 {
        Ok(None)
    } else {
        match eval_costs(costs.drop_last(), damage, resources, wins_in_a_row, place, index) {
            Err(e) => Err(e),
            Ok(acc) => match costs.last() {
                CostSpec::FlatItemResource(_, a) => Ok(Some((amount_or_zero(acc) + a) as u64)),
                c => match cost_check(c, damage, resources, wins_in_a_row, place, index) {
                    Some(reason) => Err(reason),
                    None => Ok(acc),
                },
            },
        }
    }
}

/// Going through `costs` stays within what a `u64` holds and does not divide by zero.
pub open spec fn eval_costs_fit(
    costs: Seq<CostSpec>,
    damage: Seq<Option<u64>>,
    resources: ResourceMap,
    wins_in_a_row: u64,
    place: Place,
    index: usize,
) -> bool
    decreases costs.len(),
{
    if costs.len() == 0 {
        true
    } else {
        &&& eval_costs_fit(costs.drop_last(), damage, resources, wins_in_a_row, place, index)
        &&& match eval_costs(costs.drop_last(), damage, resources, wins_in_a_row, place, index) {
            Err(_) => true,
            Ok(acc) => match costs.last() {
                CostSpec::FlatItemResource(_, a) => amount_or_zero(acc) + a <= u64::MAX,
                c => cost_check_fits(c, damage, place),
            },
        }
    }
}

/// Whether `resources` hold every resource that `cost` asks for.
pub open spec fn payable(resources: ResourceMap, cost: ResourceMap) -> bool {
    match cost.mana {
        Some(c) => match resources.mana {
            Some(m) => m >= c,
            None => false,
        },
        None => true,
    }
}

/// `resources` after `cost` is taken from them.
pub open spec fn pay_resources(resources: ResourceMap, cost: ResourceMap) -> ResourceMap {
    match (cost.mana, resources.mana) {
        (Some(c), Some(m)) => ResourceMap { mana: Some((m - c) as u64) },
        _ => resources,
    }
}

/// The reason given when the resource price cannot be paid.
pub open spec fn unpayable_text(cost: ResourceMap, resources: ResourceMap) -> Seq<char> {
    "Were not able to pay all the costs. Had to pay "@ + resource_text(cost) + ", but only had "@
        + resource_text(resources) + " available."@
}

/// What the costs of an item come to: the resource price to pay, or the reason
/// the item does not take effect.
pub open spec fn item_cost_result(
    mods: Seq<ModifierSpec>,
    damage: Seq<Option<u64>>,
    resources: ResourceMap,
    wins_in_a_row: u64,
    place: Place,
    index: usize,
) -> Result<ResourceMap, Seq<char>> {
    match eval_costs(all_costs(mods), damage, resources, wins_in_a_row, place, index) {
        Err(e) => Err(e),
        Ok(acc) => {
            let cost = ResourceMap { mana: acc };
            if payable(resources, cost) {
                Ok(cost)
            } else {
                Err(unpayable_text(cost, resources))
            }
        },
    }
}

proof fn lemma_all_costs_push(mods: Seq<ModifierSpec>, m: ModifierSpec)
    ensures
        all_costs(mods.push(m)) == all_costs(mods) + m.costs,
{
    assert(mods.push(m).drop_last() =~= mods);
}

proof fn lemma_all_gains_push(mods: Seq<ModifierSpec>, m: ModifierSpec)
    ensures
        all_gains(mods.push(m)) == all_gains(mods) + m.gains,
{
    assert(mods.push(m).drop_last() =~= mods);
}

/// Whether `resources` hold every resource that `cost` asks for.
pub fn calculate_are_all_costs_payable(resources: &ResourceMap, cost: &ResourceMap) -> (r: bool)
    ensures
        r == payable(*resources, *cost),
{
    match cost.mana {
        Some(c) => match resources.mana {
            Some(have) => have >= c,
            None => false,
        },
        None => true,
    }
}

/// Takes `cost` from `resources`.
pub fn update_cost_effect(resources: &mut ResourceMap, cost: &ResourceMap)
    requires
        payable(*old(resources), *cost),
    ensures
        *final(resources) == pay_resources(*old(resources), *cost),
{
    match (cost.mana, resources.mana) {
        (Some(c), Some(have)) => {
            resources.mana = Some(have - c);
        },
        _ => {},
    }
}

/// Works out what the costs of `item` come to.
pub fn evaluate_item_costs(
    item: &Item,
    damage: &DamageMap,
    resources: &ResourceMap,
    wins_in_a_row: u64,
    place: &Place,
    index: usize,
) -> (r: Result<ResourceMap, String>)
    requires
        eval_costs_fit(all_costs(item.deep_view().modifiers), damage@, *resources, wins_in_a_row, *place, index),
    ensures
        match item_cost_result(item.deep_view().modifiers, damage@, *resources, wins_in_a_row, *place, index) {
            Ok(cost) => r == Ok::<ResourceMap, String>(cost),
            Err(reason) => r is Err && r->Err_0@ == reason,
        },
{
    let ghost mods = item.deep_view().modifiers;
    let ghost all = all_costs(mods);
    let mut acc: Option<u64> = None;
    let mut m: usize = 0;
    while m < item.modifiers.len()
        invariant
            m <= item.modifiers@.len(),
            mods == item.deep_view().modifiers,
            all == all_costs(mods),
            eval_costs_fit(all, damage@, *resources, wins_in_a_row, *place, index),
            eval_costs(all_costs(mods.subrange(0, m as int)), damage@, *resources, wins_in_a_row, *place, index)
                == Ok::<Option<u64>, Seq<char>>(acc),
            all_costs(mods.subrange(0, m as int)).is_prefix_of(all),
        decreases item.modifiers@.len() - m,
    {
        let modifier = &item.modifiers[m];
        let ghost done = all_costs(mods.subrange(0, m as int));
        proof {
            assert(mods.subrange(0, m + 1) =~= mods.subrange(0, m as int).push(mods[m as int]));
            lemma_all_costs_push(mods.subrange(0, m as int), mods[m as int]);
            lemma_prefix_of_all_costs(mods, m as int + 1);
        }
        let mut c: usize = 0;
        while c < modifier.costs.len()
            invariant
                c <= modifier.costs@.len(),
                mods == item.deep_view().modifiers,
                all == all_costs(mods),
                m < mods.len(),
                modifier.deep_view() == mods[m as int],
                done + mods[m as int].costs == all_costs(mods.subrange(0, m + 1)),
                all_costs(mods.subrange(0, m + 1)).is_prefix_of(all),
                eval_costs_fit(all, damage@, *resources, wins_in_a_row, *place, index),
                eval_costs(done + mods[m as int].costs.subrange(0, c as int), damage@, *resources, wins_in_a_row, *place, index)
                    == Ok::<Option<u64>, Seq<char>>(acc),
            decreases modifier.costs@.len() - c,
        {
            let ghost before = done + mods[m as int].costs.subrange(0, c as int);
            let ghost after = done + mods[m as int].costs.subrange(0, c + 1);
            proof {
                assert(after.drop_last() =~= before);
                assert(after.last() == modifier.costs@[c as int].deep_view());
                lemma_prefix_fit(all, after, damage@, *resources, wins_in_a_row, *place, index);
            }
            let cost = &modifier.costs[c];
            match cost {
                Cost::FlatItemResource(_, a) => {
                    let base = match acc {
                        Some(v) => v,
                        None => 0,
                    };
                    acc = Some(base + *a);
                },
                _ => {
                    let checked = check_cost(cost, damage, resources, wins_in_a_row, place, index);
                    match checked {
                        Some(reason) => {
                            proof {
                                lemma_prefix_error(all, after, damage@, *resources, wins_in_a_row, *place, index);
                            }
                            return Err(reason);
                        },
                        None => {},
                    }
                },
            }
            c = c + 1;
        }
        proof {
            assert(mods[m as int].costs.subrange(0, c as int) =~= mods[m as int].costs);
        }
        m = m + 1;
    }
    proof {
        assert(mods.subrange(0, m as int) =~= mods);
    }
    let cost = ResourceMap { mana: acc };
    if calculate_are_all_costs_payable(resources, &cost) {
        Ok(cost)
    } else {
        let mut s = String::new();
        s.append("Were not able to pay all the costs. Had to pay ");
        cost.push_text(&mut s);
        s.append(", but only had ");
        resources.push_text(&mut s);
        s.append(" available.");
        Err(s)
    }
}

proof fn lemma_prefix_of_all_costs(mods: Seq<ModifierSpec>, k: int)
    requires
        0 <= k <= mods.len(),
    ensures
        all_costs(mods.subrange(0, k)).is_prefix_of(all_costs(mods)),
    decreases mods.len() - k,
{
    if k < mods.len() {
        lemma_prefix_of_all_costs(mods, k + 1);
        assert(mods.subrange(0, k + 1) =~= mods.subrange(0, k).push(mods[k]));
        lemma_all_costs_push(mods.subrange(0, k), mods[k]);
    } else {
        assert(mods.subrange(0, k) =~= mods);
    }
}

/// A prefix of cost lists that fit also fits.
proof fn lemma_prefix_fit(
    all: Seq<CostSpec>,
    pre: Seq<CostSpec>,
    damage: Seq<Option<u64>>,
    resources: ResourceMap,
    wins_in_a_row: u64,
    place: Place,
    index: usize,
)
    requires
        pre.is_prefix_of(all),
        eval_costs_fit(all, damage, resources, wins_in_a_row, place, index),
    ensures
        eval_costs_fit(pre, damage, resources, wins_in_a_row, place, index),
    decreases all.len(),
{
    if pre.len() < all.len() {
        assert(pre.is_prefix_of(all.drop_last()));
        lemma_prefix_fit(all.drop_last(), pre, damage, resources, wins_in_a_row, place, index);
    } else {
        assert(pre =~= all);
    }
}

/// Once a prefix of the costs fails, the whole list fails with the same reason.
proof fn lemma_prefix_error(
    all: Seq<CostSpec>,
    pre: Seq<CostSpec>,
    damage: Seq<Option<u64>>,
    resources: ResourceMap,
    wins_in_a_row: u64,
    place: Place,
    index: usize,
)
    requires
        pre.is_prefix_of(all),
        eval_costs(pre, damage, resources, wins_in_a_row, place, index) is Err,
    ensures
        eval_costs(all, damage, resources, wins_in_a_row, place, index) == eval_costs(
            pre,
            damage,
            resources,
            wins_in_a_row,
            place,
            index,
        ),
    decreases all.len(),
{
    if pre.len() < all.len() {
        assert(pre.is_prefix_of(all.drop_last()));
        lemma_prefix_error(all.drop_last(), pre, damage, resources, wins_in_a_row, place, index);
    } else {
        assert(pre =~= all);
    }
}


/// `base` raised by `percentage` percent: the increase is at least one, and the
/// product and the sum stop at `u64::MAX`.
pub open spec fn multiplied(percentage: u16, base: u64) -> u64 {
    let product = base as int * percentage as int;
    let capped = if product > u64::MAX { u64::MAX as int } else { product };
    let increase = if capped / 100 < 1 { 1 } else { capped / 100 };
    if base + increase > u64::MAX {
        u64::MAX
    } else {
        (base + increase) as u64
    }
}

/// Raises `base_value` by `multiplier_as_percentage` percent, at least by one,
/// stopping at `u64::MAX`.
pub fn add_multiplier_to_base(multiplier_as_percentage: u16, base_value: u64) -> (r: u64)
    ensures
        r == multiplied(multiplier_as_percentage, base_value),
{
    let product = match base_value.checked_mul(multiplier_as_percentage as u64) {
        Some(p) => p,
        None => u64::MAX,
    };
    let divided = product / 100;
    let increase = if divided < 1 { 1 } else { divided };
    match base_value.checked_add(increase) {
        Some(v) => v,
        None => u64::MAX,
    }
}

/// The slot among the first `n` with the largest amount, the earliest on ties;
/// `-1` when all are empty.
pub open spec fn max_slot(s: Seq<Option<u64>>, n: nat) -> int
    decreases n,
{
    if n == 0 {
        -1
    } else {
        let best = max_slot(s, (n - 1) as nat);
        if s[n - 1] is Some && (best == -1 || s[n - 1]->0 > s[best]->0) {
            n - 1
        } else {
            best
        }
    }
}

/// The slot among the first `n` with the smallest amount, the earliest on ties;
/// `-1` when all are empty.
pub open spec fn min_slot(s: Seq<Option<u64>>, n: nat) -> int
    decreases n,
{
    if n == 0 {
        -1
    } else {
        let best = min_slot(s, (n - 1) as nat);
        if s[n - 1] is Some && (best == -1 || s[n - 1]->0 < s[best]->0) {
            n - 1
        } else {
            best
        }
    }
}

proof fn lemma_extreme_slots(s: Seq<Option<u64>>, n: nat)
    requires
        n <= s.len(),
    ensures
        -1 <= max_slot(s, n) < n,
        max_slot(s, n) >= 0 ==> s[max_slot(s, n)] is Some,
        max_slot(s, n) == -1 ==> forall|i: int| 0 <= i < n ==> s[i] is None,
        -1 <= min_slot(s, n) < n,
        min_slot(s, n) >= 0 ==> s[min_slot(s, n)] is Some,
        min_slot(s, n) == -1 ==> forall|i: int| 0 <= i < n ==> s[i] is None,
    decreases n,
{
    if n > 0 {
        lemma_extreme_slots(s, (n - 1) as nat);
    }
}

/// Whether some attack type is present among the first `n` slots.
pub open spec fn any_present(s: Seq<Option<u64>>) -> bool {
    exists|i: int| 0 <= i < 9 && s[i] is Some
}

/// The attack type the place resists most, the earliest in the canonical order on ties.
pub fn get_attack_type_with_max_amount(place: &Place) -> (r: AttackType)
    requires
        any_present(place.resistance@),
    ensures
        attack_index(r) == max_slot(place.resistance@, 9),
{
    let mut best: usize = 9;
    let mut i: usize = 0;
    while i < 9
        invariant
            i <= 9,
            best == 9 ==> max_slot(place.resistance@, i as nat) == -1,
            best != 9 ==> best == max_slot(place.resistance@, i as nat),
            best != 9 ==> best < i,
        decreases 9 - i,
    {
        proof { lemma_extreme_slots(place.resistance@, i as nat); }
        match place.resistance.amounts[i] {
            Some(v) => {
                if best == 9 {
                    best = i;
                } else {
                    match place.resistance.amounts[best] {
                        Some(b) => {
                            if v > b {
                                best = i;
                            }
                        },
                        None => {},
                    }
                }
            },
            None => {},
        }
        i = i + 1;
    }
    proof {
        lemma_extreme_slots(place.resistance@, 9);
        if best == 9 {
            let k = choose|k: int| 0 <= k < 9 && place.resistance@[k] is Some;
            assert(place.resistance@[k] is None);
        }
    }
    AttackType::from_index(best)
}

/// The attack type the place resists least, the earliest in the canonical order on ties.
pub fn get_attack_type_with_min_amount(place: &Place) -> (r: AttackType)
    requires
        any_present(place.resistance@),
    ensures
        attack_index(r) == min_slot(place.resistance@, 9),
{
    let mut best: usize = 9;
    let mut i: usize = 0;
    while i < 9
        invariant
            i <= 9,
            best == 9 ==> min_slot(place.resistance@, i as nat) == -1,
            best != 9 ==> best == min_slot(place.resistance@, i as nat),
            best != 9 ==> best < i,
        decreases 9 - i,
    {
        proof { lemma_extreme_slots(place.resistance@, i as nat); }
        match place.resistance.amounts[i] {
            Some(v) => {
                if best == 9 {
                    best = i;
                } else {
                    match place.resistance.amounts[best] {
                        Some(b) => {
                            if v < b {
                                best = i;
                            }
                        },
                        None => {},
                    }
                }
            },
            None => {},
        }
        i = i + 1;
    }
    proof {
        lemma_extreme_slots(place.resistance@, 9);
        if best == 9 {
            let k = choose|k: int| 0 <= k < 9 && place.resistance@[k] is Some;
            assert(place.resistance@[k] is None);
        }
    }
    AttackType::from_index(best)
}

/// What the gains of the equipped items have added up to during a move.
pub ghost struct MoveAcc {
    pub damage: Seq<Option<u64>>,
    pub reduction: Seq<Option<u64>>,
    pub treasure_bonus: Option<u16>,
    pub item_gain: u16,
    pub resources: ResourceMap,
}

/// The running totals of a move.
#[derive(Clone, Copy, PartialEq, Eq, Debug)]
pub struct Tally {
    pub damage: DamageMap,
    pub reduction: DamageMap,
    pub treasure_bonus: TreasureBonus,
    pub item_gain: u16,
    pub resources: ResourceMap,
}

impl View for Tally {
    type V = MoveAcc;

    open spec fn view(&self) -> MoveAcc {
        MoveAcc {
            damage: self.damage@,
            reduction: self.reduction@,
            treasure_bonus: self.treasure_bonus.gold,
            item_gain: self.item_gain,
            resources: self.resources,
        }
    }
}

/// `s` with `a` added to slot `i`, an empty slot counting as zero.
pub open spec fn add_at(s: Seq<Option<u64>>, i: int, a: u64) -> Seq<Option<u64>> {
    s.update(i, Some((amount_or_zero(s[i]) + a) as u64))
}

/// `s` with slot `i` raised by `p` percent, if the slot holds an amount.
pub open spec fn scale_at(s: Seq<Option<u64>>, i: int, p: u16) -> Seq<Option<u64>> {
    match s[i] {
        Some(v) => s.update(i, Some(multiplied(p, v))),
        None => s,
    }
}

/// A percentage bonus, zero when there is none.
pub open spec fn bonus_or_zero(b: Option<u16>) -> int {
    match b {
        Some(v) => v as int,
        None => 0,
    }
}

/// The totals after one gain takes effect at `place`.
pub open spec fn apply_gain(acc: MoveAcc, g: Gain, place: Place) -> MoveAcc {
    match g {
        Gain::FlatDamage(t, a) => MoveAcc { damage: add_at(acc.damage, attack_index(t) as int, a), ..acc },
        Gain::PercentageIncreaseDamage(t, p) => MoveAcc {
            damage: scale_at(acc.damage, attack_index(t) as int, p),
            ..acc
        },
        Gain::FlatItemResource(_, a) => MoveAcc {
            resources: ResourceMap { mana: Some((amount_or_zero(acc.resources.mana) + a) as u64) },
            ..acc
        },
        Gain::FlatResistanceReduction(t, a) => MoveAcc {
            reduction: add_at(acc.reduction, attack_index(t) as int, a),
            ..acc
        },
        Gain::PercentageIncreaseResistanceReduction(t, p) => MoveAcc {
            reduction: scale_at(acc.reduction, attack_index(t) as int, p),
            ..acc
        },
        Gain::FlatDamageAgainstHighestResistance(a) => MoveAcc {
            damage: add_at(acc.damage, max_slot(place.resistance@, 9), a),
            ..acc
        },
        Gain::PercentageIncreaseDamageAgainstHighestResistance(p) => MoveAcc {
            damage: scale_at(acc.damage, max_slot(place.resistance@, 9), p),
            ..acc
        },
        Gain::FlatDamageAgainstLowestResistance(a) => MoveAcc {
            damage: add_at(acc.damage, min_slot(place.resistance@, 9), a),
            ..acc
        },
        Gain::PercentageIncreaseDamageAgainstLowestResistance(p) => MoveAcc {
            damage: scale_at(acc.damage, min_slot(place.resistance@, 9), p),
            ..acc
        },
        Gain::PercentageIncreaseTreasure(_, p) => MoveAcc {
            treasure_bonus: Some((bonus_or_zero(acc.treasure_bonus) + p) as u16),
            ..acc
        },
        Gain::FlatIncreaseRewardedItems(a) => MoveAcc {
            item_gain: if acc.item_gain + a > u16::MAX {
                u16::MAX
            } else {
                (acc.item_gain + a) as u16
            },
            ..acc
        },
    }
}

/// Applying `g` stays within the integer types, and a gain aimed at the
/// highest or lowest resistance has a resistance to aim at.
pub open spec fn gain_fits(acc: MoveAcc, g: Gain, place: Place) -> bool {
    match g {
        Gain::FlatDamage(t, a) => amount_or_zero(acc.damage[attack_index(t) as int]) + a <= u64::MAX,
        Gain::FlatItemResource(_, a) => amount_or_zero(acc.resources.mana) + a <= u64::MAX,
        Gain::FlatResistanceReduction(t, a) => amount_or_zero(acc.reduction[attack_index(t) as int])
            + a <= u64::MAX,
        Gain::FlatDamageAgainstHighestResistance(a) => any_present(place.resistance@)
            && amount_or_zero(acc.damage[max_slot(place.resistance@, 9)]) + a <= u64::MAX,
        Gain::PercentageIncreaseDamageAgainstHighestResistance(_) => any_present(place.resistance@),
        Gain::FlatDamageAgainstLowestResistance(a) => any_present(place.resistance@)
            && amount_or_zero(acc.damage[min_slot(place.resistance@, 9)]) + a <= u64::MAX,
        Gain::PercentageIncreaseDamageAgainstLowestResistance(_) => any_present(place.resistance@),
        Gain::PercentageIncreaseTreasure(_, p) => bonus_or_zero(acc.treasure_bonus) + p <= u16::MAX,
        _ => true,
    }
}

/// The totals after the gains `gs` take effect one after the other.
pub open spec fn apply_gains(acc: MoveAcc, gs: Seq<Gain>, place: Place) -> MoveAcc
    decreases gs.len(),
{
    if gs.len() == 0 {
        acc
    } else {
        apply_gain(apply_gains(acc, gs.drop_last(), place), gs.last(), place)
    }
}

/// Every gain of `gs` fits when it takes effect.
pub open spec fn gains_fit(acc: MoveAcc, gs: Seq<Gain>, place: Place) -> bool
    decreases gs.len(),
{
    if gs.len() == 0 {
        true
    } else {
        gains_fit(acc, gs.drop_last(), place) && gain_fits(
            apply_gains(acc, gs.drop_last(), place),
            gs.last(),
            place,
        )
    }
}

fn add_to_slot(m: &mut DamageMap, t: AttackType, a: u64)
    requires
        amount_or_zero(old(m)@[attack_index(t) as int]) + a <= u64::MAX,
    ensures
        final(m)@ == add_at(old(m)@, attack_index(t) as int, a),
{
    let base = match m.get(t) {
        Some(v) => v,
        None => 0,
    };
    m.insert(t, base + a);
}

/// Raises the amount of `t` in `m` by `p` percent, if `m` holds one.
pub fn add_multiplier_to_attack_type_base(m: &mut DamageMap, t: AttackType, p: u16)
    ensures
        final(m)@ == scale_at(old(m)@, attack_index(t) as int, p),
{
    match m.get(t) {
        Some(v) => {
            m.insert(t, add_multiplier_to_base(p, v));
        },
        None => {},
    }
}

/// Lets one gain take effect at `place`.
pub fn apply_one_gain(tally: &mut Tally, gain: &Gain, place: &Place)
    requires
        gain_fits(old(tally)@, *gain, *place),
    ensures
        final(tally)@ == apply_gain(old(tally)@, *gain, *place),
{
    proof {
        lemma_extreme_slots(place.resistance@, 9);
    }
    match gain {
        Gain::FlatDamage(t, a) => {
            add_to_slot(&mut tally.damage, *t, *a);
        },
        Gain::PercentageIncreaseDamage(t, p) => {
            add_multiplier_to_attack_type_base(&mut tally.damage, *t, *p);
        },
        Gain::FlatItemResource(t, a) => {
            let base = match tally.resources.get(*t) {
                Some(v) => v,
                None => 0,
            };
            tally.resources.insert(*t, base + *a);
        },
        Gain::FlatResistanceReduction(t, a) => {
            add_to_slot(&mut tally.reduction, *t, *a);
        },
        Gain::PercentageIncreaseResistanceReduction(t, p) => {
            add_multiplier_to_attack_type_base(&mut tally.reduction, *t, *p);
        },
        Gain::FlatDamageAgainstHighestResistance(a) => {
            let t = get_attack_type_with_max_amount(place);
            add_to_slot(&mut tally.damage, t, *a);
        },
        Gain::PercentageIncreaseDamageAgainstHighestResistance(p) => {
            let t = get_attack_type_with_max_amount(place);
            add_multiplier_to_attack_type_base(&mut tally.damage, t, *p);
        },
        Gain::FlatDamageAgainstLowestResistance(a) => {
            let t = get_attack_type_with_min_amount(place);
            add_to_slot(&mut tally.damage, t, *a);
        },
        Gain::PercentageIncreaseDamageAgainstLowestResistance(p) => {
            let t = get_attack_type_with_min_amount(place);
            add_multiplier_to_attack_type_base(&mut tally.damage, t, *p);
        },
        Gain::PercentageIncreaseTreasure(_, p) => {
            let base = match tally.treasure_bonus.gold {
                Some(b) => b,
                None => 0,
            };
            tally.treasure_bonus.gold = Some(base + *p);
        },
        Gain::FlatIncreaseRewardedItems(a) => {
            tally.item_gain = tally.item_gain.saturating_add(*a);
        },
    }
}


proof fn lemma_gains_prefix_fit(acc: MoveAcc, all: Seq<Gain>, pre: Seq<Gain>, place: Place)
    requires
        pre.is_prefix_of(all),
        gains_fit(acc, all, place),
    ensures
        gains_fit(acc, pre, place),
    decreases all.len(),
{
    if pre.len() < all.len() {
        assert(pre.is_prefix_of(all.drop_last()));
        lemma_gains_prefix_fit(acc, all.drop_last(), pre, place);
    } else {
        assert(pre =~= all);
    }
}

proof fn lemma_prefix_of_all_gains(mods: Seq<ModifierSpec>, k: int)
    requires
        0 <= k <= mods.len(),
    ensures
        all_gains(mods.subrange(0, k)).is_prefix_of(all_gains(mods)),
    decreases mods.len() - k,
{
    if k < mods.len() {
        lemma_prefix_of_all_gains(mods, k + 1);
        assert(mods.subrange(0, k + 1) =~= mods.subrange(0, k).push(mods[k]));
        lemma_all_gains_push(mods.subrange(0, k), mods[k]);
    } else {
        assert(mods.subrange(0, k) =~= mods);
    }
}

/// Lets every gain of every modifier of `item` take effect, in order.
pub fn update_gain_effect(tally: &mut Tally, item: &Item, place: &Place)
    requires
        gains_fit(old(tally)@, all_gains(item.deep_view().modifiers), *place),
    ensures
        final(tally)@ == apply_gains(old(tally)@, all_gains(item.deep_view().modifiers), *place),
{
    let ghost mods = item.deep_view().modifiers;
    let ghost all = all_gains(mods);
    let ghost start = tally@;
    let mut m: usize = 0;
    while m < item.modifiers.len()
        invariant
            m <= item.modifiers@.len(),
            mods == item.deep_view().modifiers,
            all == all_gains(mods),
            gains_fit(start, all, *place),
            tally@ == apply_gains(start, all_gains(mods.subrange(0, m as int)), *place),
            all_gains(mods.subrange(0, m as int)).is_prefix_of(all),
        decreases item.modifiers@.len() - m,
    {
        let modifier = &item.modifiers[m];
        let ghost done = all_gains(mods.subrange(0, m as int));
        proof {
            assert(mods.subrange(0, m + 1) =~= mods.subrange(0, m as int).push(mods[m as int]));
            lemma_all_gains_push(mods.subrange(0, m as int), mods[m as int]);
            lemma_prefix_of_all_gains(mods, m as int + 1);
        }
        let mut g: usize = 0;
        while g < modifier.gains.len()
            invariant
                g <= modifier.gains@.len(),
                mods == item.deep_view().modifiers,
                all == all_gains(mods),
                m < mods.len(),
                modifier.deep_view() == mods[m as int],
                done + mods[m as int].gains == all_gains(mods.subrange(0, m + 1)),
                all_gains(mods.subrange(0, m + 1)).is_prefix_of(all),
                gains_fit(start, all, *place),
                tally@ == apply_gains(start, done + mods[m as int].gains.subrange(0, g as int), *place),
            decreases modifier.gains@.len() - g,
        {
            let ghost before = done + mods[m as int].gains.subrange(0, g as int);
            let ghost after = done + mods[m as int].gains.subrange(0, g + 1);
            proof {
                assert(after.drop_last() =~= before);
                assert(after.last() == modifier.gains@[g as int]);
                assert(after.is_prefix_of(all));
                lemma_gains_prefix_fit(start, all, after, *place);
            }
            apply_one_gain(tally, &modifier.gains[g], place);
            g = g + 1;
        }
        proof {
            assert(mods[m as int].gains.subrange(0, g as int) =~= mods[m as int].gains);
        }
        m = m + 1;
    }
    proof {
        assert(mods.subrange(0, m as int) =~= mods);
    }
}

/// `b` holds at least what `a` holds: every damage and resistance reduction
/// present in `a` is present in `b` and not smaller, and the treasure bonus,
/// the rewarded items and the mana are not smaller (a present bonus or mana
/// stays present).
pub open spec fn tally_grows(a: MoveAcc, b: MoveAcc) -> bool {
    &&& b.damage.len() == a.damage.len()
    &&& b.reduction.len() == a.reduction.len()
    &&& forall|i: int| 0 <= i < a.damage.len() ==> (#[trigger] a.damage[i] is Some ==> b.damage[i] is Some
        && a.damage[i]->0 <= b.damage[i]->0)
    &&& forall|i: int| 0 <= i < a.reduction.len() ==> (#[trigger] a.reduction[i] is Some
        ==> b.reduction[i] is Some && a.reduction[i]->0 <= b.reduction[i]->0)
    &&& (a.treasure_bonus is Some ==> b.treasure_bonus is Some)
    &&& bonus_or_zero(a.treasure_bonus) <= bonus_or_zero(b.treasure_bonus)
    &&& a.item_gain <= b.item_gain
    &&& (a.resources.mana is Some ==> b.resources.mana is Some)
    &&& amount_or_zero(a.resources.mana) <= amount_or_zero(b.resources.mana)
}

proof fn lemma_tally_grows_transitive(a: MoveAcc, b: MoveAcc, c: MoveAcc)
    requires
        tally_grows(a, b),
        tally_grows(b, c),
    ensures
        tally_grows(a, c),
{
    assert forall|i: int| 0 <= i < a.damage.len() implies (#[trigger] a.damage[i] is Some ==> c.damage[i] is Some
        && a.damage[i]->0 <= c.damage[i]->0) by {
        if a.damage[i] is Some {
            assert(b.damage[i] is Some);
        }
    }
    assert forall|i: int| 0 <= i < a.reduction.len() implies (#[trigger] a.reduction[i] is Some
        ==> c.reduction[i] is Some && a.reduction[i]->0 <= c.reduction[i]->0) by {
        if a.reduction[i] is Some {
            assert(b.reduction[i] is Some);
        }
    }
}

/// One gain never lowers what a move has added up.
proof fn lemma_gain_grows(acc: MoveAcc, g: Gain, place: Place)
    requires
        acc.damage.len() == 9,
        acc.reduction.len() == 9,
        gain_fits(acc, g, place),
    ensures
        tally_grows(acc, apply_gain(acc, g, place)),
{
    lemma_extreme_slots(place.resistance@, 9);
    let b = apply_gain(acc, g, place);
    assert forall|i: int| 0 <= i < acc.damage.len() implies (#[trigger] acc.damage[i] is Some ==> b.damage[i] is Some
        && acc.damage[i]->0 <= b.damage[i]->0) by {
    }
    assert forall|i: int| 0 <= i < acc.reduction.len() implies (#[trigger] acc.reduction[i] is Some
        ==> b.reduction[i] is Some && acc.reduction[i]->0 <= b.reduction[i]->0) by {
    }
}

/// Gains never lower what a move has added up: applying any gains that fit,
/// one after the other, leaves every damage and resistance reduction present
/// and not smaller, and the treasure bonus, the rewarded items and the mana not
/// smaller. `update_gain_effect` applies exactly these gains.
pub proof fn lemma_gains_never_lower(acc: MoveAcc, gs: Seq<Gain>, place: Place)
    requires
        acc.damage.len() == 9,
        acc.reduction.len() == 9,
        gains_fit(acc, gs, place),
    ensures
        tally_grows(acc, apply_gains(acc, gs, place)),
    decreases gs.len(),
{
    if gs.len() == 0 {
    } else {
        let pre = gs.drop_last();
        lemma_gains_never_lower(acc, pre, place);
        let mid = apply_gains(acc, pre, place);
        lemma_gain_grows(mid, gs.last(), place);
        lemma_tally_grows_transitive(acc, mid, apply_gains(acc, gs, place));
    }
}

/// Once a prefix of the costs fails, the whole list fits as far as the prefix does.
proof fn lemma_error_rest_fits(
    all: Seq<CostSpec>,
    pre: Seq<CostSpec>,
    damage: Seq<Option<u64>>,
    resources: ResourceMap,
    wins_in_a_row: u64,
    place: Place,
    index: usize,
)
    requires
        pre.is_prefix_of(all),
        eval_costs(pre, damage, resources, wins_in_a_row, place, index) is Err,
        eval_costs_fit(pre, damage, resources, wins_in_a_row, place, index),
    ensures
        eval_costs_fit(all, damage, resources, wins_in_a_row, place, index),
    decreases all.len(),
{
    if pre.len() < all.len() {
        assert(pre.is_prefix_of(all.drop_last()));
        lemma_error_rest_fits(all.drop_last(), pre, damage, resources, wins_in_a_row, place, index);
        lemma_prefix_error(all.drop_last(), pre, damage, resources, wins_in_a_row, place, index);
    } else {
        assert(pre =~= all);
    }
}

/// Whether checking `c` stays within what a `u64` holds and does not divide by zero.
fn cost_fits_check(c: &Cost, damage: &DamageMap, place: &Place) -> (r: bool)
    ensures
        r == cost_check_fits(c.deep_view(), damage@, *place),
{
    match c {
        Cost::FlatSumMinAttackRequirement(_) => damage.checked_sum().is_some(),
        Cost::FlatSumMaxAttackRequirement(_) => damage.checked_sum().is_some(),
        Cost::FlatMinSumResistanceRequirement(_) => place.resistance.checked_sum().is_some(),
        Cost::FlatMaxSumResistanceRequirement(_) => place.resistance.checked_sum().is_some(),
        Cost::PlaceLimitedByIndexModulus(modulus, _) => *modulus != 0,
        _ => true,
    }
}

/// Whether going through the costs of `item` stays within what a `u64` holds
/// and does not divide by zero.
pub fn costs_fit_check(
    item: &Item,
    damage: &DamageMap,
    resources: &ResourceMap,
    wins_in_a_row: u64,
    place: &Place,
    index: usize,
) -> (r: bool)
    ensures
        r == eval_costs_fit(all_costs(item.deep_view().modifiers), damage@, *resources, wins_in_a_row, *place, index),
{
    let ghost mods = item.deep_view().modifiers;
    let ghost all = all_costs(mods);
    let mut acc: Option<u64> = None;
    let mut m: usize = 0;
    while m < item.modifiers.len()
        invariant
            m <= item.modifiers@.len(),
            mods == item.deep_view().modifiers,
            all == all_costs(mods),
            eval_costs_fit(all_costs(mods.subrange(0, m as int)), damage@, *resources, wins_in_a_row, *place, index),
            eval_costs(all_costs(mods.subrange(0, m as int)), damage@, *resources, wins_in_a_row, *place, index)
                == Ok::<Option<u64>, Seq<char>>(acc),
            all_costs(mods.subrange(0, m as int)).is_prefix_of(all),
        decreases item.modifiers@.len() - m,
    {
        let modifier = &item.modifiers[m];
        let ghost done = all_costs(mods.subrange(0, m as int));
        proof {
            assert(mods.subrange(0, m + 1) =~= mods.subrange(0, m as int).push(mods[m as int]));
            lemma_all_costs_push(mods.subrange(0, m as int), mods[m as int]);
            lemma_prefix_of_all_costs(mods, m as int + 1);
        }
        let mut c: usize = 0;
        while c < modifier.costs.len()
            invariant
                c <= modifier.costs@.len(),
                mods == item.deep_view().modifiers,
                all == all_costs(mods),
                m < mods.len(),
                modifier.deep_view() == mods[m as int],
                done + mods[m as int].costs == all_costs(mods.subrange(0, m + 1)),
                all_costs(mods.subrange(0, m + 1)).is_prefix_of(all),
                eval_costs_fit(done + mods[m as int].costs.subrange(0, c as int), damage@, *resources, wins_in_a_row, *place, index),
                eval_costs(done + mods[m as int].costs.subrange(0, c as int), damage@, *resources, wins_in_a_row, *place, index)
                    == Ok::<Option<u64>, Seq<char>>(acc),
            decreases modifier.costs@.len() - c,
        {
            let ghost before = done + mods[m as int].costs.subrange(0, c as int);
            let ghost after = done + mods[m as int].costs.subrange(0, c + 1);
            proof {
                assert(after.drop_last() =~= before);
                assert(after.last() == modifier.costs@[c as int].deep_view());
                assert(after.is_prefix_of(all));
            }
            let cost = &modifier.costs[c];
            match cost {
                Cost::FlatItemResource(_, a) => {
                    let base = match acc {
                        Some(v) => v,
                        None => 0,
                    };
                    match base.checked_add(*a) {
                        Some(v) => {
                            acc = Some(v);
                        },
                        None => {
                            proof {
                                if eval_costs_fit(all, damage@, *resources, wins_in_a_row, *place, index) {
                                    lemma_prefix_fit(all, after, damage@, *resources, wins_in_a_row, *place, index);
                                }
                            }
                            return false;
                        },
                    }
                },
                _ => {
                    if !cost_fits_check(cost, damage, place) {
                        proof {
                            if eval_costs_fit(all, damage@, *resources, wins_in_a_row, *place, index) {
                                lemma_prefix_fit(all, after, damage@, *resources, wins_in_a_row, *place, index);
                            }
                        }
                        return false;
                    }
                    let checked = check_cost(cost, damage, resources, wins_in_a_row, place, index);
                    match checked {
                        Some(_) => {
                            proof {
                                lemma_error_rest_fits(all, after, damage@, *resources, wins_in_a_row, *place, index);
                            }
                            return true;
                        },
                        None => {},
                    }
                },
            }
            c = c + 1;
        }
        proof {
            assert(mods[m as int].costs.subrange(0, c as int) =~= mods[m as int].costs);
        }
        m = m + 1;
    }
    proof {
        assert(mods.subrange(0, m as int) =~= mods);
    }
    true
}

/// Whether the place resists some attack type.
fn any_resistance(place: &Place) -> (r: bool)
    ensures
        r == any_present(place.resistance@),
{
    let mut i: usize = 0;
    while i < 9
        invariant
            i <= 9,
            forall|k: int| 0 <= k < i ==> place.resistance@[k] is None,
        decreases 9 - i,
    {
        if place.resistance.amounts[i].is_some() {
            assert(place.resistance@[i as int] is Some);
            return true;
        }
        i = i + 1;
    }
    false
}

/// `v` plus `a` fits in `u64`, where `v` is an amount or zero where absent.
fn fits_added(v: Option<u64>, a: u64) -> (r: bool)
    ensures
        r == (amount_or_zero(v) + a <= u64::MAX),
{
    let base = match v {
        Some(b) => b,
        None => 0,
    };
    base.checked_add(a).is_some()
}

/// Whether applying `gain` to `tally` at `place` fits (see `gain_fits`).
fn gain_fits_check(tally: &Tally, gain: &Gain, place: &Place) -> (r: bool)
    ensures
        r == gain_fits(tally@, *gain, *place),
{
    match gain {
        Gain::FlatDamage(t, a) => fits_added(tally.damage.get(*t), *a),
        Gain::FlatItemResource(t, a) => fits_added(tally.resources.get(*t), *a),
        Gain::FlatResistanceReduction(t, a) => fits_added(tally.reduction.get(*t), *a),
        Gain::FlatDamageAgainstHighestResistance(a) => {
            if !any_resistance(place) {
                return false;
            }
            let t = get_attack_type_with_max_amount(place);
            fits_added(tally.damage.get(t), *a)
        },
        Gain::PercentageIncreaseDamageAgainstHighestResistance(_) => any_resistance(place),
        Gain::FlatDamageAgainstLowestResistance(a) => {
            if !any_resistance(place) {
                return false;
            }
            let t = get_attack_type_with_min_amount(place);
            fits_added(tally.damage.get(t), *a)
        },
        Gain::PercentageIncreaseDamageAgainstLowestResistance(_) => any_resistance(place),
        Gain::PercentageIncreaseTreasure(_, p) => {
            let base = match tally.treasure_bonus.gold {
                Some(b) => b,
                None => 0,
            };
            base.checked_add(*p).is_some()
        },
        _ => true,
    }
}

/// Whether the gains of every modifier of `item` fit when they take effect
/// on `tally` at `place`, one after the other.
pub fn gains_fit_check(tally: &Tally, item: &Item, place: &Place) -> (r: bool)
    ensures
        r == gains_fit(tally@, all_gains(item.deep_view().modifiers), *place),
{
    let ghost mods = item.deep_view().modifiers;
    let ghost all = all_gains(mods);
    let ghost start = tally@;
    let mut copy = *tally;
    let mut m: usize = 0;
    while m < item.modifiers.len()
        invariant
            m <= item.modifiers@.len(),
            mods == item.deep_view().modifiers,
            all == all_gains(mods),
            start == tally@,
            gains_fit(start, all_gains(mods.subrange(0, m as int)), *place),
            copy@ == apply_gains(start, all_gains(mods.subrange(0, m as int)), *place),
            all_gains(mods.subrange(0, m as int)).is_prefix_of(all),
        decreases item.modifiers@.len() - m,
    {
        let modifier = &item.modifiers[m];
        let ghost done = all_gains(mods.subrange(0, m as int));
        proof {
            assert(mods.subrange(0, m + 1) =~= mods.subrange(0, m as int).push(mods[m as int]));
            lemma_all_gains_push(mods.subrange(0, m as int), mods[m as int]);
            lemma_prefix_of_all_gains(mods, m as int + 1);
        }
        let mut g: usize = 0;
        while g < modifier.gains.len()
            invariant
                g <= modifier.gains@.len(),
                mods == item.deep_view().modifiers,
                all == all_gains(mods),
                start == tally@,
                m < mods.len(),
                modifier.deep_view() == mods[m as int],
                done + mods[m as int].gains == all_gains(mods.subrange(0, m + 1)),
                all_gains(mods.subrange(0, m + 1)).is_prefix_of(all),
                gains_fit(start, done + mods[m as int].gains.subrange(0, g as int), *place),
                copy@ == apply_gains(start, done + mods[m as int].gains.subrange(0, g as int), *place),
            decreases modifier.gains@.len() - g,
        {
            let ghost before = done + mods[m as int].gains.subrange(0, g as int);
            let ghost after = done + mods[m as int].gains.subrange(0, g + 1);
            proof {
                assert(after.drop_last() =~= before);
                assert(after.last() == modifier.gains@[g as int]);
                assert(after.is_prefix_of(all));
            }
            if !gain_fits_check(&copy, &modifier.gains[g], place) {
                proof {
                    if gains_fit(start, all, *place) {
                        lemma_gains_prefix_fit(start, all, after, *place);
                    }
                }
                return false;
            }
            apply_one_gain(&mut copy, &modifier.gains[g], place);
            g = g + 1;
        }
        proof {
            assert(mods[m as int].gains.subrange(0, g as int) =~= mods[m as int].gains);
        }
        m = m + 1;
    }
    proof {
        assert(mods.subrange(0, m as int) =~= mods);
    }
    true
}

/// When a cost of an item is fulfilled during a move: a consuming mana cost
/// always (it is paid afterwards); a minimum (maximum) requirement when the
/// mana, the damage of its attack type dealt so far, the sum of that damage,
/// the place's resistance to its attack type, the sum of the place's
/// resistances, or the wins in a row are at least (at most) its amount; and a
/// place modulus when the place's index modulo it is one of its values.
pub proof fn lemma_cost_fulfilled_when(
    c: CostSpec,
    damage: Seq<Option<u64>>,
    resources: ResourceMap,
    wins_in_a_row: u64,
    place: Place,
    index: usize,
)
    ensures
        match c {
            CostSpec::PlaceLimitedByIndexModulus(m, vs) => m > 0 ==> (
                (cost_check(c, damage, resources, wins_in_a_row, place, index) is None)
                    <==> vs.contains((index as int % m as int) as u8)),
            _ => true,
        },
        !(c is PlaceLimitedByIndexModulus) ==> ((cost_check(c, damage, resources, wins_in_a_row, place, index) is None)
            <==> match c {
            CostSpec::FlatItemResource(_, _) => true,
            CostSpec::FlatMinItemResourceRequirement(_, a) => match resources.mana {
                Some(v) => v >= a,
                None => 0 >= a,
            },
            CostSpec::FlatMaxItemResourceRequirement(_, a) => match resources.mana {
                Some(v) => v <= a,
                None => true,
            },
            CostSpec::FlatMinAttackRequirement(t, a) => match damage[attack_index(t) as int] {
                Some(v) => v >= a,
                None => 0 >= a,
            },
            CostSpec::FlatMaxAttackRequirement(t, a) => match damage[attack_index(t) as int] {
                Some(v) => v <= a,
                None => true,
            },
            CostSpec::FlatSumMinAttackRequirement(a) => sum_some(damage, 9) >= a,
            CostSpec::FlatSumMaxAttackRequirement(a) => sum_some(damage, 9) <= a,
            CostSpec::FlatMinResistanceRequirement(t, a) => match place.resistance@[attack_index(t) as int] {
                Some(v) => v >= a,
                None => 0 >= a,
            },
            CostSpec::FlatMaxResistanceRequirement(t, a) => match place.resistance@[attack_index(t) as int] {
                Some(v) => v <= a,
                None => true,
            },
            CostSpec::FlatMinSumResistanceRequirement(a) => sum_some(place.resistance@, 9) >= a,
            CostSpec::FlatMaxSumResistanceRequirement(a) => sum_some(place.resistance@, 9) <= a,
            CostSpec::MinWinsInARow(a) => wins_in_a_row >= a,
            CostSpec::MaxWinsInARow(a) => wins_in_a_row <= a,
            CostSpec::PlaceLimitedByIndexModulus(_, _) => true,
        }),
{
}

/// The slot a gain against the highest (lowest) resistance aims at holds the
/// largest (smallest) resistance of the place: it is present, and no present
/// resistance is larger (smaller).
pub proof fn lemma_extreme_slots_are_extreme(s: Seq<Option<u64>>)
    requires
        s.len() == 9,
        exists|i: int| 0 <= i < 9 && s[i] is Some,
    ensures
        0 <= max_slot(s, 9) < 9,
        s[max_slot(s, 9)] is Some,
        forall|j: int| 0 <= j < 9 && (#[trigger] s[j]) is Some ==> s[j]->0 <= s[max_slot(s, 9)]->0,
        0 <= min_slot(s, 9) < 9,
        s[min_slot(s, 9)] is Some,
        forall|j: int| 0 <= j < 9 && (#[trigger] s[j]) is Some ==> s[j]->0 >= s[min_slot(s, 9)]->0,
{
    lemma_extreme_slots(s, 9);
    lemma_extreme_slots_bound(s, 9);
}

proof fn lemma_extreme_slots_bound(s: Seq<Option<u64>>, n: nat)
    requires
        n <= s.len(),
    ensures
        max_slot(s, n) >= 0 ==> forall|j: int| 0 <= j < n && (#[trigger] s[j]) is Some
            ==> s[j]->0 <= s[max_slot(s, n)]->0,
        min_slot(s, n) >= 0 ==> forall|j: int| 0 <= j < n && (#[trigger] s[j]) is Some
            ==> s[j]->0 >= s[min_slot(s, n)]->0,
    decreases n,
{
    if n > 0 {
        lemma_extreme_slots_bound(s, (n - 1) as nat);
        lemma_extreme_slots(s, (n - 1) as nat);
        lemma_extreme_slots(s, n);
    }
}

/// What one gain does to the totals of a move, where it fits: flat damage,
/// resistance reduction and mana add their amount (an absent one counting as
/// zero); percentage increases raise a present amount by that percentage of
/// it, at least by one, stopping at `u64::MAX`, and leave an absent one
/// absent; treasure bonuses add up; extra rewarded items add up, stopping at
/// `u16::MAX`. Nothing else changes.
pub proof fn lemma_gain_effect(acc: MoveAcc, g: Gain, place: Place)
    requires
        gain_fits(acc, g, place),
    ensures
        ({
            let r = apply_gain(acc, g, place);
            let raised = |v: u64, p: u16| {
                let product = if v * p > u64::MAX { u64::MAX as int } else { v * p };
                let increase = if product / 100 < 1 { 1 } else { product / 100 };
                if v + increase > u64::MAX { u64::MAX as int } else { v + increase }
            };
            match g {
                Gain::FlatDamage(t, a) => r == MoveAcc {
                    damage: acc.damage.update(attack_index(t) as int, Some((match acc.damage[attack_index(t) as int] {
                        Some(v) => v + a,
                        None => a as int,
                    }) as u64)),
                    ..acc
                },
                Gain::FlatResistanceReduction(t, a) => r == MoveAcc {
                    reduction: acc.reduction.update(attack_index(t) as int, Some((match acc.reduction[attack_index(t) as int] {
                        Some(v) => v + a,
                        None => a as int,
                    }) as u64)),
                    ..acc
                },
                Gain::FlatItemResource(_, a) => r == MoveAcc {
                    resources: ResourceMap { mana: Some((match acc.resources.mana {
                        Some(v) => v + a,
                        None => a as int,
                    }) as u64) },
                    ..acc
                },
                Gain::PercentageIncreaseDamage(t, p) => r == MoveAcc {
                    damage: match acc.damage[attack_index(t) as int] {
                        Some(v) => acc.damage.update(attack_index(t) as int, Some(raised(v, p) as u64)),
                        None => acc.damage,
                    },
                    ..acc
                },
                Gain::PercentageIncreaseResistanceReduction(t, p) => r == MoveAcc {
                    reduction: match acc.reduction[attack_index(t) as int] {
                        Some(v) => acc.reduction.update(attack_index(t) as int, Some(raised(v, p) as u64)),
                        None => acc.reduction,
                    },
                    ..acc
                },
                Gain::PercentageIncreaseTreasure(_, p) => r == MoveAcc {
                    treasure_bonus: Some((match acc.treasure_bonus {
                        Some(b) => b + p,
                        None => p as int,
                    }) as u16),
                    ..acc
                },
                Gain::FlatIncreaseRewardedItems(a) => r == MoveAcc {
                    item_gain: (if acc.item_gain + a > u16::MAX { u16::MAX as int } else { acc.item_gain + a }) as u16,
                    ..acc
                },
                Gain::FlatDamageAgainstHighestResistance(a) => {
                    let k = max_slot(place.resistance@, 9);
                    r == MoveAcc {
                        damage: acc.damage.update(k, Some((match acc.damage[k] {
                            Some(v) => v + a,
                            None => a as int,
                        }) as u64)),
                        ..acc
                    }
                },
                Gain::FlatDamageAgainstLowestResistance(a) => {
                    let k = min_slot(place.resistance@, 9);
                    r == MoveAcc {
                        damage: acc.damage.update(k, Some((match acc.damage[k] {
                            Some(v) => v + a,
                            None => a as int,
                        }) as u64)),
                        ..acc
                    }
                },
                Gain::PercentageIncreaseDamageAgainstHighestResistance(p) => {
                    let k = max_slot(place.resistance@, 9);
                    r == MoveAcc {
                        damage: match acc.damage[k] {
                            Some(v) => acc.damage.update(k, Some(raised(v, p) as u64)),
                            None => acc.damage,
                        },
                        ..acc
                    }
                },
                Gain::PercentageIncreaseDamageAgainstLowestResistance(p) => {
                    let k = min_slot(place.resistance@, 9);
                    r == MoveAcc {
                        damage: match acc.damage[k] {
                            Some(v) => acc.damage.update(k, Some(raised(v, p) as u64)),
                            None => acc.damage,
                        },
                        ..acc
                    }
                },
            }
        }),
        g matches Gain::PercentageIncreaseTreasure(_, p) ==> apply_gain(acc, g, place).treasure_bonus is Some
            && apply_gain(acc, g, place).treasure_bonus->0 == (match acc.treasure_bonus {
                Some(b) => b + p,
                None => p as int,
            }),
{
}

/// The mana that the consuming costs of `costs` add up to.
pub open spec fn consumed_mana(costs: Seq<CostSpec>) -> int
    decreases costs.len(),
{
    if costs.len() == 0 {
        0
    } else {
        consumed_mana(costs.drop_last()) + match costs.last() {
            CostSpec::FlatItemResource(_, a) => a as int,
            _ => 0,
        }
    }
}

/// What going through the costs of an item comes to, where it fits: it
/// succeeds exactly when every requirement among them is fulfilled, and then
/// the price is the mana that the consuming costs add up to (none where there
/// is no consuming cost); otherwise the reason is that of the first
/// requirement that is not fulfilled.
pub proof fn lemma_costs_outcome(
    costs: Seq<CostSpec>,
    damage: Seq<Option<u64>>,
    resources: ResourceMap,
    wins_in_a_row: u64,
    place: Place,
    index: usize,
)
    requires
        eval_costs_fit(costs, damage, resources, wins_in_a_row, place, index),
    ensures
        eval_costs(costs, damage, resources, wins_in_a_row, place, index) is Ok <==> forall|i: int|
            0 <= i < costs.len() && !((#[trigger] costs[i]) is FlatItemResource)
                ==> cost_check(costs[i], damage, resources, wins_in_a_row, place, index) is None,
        eval_costs(costs, damage, resources, wins_in_a_row, place, index) matches Ok(price) ==> {
            &&& amount_or_zero(price) == consumed_mana(costs)
            &&& (price is None <==> forall|i: int| 0 <= i < costs.len() ==> !((#[trigger] costs[i]) is FlatItemResource))
        },
        eval_costs(costs, damage, resources, wins_in_a_row, place, index) matches Err(reason) ==> exists|i: int| {
            &&& 0 <= i < costs.len()
            &&& !((#[trigger] costs[i]) is FlatItemResource)
            &&& cost_check(costs[i], damage, resources, wins_in_a_row, place, index) == Some(reason)
            &&& forall|j: int| 0 <= j < i && !((#[trigger] costs[j]) is FlatItemResource)
                ==> cost_check(costs[j], damage, resources, wins_in_a_row, place, index) is None
        },
    decreases costs.len(),
{
    if costs.len() > 0 {
        let pre = costs.drop_last();
        let n = costs.len() - 1;
        lemma_costs_outcome(pre, damage, resources, wins_in_a_row, place, index);
        assert forall|i: int| 0 <= i < n implies #[trigger] costs[i] == pre[i] by {}
        match eval_costs(pre, damage, resources, wins_in_a_row, place, index) {
            Err(e) => {
                let i = choose|i: int| {
                    &&& 0 <= i < pre.len()
                    &&& !((#[trigger] pre[i]) is FlatItemResource)
                    &&& cost_check(pre[i], damage, resources, wins_in_a_row, place, index) == Some(e)
                    &&& forall|j: int| 0 <= j < i && !((#[trigger] pre[j]) is FlatItemResource)
                        ==> cost_check(pre[j], damage, resources, wins_in_a_row, place, index) is None
                };
                assert(costs[i] == pre[i]);
                assert forall|j: int| 0 <= j < i && !((#[trigger] costs[j]) is FlatItemResource)
                    implies cost_check(costs[j], damage, resources, wins_in_a_row, place, index) is None by {
                    assert(costs[j] == pre[j]);
                }
            },
            Ok(acc) => {
                match costs.last() {
                    CostSpec::FlatItemResource(_, a) => {},
                    c => {
                        if cost_check(c, damage, resources, wins_in_a_row, place, index) is Some {
                            assert forall|j: int| 0 <= j < n && !((#[trigger] costs[j]) is FlatItemResource)
                                implies cost_check(costs[j], damage, resources, wins_in_a_row, place, index) is None by {
                                assert(costs[j] == pre[j]);
                            }
                        }
                    },
                }
            },
        }
    }
}

/// Whether the mana can pay a price: a price without mana always, else when the
/// mana held is at least the price; paying takes the price from the mana.
pub proof fn lemma_payment(resources: ResourceMap, cost: ResourceMap)
    ensures
        payable(resources, cost) <==> match cost.mana {
            None => true,
            Some(c) => resources.mana is Some && resources.mana->0 >= c,
        },
        payable(resources, cost) && cost.mana is Some ==> pay_resources(resources, cost).mana == Some(
            (resources.mana->0 - cost.mana->0) as u64,
        ),
        cost.mana is None ==> pay_resources(resources, cost) == resources,
{
}

} // verus!
