use std::collections::HashMap;

use my_little_rpg::attack_types::AttackType;
use my_little_rpg::command::roll_modifier::execute_craft;
use my_little_rpg::generator::game::new_testing;
use my_little_rpg::the_world::item::{Cost, Gain, Modifier};
use my_little_rpg::the_world::item_resource::Type;
use my_little_rpg::the_world::treasure_types::TreasureType;

fn unlocked_attack_types(game: &my_little_rpg::the_world::game::Game) -> Vec<AttackType> {
    AttackType::get_all()
        .into_iter()
        .filter(|attack_type| game.difficulty.min_resistance.contains_key(*attack_type))
        .collect()
}

fn setup_gains(gain_modifiers: &mut HashMap<Gain, u32>, result: Modifier) {
    for gain in result.gains {
        let token = match gain {
            Gain::FlatItemResource(item_resource, _) => Gain::FlatItemResource(item_resource, 0),
            Gain::FlatDamage(attack_type, _) => Gain::FlatDamage(attack_type, 0),
            Gain::PercentageIncreaseDamage(attack_type, _) => Gain::PercentageIncreaseDamage(attack_type, 0),
            Gain::FlatResistanceReduction(attack_type, _) => Gain::FlatResistanceReduction(attack_type, 0),
            Gain::PercentageIncreaseResistanceReduction(attack_type, _) => {
                Gain::PercentageIncreaseResistanceReduction(attack_type, 0)
            }
            Gain::FlatDamageAgainstHighestResistance(_) => Gain::FlatDamageAgainstHighestResistance(0),
            Gain::PercentageIncreaseDamageAgainstHighestResistance(_) => {
                Gain::PercentageIncreaseDamageAgainstHighestResistance(0)
            }
            Gain::FlatDamageAgainstLowestResistance(_) => Gain::FlatDamageAgainstLowestResistance(0),
            Gain::PercentageIncreaseDamageAgainstLowestResistance(_) => {
                Gain::PercentageIncreaseDamageAgainstLowestResistance(0)
            }
            Gain::PercentageIncreaseTreasure(treasure_type, _) => Gain::PercentageIncreaseTreasure(treasure_type, 0),
            Gain::FlatIncreaseRewardedItems(_) => Gain::FlatIncreaseRewardedItems(0),
        };
        *gain_modifiers.entry(token).or_insert(0) += 1;
    }
}

fn setup_costs(cost_modifiers: &mut HashMap<Cost, u32>, result: &Modifier) {
    for cost in result.costs.clone() {
        let token = match cost {
            Cost::FlatItemResource(item_resource, _) => Cost::FlatItemResource(item_resource, 0),
            Cost::FlatMinItemResourceRequirement(item_resource, _) => {
                Cost::FlatMinItemResourceRequirement(item_resource, 0)
            }
            Cost::FlatMaxItemResourceRequirement(item_resource, _) => {
                Cost::FlatMaxItemResourceRequirement(item_resource, 0)
            }
            Cost::FlatMinAttackRequirement(attack_type, _) => Cost::FlatMinAttackRequirement(attack_type, 0),
            Cost::FlatMaxAttackRequirement(attack_type, _) => Cost::FlatMaxAttackRequirement(attack_type, 0),
            Cost::PlaceLimitedByIndexModulus(_, _) => Cost::PlaceLimitedByIndexModulus(1, Vec::new()),
            Cost::FlatSumMinAttackRequirement(_) => Cost::FlatSumMinAttackRequirement(0),
            Cost::FlatSumMaxAttackRequirement(_) => Cost::FlatSumMaxAttackRequirement(0),
            Cost::FlatMinResistanceRequirement(attack_type, _) => Cost::FlatMinResistanceRequirement(attack_type, 0),
            Cost::FlatMaxResistanceRequirement(attack_type, _) => Cost::FlatMaxResistanceRequirement(attack_type, 0),
            Cost::FlatMinSumResistanceRequirement(_) => Cost::FlatMinSumResistanceRequirement(0),
            Cost::FlatMaxSumResistanceRequirement(_) => Cost::FlatMaxSumResistanceRequirement(0),
            Cost::MinWinsInARow(_) => Cost::MinWinsInARow(0),
            Cost::MaxWinsInARow(_) => Cost::MaxWinsInARow(0),
        };
        *cost_modifiers.entry(token).or_insert(0) += 1;
    }
}

#[test]
fn basic_test() {
    let mut game = new_testing(Some([1; 16]));
    let crafting_info = game.inventory[0].as_ref().unwrap().crafting_info;
    execute_craft(&mut game.random_generator_state, &crafting_info);
}

#[test]
fn test_many_runs() {
    let mut game = new_testing(Some([1; 16]));
    let mut cost_modifiers: HashMap<Cost, u32> = HashMap::new();
    let mut gain_modifiers: HashMap<Gain, u32> = HashMap::new();
    let crafting_info = game.inventory[0].as_ref().unwrap().crafting_info;

    for _i in 1..1000 {
        let result = execute_craft(&mut game.random_generator_state, &crafting_info);
        setup_costs(&mut cost_modifiers, &result);
        setup_gains(&mut gain_modifiers, result);
    }

    let attack_types = unlocked_attack_types(&game);
    let item_resources = vec![Type::Mana];
    let treasure_types = vec![TreasureType::Gold];
    let count = |map: &HashMap<Cost, u32>, key: Cost| *map.get(&key).unwrap_or(&0);
    let gain_count = |map: &HashMap<Gain, u32>, key: Gain| *map.get(&key).unwrap_or(&0);

    assert_eq!(
        0,
        attack_types
            .iter()
            .filter(|t| count(&cost_modifiers, Cost::FlatMinAttackRequirement(**t, 0)) == 0)
            .count()
    );
    assert_eq!(
        0,
        attack_types
            .iter()
            .filter(|t| count(&cost_modifiers, Cost::FlatMaxAttackRequirement(**t, 0)) == 0)
            .count()
    );
    assert_ne!(0, count(&cost_modifiers, Cost::FlatSumMinAttackRequirement(0)));
    assert_ne!(0, count(&cost_modifiers, Cost::FlatSumMaxAttackRequirement(0)));
    assert_ne!(0, count(&cost_modifiers, Cost::PlaceLimitedByIndexModulus(1, Vec::new())));
    assert_eq!(
        0,
        item_resources
            .iter()
            .filter(|r| count(&cost_modifiers, Cost::FlatItemResource(**r, 0)) == 0)
            .count()
    );
    assert_eq!(
        0,
        item_resources
            .iter()
            .filter(|r| count(&cost_modifiers, Cost::FlatMinItemResourceRequirement(**r, 0)) == 0)
            .count()
    );
    assert_eq!(
        0,
        item_resources
            .iter()
            .filter(|r| count(&cost_modifiers, Cost::FlatMaxItemResourceRequirement(**r, 0)) == 0)
            .count()
    );
    assert_eq!(
        0,
        attack_types
            .iter()
            .filter(|t| count(&cost_modifiers, Cost::FlatMinResistanceRequirement(**t, 0)) == 0)
            .count()
    );
    assert_eq!(
        0,
        attack_types
            .iter()
            .filter(|t| count(&cost_modifiers, Cost::FlatMaxResistanceRequirement(**t, 0)) == 0)
            .count()
    );
    assert_ne!(0, count(&cost_modifiers, Cost::FlatMinSumResistanceRequirement(0)));
    assert_ne!(0, count(&cost_modifiers, Cost::FlatMaxSumResistanceRequirement(0)));
    assert_ne!(0, count(&cost_modifiers, Cost::MinWinsInARow(0)));
    assert_ne!(0, count(&cost_modifiers, Cost::MaxWinsInARow(0)));

    assert_eq!(
        0,
        attack_types
            .iter()
            .filter(|t| gain_count(&gain_modifiers, Gain::FlatDamage(**t, 0)) == 0)
            .count()
    );
    assert_eq!(
        0,
        item_resources
            .iter()
            .filter(|r| gain_count(&gain_modifiers, Gain::FlatItemResource(**r, 0)) == 0)
            .count()
    );
    assert_eq!(
        0,
        attack_types
            .iter()
            .filter(|t| gain_count(&gain_modifiers, Gain::PercentageIncreaseDamage(**t, 0)) == 0)
            .count()
    );
    assert_eq!(
        0,
        attack_types
            .iter()
            .filter(|t| gain_count(&gain_modifiers, Gain::FlatResistanceReduction(**t, 0)) == 0)
            .count()
    );
    assert_eq!(
        0,
        attack_types
            .iter()
            .filter(|t| gain_count(&gain_modifiers, Gain::PercentageIncreaseResistanceReduction(**t, 0)) == 0)
            .count()
    );
    assert_ne!(0, gain_count(&gain_modifiers, Gain::FlatDamageAgainstHighestResistance(0)));
    assert_ne!(0, gain_count(&gain_modifiers, Gain::PercentageIncreaseDamageAgainstHighestResistance(0)));
    assert_ne!(0, gain_count(&gain_modifiers, Gain::FlatDamageAgainstLowestResistance(0)));
    assert_ne!(0, gain_count(&gain_modifiers, Gain::PercentageIncreaseDamageAgainstLowestResistance(0)));
    assert_eq!(
        0,
        treasure_types
            .iter()
            .filter(|t| gain_count(&gain_modifiers, Gain::PercentageIncreaseTreasure(**t, 0)) == 0)
            .count()
    );
    assert_ne!(0, gain_count(&gain_modifiers, Gain::FlatIncreaseRewardedItems(0)));
}
