use my_little_rpg::attack_types::AttackType;
use my_little_rpg::command::craft_expand_modifier::{
    execute_craft_expand_modifiers, execute_craft_expand_modifiers_calculate_cost,
};
use my_little_rpg::command::craft_reroll_modifier::{execute, execute_craft_reroll_modifier_calculate_cost};
use my_little_rpg::command::roll_modifier::{execute_craft, is_craftable};
use my_little_rpg::generator::game::new_testing;
use my_little_rpg::my_little_rpg_errors::MyError;
use my_little_rpg::the_world::game::Game;
use my_little_rpg::the_world::index_specifier::IndexSpecifier;
use my_little_rpg::the_world::item::{CraftingInfo, Gain, Item, Modifier};

fn create_item(game: &Game) -> Item {
    Item {
        modifiers: vec![
            Modifier { costs: Vec::new(), gains: vec![Gain::FlatDamage(AttackType::Physical, 1)] },
            Modifier { costs: Vec::new(), gains: vec![Gain::FlatDamage(AttackType::Physical, 1)] },
        ],
        crafting_info: CraftingInfo { possible_rolls: game.difficulty, places_count: game.places.len() },
    }
}

fn insert_game_in_inventory(game: &mut Game) {
    let item = create_item(game);
    game.inventory.insert(0, Some(item));
}

fn count_items(game: &Game) -> usize {
    game.inventory.iter().filter(|i| i.is_some()).count()
}

#[test]
fn tests_test_execute_craft_item() {
    let mut game = new_testing(Some([1; 16]));

    insert_game_in_inventory(&mut game);

    let old_item = game.inventory[0].clone();
    assert_eq!(10, game.inventory.len());

    assert_eq!(
        Err(MyError::create_execute_command_error(
            "inventory_index 0 and index_specifier Absolute(0) cannot be the same".to_string()
        )),
        execute(&mut game, 0, 0, vec![IndexSpecifier::Absolute(0), IndexSpecifier::Absolute(1)])
    );
    assert_eq!(old_item, game.inventory[0]);
    assert_eq!(10, game.inventory.len());

    assert_eq!(
        Err(MyError::create_execute_command_error(
            "sacrifice_item_index 1 need to have at least 2 modifiers but it only had 1".to_string()
        )),
        execute(&mut game, 0, 1, vec![IndexSpecifier::Absolute(1), IndexSpecifier::Absolute(2)])
    );
    assert_eq!(old_item, game.inventory[0]);
    assert_eq!(10, game.inventory.len());

    assert_eq!(2, execute_craft_reroll_modifier_calculate_cost(&game, 0));
    assert_eq!(
        Err(MyError::create_execute_command_error(
            "craft_reroll_modifier needs 2 items to be sacrificed but you only provided 1".to_string()
        )),
        execute(&mut game, 0, 0, vec![IndexSpecifier::Absolute(1)])
    );
    assert_eq!(old_item, game.inventory[0]);
    assert_eq!(10, game.inventory.len());

    let result = execute(&mut game, 0, 0, vec![IndexSpecifier::Absolute(1), IndexSpecifier::Absolute(2)]);
    assert!(result.is_ok());
    assert_ne!(old_item.unwrap(), result.unwrap().new_item);
    let old_item = game.inventory[0].clone();
    assert_eq!(8, count_items(&game));

    assert_eq!(
        Err(MyError::create_execute_command_error(
            "inventory_index 99 is not within the range of the inventory 10".to_string()
        )),
        execute(&mut game, 99, 0, vec![IndexSpecifier::Absolute(0)])
    );
    assert_eq!(
        Err(MyError::create_execute_command_error(
            "modifier_index 99 is not within the range of the item modifiers 2".to_string()
        )),
        execute(&mut game, 0, 99, vec![IndexSpecifier::Absolute(0)])
    );
    assert_eq!(
        Err(MyError::create_execute_command_error(
            "index_specifier Absolute(99) is not within the range of the inventory 10".to_string()
        )),
        execute(&mut game, 0, 0, vec![IndexSpecifier::Absolute(99), IndexSpecifier::Absolute(1)])
    );
    assert_eq!(
        Err(MyError::create_execute_command_error("inventory_index 1 is empty.".to_string())),
        execute(&mut game, 1, 0, vec![IndexSpecifier::Absolute(4), IndexSpecifier::Absolute(5)])
    );
    assert_eq!(
        Err(MyError::create_execute_command_error(
            "index_specifier Absolute(1) is pointing at empty inventory slot.".to_string()
        )),
        execute(&mut game, 0, 0, vec![IndexSpecifier::Absolute(1), IndexSpecifier::Absolute(2)])
    );
    assert_eq!(
        Err(MyError::create_execute_command_error(
            "index_specifier Absolute(8) is already present in calculated sacrifice indexes {8}".to_string()
        )),
        execute(&mut game, 0, 0, vec![IndexSpecifier::Absolute(8), IndexSpecifier::Absolute(8)])
    );
    assert_eq!(old_item, game.inventory[0]);
    assert_eq!(8, count_items(&game));
}

#[test]
fn tests_test_execute_craft_item_positive() {
    let mut game = new_testing(Some([1; 16]));

    insert_game_in_inventory(&mut game);

    let result = execute(&mut game, 0, 0, vec![IndexSpecifier::RelativePositive(1), IndexSpecifier::RelativePositive(2)]);
    assert!(result.is_ok());
    assert_eq!(8, count_items(&game));

    for expected in [6, 4, 2] {
        let result = execute(&mut game, 0, 0, vec![IndexSpecifier::RelativePositive(1), IndexSpecifier::RelativePositive(1)]);
        assert!(result.is_ok());
        assert_eq!(expected, count_items(&game));
    }

    assert_eq!(
        Err(MyError::create_execute_command_error(
            "index_specifier: RelativePositive(1) did not find any items in inventory from relative point 1 until end of inventory."
                .to_string()
        )),
        execute(&mut game, 0, 0, vec![IndexSpecifier::RelativePositive(1), IndexSpecifier::RelativePositive(1)])
    );
    assert_eq!(2, count_items(&game));
}

#[test]
fn tests_test_execute_craft_item_negative() {
    let mut game = new_testing(Some([1; 16]));

    let item = create_item(&game);
    game.inventory.push(Some(item));

    let result = execute(&mut game, 9, 0, vec![IndexSpecifier::RelativeNegative(1), IndexSpecifier::RelativeNegative(2)]);
    assert!(result.is_ok());
    assert_eq!(8, count_items(&game));

    for expected in [6, 4, 2] {
        let result = execute(&mut game, 9, 0, vec![IndexSpecifier::RelativeNegative(1), IndexSpecifier::RelativeNegative(1)]);
        assert!(result.is_ok());
        assert_eq!(expected, count_items(&game));
    }

    assert_eq!(
        Err(MyError::create_execute_command_error(
            "index_specifier: RelativeNegative(1) did not find any items in inventory from relative point 8 until start of inventory."
                .to_string()
        )),
        execute(&mut game, 9, 0, vec![IndexSpecifier::RelativeNegative(1), IndexSpecifier::RelativeNegative(1)])
    );
    assert_eq!(2, count_items(&game));
}

#[test]
fn tests_test_execute_craft_item_mixed() {
    let mut game = new_testing(Some([1; 16]));

    let item = create_item(&game);
    game.inventory.insert(5, Some(item));

    let result = execute(&mut game, 5, 0, vec![IndexSpecifier::RelativeNegative(1), IndexSpecifier::RelativePositive(2)]);
    assert!(result.is_ok());
    assert_eq!(8, count_items(&game));

    let result = execute(&mut game, 5, 0, vec![IndexSpecifier::RelativePositive(1), IndexSpecifier::RelativeNegative(1)]);
    assert!(result.is_ok());
    assert_eq!(6, count_items(&game));

    let result = execute(&mut game, 5, 0, vec![IndexSpecifier::RelativePositive(1), IndexSpecifier::Absolute(0)]);
    assert!(result.is_ok());
    assert_eq!(4, count_items(&game));

    let result = execute(&mut game, 5, 0, vec![IndexSpecifier::RelativeNegative(1), IndexSpecifier::Absolute(9)]);
    assert!(result.is_ok());
    assert_eq!(2, count_items(&game));

    assert_eq!(
        Err(MyError::create_execute_command_error(
            "index_specifier: RelativePositive(1) did not find any items in inventory from relative point 6 until end of inventory."
                .to_string()
        )),
        execute(&mut game, 5, 0, vec![IndexSpecifier::RelativePositive(1), IndexSpecifier::RelativeNegative(1)])
    );
    assert_eq!(
        Err(MyError::create_execute_command_error(
            "index_specifier: RelativePositive(1) did not find any items in inventory from relative point 6 until end of inventory."
                .to_string()
        )),
        execute(&mut game, 5, 0, vec![IndexSpecifier::RelativeNegative(1), IndexSpecifier::RelativePositive(1)])
    );
    assert_eq!(2, count_items(&game));

    game.inventory[2] = None;
    assert_eq!(
        Err(MyError::create_execute_command_error(
            "index_specifier: RelativeNegative(1) did not find any items in inventory from relative point 4 until start of inventory."
                .to_string()
        )),
        execute(&mut game, 5, 0, vec![IndexSpecifier::RelativeNegative(1), IndexSpecifier::RelativeNegative(1)])
    );
}

#[test]
fn tests_seeding_test() {
    let mut game = new_testing(Some([1; 16]));
    let original_result = execute(&mut game, 0, 0, vec![IndexSpecifier::Absolute(1)]);

    for _i in 1..1000 {
        let mut game = new_testing(Some([1; 16]));
        let result = execute(&mut game, 0, 0, vec![IndexSpecifier::Absolute(1)]);
        assert_eq!(original_result, result);
    }
}

#[test]
fn tests_many_runs_test() {
    let mut game = new_testing(Some([1; 16]));

    for i in 1..438 {
        let item = create_item(&game);
        game.inventory.push(Some(item));
        assert!(execute(&mut game, 0, 0, vec![IndexSpecifier::Absolute(i)]).is_ok());
    }
}

#[test]
fn reroll_keeps_modifier_count_and_cost() {
    let mut game = new_testing(Some([4; 16]));
    insert_game_in_inventory(&mut game);
    let report = execute(&mut game, 0, 0, vec![IndexSpecifier::Absolute(1), IndexSpecifier::Absolute(2)]).unwrap();
    assert_eq!(2, report.new_item.modifiers.len());
    assert_eq!(2, report.paid_cost);
    assert_eq!(2, report.new_cost);
    assert_eq!(Some(report.new_item.clone()), game.inventory[0]);
    assert_eq!(None, game.inventory[1]);
    assert_eq!(None, game.inventory[2]);
    assert!(game.inventory[3].is_some());
}

#[test]
fn expand_modifiers_adds_one_modifier() {
    let mut game = new_testing(Some([1; 16]));
    assert_eq!(2, execute_craft_expand_modifiers_calculate_cost(&game, 0));
    let report = execute_craft_expand_modifiers(
        &mut game,
        0,
        vec![IndexSpecifier::RelativePositive(1), IndexSpecifier::RelativePositive(1)],
    )
    .unwrap();
    assert_eq!(2, report.new_item.modifiers.len());
    assert_eq!(2, report.paid_cost);
    assert_eq!(4, report.new_cost);
    assert_eq!(game.treasure, report.leftover_spending_treasure);
    assert_eq!(7, count_items(&game));
    assert_eq!(Some(report.new_item), game.inventory[0]);
}

#[test]
fn expand_modifiers_refusals() {
    let mut game = new_testing(Some([1; 16]));
    assert_eq!(
        Err(MyError::create_execute_command_error(
            "inventory_index 99 is not within the range of the inventory 9".to_string()
        )),
        execute_craft_expand_modifiers(&mut game, 99, vec![])
    );
    assert_eq!(
        Err(MyError::create_execute_command_error(
            "craft_reroll_modifier needs 2 items to be sacrificed but you only provided 1".to_string()
        )),
        execute_craft_expand_modifiers(&mut game, 0, vec![IndexSpecifier::Absolute(1)])
    );
    game.inventory[0].as_mut().unwrap().crafting_info.possible_rolls.min_simultaneous_resistances = 1;
    assert_eq!(
        Err(MyError::create_execute_command_error(
            "inventory_index.possible_rolls.min_simultaneous_resistances 1 need to be bigger than inventory_index current number of modifiers 1 for it to be expanded."
                .to_string()
        )),
        execute_craft_expand_modifiers(&mut game, 0, vec![IndexSpecifier::Absolute(1), IndexSpecifier::Absolute(2)])
    );
    game.inventory[1] = None;
    assert_eq!(
        Err(MyError::create_execute_command_error("inventory_index 1 is empty.".to_string())),
        execute_craft_expand_modifiers(&mut game, 1, vec![])
    );
}

#[test]
fn crafted_modifier_stays_within_rolls() {
    let game = new_testing(Some([5; 16]));
    let mut rng = game.random_generator_state.clone();
    let info = CraftingInfo { possible_rolls: game.difficulty, places_count: game.places.len() };
    for _i in 0..200 {
        let modifier = execute_craft(&mut rng, &info);
        assert!(modifier.costs.len() <= 22);
        assert_eq!(1, modifier.gains.len());
        for gain in modifier.gains {
            if let Gain::FlatDamage(t, _) = gain {
                assert_ne!(AttackType::Physical, t);
            }
        }
    }
}

#[test]
fn craftable_up_to_machine_limits() {
    let game = new_testing(Some([1; 16]));
    let info = CraftingInfo { possible_rolls: game.difficulty, places_count: game.places.len() };
    assert!(is_craftable(&info));
    let mut large = info;
    large.possible_rolls.max_resistance.insert(AttackType::Fire, 1u64 << 61);
    assert!(is_craftable(&large));
    let mut too_large = info;
    too_large.possible_rolls.max_resistance.insert(AttackType::Fire, u64::MAX / 2);
    assert!(!is_craftable(&too_large));
}

#[test]
fn craft_with_large_resistances() {
    let mut game = new_testing(Some([1; 16]));
    let mut info = CraftingInfo { possible_rolls: game.difficulty, places_count: game.places.len() };
    info.possible_rolls.max_resistance.insert(AttackType::Fire, 1u64 << 61);
    assert!(is_craftable(&info));
    for _i in 0..200 {
        let modifier = execute_craft(&mut game.random_generator_state, &info);
        assert!(modifier.costs.len() <= info.possible_rolls.max_simultaneous_resistances as usize);
    }
}
