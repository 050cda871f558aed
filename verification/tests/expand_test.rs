use my_little_rpg::attack_types::AttackType;
use my_little_rpg::command::expand_elements::{execute as execute_expand_elements, execute_expand_elements_calculate_cost};
use my_little_rpg::command::expand_equipment_slots::execute as execute_expand_equipment_slots;
use my_little_rpg::command::expand_max_element::execute as execute_expand_max_element;
use my_little_rpg::command::expand_max_simultaneous_element::execute_expand_max_simultaneous_element;
use my_little_rpg::command::expand_min_element::execute as execute_expand_min_element;
use my_little_rpg::command::expand_min_simultanius_element::execute_expand_min_simultaneous_element;
use my_little_rpg::command::expand_places::{execute as execute_expand_places, execute_expand_places_calculate_cost};
use my_little_rpg::command::move_command::execute as execute_move_command;
use my_little_rpg::generator::game::{new, new_testing};
use my_little_rpg::my_little_rpg_errors::MyError;
use my_little_rpg::the_world::game::Game;
use my_little_rpg::the_world::item::{CraftingInfo, Gain, Item, Modifier};
use my_little_rpg::the_world::treasure_types::{TreasureMap, TreasureType::Gold};

fn create_item(game: &Game) -> Item {
    Item {
        modifiers: vec![Modifier { costs: Vec::new(), gains: vec![Gain::FlatDamage(AttackType::Physical, 1)] }],
        crafting_info: CraftingInfo { possible_rolls: game.difficulty, places_count: game.places.len() },
    }
}

#[test]
fn tests_test_execute_expand_places() {
    let mut game = new_testing(Some([1; 16]));
    assert_eq!(10, game.places.len());
    assert_eq!(
        Err(MyError::create_execute_command_error(
            "Cant pay the crafting cost, the cost is {Gold: 100} and you only have {}".to_string()
        )),
        execute_expand_places(&mut game)
    );
    assert!(execute_move_command(&mut game, 0).is_err());
    assert!(execute_move_command(&mut game, 0).is_ok());
    assert!(game.treasure.get(Gold).unwrap() > 0);
    assert_eq!(10, game.places.len());
    let result = execute_expand_places(&mut game);
    assert!(result.is_ok());
    assert_eq!(11, game.places.len());
}

#[test]
fn expand_places_pays_ten_gold_per_place() {
    let mut game = new_testing(Some([1; 16]));
    game.treasure.insert(Gold, 150);
    let result = execute_expand_places(&mut game).unwrap();
    assert_eq!(11, game.places.len());
    assert_eq!(Some(50), game.treasure.get(Gold));
    assert_eq!(TreasureMap::gold(100), result.paid_cost);
    assert_eq!(TreasureMap::gold(110), execute_expand_places_calculate_cost(&game));
    assert_eq!(result.new_place, game.places[10]);
}

#[test]
fn expand_places_seeding_test() {
    let mut game = new_testing(Some([1; 16]));
    game.treasure.insert(Gold, 1000);
    let original_result = execute_expand_places(&mut game);
    for _i in 1..1000 {
        let mut game = new_testing(Some([1; 16]));
        game.treasure.insert(Gold, 1000);
        let result = execute_expand_places(&mut game);
        assert_eq!(original_result, result);
    }
}

#[test]
fn expand_places_many_runs_test() {
    let mut game = new_testing(Some([1; 16]));
    game.treasure.insert(Gold, 999_999);
    for _i in 1..438 {
        assert!(execute_expand_places(&mut game).is_ok());
    }
}

#[test]
fn tests_test_execute_expand_elements() {
    let mut game = new(Some([1; 16]));
    assert_eq!(1, game.difficulty.max_resistance.len());
    assert_eq!(1, game.difficulty.min_resistance.len());
    assert_eq!(
        Err(MyError::create_execute_command_error(
            "Cant pay the crafting cost, the cost is {Gold: 10} and you only have {}".to_string()
        )),
        execute_expand_elements(&mut game)
    );
    for _i in 0..1000 {
        assert!(execute_move_command(&mut game, 0).is_ok());
    }
    assert!(game.treasure.get(Gold).unwrap() > 0);
    assert_eq!(1, game.difficulty.max_resistance.len());
    assert_eq!(1, game.difficulty.min_resistance.len());
    for i in 2..10 {
        let result = execute_expand_elements(&mut game);
        assert!(result.is_ok());
        assert_eq!(i, game.difficulty.max_resistance.len());
        assert_eq!(i, game.difficulty.min_resistance.len());
    }
    assert_eq!(
        Err(MyError::create_execute_command_error("Already at maximum elements.".to_string())),
        execute_expand_elements(&mut game)
    );
    assert_eq!(9, game.difficulty.max_resistance.len());
    assert_eq!(9, game.difficulty.min_resistance.len());
    assert_eq!(TreasureMap::gold(90), execute_expand_elements_calculate_cost(&game));
}

#[test]
fn expand_elements_unlocks_next_attack_type() {
    let mut game = new(Some([1; 16]));
    game.treasure.insert(Gold, 10);
    let report = execute_expand_elements(&mut game).unwrap();
    assert_eq!(AttackType::Fire, report.new_element_type);
    assert_eq!(Some(2), game.difficulty.max_resistance.get(AttackType::Fire));
    assert_eq!(Some(1), game.difficulty.min_resistance.get(AttackType::Fire));
    assert_eq!(TreasureMap::gold(20), report.new_cost);
}

#[test]
fn tests_test_execute_expand_min_element() {
    let mut game = new(Some([1; 16]));
    assert_eq!(1, game.difficulty.min_resistance.len());
    assert_eq!(
        Err(MyError::create_execute_command_error(
            "Cant pay the crafting cost, the cost is {Gold: 1} and you only have {}".to_string()
        )),
        execute_expand_min_element(&mut game)
    );
    for _i in 0..1000 {
        assert!(execute_move_command(&mut game, 0).is_ok());
    }
    assert_eq!(
        Err(MyError::create_execute_command_error(
            "There are no element minimum values that can be upgraded, consider expanding a max element value."
                .to_string()
        )),
        execute_expand_min_element(&mut game)
    );
    assert!(game.treasure.get(Gold).unwrap() > 0);
    assert_eq!(1, game.difficulty.min_resistance.len());
    assert!(execute_expand_max_element(&mut game).is_ok());
    assert!(execute_expand_min_element(&mut game).is_ok());
    assert_eq!(
        Err(MyError::create_execute_command_error(
            "There are no element minimum values that can be upgraded, consider expanding a max element value."
                .to_string()
        )),
        execute_expand_min_element(&mut game)
    );
}

#[test]
fn tests_test_that_all_elements_can_be_hit() {
    let mut game = new_testing(Some([1; 16]));
    let original_difficulty = game.difficulty;
    game.treasure.insert(Gold, 9_999_999);
    for _i in 0..65 {
        assert!(execute_expand_max_element(&mut game).is_ok());
        assert!(execute_expand_min_element(&mut game).is_ok());
    }
    let number_of_unchanged_elements = AttackType::get_all()
        .into_iter()
        .filter(|t| original_difficulty.min_resistance.get(*t).is_some())
        .filter(|t| game.difficulty.min_resistance.get(*t) == original_difficulty.min_resistance.get(*t))
        .count();
    assert_eq!(0, number_of_unchanged_elements);
}

#[test]
fn expand_min_element_seeding_test() {
    let mut game = new(Some([1; 16]));
    game.treasure.insert(Gold, 1000);
    assert!(execute_expand_max_element(&mut game).is_ok());
    let original_result = execute_expand_min_element(&mut game);
    for _i in 1..1000 {
        let mut game = new(Some([1; 16]));
        game.treasure.insert(Gold, 1000);
        assert!(execute_expand_max_element(&mut game).is_ok());
        let result = execute_expand_min_element(&mut game);
        assert_eq!(original_result, result);
    }
}

#[test]
fn expand_max_element_raises_by_the_cost() {
    let mut game = new(Some([1; 16]));
    game.treasure.insert(Gold, 10);
    let report = execute_expand_max_element(&mut game).unwrap();
    assert_eq!(TreasureMap::gold(2), report.paid_cost);
    assert_eq!(Some(4), game.difficulty.max_resistance.get(AttackType::Physical));
    assert_eq!(TreasureMap::gold(4), report.new_cost);
    assert_eq!(Some(8), game.treasure.get(Gold));
}

#[test]
fn tests_test_execute_expand_min_simultaneous_element() {
    let mut game = new(Some([1; 16]));
    assert_eq!(1, game.difficulty.max_resistance.len());
    assert_eq!(1, game.difficulty.max_simultaneous_resistances);
    assert_eq!(1, game.difficulty.min_simultaneous_resistances);
    assert_eq!(1, game.difficulty.min_resistance.len());
    assert_eq!(Err(MyError::create_execute_command_error("execute_expand_min_simultaneous_element 1 is already equal to max_simultaneous_resistances 1. Consider calling ExpandMaxSimultaneousElement.".to_string())), execute_expand_min_simultaneous_element(&mut game));
    game.treasure.insert(Gold, 20);
    assert!(execute_expand_elements(&mut game).is_ok());
    assert!(execute_expand_max_simultaneous_element(&mut game).is_ok());
    assert_eq!(Err(MyError::create_execute_command_error("Cant pay the crafting cost, the cost is {Gold: 10} and you only have {Gold: 0}".to_string())), execute_expand_min_simultaneous_element(&mut game));
    let gold = game.treasure.get(Gold).unwrap();
    game.treasure.insert(Gold, gold + 1000);
    assert_eq!(2, game.difficulty.max_resistance.len());
    assert_eq!(2, game.difficulty.max_simultaneous_resistances);
    assert_eq!(1, game.difficulty.min_simultaneous_resistances);
    assert_eq!(2, game.difficulty.min_resistance.len());
    let result = execute_expand_min_simultaneous_element(&mut game);
    assert!(result.is_ok());
    assert_eq!(2, result.as_ref().unwrap().new_min_simultaneous_resistances);
    assert_eq!(10, result.as_ref().unwrap().paid_cost.get(Gold).unwrap());
    assert_eq!(2, game.difficulty.max_resistance.len());
    assert_eq!(2, game.difficulty.max_simultaneous_resistances);
    assert_eq!(2, game.difficulty.min_simultaneous_resistances);
    assert_eq!(2, game.difficulty.min_resistance.len());
    assert_eq!(Err(MyError::create_execute_command_error("execute_expand_min_simultaneous_element 2 is already equal to max_simultaneous_resistances 2. Consider calling ExpandMaxSimultaneousElement.".to_string())), execute_expand_min_simultaneous_element(&mut game));
    assert_eq!(2, game.difficulty.max_resistance.len());
    assert_eq!(2, game.difficulty.min_simultaneous_resistances);
    assert_eq!(2, game.difficulty.min_resistance.len());
}

#[test]
fn test_execute_expand_max_simultaneous_element() {
    let mut game = new(Some([1; 16]));
    assert_eq!(1, game.difficulty.max_resistance.len());
    assert_eq!(1, game.difficulty.max_simultaneous_resistances);
    assert_eq!(1, game.difficulty.min_resistance.len());
    assert_eq!(Err(MyError::create_execute_command_error("max_simultaneous_resistances 1 is already equal to number of active resistances 1. Consider calling ExpandElements.".to_string())), execute_expand_max_simultaneous_element(&mut game));
    game.treasure.insert(Gold, 10);
    assert!(execute_expand_elements(&mut game).is_ok());
    assert_eq!(Err(MyError::create_execute_command_error("Cant pay the crafting cost, the cost is {Gold: 10} and you only have {Gold: 0}".to_string())), execute_expand_max_simultaneous_element(&mut game));
    let gold = game.treasure.get(Gold).unwrap();
    game.treasure.insert(Gold, gold + 1000);
    assert_eq!(2, game.difficulty.max_resistance.len());
    assert_eq!(1, game.difficulty.max_simultaneous_resistances);
    assert_eq!(2, game.difficulty.min_resistance.len());
    let result = execute_expand_max_simultaneous_element(&mut game);
    assert!(result.is_ok());
    assert_eq!(2, result.as_ref().unwrap().new_max_simultaneous_resistances);
    assert_eq!(10, result.as_ref().unwrap().paid_cost.get(Gold).unwrap());
    assert_eq!(2, game.difficulty.max_resistance.len());
    assert_eq!(2, game.difficulty.max_simultaneous_resistances);
    assert_eq!(2, game.difficulty.min_resistance.len());
    assert_eq!(Err(MyError::create_execute_command_error("max_simultaneous_resistances 2 is already equal to number of active resistances 2. Consider calling ExpandElements.".to_string())), execute_expand_max_simultaneous_element(&mut game));
    assert_eq!(2, game.difficulty.max_resistance.len());
    assert_eq!(2, game.difficulty.min_resistance.len());
}

#[test]
fn tests_test_execute_expand_equipment_slots() {
    let mut game = new(Some([1; 16]));
    assert_eq!(1, game.equipped_items.len());
    assert_eq!(Err(MyError::create_execute_command_error("No item in inventory to equip in new item slot.".to_string())), execute_expand_equipment_slots(&mut game));
    assert_eq!(1, game.equipped_items.len());
    let item = create_item(&game);
    game.inventory.push(Some(item.clone()));
    game.inventory.push(Some(item.clone()));
    game.inventory.push(Some(item.clone()));
    assert_eq!(Err(MyError::create_execute_command_error("Cant pay the crafting cost, the cost is {Gold: 32} and you only have {}".to_string())), execute_expand_equipment_slots(&mut game));
    game.treasure.insert(Gold, 1300);
    let result = execute_expand_equipment_slots(&mut game);
    assert!(result.is_ok());
    assert_eq!(2, game.equipped_items.len());
    let result = execute_expand_equipment_slots(&mut game);
    assert!(result.is_ok());
    assert_eq!(3, game.equipped_items.len());
    let result = execute_expand_equipment_slots(&mut game);
    assert!(result.is_ok());
    assert_eq!(4, game.equipped_items.len());
    assert_eq!(Err(MyError::create_execute_command_error("No item in inventory to equip in new item slot. Whole inventory is empty.".to_string())), execute_expand_equipment_slots(&mut game));
    game.inventory.push(Some(item));
    assert_eq!(Err(MyError::create_execute_command_error("Cant pay the crafting cost, the cost is {Gold: 3125} and you only have {Gold: 1}".to_string())), execute_expand_equipment_slots(&mut game));
}

#[test]
fn expand_min_element_refusal_keeps_payment() {
    let mut game = new(Some([1; 16]));
    game.treasure.insert(Gold, 5);
    assert!(execute_expand_min_element(&mut game).is_err());
    assert_eq!(Some(4), game.treasure.get(Gold));
    assert_eq!(Some(1), game.difficulty.min_resistance.get(AttackType::Physical));
}
