use my_little_rpg::command::equip_swap::{execute_equip_item, execute_swap_equipped_item};
use my_little_rpg::command::reorder_inventory::execute as execute_reorder;
use my_little_rpg::generator::game::new_testing;
use my_little_rpg::my_little_rpg_errors::MyError;
use my_little_rpg::the_world::item::{CraftingInfo, Item, Modifier};

#[test]
fn tests_test_execute_equip_item() {
    let mut game = new_testing(Some([1; 16]));
    let equipped_item = game.equipped_items[0].clone();
    let inventory_item = game.inventory[0].clone();
    assert!(execute_equip_item(&mut game, 0, 0).is_ok());
    assert_eq!(Some(equipped_item), game.inventory[0]);
    assert_eq!(inventory_item, Some(game.equipped_items[0].clone()));
}

#[test]
fn tests_test_execute_equip_item_inventory_out_of_bounds() {
    let mut game = new_testing(Some([1; 16]));
    let equipped_item = game.equipped_items[0].clone();
    let inventory_item = game.inventory[0].clone();
    assert_eq!(
        Err(MyError::create_execute_command_error(
            "inventory_position 999 is not within the range of the inventory 9".to_string()
        )),
        execute_equip_item(&mut game, 999, 0)
    );
    assert_eq!(inventory_item, game.inventory[0]);
    assert_eq!(equipped_item, game.equipped_items[0]);
}

#[test]
fn tests_test_execute_equip_item_equipment_out_of_bounds() {
    let mut game = new_testing(Some([1; 16]));
    let equipped_item = game.equipped_items[0].clone();
    let inventory_item = game.inventory[0].clone();
    assert_eq!(
        Err(MyError::create_execute_command_error(
            "equipped_item_position 999 is not within the range of the equipment slots 2".to_string()
        )),
        execute_equip_item(&mut game, 0, 999)
    );
    assert_eq!(inventory_item, game.inventory[0]);
    assert_eq!(equipped_item, game.equipped_items[0]);
}

#[test]
fn tests_test_execute_swap_equipped_item() {
    let mut game = new_testing(Some([1; 16]));
    let equipped_item_1 = game.equipped_items[0].clone();
    let equipped_item_2 = game.equipped_items[1].clone();
    assert!(execute_swap_equipped_item(&mut game, 0, 1).is_ok());
    assert_eq!(equipped_item_2, game.equipped_items[0]);
    assert_eq!(equipped_item_1, game.equipped_items[1]);
}

#[test]
fn tests_test_execute_swap_equipped_item_equipped_item_1_out_of_bounds() {
    let mut game = new_testing(Some([1; 16]));
    let equipped_item_1 = game.equipped_items[0].clone();
    let equipped_item_2 = game.equipped_items[1].clone();
    assert_eq!(
        Err(MyError::create_execute_command_error(
            "equipped_item_position_1 999 is not within the range of the equipment slots 2".to_string()
        )),
        execute_swap_equipped_item(&mut game, 999, 1)
    );
    assert_eq!(equipped_item_1, game.equipped_items[0]);
    assert_eq!(equipped_item_2, game.equipped_items[1]);
}

#[test]
fn tests_test_execute_swap_equipped_item_equipped_item_2_out_of_bounds() {
    let mut game = new_testing(Some([1; 16]));
    let equipped_item_1 = game.equipped_items[0].clone();
    let equipped_item_2 = game.equipped_items[1].clone();
    assert_eq!(
        Err(MyError::create_execute_command_error(
            "equipped_item_position_2 999 is not within the range of the equipment slots 2".to_string()
        )),
        execute_swap_equipped_item(&mut game, 0, 999)
    );
    assert_eq!(equipped_item_1, game.equipped_items[0]);
    assert_eq!(equipped_item_2, game.equipped_items[1]);
}

#[test]
fn tests_test_execute_swap_equipped_item_equipped_item_1_and_2_are_the_same() {
    let mut game = new_testing(Some([1; 16]));
    let equipped_item_1 = game.equipped_items[0].clone();
    let equipped_item_2 = game.equipped_items[1].clone();
    assert_eq!(
        Err(MyError::create_execute_command_error(
            "equipped_item_position_1 0 cannot be the same as equipped_item_position_2 0".to_string()
        )),
        execute_swap_equipped_item(&mut game, 0, 0)
    );
    assert_eq!(equipped_item_1, game.equipped_items[0]);
    assert_eq!(equipped_item_2, game.equipped_items[1]);
}

#[test]
fn equip_empty_slot_is_refused() {
    let mut game = new_testing(Some([1; 16]));
    game.inventory[3] = None;
    assert_eq!(
        Err(MyError::create_execute_command_error("inventory_position 3 is empty.".to_string())),
        execute_equip_item(&mut game, 3, 0)
    );
}

#[test]
fn swapping_twice_restores_equipment() {
    let mut game = new_testing(Some([1; 16]));
    let before = game.equipped_items.clone();
    assert!(execute_swap_equipped_item(&mut game, 0, 1).is_ok());
    assert!(execute_swap_equipped_item(&mut game, 0, 1).is_ok());
    assert_eq!(before, game.equipped_items);
}

#[test]
fn equipping_twice_restores_inventory() {
    let mut game = new_testing(Some([1; 16]));
    let before_inventory = game.inventory.clone();
    let before_equipped = game.equipped_items.clone();
    assert!(execute_equip_item(&mut game, 2, 1).is_ok());
    assert!(execute_equip_item(&mut game, 2, 1).is_ok());
    assert_eq!(before_inventory, game.inventory);
    assert_eq!(before_equipped, game.equipped_items);
}

#[test]
fn test_execute_reorder_inventory() {
    let mut game = new_testing(Some([1; 16]));
    let item = Some(Item {
        modifiers: vec![Modifier { costs: Vec::new(), gains: Vec::new() }],
        crafting_info: CraftingInfo { possible_rolls: game.difficulty, places_count: game.places.len() },
    });
    game.inventory = vec![item.clone(), None, item.clone(), None, None, item];
    assert_eq!("Inventory is reordered.", execute_reorder(&mut game));
    assert_eq!(3, game.inventory.len());
    assert_eq!(0, game.inventory.iter().filter(|i| i.is_none()).count());
}

#[test]
fn reorder_twice_changes_nothing_more() {
    let mut game = new_testing(Some([1; 16]));
    game.inventory[1] = None;
    game.inventory[4] = None;
    execute_reorder(&mut game);
    let once = game.inventory.clone();
    execute_reorder(&mut game);
    assert_eq!(once, game.inventory);
    assert_eq!(7, game.inventory.len());
}
