use my_little_rpg::attack_types::AttackType;
use my_little_rpg::command::move_command::{execute, move_fits_check, ExecuteMoveCommandReport};
use my_little_rpg::generator::game::new_testing;
use my_little_rpg::my_little_rpg_errors::MyError;
use my_little_rpg::the_world::game::Game;
use my_little_rpg::the_world::item::Gain;
use my_little_rpg::the_world::item_resource::Type;
use my_little_rpg::the_world::place::Place;
use my_little_rpg::the_world::treasure_types::TreasureType::Gold;

fn unwrap_move_error(result: Result<ExecuteMoveCommandReport, MyError>) -> (String, usize) {
    match result.unwrap_err() {
        MyError::MoveCommand { error_message, item_report } => (error_message, item_report.len()),
        _ => panic!("Did not return the right type of error!"),
    }
}

fn standard_world_test_setup() -> (Game, Place) {
    let game = new_testing(Some([1; 16]));
    let place = game.places[0];
    assert_eq!(None, game.treasure.get(Gold));
    assert_eq!(None, game.item_resources.get(Type::Mana));
    assert_eq!(9, game.inventory.len());
    assert_eq!(0, game.statistics.moves_count);
    assert_eq!(0, game.statistics.wins);
    assert_eq!(0, game.statistics.loses);
    assert_eq!(0, game.statistics.wins_in_a_row);
    assert_eq!(0, game.statistics.loses_in_a_row);
    (game, place)
}

fn move_and_verify_win(game: &mut Game, place: Place) {
    let result = execute(game, 0).expect("Test failed!");
    assert_eq!("You won and got a new item in the inventory.", result.result);
    assert_eq!(2, result.item_report.len());
    assert_ne!(place, game.places[0]);
    assert_eq!(place.reward.get(Gold), game.treasure.get(Gold));
    assert_ne!(0, game.treasure.get(Gold).unwrap());
    assert_eq!(Some(1), game.item_resources.get(Type::Mana));
    assert_eq!(10, game.inventory.len());
    assert_eq!(1, game.statistics.moves_count);
    assert_eq!(1, game.statistics.wins);
    assert_eq!(0, game.statistics.loses);
    assert_eq!(1, game.statistics.wins_in_a_row);
    assert_eq!(0, game.statistics.loses_in_a_row);
}

fn move_and_verify_loss(game: &mut Game) {
    let result = execute(game, 0).expect_err("Test failed!");
    let printed_result = format!("{result:?}");
    assert!(printed_result.contains("You did not deal enough damage to overcome the challenges in this place."));
    assert_eq!(2, printed_result.matches("ItemReport {").count());
    assert!(!printed_result.contains("Gold"));
    assert_eq!(9, game.inventory.len());
    assert_eq!(1, game.statistics.moves_count);
    assert_eq!(0, game.statistics.wins);
    assert_eq!(1, game.statistics.loses);
    assert_eq!(0, game.statistics.wins_in_a_row);
    assert_eq!(1, game.statistics.loses_in_a_row);
}

fn powerful_gains(game: &mut Game) -> &mut Vec<Gain> {
    &mut game.equipped_items[1].modifiers[0].gains
}

#[test]
fn tests_test_execute_move_command_index_out_of_bounds() {
    let mut game = new_testing(Some([1; 16]));
    let (message, reports) = unwrap_move_error(execute(&mut game, 11));
    assert_eq!("Error: execute_move_command: Index 11 is out of range of places, places is 10 long.", message);
    assert_eq!(0, reports);
    assert_eq!(None, game.treasure.get(Gold));
}

#[test]
fn test_execute_move_command_accumulate_resource_even_when_losing() {
    let (mut game, place) = standard_world_test_setup();
    move_and_verify_loss(&mut game);
    let result = execute(&mut game, 0).expect("Test failed!");
    assert_eq!("You won and got a new item in the inventory.", result.result);
    assert_eq!(2, result.item_report.len());
    assert_ne!(place, game.places[0]);
    assert_eq!(place.reward.get(Gold), game.treasure.get(Gold));
    assert_ne!(0, game.treasure.get(Gold).unwrap());
    assert_eq!(Some(1), game.item_resources.get(Type::Mana));
    assert_eq!(10, game.inventory.len());
    assert_eq!(2, game.statistics.moves_count);
    assert_eq!(1, game.statistics.wins);
    assert_eq!(1, game.statistics.loses);
    assert_eq!(1, game.statistics.wins_in_a_row);
    assert_eq!(0, game.statistics.loses_in_a_row);
}

#[test]
fn test_manually_adding_five_mana_gets_standard_setup_to_work() {
    let (mut game, place) = standard_world_test_setup();
    game.item_resources.insert(Type::Mana, 5);
    move_and_verify_win(&mut game, place);
}

#[test]
fn test_add_flatdamage_works() {
    let (mut game, place) = standard_world_test_setup();
    game.item_resources.insert(Type::Mana, 5);
    game.places[0].resistance.insert(AttackType::Physical, 2000);
    powerful_gains(&mut game).push(Gain::FlatDamage(AttackType::Physical, 2000));
    move_and_verify_win(&mut game, place);
}

#[test]
fn test_add_flatdamage_too_little_does_not_work() {
    let (mut game, _place) = standard_world_test_setup();
    game.item_resources.insert(Type::Mana, 5);
    game.places[0].resistance.insert(AttackType::Physical, 2000);
    powerful_gains(&mut game).push(Gain::FlatDamage(AttackType::Physical, 1000));
    move_and_verify_loss(&mut game);
}

#[test]
fn test_add_flatdamage_wrong_type_does_not_work() {
    let (mut game, _place) = standard_world_test_setup();
    game.item_resources.insert(Type::Mana, 5);
    game.places[0].resistance.insert(AttackType::Physical, 2000);
    powerful_gains(&mut game).push(Gain::FlatDamage(AttackType::Corruption, 2000));
    move_and_verify_loss(&mut game);
}

#[test]
fn test_add_percentage_increase_works() {
    let (mut game, place) = standard_world_test_setup();
    game.item_resources.insert(Type::Mana, 5);
    game.places[0].resistance.insert(AttackType::Physical, 2000);
    powerful_gains(&mut game).push(Gain::PercentageIncreaseDamage(AttackType::Physical, 1900));
    move_and_verify_win(&mut game, place);
}

#[test]
fn test_add_percentage_increase_too_little_does_not_work() {
    let (mut game, _place) = standard_world_test_setup();
    game.item_resources.insert(Type::Mana, 5);
    game.places[0].resistance.insert(AttackType::Physical, 2000);
    powerful_gains(&mut game).push(Gain::PercentageIncreaseDamage(AttackType::Physical, 1899));
    move_and_verify_loss(&mut game);
}

#[test]
fn test_add_percentage_increase_wrong_type_does_not_work() {
    let (mut game, _place) = standard_world_test_setup();
    game.item_resources.insert(Type::Mana, 5);
    game.places[0].resistance.insert(AttackType::Physical, 2000);
    powerful_gains(&mut game).push(Gain::PercentageIncreaseDamage(AttackType::Corruption, 1900));
    move_and_verify_loss(&mut game);
}

#[test]
fn test_add_percentage_increase_too_early_does_not_work() {
    let (mut game, _place) = standard_world_test_setup();
    game.item_resources.insert(Type::Mana, 5);
    game.places[0].resistance.insert(AttackType::Physical, 2000);
    powerful_gains(&mut game).insert(0, Gain::PercentageIncreaseDamage(AttackType::Physical, 1900));
    move_and_verify_loss(&mut game);
}

#[test]
fn test_add_flatresistancereduction_works() {
    let (mut game, place) = standard_world_test_setup();
    game.item_resources.insert(Type::Mana, 5);
    game.places[0].resistance.insert(AttackType::Physical, 2000);
    powerful_gains(&mut game).push(Gain::FlatResistanceReduction(AttackType::Physical, 2000));
    move_and_verify_win(&mut game, place);
}

#[test]
fn test_add_flatresistancereduction_wrong_type_does_not_work() {
    let (mut game, _place) = standard_world_test_setup();
    game.item_resources.insert(Type::Mana, 5);
    game.places[0].resistance.insert(AttackType::Physical, 2000);
    powerful_gains(&mut game).push(Gain::FlatResistanceReduction(AttackType::Corruption, 2000));
    move_and_verify_loss(&mut game);
}

#[test]
fn test_add_flatresistancereduction_too_little_does_not_work() {
    let (mut game, _place) = standard_world_test_setup();
    game.item_resources.insert(Type::Mana, 5);
    game.places[0].resistance.insert(AttackType::Physical, 2000);
    powerful_gains(&mut game).push(Gain::FlatResistanceReduction(AttackType::Physical, 1000));
    move_and_verify_loss(&mut game);
}

#[test]
fn test_add_percentageresistancereduction_works() {
    let (mut game, place) = standard_world_test_setup();
    game.item_resources.insert(Type::Mana, 5);
    game.places[0].resistance.insert(AttackType::Physical, 2000);
    powerful_gains(&mut game).push(Gain::FlatResistanceReduction(AttackType::Physical, 1000));
    powerful_gains(&mut game).push(Gain::PercentageIncreaseResistanceReduction(AttackType::Physical, 90));
    move_and_verify_win(&mut game, place);
}

#[test]
fn test_add_percentageresistancereduction_wrong_type_does_not_work() {
    let (mut game, _place) = standard_world_test_setup();
    game.item_resources.insert(Type::Mana, 5);
    game.places[0].resistance.insert(AttackType::Physical, 2000);
    powerful_gains(&mut game).push(Gain::FlatResistanceReduction(AttackType::Physical, 1000));
    powerful_gains(&mut game).push(Gain::PercentageIncreaseResistanceReduction(AttackType::Corruption, 90));
    move_and_verify_loss(&mut game);
}

#[test]
fn test_add_percentageresistancereduction_to_early_does_not_work() {
    let (mut game, _place) = standard_world_test_setup();
    game.item_resources.insert(Type::Mana, 5);
    game.places[0].resistance.insert(AttackType::Physical, 2000);
    powerful_gains(&mut game).push(Gain::PercentageIncreaseResistanceReduction(AttackType::Physical, 90));
    powerful_gains(&mut game).push(Gain::FlatResistanceReduction(AttackType::Physical, 1000));
    move_and_verify_loss(&mut game);
}

#[test]
fn test_add_percentageresistancereduction_too_little_does_not_work() {
    let (mut game, _place) = standard_world_test_setup();
    game.item_resources.insert(Type::Mana, 5);
    game.places[0].resistance.insert(AttackType::Physical, 2000);
    powerful_gains(&mut game).push(Gain::FlatResistanceReduction(AttackType::Physical, 1000));
    powerful_gains(&mut game).push(Gain::PercentageIncreaseResistanceReduction(AttackType::Physical, 89));
    move_and_verify_loss(&mut game);
}

#[test]
fn test_add_flatdamage_againstmaxresistance_works() {
    let (mut game, place) = standard_world_test_setup();
    game.item_resources.insert(Type::Mana, 5);
    game.places[0].resistance.insert(AttackType::Physical, 2000);
    powerful_gains(&mut game).push(Gain::FlatDamageAgainstHighestResistance(2000));
    move_and_verify_win(&mut game, place);
}

#[test]
fn test_add_flatdamage_againstmaxresistance_too_little_does_not_work() {
    let (mut game, _place) = standard_world_test_setup();
    game.item_resources.insert(Type::Mana, 5);
    game.places[0].resistance.insert(AttackType::Physical, 2000);
    powerful_gains(&mut game).push(Gain::FlatDamageAgainstHighestResistance(1000));
    move_and_verify_loss(&mut game);
}

#[test]
fn test_add_percentage_againstmaxresistance_increase_works() {
    let (mut game, place) = standard_world_test_setup();
    game.item_resources.insert(Type::Mana, 5);
    game.places[0].resistance.insert(AttackType::Physical, 2000);
    powerful_gains(&mut game).push(Gain::PercentageIncreaseDamageAgainstHighestResistance(1900));
    move_and_verify_win(&mut game, place);
}

#[test]
fn test_add_percentage_againstmaxresistance_increase_too_little_does_not_work() {
    let (mut game, _place) = standard_world_test_setup();
    game.item_resources.insert(Type::Mana, 5);
    game.places[0].resistance.insert(AttackType::Physical, 2000);
    powerful_gains(&mut game).push(Gain::PercentageIncreaseDamageAgainstHighestResistance(1899));
    move_and_verify_loss(&mut game);
}

#[test]
fn test_add_percentage_againstmaxresistance_increase_too_early_does_not_work() {
    let (mut game, _place) = standard_world_test_setup();
    game.item_resources.insert(Type::Mana, 5);
    game.places[0].resistance.insert(AttackType::Physical, 2000);
    game.equipped_items[0].modifiers[0].gains.push(Gain::PercentageIncreaseDamageAgainstHighestResistance(1899));
    move_and_verify_loss(&mut game);
}

#[test]
fn test_add_flatdamage_againstminresistance_works() {
    let (mut game, place) = standard_world_test_setup();
    game.item_resources.insert(Type::Mana, 5);
    game.places[0].resistance.clear();
    game.places[0].resistance.insert(AttackType::Physical, 1999);
    game.places[0].resistance.insert(AttackType::Corruption, 2000);
    powerful_gains(&mut game).push(Gain::FlatDamageAgainstHighestResistance(2000));
    powerful_gains(&mut game).push(Gain::FlatDamageAgainstLowestResistance(1999));
    move_and_verify_win(&mut game, place);
}

#[test]
fn test_add_flatdamage_againstminresistance_too_little_does_not_work() {
    let (mut game, _place) = standard_world_test_setup();
    game.item_resources.insert(Type::Mana, 5);
    game.places[0].resistance.clear();
    game.places[0].resistance.insert(AttackType::Physical, 1999);
    game.places[0].resistance.insert(AttackType::Corruption, 2000);
    powerful_gains(&mut game).push(Gain::FlatDamageAgainstHighestResistance(2000));
    powerful_gains(&mut game).push(Gain::FlatDamageAgainstLowestResistance(1000));
    move_and_verify_loss(&mut game);
}

#[test]
fn test_add_percentage_againstminresistance_increase_works() {
    let (mut game, place) = standard_world_test_setup();
    game.item_resources.insert(Type::Mana, 5);
    game.places[0].resistance.clear();
    game.places[0].resistance.insert(AttackType::Physical, 1999);
    game.places[0].resistance.insert(AttackType::Corruption, 2000);
    powerful_gains(&mut game).push(Gain::FlatDamageAgainstHighestResistance(2000));
    powerful_gains(&mut game).push(Gain::FlatDamageAgainstLowestResistance(1000));
    powerful_gains(&mut game).push(Gain::PercentageIncreaseDamageAgainstLowestResistance(82));
    move_and_verify_win(&mut game, place);
}

#[test]
fn test_add_percentage_againstminresistance_increase_too_little_does_not_work() {
    let (mut game, _place) = standard_world_test_setup();
    game.item_resources.insert(Type::Mana, 5);
    game.places[0].resistance.clear();
    game.places[0].resistance.insert(AttackType::Physical, 1999);
    game.places[0].resistance.insert(AttackType::Corruption, 2000);
    powerful_gains(&mut game).push(Gain::FlatDamageAgainstHighestResistance(2000));
    powerful_gains(&mut game).push(Gain::FlatDamageAgainstLowestResistance(1000));
    powerful_gains(&mut game).push(Gain::PercentageIncreaseDamageAgainstLowestResistance(81));
    move_and_verify_loss(&mut game);
}

#[test]
fn test_add_percentage_againstminresistance_increase_too_early_does_not_work() {
    let (mut game, _place) = standard_world_test_setup();
    game.item_resources.insert(Type::Mana, 5);
    game.places[0].resistance.clear();
    game.places[0].resistance.insert(AttackType::Physical, 1999);
    game.places[0].resistance.insert(AttackType::Corruption, 2000);
    powerful_gains(&mut game).push(Gain::FlatDamageAgainstHighestResistance(2000));
    powerful_gains(&mut game).push(Gain::PercentageIncreaseDamageAgainstLowestResistance(82));
    powerful_gains(&mut game).push(Gain::FlatDamageAgainstLowestResistance(1000));
    move_and_verify_loss(&mut game);
}

#[test]
fn percentage_increase_treasure_multiplies_the_reward() {
    let (mut game, _place) = standard_world_test_setup();
    assert_eq!(None, game.treasure.get(Gold));
    game.item_resources.insert(Type::Mana, 5);
    game.places[0].resistance.insert(AttackType::Physical, 2000);
    powerful_gains(&mut game).push(Gain::FlatDamage(AttackType::Physical, 2000));
    powerful_gains(&mut game).push(Gain::PercentageIncreaseTreasure(Gold, 2000));
    let reward = game.places[0].reward.get(Gold).unwrap();
    execute(&mut game, 0).expect("Test failed!");
    assert_eq!(Some(reward + reward * 2000 / 100), game.treasure.get(Gold));
}

#[test]
fn test_add_items_reward_works() {
    let (mut game, _place) = standard_world_test_setup();
    assert_eq!(None, game.treasure.get(Gold));
    game.item_resources.insert(Type::Mana, 5);
    game.places[0].resistance.insert(AttackType::Physical, 2000);
    powerful_gains(&mut game).push(Gain::FlatDamage(AttackType::Physical, 2000));
    powerful_gains(&mut game).push(Gain::FlatIncreaseRewardedItems(2000));
    execute(&mut game, 0).expect("Test failed!");
    assert_eq!(2010, game.inventory.len());
}

#[test]
fn statistics_stay_balanced_over_many_moves() {
    let mut game = new_testing(Some([9; 16]));
    for i in 0..40 {
        let _ = execute(&mut game, i % 10);
        assert_eq!(game.statistics.moves_count, game.statistics.wins + game.statistics.loses);
        assert!(game.statistics.wins_in_a_row == 0 || game.statistics.loses_in_a_row == 0);
    }
}

#[test]
fn move_fits_check_accepts_ordinary_moves() {
    let game = new_testing(Some([1; 16]));
    assert!(move_fits_check(&game, 0));
    assert!(move_fits_check(&game, 999));
}

#[test]
fn move_fits_check_refuses_overflowing_counters() {
    let mut game = new_testing(Some([1; 16]));
    game.statistics.moves_count = u64::MAX;
    assert!(!move_fits_check(&game, 0));
    let mut game = new_testing(Some([1; 16]));
    game.statistics.loses = u64::MAX;
    assert!(!move_fits_check(&game, 0));
}

#[test]
fn move_fits_check_refuses_overflowing_treasure() {
    let mut game = new_testing(Some([1; 16]));
    game.item_resources.insert(Type::Mana, 5);
    game.places[0].resistance.insert(AttackType::Physical, 2000);
    game.equipped_items[1].modifiers[0].gains.push(Gain::FlatDamage(AttackType::Physical, 2000));
    assert!(move_fits_check(&game, 0));
    game.treasure.insert(Gold, u64::MAX);
    assert!(!move_fits_check(&game, 0));
}
