use my_little_rpg::attack_types::{AttackType, DamageMap};
use my_little_rpg::command::reduce_difficulty::{execute, execute_execute_reduce_difficulty_cost};
use my_little_rpg::generator::game::new_testing;
use my_little_rpg::the_world::difficulty::Difficulty;
use my_little_rpg::the_world::game::Game;
use my_little_rpg::the_world::treasure_types::{TreasureMap, TreasureType::Gold};

fn count_places_possible_rolls_equal_difficulty(game: &Game) -> usize {
    game.places.iter().filter(|place| place.item_reward_possible_rolls == game.difficulty).count()
}

fn two_element_difficulty() -> Difficulty {
    let mut min_resistance = DamageMap::new();
    min_resistance.insert(AttackType::Physical, 10);
    min_resistance.insert(AttackType::Fire, 10);
    let mut max_resistance = DamageMap::new();
    max_resistance.insert(AttackType::Physical, 11);
    max_resistance.insert(AttackType::Fire, 11);
    Difficulty { min_resistance, max_resistance, min_simultaneous_resistances: 15, max_simultaneous_resistances: 7 }
}

#[test]
fn tests_test_execute_reduce_difficulty() {
    let mut game = new_testing(Some([1; 16]));
    game.difficulty = two_element_difficulty();
    assert!(execute(&mut game).is_ok());
    assert_eq!(15, game.difficulty.min_simultaneous_resistances);
    assert_eq!(7, game.difficulty.max_simultaneous_resistances);
    assert_eq!(10, game.difficulty.min_resistance.get(AttackType::Physical).unwrap());
    assert_eq!(2, game.difficulty.min_resistance.get(AttackType::Fire).unwrap());
    assert_eq!(11, game.difficulty.max_resistance.get(AttackType::Physical).unwrap());
    assert_eq!(5, game.difficulty.max_resistance.get(AttackType::Fire).unwrap());
    assert_eq!(1, count_places_possible_rolls_equal_difficulty(&game));
    assert!(execute(&mut game).is_ok());
    assert_eq!(15, game.difficulty.min_simultaneous_resistances);
    assert_eq!(7, game.difficulty.max_simultaneous_resistances);
    assert_eq!(2, game.difficulty.min_resistance.get(AttackType::Physical).unwrap());
    assert_eq!(2, game.difficulty.min_resistance.get(AttackType::Fire).unwrap());
    assert_eq!(5, game.difficulty.max_resistance.get(AttackType::Physical).unwrap());
    assert_eq!(5, game.difficulty.max_resistance.get(AttackType::Fire).unwrap());
    assert_eq!(1, count_places_possible_rolls_equal_difficulty(&game));
    assert!(execute(&mut game).is_ok());
    assert_eq!(1, game.difficulty.min_simultaneous_resistances);
    assert_eq!(1, game.difficulty.max_simultaneous_resistances);
    assert_eq!(None, game.difficulty.min_resistance.get(AttackType::Physical));
    assert_eq!(2, game.difficulty.min_resistance.get(AttackType::Fire).unwrap());
    assert_eq!(None, game.difficulty.max_resistance.get(AttackType::Physical));
    assert_eq!(5, game.difficulty.max_resistance.get(AttackType::Fire).unwrap());
    assert_eq!(1, count_places_possible_rolls_equal_difficulty(&game));
    assert!(execute(&mut game).is_ok());
    assert_eq!(1, game.difficulty.min_simultaneous_resistances);
    assert_eq!(1, game.difficulty.max_simultaneous_resistances);
    assert_eq!(None, game.difficulty.min_resistance.get(AttackType::Physical));
    assert_eq!(1, game.difficulty.min_resistance.get(AttackType::Fire).unwrap());
    assert_eq!(None, game.difficulty.max_resistance.get(AttackType::Physical));
    assert_eq!(2, game.difficulty.max_resistance.get(AttackType::Fire).unwrap());
    assert_eq!(1, count_places_possible_rolls_equal_difficulty(&game));
    assert!(execute(&mut game).is_ok());
    assert_eq!(1, game.difficulty.min_simultaneous_resistances);
    assert_eq!(1, game.difficulty.max_simultaneous_resistances);
    assert_eq!(None, game.difficulty.min_resistance.get(AttackType::Physical));
    assert_eq!(1, game.difficulty.min_resistance.get(AttackType::Fire).unwrap());
    assert_eq!(None, game.difficulty.max_resistance.get(AttackType::Physical));
    assert_eq!(2, game.difficulty.max_resistance.get(AttackType::Fire).unwrap());
    assert_eq!(2, count_places_possible_rolls_equal_difficulty(&game));
}

#[test]
fn reduce_difficulty_seeding_test() {
    let mut game = new_testing(Some([1; 16]));
    game.treasure.insert(Gold, 1000);
    let original_result = execute(&mut game);
    for _i in 1..1000 {
        let mut game = new_testing(Some([1; 16]));
        game.treasure.insert(Gold, 1000);
        let result = execute(&mut game);
        assert_eq!(original_result, result);
    }
}

#[test]
fn reduce_difficulty_is_free() {
    assert_eq!(TreasureMap::gold(0), execute_execute_reduce_difficulty_cost());
    let mut game = new_testing(Some([2; 16]));
    game.treasure.insert(Gold, 7);
    let report = execute(&mut game).unwrap();
    assert_eq!(TreasureMap::gold(0), report.paid_cost);
    assert_eq!(Some(7), game.treasure.get(Gold));
    assert_eq!(game.difficulty, report.new_difficulty);
}
