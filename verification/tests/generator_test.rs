use my_little_rpg::attack_types::AttackType;
use my_little_rpg::generator::game::{new as new_game, new_testing as new_game_testing};
use my_little_rpg::generator::place::new as new_place;
use my_little_rpg::the_world::treasure_types::TreasureType;

#[test]
fn test_generate_place() {
    let mut game = new_game_testing(Some([1; 16]));

    let place = new_place(&mut game);

    assert_eq!(place.resistance.len(), 6);
    assert_eq!(game.difficulty, place.item_reward_possible_rolls);
}

#[test]
fn test_generate_place_one_element() {
    let mut game = new_game(Some([1; 16]));

    let place = new_place(&mut game);

    assert_eq!(1, place.resistance.get(AttackType::Physical).unwrap());
    assert_eq!(3, place.reward.get(TreasureType::Gold).unwrap());
    assert_eq!(place.resistance.len(), 1);
    assert_eq!(game.difficulty, place.item_reward_possible_rolls);
}

#[test]
fn seeding_test() {
    let original_game = new_game_testing(Some([1; 16]));

    for _i in 1..1000 {
        let game = new_game_testing(Some([1; 16]));
        assert_eq!(original_game, game);
    }
}

#[test]
fn many_runs_test() {
    let mut game = new_game_testing(Some([1; 16]));

    for _i in 1..438 {
        new_place(&mut game);
    }
}

#[test]
fn seeding_test_generate_testing_game() {
    let original_result = new_game_testing(Some([1; 16]));

    for _i in 1..1000 {
        let game = new_game_testing(Some([1; 16]));
        assert_eq!(original_result, game);
    }
}

#[test]
fn seeding_test_generate_new_game() {
    let original_result = new_game(Some([1; 16]));

    for _i in 1..1000 {
        let game = new_game(Some([1; 16]));
        assert_eq!(original_result, game);
    }
}

#[test]
fn new_game_starting_state() {
    let game = new_game(Some([2; 16]));
    assert_eq!([2; 16], game.seed);
    assert_eq!(1, game.places.len());
    assert_eq!(1, game.equipped_items.len());
    assert_eq!(0, game.inventory.len());
    assert_eq!(None, game.treasure.get(TreasureType::Gold));
}

#[test]
fn new_game_without_seed_draws_one() {
    let first = new_game(None);
    let second = new_game(None);
    assert_eq!(1, first.places.len());
    assert_eq!(1, first.equipped_items.len());
    assert_ne!(first.seed, second.seed);
}

#[test]
fn testing_game_starting_state() {
    let game = new_game_testing(Some([2; 16]));
    assert_eq!(10, game.places.len());
    assert_eq!(2, game.equipped_items.len());
    assert_eq!(9, game.equipped_items[1].modifiers.len());
    assert_eq!(9, game.inventory.len());
    assert_eq!(8, game.difficulty.min_resistance.len());
}

#[test]
fn generated_places_stay_within_bounds() {
    let mut game = new_game_testing(Some([3; 16]));
    for _i in 0..50 {
        let place = new_place(&mut game);
        assert!(place.resistance.len() >= 1);
        for t in AttackType::get_all() {
            if let Some(v) = place.resistance.get(t) {
                assert!(game.difficulty.min_resistance.get(t).unwrap() <= v);
                assert!(v <= game.difficulty.max_resistance.get(t).unwrap());
            }
        }
    }
}
