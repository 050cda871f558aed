use vstd::prelude::*;
use rand_pcg::Lcg64Xsh32;
use crate::attack_types::{attack_at, AttackType, DamageMap};
use crate::generator::place::{generated_place, new as new_place};
use crate::rng::{entropy_seed, generator_from_seed};
use crate::the_world::difficulty::Difficulty;
use crate::the_world::game::{Game, GameView};
use crate::the_world::game_statistics::GameStatistics;
use crate::the_world::item::{Cost, CostSpec, CraftingInfo, Gain, Item, ItemSpec, Modifier, ModifierSpec};
use crate::the_world::item_resource::{ResourceMap, Type};
use crate::the_world::treasure_types::TreasureMap;

verus! {

/// The difficulty a new game starts with: physical resistances from 1 to 2, one
/// element at a time.
pub open spec fn new_game_difficulty() -> Difficulty {
    Difficulty {
        max_resistance: DamageMap { amounts: [Some(2u64), None, None, None, None, None, None, None, None] },
        min_resistance: DamageMap { amounts: [Some(1u64), None, None, None, None, None, None, None, None] },
        max_simultaneous_resistances: 1,
        min_simultaneous_resistances: 1,
    }
}

/// The difficulty of the testing game: every element but physical, the n-th of
/// them resisting from n + 1 to 10 (n + 1).
pub open spec fn testing_difficulty() -> Difficulty {
    Difficulty {
        max_resistance: DamageMap {
            amounts: [None, Some(20u64), Some(30u64), Some(40u64), Some(50u64), Some(60u64), Some(70u64), Some(80u64), Some(90u64)],
        },
        min_resistance: DamageMap {
            amounts: [None, Some(2u64), Some(3u64), Some(4u64), Some(5u64), Some(6u64), Some(7u64), Some(8u64), Some(9u64)],
        },
        max_simultaneous_resistances: 22,
        min_simultaneous_resistances: 23,
    }
}

/// Counters at zero.
pub open spec fn fresh_statistics() -> GameStatistics {
    GameStatistics { moves_count: 0, wins: 0, loses: 0, wins_in_a_row: 0, loses_in_a_row: 0 }
}

/// An item whose one modifier costs nothing and gives `gain`.
pub open spec fn single_gain_item(gain: Gain, possible_rolls: Difficulty, places_count: usize) -> ItemSpec {
    ItemSpec {
        modifiers: seq![ModifierSpec { costs: Seq::empty(), gains: seq![gain] }],
        crafting_info: CraftingInfo { possible_rolls, places_count },
    }
}

/// The powerful item of the testing game: per attack type, in the canonical
/// order, a modifier that costs one mana and deals 100 damage of that type.
pub open spec fn powerful_item(possible_rolls: Difficulty) -> ItemSpec {
    ItemSpec {
        modifiers: Seq::new(
            9,
            |i: int|
                ModifierSpec {
                    costs: seq![CostSpec::FlatItemResource(Type::Mana, 1)],
                    gains: seq![Gain::FlatDamage(attack_at(i), 100)],
                },
        ),
        crafting_info: CraftingInfo { possible_rolls, places_count: 10 },
    }
}

/// The seed a game is made with and a generator seeded with it: the given seed,
/// or one drawn from the operating system's entropy.
fn create_random_generator(seed: Option<[u8; 16]>) -> (r: ([u8; 16], Lcg64Xsh32))
    ensures
        seed matches Some(s) ==> r.0 == s,
{
    let seed = match seed {
        Some(seed) => seed,
        None => entropy_seed(),
    };
    let random_generator = generator_from_seed(seed);
    (seed, random_generator)
}

fn make_new_game_difficulty() -> (r: Difficulty)
    ensures
        r == new_game_difficulty(),
{
    let mut min_resistance = DamageMap::new();
    min_resistance.insert(AttackType::Physical, 1);
    let mut max_resistance = DamageMap::new();
    max_resistance.insert(AttackType::Physical, 2);
    let r = Difficulty {
        max_resistance,
        min_resistance,
        max_simultaneous_resistances: 1,
        min_simultaneous_resistances: 1,
    };
    assert(r.max_resistance.amounts =~= new_game_difficulty().max_resistance.amounts);
    assert(r.min_resistance.amounts =~= new_game_difficulty().min_resistance.amounts);
    r
}

fn make_testing_difficulty() -> (r: Difficulty)
    ensures
        r == testing_difficulty(),
{
    let mut min_resistance = DamageMap::new();
    min_resistance.insert(AttackType::Fire, 2);
    min_resistance.insert(AttackType::Frost, 3);
    min_resistance.insert(AttackType::Lightning, 4);
    min_resistance.insert(AttackType::Light, 5);
    min_resistance.insert(AttackType::Darkness, 6);
    min_resistance.insert(AttackType::Nature, 7);
    min_resistance.insert(AttackType::Corruption, 8);
    min_resistance.insert(AttackType::Holy, 9);
    let mut max_resistance = DamageMap::new();
    max_resistance.insert(AttackType::Fire, 20);
    max_resistance.insert(AttackType::Frost, 30);
    max_resistance.insert(AttackType::Lightning, 40);
    max_resistance.insert(AttackType::Light, 50);
    max_resistance.insert(AttackType::Darkness, 60);
    max_resistance.insert(AttackType::Nature, 70);
    max_resistance.insert(AttackType::Corruption, 80);
    max_resistance.insert(AttackType::Holy, 90);
    let r = Difficulty {
        max_resistance,
        min_resistance,
        max_simultaneous_resistances: 22,
        min_simultaneous_resistances: 23,
    };
    assert(r.max_resistance.amounts =~= testing_difficulty().max_resistance.amounts);
    assert(r.min_resistance.amounts =~= testing_difficulty().min_resistance.amounts);
    r
}

fn make_single_gain_item(gain: Gain, possible_rolls: Difficulty, places_count: usize) -> (r: Item)
    ensures
        r.deep_view() == single_gain_item(gain, possible_rolls, places_count),
{
    let r = Item {
        modifiers: vec![Modifier { costs: Vec::new(), gains: vec![gain] }],
        crafting_info: CraftingInfo { possible_rolls, places_count },
    };
    assert(r.modifiers@[0].costs.deep_view() =~= Seq::<CostSpec>::empty());
    assert(r.modifiers@[0].gains@ =~= seq![gain]);
    assert(r.modifiers.deep_view() =~= single_gain_item(gain, possible_rolls, places_count).modifiers);
    r
}

/// Difficulties of the starting games are well formed.
proof fn lemma_starting_difficulties_well_formed()
    ensures
        new_game_difficulty().well_formed(),
        testing_difficulty().well_formed(),
{
    let d = new_game_difficulty();
    assert(d.min_resistance.spec_len() == 1) by {
        reveal_with_fuel(crate::attack_types::count_some, 10);
    }
    let e = testing_difficulty();
    assert(e.min_resistance.spec_len() == 8) by {
        reveal_with_fuel(crate::attack_types::count_some, 10);
    }
}

/// A new game: the starting difficulty, one equipped item that deals 2 physical
/// damage, an empty inventory, no treasure or resources, zeroed statistics and
/// one place rolled from the difficulty. The seed is the given one, or one drawn
/// from the operating system's entropy.
pub fn new(seed: Option<[u8; 16]>) -> (r: Game)
    ensures
        r.deep_view() == (GameView {
            places: r.places@,
            equipped_items: seq![
                single_gain_item(Gain::FlatDamage(AttackType::Physical, 2), new_game_difficulty(), 1),
            ],
            inventory: Seq::empty(),
            difficulty: new_game_difficulty(),
            treasure: TreasureMap { gold: None },
            item_resources: ResourceMap { mana: None },
            seed: r.seed@,
            random_generator_state: r.random_generator_state,
            statistics: fresh_statistics(),
        }),
        r.places@.len() == 1,
        generated_place(r.places@[0], new_game_difficulty()),
        seed matches Some(s) ==> r.seed == s,
{
    proof {
        lemma_starting_difficulties_well_formed();
    }
    let difficulty = make_new_game_difficulty();
    let item = make_single_gain_item(Gain::FlatDamage(AttackType::Physical, 2), difficulty, 1);
    let ghost item_view = item.deep_view();
    let equipped_items = vec![item];
    let (seed, random_generator) = create_random_generator(seed);
    let mut game = Game {
        places: Vec::new(),
        equipped_items,
        inventory: Vec::new(),
        difficulty,
        treasure: TreasureMap::new(),
        item_resources: ResourceMap::new(),
        seed,
        random_generator_state: random_generator,
        statistics: GameStatistics::new(),
    };
    assert(game.equipped_items.deep_view() =~= seq![item_view]);
    assert(game.inventory.deep_view() =~= Seq::<Option<ItemSpec>>::empty());
    let place = new_place(&mut game);
    game.places.push(place);
    game
}

/// The testing game: the testing difficulty; equipped, an item that makes 5 mana
/// and the powerful item; in the inventory, per attack type in the canonical
/// order, an item that deals 1 damage of it; no treasure or resources, zeroed
/// statistics and ten places rolled from the difficulty. The seed is the given
/// one, or one drawn from the operating system's entropy.
pub fn new_testing(seed: Option<[u8; 16]>) -> (r: Game)
    ensures
        r.deep_view() == (GameView {
            places: r.places@,
            equipped_items: seq![
                single_gain_item(Gain::FlatItemResource(Type::Mana, 5), testing_difficulty(), 10),
                powerful_item(testing_difficulty()),
            ],
            inventory: Seq::new(
                9,
                |i: int| Some(single_gain_item(Gain::FlatDamage(attack_at(i), 1), testing_difficulty(), 10)),
            ),
            difficulty: testing_difficulty(),
            treasure: TreasureMap { gold: None },
            item_resources: ResourceMap { mana: None },
            seed: r.seed@,
            random_generator_state: r.random_generator_state,
            statistics: fresh_statistics(),
        }),
        r.places@.len() == 10,
        forall|i: int| 0 <= i < 10 ==> generated_place(#[trigger] r.places@[i], testing_difficulty()),
        seed matches Some(s) ==> r.seed == s,
{
    proof {
        lemma_starting_difficulties_well_formed();
    }
    let difficulty = make_testing_difficulty();
    let generator_item = make_single_gain_item(Gain::FlatItemResource(Type::Mana, 5), difficulty, 10);
    let ghost generator_view = generator_item.deep_view();
    let all = AttackType::get_all();
    let mut modifiers: Vec<Modifier> = Vec::new();
    let mut i: usize = 0;
    while i < all.len()
        invariant
            all@ == crate::attack_types::all_attack_types(),
            i <= 9,
            modifiers.deep_view() =~= powerful_item(difficulty).modifiers.take(i as int),
        decreases 9 - i,
    {
        let modifier = Modifier {
            costs: vec![Cost::FlatItemResource(Type::Mana, 1)],
            gains: vec![Gain::FlatDamage(all[i], 100)],
        };
        proof {
            assert(modifier.costs.deep_view() =~= seq![CostSpec::FlatItemResource(Type::Mana, 1)]);
            assert(modifier.gains@ =~= seq![Gain::FlatDamage(attack_at(i as int), 100)]);
        }
        let ghost before = modifiers.deep_view();
        modifiers.push(modifier);
        proof {
            assert(powerful_item(difficulty).modifiers.take(i + 1) =~= powerful_item(difficulty).modifiers.take(i as int).push(powerful_item(difficulty).modifiers[i as int]));
            assert(modifiers.deep_view() =~= before.push(powerful_item(difficulty).modifiers[i as int]));
        }
        i = i + 1;
    }
    assert(powerful_item(difficulty).modifiers.take(9) =~= powerful_item(difficulty).modifiers);
    let powerful = Item { modifiers, crafting_info: CraftingInfo { possible_rolls: difficulty, places_count: 10 } };
    assert(powerful.deep_view() == powerful_item(difficulty));
    let ghost powerful_view = powerful.deep_view();
    let equipped_items = vec![generator_item, powerful];
    assert(equipped_items.deep_view() =~= seq![generator_view, powerful_view]);
    let mut inventory: Vec<Option<Item>> = Vec::new();
    let ghost inventory_spec = Seq::new(
        9,
        |k: int| Some(single_gain_item(Gain::FlatDamage(attack_at(k), 1), testing_difficulty(), 10)),
    );
    let mut j: usize = 0;
    while j < all.len()
        invariant
            all@ == crate::attack_types::all_attack_types(),
            j <= 9,
            difficulty == testing_difficulty(),
            inventory_spec == Seq::new(
                9,
                |k: int| Some(single_gain_item(Gain::FlatDamage(attack_at(k), 1), testing_difficulty(), 10)),
            ),
            inventory.deep_view() =~= inventory_spec.take(j as int),
        decreases 9 - j,
    {
        let item = make_single_gain_item(Gain::FlatDamage(all[j], 1), difficulty, 10);
        let ghost before = inventory.deep_view();
        let slot = Some(item);
        let ghost slot_view = slot.deep_view();
        assert(all@[j as int] == attack_at(j as int));
        assert(slot_view == inventory_spec[j as int]);
        inventory.push(slot);
        proof {
            assert(inventory_spec.take(j + 1) =~= inventory_spec.take(j as int).push(slot_view));
            assert(inventory.deep_view() =~= before.push(slot_view));
        }
        j = j + 1;
    }
    assert(inventory_spec.take(9) =~= inventory_spec);
    let (seed, random_generator) = create_random_generator(seed);
    let mut game = Game {
        places: Vec::new(),
        equipped_items,
        inventory,
        difficulty,
        treasure: TreasureMap::new(),
        item_resources: ResourceMap::new(),
        seed,
        random_generator_state: random_generator,
        statistics: GameStatistics::new(),
    };
    let ghost start = game.deep_view();
    let mut k: usize = 0;
    while k < 10
        invariant
            k <= 10,
            game.difficulty == testing_difficulty(),
            game.places@.len() == k,
            forall|p: int| 0 <= p < k ==> generated_place(#[trigger] game.places@[p], testing_difficulty()),
            game.deep_view() == (GameView {
                places: game.places@,
                random_generator_state: game.random_generator_state,
                ..start
            }),
        decreases 10 - k,
    {
        let place = new_place(&mut game);
        game.places.push(place);
        k = k + 1;
    }
    game
}

} // verus!
