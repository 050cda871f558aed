use vstd::prelude::*;
use crate::command::craft_reroll_modifier::reroll_cost;
use crate::command::expand_elements::{execute_expand_elements_calculate_cost, expand_elements_cost};
use crate::command::expand_equipment_slots::{
    execute_expand_equipment_slots_calculate_cost, expand_equipment_slots_cost, fifth_power,
};
use crate::command::expand_max_element::{execute_expand_max_element_calculate_cost, expand_max_element_cost};
use crate::command::expand_max_simultaneous_element::{
    execute_expand_max_simultaneous_element_calculate_cost, expand_max_simultaneous_cost,
};
use crate::command::expand_min_element::{execute_expand_min_element_calculate_cost, expand_min_element_cost};
use crate::command::expand_min_simultanius_element::{
    execute_expand_min_simultaneous_element_calculate_cost, expand_min_simultaneous_cost,
};
use crate::command::expand_places::{execute_expand_places_calculate_cost, expand_places_cost};
use crate::command::reduce_difficulty::execute_execute_reduce_difficulty_cost;
use crate::hex_encoder::{encode_hex, hex_text};
use crate::the_world::difficulty::Difficulty;
use crate::the_world::game::{Game, GameView};
use crate::the_world::game_statistics::GameStatistics;
use crate::the_world::item::{Item, ItemSpec};
use crate::the_world::item_resource::ResourceMap;
use crate::the_world::place::Place;
use crate::the_world::treasure_types::TreasureMap;

verus! {

/// Everything a player sees of a game.
#[derive(PartialEq, Eq, Debug)]
pub struct PresentationGameState {
    pub places: Vec<PresentationPlace>,
    pub equipped_items: Vec<PresentationItem>,
    pub inventory: Vec<PresentationItem>,
    pub difficulty: Difficulty,
    pub treasure: TreasureMap,
    pub item_resources: ResourceMap,
    pub crafting_action_costs: PlaceCosts,
    pub seed: String,
    pub game_statistics: GameStatistics,
}

/// What each command that changes the world costs.
#[derive(Clone, Copy, PartialEq, Eq, Debug)]
pub struct PlaceCosts {
    pub expand_places: TreasureMap,
    pub expand_elements: TreasureMap,
    pub expand_max_element: TreasureMap,
    pub expand_min_element: TreasureMap,
    pub expand_max_simultaneous_element: TreasureMap,
    pub expand_min_simultaneous_element: TreasureMap,
    pub expand_equipment_slots: TreasureMap,
    pub execute_reduce_difficulty: TreasureMap,
}

/// A place with its index.
#[derive(Clone, Copy, PartialEq, Eq, Debug)]
pub struct PresentationPlace {
    pub index: usize,
    pub place: Place,
}

/// An item with its index and what crafting on it costs, or why it cannot be
/// crafted on.
#[derive(PartialEq, Eq, Debug)]
pub struct PresentationItem {
    pub index: usize,
    pub item: Item,
    pub crafting_action_costs: Result<ItemCosts, String>,
}

/// How many items rerolling a modifier and adding one cost.
#[derive(Clone, Copy, PartialEq, Eq, Debug)]
pub struct ItemCosts {
    pub reroll_modifier: u16,
    pub add_modifier: usize,
}

/// The occupied inventory slots from `from` on, each with its index.
pub open spec fn indexed_items(inv: Seq<Option<ItemSpec>>, n: int) -> Seq<(int, ItemSpec)>
    decreases n,
{
    if n <= 0 {
        Seq::empty()
    } else if inv[n - 1] is Some {
        indexed_items(inv, n - 1).push((n - 1, inv[n - 1]->0))
    } else {
        indexed_items(inv, n - 1)
    }
}

/// What the game needs for its costs to be computed.
pub open spec fn presentable(g: Game) -> bool {
    &&& g.difficulty.well_formed()
    &&& g.difficulty.max_resistance.spec_sum() <= u64::MAX
    &&& g.places@.len() * 10 <= usize::MAX
    &&& fifth_power(g.equipped_items@.len() + 1) <= usize::MAX
    &&& forall|i: int| 0 <= i < g.inventory@.len() ==> (#[trigger] g.inventory@[i] matches Some(item)
        ==> item.modifiers@.len() * 2 <= usize::MAX)
}

/// The costs of the world-changing commands in a game.
pub open spec fn place_costs(g: GameView) -> PlaceCosts {
    PlaceCosts {
        expand_places: expand_places_cost(g.places.len()),
        expand_elements: expand_elements_cost(g.difficulty.max_resistance.spec_len()),
        expand_max_element: expand_max_element_cost(g.difficulty),
        expand_min_element: expand_min_element_cost(g.difficulty),
        expand_max_simultaneous_element: expand_max_simultaneous_cost(g.difficulty),
        expand_min_simultaneous_element: expand_min_simultaneous_cost(g.difficulty),
        expand_equipment_slots: expand_equipment_slots_cost(g.equipped_items.len()),
        execute_reduce_difficulty: TreasureMap { gold: Some(0) },
    }
}

/// What crafting on `item` costs.
pub open spec fn item_costs(item: ItemSpec) -> ItemCosts {
    ItemCosts { reroll_modifier: reroll_cost(item), add_modifier: (item.modifiers.len() * 2) as usize }
}

/// The game as the player sees it: the places and equipped items with their
/// indexes (equipped items cannot be crafted on), the occupied inventory slots
/// with their indexes and crafting costs, the difficulty, treasure and
/// resources, the costs of the world-changing commands, the seed in hexadecimal
/// and the statistics.
pub fn execute(game: &Game) -> (r: PresentationGameState)
    requires
        presentable(*game),
    ensures
        ({
            let g = game.deep_view();
            let items = indexed_items(g.inventory, g.inventory.len() as int);
            &&& r.places@.len() == g.places.len()
            &&& forall|i: int| 0 <= i < g.places.len() ==> #[trigger] r.places@[i] == (PresentationPlace { index: i as usize, place: g.places[i] })
            &&& r.equipped_items@.len() == g.equipped_items.len()
            &&& forall|i: int| 0 <= i < g.equipped_items.len() ==> {
                &&& (#[trigger] r.equipped_items@[i]).index == i
                &&& r.equipped_items@[i].item.deep_view() == g.equipped_items[i]
                &&& r.equipped_items@[i].crafting_action_costs matches Err(m) && m@ == "Equipped items cannot be crafted on."@
            }
            &&& r.inventory@.len() == items.len()
            &&& forall|k: int| 0 <= k < items.len() ==> {
                &&& (#[trigger] r.inventory@[k]).index == items[k].0
                &&& r.inventory@[k].item.deep_view() == items[k].1
                &&& r.inventory@[k].crafting_action_costs == Ok::<ItemCosts, String>(item_costs(items[k].1))
            }
            &&& r.difficulty == g.difficulty
            &&& r.treasure == g.treasure
            &&& r.item_resources == g.item_resources
            &&& r.crafting_action_costs == place_costs(g)
            &&& r.seed@ == hex_text(g.seed)
            &&& r.game_statistics == g.statistics
        }),
{
    let ghost g = game.deep_view();
    let mut places: Vec<PresentationPlace> = Vec::new();
    let mut i: usize = 0;
    while i < game.places.len()
        invariant
            g == game.deep_view(),
            i <= game.places@.len(),
            places@.len() == i,
            forall|k: int| 0 <= k < i ==> #[trigger] places@[k] == (PresentationPlace { index: k as usize, place: g.places[k] }),
        decreases game.places@.len() - i,
    {
        places.push(PresentationPlace { index: i, place: game.places[i] });
        i = i + 1;
    }
    let mut equipped_items: Vec<PresentationItem> = Vec::new();
    let mut j: usize = 0;
    while j < game.equipped_items.len()
        invariant
            g == game.deep_view(),
            j <= game.equipped_items@.len(),
            equipped_items@.len() == j,
            forall|k: int| 0 <= k < j ==> {
                &&& (#[trigger] equipped_items@[k]).index == k
                &&& equipped_items@[k].item.deep_view() == g.equipped_items[k]
                &&& equipped_items@[k].crafting_action_costs matches Err(m) && m@ == "Equipped items cannot be crafted on."@
            },
        decreases game.equipped_items@.len() - j,
    {
        let message = String::from_str("Equipped items cannot be crafted on.");
        equipped_items.push(PresentationItem {
            index: j,
            item: game.equipped_items[j].duplicate(),
            crafting_action_costs: Err(message),
        });
        j = j + 1;
    }
    let mut inventory: Vec<PresentationItem> = Vec::new();
    let mut k: usize = 0;
    while k < game.inventory.len()
        invariant
            g == game.deep_view(),
            presentable(*game),
            k <= game.inventory@.len(),
            inventory@.len() == indexed_items(g.inventory, k as int).len(),
            forall|a: int| 0 <= a < inventory@.len() ==> {
                &&& (#[trigger] inventory@[a]).index == indexed_items(g.inventory, k as int)[a].0
                &&& inventory@[a].item.deep_view() == indexed_items(g.inventory, k as int)[a].1
                &&& inventory@[a].crafting_action_costs == Ok::<ItemCosts, String>(
                    item_costs(indexed_items(g.inventory, k as int)[a].1),
                )
            },
        decreases game.inventory@.len() - k,
    {
        assert(g.inventory[k as int] == game.inventory@[k as int].deep_view());
        match &game.inventory[k] {
            Some(item) => {
                let item_cost = calculate_item_cost(game, k);
                let ghost before = inventory@;
                inventory.push(PresentationItem { index: k, item: item.duplicate(), crafting_action_costs: Ok(item_cost) });
                proof {
                    assert forall|a: int| 0 <= a < inventory@.len() implies {
                        &&& (#[trigger] inventory@[a]).index == indexed_items(g.inventory, k + 1)[a].0
                        &&& inventory@[a].item.deep_view() == indexed_items(g.inventory, k + 1)[a].1
                        &&& inventory@[a].crafting_action_costs == Ok::<ItemCosts, String>(
                            item_costs(indexed_items(g.inventory, k + 1)[a].1),
                        )
                    } by {
                        if a < before.len() {
                            assert(inventory@[a] == before[a]);
                        }
                    }
                }
            },
            None => {},
        }
        k = k + 1;
    }
    proof {
        crate::command::roll_modifier::lemma_difficulty_sums(game.difficulty);
        crate::command::expand_max_element::lemma_max_len_positive(game.difficulty);
        let t = game.difficulty.min_resistance.lemma_present_type();
        crate::the_world::game::lemma_len_positive(game.difficulty.min_resistance, t);
    }
    let crafting_actions = PlaceCosts {
        expand_places: execute_expand_places_calculate_cost(game),
        expand_elements: execute_expand_elements_calculate_cost(game),
        expand_max_element: execute_expand_max_element_calculate_cost(game),
        expand_min_element: execute_expand_min_element_calculate_cost(game),
        expand_max_simultaneous_element: execute_expand_max_simultaneous_element_calculate_cost(game),
        expand_min_simultaneous_element: execute_expand_min_simultaneous_element_calculate_cost(game),
        expand_equipment_slots: execute_expand_equipment_slots_calculate_cost(game),
        execute_reduce_difficulty: execute_execute_reduce_difficulty_cost(),
    };
    PresentationGameState {
        places,
        equipped_items,
        inventory,
        difficulty: game.difficulty,
        treasure: game.treasure,
        item_resources: game.item_resources,
        crafting_action_costs: crafting_actions,
        seed: encode_hex(&game.seed),
        game_statistics: game.statistics,
    }
}

/// What crafting on the item at `item_index` costs.
fn calculate_item_cost(game: &Game, item_index: usize) -> (r: ItemCosts)
    requires
        item_index < game.inventory@.len(),
        game.inventory@[item_index as int] is Some,
        presentable(*game),
    ensures
        r == item_costs(game.deep_view().inventory[item_index as int]->0),
{
    assert(game.inventory@[item_index as int] matches Some(item) ==> item.modifiers@.len() * 2 <= usize::MAX);
    let add_modifier = crate::command::craft_expand_modifier::execute_craft_expand_modifiers_calculate_cost(game, item_index);
    let reroll_modifier = crate::command::craft_reroll_modifier::execute_craft_reroll_modifier_calculate_cost(game, item_index);
    ItemCosts { reroll_modifier, add_modifier }
}

} // verus!
