use vstd::prelude::*;
use crate::command::craft_reroll_modifier::{
    inventory_empty_text, inventory_range_text, push_inventory_empty_text, push_inventory_range_text,
    push_too_few_sacrifices_text, too_few_sacrifices_text,
};
use crate::command::roll_modifier::{craftable, execute_craft, crafted_modifier};
use crate::my_little_rpg_errors::{refused, MyError};
use crate::text::{decimal, push_decimal};
use crate::the_world::game::{Game, GameView};
use crate::the_world::index_specifier::{
    calculate_absolute_item_indexes, resolve_all, sacrifice_items, sacrificed, IndexSpecifier,
};
use crate::the_world::item::{Item, ItemSpec};
use crate::the_world::treasure_types::TreasureMap;

verus! {

/// What adding a modifier gives back: the crafted item, the number of items paid
/// and due for the next addition, and the treasure left.
#[derive(Clone, PartialEq, Eq, Debug)]
pub struct ExecuteExpandModifiersReport {
    pub new_item: Item,
    pub paid_cost: usize,
    pub new_cost: usize,
    pub leftover_spending_treasure: TreasureMap,
}

/// The message for an item that already has as many modifiers as its rolls allow.
pub open spec fn modifiers_full_text(min_simultaneous: nat, modifiers: nat) -> Seq<char> {
    "inventory_index.possible_rolls.min_simultaneous_resistances "@ + decimal(min_simultaneous)
        + " need to be bigger than inventory_index current number of modifiers "@ + decimal(modifiers)
        + " for it to be expanded."@
}

/// Why adding a modifier to the item at `inventory_index` is refused, checked in
/// this order: the index is past the inventory, the slot is empty, the item has
/// as many modifiers as its minimum number of simultaneous elements, fewer
/// specifiers than twice its modifier count were given, or one of the first that
/// many specifiers names no slot holding an item with at least as many modifiers.
/// `None` where it goes ahead.
pub open spec fn expand_refusal(g: GameView, inventory_index: int, specs: Seq<IndexSpecifier>) -> Option<Seq<char>> {
    let inv = g.inventory;
    if inventory_index >= inv.len() {
        Some(inventory_range_text(inventory_index as nat, inv.len()))
    } else if inv[inventory_index] is None {
        Some(inventory_empty_text(inventory_index as nat))
    } else if inv[inventory_index]->0.crafting_info.possible_rolls.min_simultaneous_resistances
        <= inv[inventory_index]->0.modifiers.len() {
        Some(modifiers_full_text(
            inv[inventory_index]->0.crafting_info.possible_rolls.min_simultaneous_resistances as nat,
            inv[inventory_index]->0.modifiers.len(),
        ))
    } else if specs.len() < inv[inventory_index]->0.modifiers.len() * 2 {
        Some(too_few_sacrifices_text(inv[inventory_index]->0.modifiers.len() * 2, specs.len()))
    } else {
        match resolve_all(
            inv,
            inventory_index,
            specs.take((inv[inventory_index]->0.modifiers.len() * 2) as int),
            inv[inventory_index]->0.modifiers.len(),
        ) {
            Err(e) => Some(e),
            Ok(_) => None,
        }
    }
}

/// Adds a freshly crafted modifier to the item at `inventory_index`, sacrificing
/// twice as many inventory items as it has modifiers, named by the first
/// specifiers; each must have at least as many modifiers as the item. A refused
/// addition changes nothing. One that goes ahead empties the sacrificed slots,
/// appends the modifier and reports the new item, the cost paid, the cost of the
/// next addition and the treasure.
pub fn execute_craft_expand_modifiers(
    game: &mut Game,
    inventory_index: usize,
    sacrifice_item_indexes: Vec<IndexSpecifier>,
) -> (r: Result<ExecuteExpandModifiersReport, MyError>)
    requires
        inventory_index < old(game).inventory@.len() && old(game).inventory@[inventory_index as int] is Some
            ==> craftable(old(game).inventory@[inventory_index as int]->0.crafting_info),
    ensures
        expand_refusal(old(game).deep_view(), inventory_index as int, sacrifice_item_indexes@) matches Some(message)
            ==> refused(r, message) && final(game).deep_view() == old(game).deep_view(),
        expand_refusal(old(game).deep_view(), inventory_index as int, sacrifice_item_indexes@) is None ==> {
            let g = old(game).deep_view();
            let item = g.inventory[inventory_index as int]->0;
            let cost = item.modifiers.len() * 2;
            let chosen = resolve_all(g.inventory, inventory_index as int, sacrifice_item_indexes@.take(cost as int), item.modifiers.len())->Ok_0;
            let new_item = r->Ok_0.new_item.deep_view();
            &&& r is Ok
            &&& new_item.crafting_info == item.crafting_info
            &&& new_item.modifiers.len() == item.modifiers.len() + 1
            &&& new_item.modifiers.take(item.modifiers.len() as int) == item.modifiers
            &&& crafted_modifier(new_item.modifiers.last(), item.crafting_info)
            &&& r->Ok_0.paid_cost == cost
            &&& r->Ok_0.new_cost == (item.modifiers.len() + 1) * 2
            &&& r->Ok_0.leftover_spending_treasure == g.treasure
            &&& final(game).deep_view() == (GameView {
                inventory: sacrificed(g.inventory, chosen).update(inventory_index as int, Some(new_item)),
                random_generator_state: final(game).random_generator_state,
                ..g
            })
        },
{
    let ghost g = game.deep_view();
    if game.inventory.len() <= inventory_index {
        let mut m = String::new();
        push_inventory_range_text(&mut m, inventory_index, game.inventory.len());
        return Err(MyError::create_execute_command_error(m));
    }
    assert(g.inventory[inventory_index as int] == game.inventory@[inventory_index as int].deep_view());
    let inventory_item = match &game.inventory[inventory_index] {
        Some(item) => item.duplicate(),
        None => {
            let mut m = String::new();
            push_inventory_empty_text(&mut m, inventory_index);
            return Err(MyError::create_execute_command_error(m));
        },
    };
    let min_simultaneous = inventory_item.crafting_info.possible_rolls.min_simultaneous_resistances;
    if (min_simultaneous as usize) <= inventory_item.modifiers.len() {
        let mut m = String::new();
        m.append("inventory_index.possible_rolls.min_simultaneous_resistances ");
        push_decimal(&mut m, min_simultaneous as u64);
        m.append(" need to be bigger than inventory_index current number of modifiers ");
        push_decimal(&mut m, inventory_item.modifiers.len() as u64);
        m.append(" for it to be expanded.");
        assert(m@ =~= modifiers_full_text(min_simultaneous as nat, inventory_item.modifiers@.len()));
        return Err(MyError::create_execute_command_error(m));
    }
    let cost = execute_craft_expand_modifiers_calculate_cost(game, inventory_index);
    if sacrifice_item_indexes.len() < cost {
        let mut m = String::new();
        push_too_few_sacrifices_text(&mut m, cost as u64, sacrifice_item_indexes.len());
        return Err(MyError::create_execute_command_error(m));
    }
    let ghost given = sacrifice_item_indexes@;
    let mut sacrifice_item_indexes = sacrifice_item_indexes;
    sacrifice_item_indexes.truncate(cost);
    assert(sacrifice_item_indexes@ =~= given.take(cost as int));
    let error_conditions = get_index_specifier_error_conditions(&inventory_item);
    let calculated = calculate_absolute_item_indexes(
        &game.inventory,
        inventory_index,
        &sacrifice_item_indexes,
        error_conditions,
    );
    let calculated_sacrifice_item_indexes = match calculated {
        Ok(v) => v,
        Err(e) => {
            return Err(e);
        },
    };
    sacrifice_items(&mut game.inventory, &calculated_sacrifice_item_indexes);
    let new_item_modifier = execute_craft(&mut game.random_generator_state, &inventory_item.crafting_info);
    let mut new_item = inventory_item;
    let ghost modifier_view = new_item_modifier.deep_view();
    new_item.modifiers.push(new_item_modifier);
    proof {
        assert(new_item.modifiers.deep_view() =~= inventory_item.modifiers.deep_view().push(modifier_view));
    }
    let report_item = new_item.duplicate();
    let ghost before_set = game.inventory.deep_view();
    game.inventory.set(inventory_index, Some(new_item));
    proof {
        assert(game.inventory.deep_view() =~= before_set.update(inventory_index as int, Some(report_item.deep_view())));
    }
    let new_cost = execute_craft_expand_modifiers_calculate_cost(game, inventory_index);
    Ok(ExecuteExpandModifiersReport {
        new_item: report_item,
        paid_cost: cost,
        new_cost,
        leftover_spending_treasure: game.treasure,
    })
}

/// The fewest modifiers a sacrificed item must have when `inventory_item` is
/// expanded: as many as `inventory_item` has.
fn get_index_specifier_error_conditions(inventory_item: &Item) -> (r: usize)
    ensures
        r == inventory_item.modifiers@.len(),
{
    inventory_item.modifiers.len()
}

/// How many items adding a modifier to the item at `inventory_index` costs: twice
/// its modifier count; zero for an empty slot.
pub fn execute_craft_expand_modifiers_calculate_cost(game: &Game, inventory_index: usize) -> (r: usize)
    requires
        inventory_index < game.inventory@.len(),
        game.inventory@[inventory_index as int] matches Some(item) ==> item.modifiers@.len() * 2 <= usize::MAX,
    ensures
        r == match game.deep_view().inventory[inventory_index as int] {
            Some(item) => item.modifiers.len() * 2,
            None => 0,
        },
{
    assert(game.deep_view().inventory[inventory_index as int] == game.inventory@[inventory_index as int].deep_view());
    match &game.inventory[inventory_index] {
        Some(item) => item.modifiers.len() * 2,
        None => 0,
    }
}

} // verus!
