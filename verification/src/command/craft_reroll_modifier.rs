use vstd::prelude::*;
use crate::command::roll_modifier::{craftable, execute_craft, crafted_modifier};
use crate::my_little_rpg_errors::{refused, MyError};
use crate::text::{decimal, push_decimal};
use crate::the_world::game::{Game, GameView};
use crate::the_world::index_specifier::{
    calculate_absolute_item_indexes, resolve_all, sacrifice_items, sacrificed, IndexSpecifier,
};
use crate::the_world::item::{Item, ItemSpec};

verus! {

/// What a reroll gives back: the crafted item and the number of items paid and
/// due for the next reroll.
#[derive(Clone, PartialEq, Eq, Debug)]
pub struct ExecuteCraftRerollModifierReport {
    pub new_item: Item,
    pub paid_cost: u16,
    pub new_cost: u16,
}

/// How many items rerolling a modifier of `item` costs: one per modifier,
/// saturating at `u16::MAX`.
pub open spec fn reroll_cost(item: ItemSpec) -> u16 {
    if item.modifiers.len() <= u16::MAX {
        item.modifiers.len() as u16
    } else {
        u16::MAX
    }
}

/// The message for an inventory index past the end of the inventory.
pub open spec fn inventory_range_text(index: nat, len: nat) -> Seq<char> {
    "inventory_index "@ + decimal(index) + " is not within the range of the inventory "@ + decimal(len)
}

/// The message for an empty inventory slot.
pub open spec fn inventory_empty_text(index: nat) -> Seq<char> {
    "inventory_index "@ + decimal(index) + " is empty."@
}

/// The message for too few items offered as sacrifice.
pub open spec fn too_few_sacrifices_text(cost: nat, provided: nat) -> Seq<char> {
    "craft_reroll_modifier needs "@ + decimal(cost) + " items to be sacrificed but you only provided "@
        + decimal(provided)
}

/// Why a reroll of modifier `modifier_index` of the item at `inventory_index` is
/// refused, checked in this order: the index is past the inventory, the slot is
/// empty, the modifier index is past the item's modifiers, fewer specifiers than
/// the cost were given, or one of the first `cost` specifiers names no slot that
/// holds an item with more than `modifier_index` modifiers. `None` where it goes
/// ahead.
pub open spec fn reroll_refusal(
    g: GameView,
    inventory_index: int,
    modifier_index: int,
    specs: Seq<IndexSpecifier>,
) -> Option<Seq<char>> {
    let inv = g.inventory;
    if inventory_index >= inv.len() {
        Some(inventory_range_text(inventory_index as nat, inv.len()))
    } else if inv[inventory_index] is None {
        Some(inventory_empty_text(inventory_index as nat))
    } else if modifier_index >= inv[inventory_index]->0.modifiers.len() {
        Some("modifier_index "@ + decimal(modifier_index as nat) + " is not within the range of the item modifiers "@
            + decimal(inv[inventory_index]->0.modifiers.len()))
    } else if specs.len() < reroll_cost(inv[inventory_index]->0) {
        Some(too_few_sacrifices_text(reroll_cost(inv[inventory_index]->0) as nat, specs.len()))
    } else {
        match resolve_all(
            inv,
            inventory_index,
            specs.take(reroll_cost(inv[inventory_index]->0) as int),
            (modifier_index + 1) as nat,
        ) {
            Err(e) => Some(e),
            Ok(_) => None,
        }
    }
}

/// The slots a reroll that goes ahead sacrifices.
pub open spec fn reroll_sacrifices(
    g: GameView,
    inventory_index: int,
    modifier_index: int,
    specs: Seq<IndexSpecifier>,
) -> Seq<usize> {
    resolve_all(
        g.inventory,
        inventory_index,
        specs.take(reroll_cost(g.inventory[inventory_index]->0) as int),
        (modifier_index + 1) as nat,
    )->Ok_0
}

pub fn push_inventory_range_text(s: &mut String, index: usize, len: usize)
    ensures
        final(s)@ == old(s)@ + inventory_range_text(index as nat, len as nat),
{
    s.append("inventory_index ");
    push_decimal(s, index as u64);
    s.append(" is not within the range of the inventory ");
    push_decimal(s, len as u64);
    assert(final(s)@ =~= old(s)@ + inventory_range_text(index as nat, len as nat));
}

pub fn push_inventory_empty_text(s: &mut String, index: usize)
    ensures
        final(s)@ == old(s)@ + inventory_empty_text(index as nat),
{
    s.append("inventory_index ");
    push_decimal(s, index as u64);
    s.append(" is empty.");
    assert(final(s)@ =~= old(s)@ + inventory_empty_text(index as nat));
}

pub fn push_too_few_sacrifices_text(s: &mut String, cost: u64, provided: usize)
    ensures
        final(s)@ == old(s)@ + too_few_sacrifices_text(cost as nat, provided as nat),
{
    s.append("craft_reroll_modifier needs ");
    push_decimal(s, cost);
    s.append(" items to be sacrificed but you only provided ");
    push_decimal(s, provided as u64);
    assert(final(s)@ =~= old(s)@ + too_few_sacrifices_text(cost as nat, provided as nat));
}

/// Rerolls modifier `modifier_index` of the item at `inventory_index`,
/// sacrificing as many inventory items as the item has modifiers, named by the
/// first specifiers. A refused reroll changes nothing. One that goes ahead
/// empties the sacrificed slots, replaces the modifier by a freshly crafted one
/// and reports the new item with the cost paid and the cost of the next reroll,
/// which is the same.
pub fn execute(
    game: &mut Game,
    inventory_index: usize,
    modifier_index: usize,
    sacrifice_item_indexes: Vec<IndexSpecifier>,
) -> (r: Result<ExecuteCraftRerollModifierReport, MyError>)
    requires
        inventory_index < old(game).inventory@.len() && old(game).inventory@[inventory_index as int] is Some
            ==> craftable(old(game).inventory@[inventory_index as int]->0.crafting_info),
    ensures
        reroll_refusal(old(game).deep_view(), inventory_index as int, modifier_index as int, sacrifice_item_indexes@)
            matches Some(message) ==> refused(r, message) && final(game).deep_view() == old(game).deep_view(),
        reroll_refusal(old(game).deep_view(), inventory_index as int, modifier_index as int, sacrifice_item_indexes@)
            is None ==> {
            let g = old(game).deep_view();
            let item = g.inventory[inventory_index as int]->0;
            let chosen = reroll_sacrifices(g, inventory_index as int, modifier_index as int, sacrifice_item_indexes@);
            &&& r is Ok
            &&& crafted_modifier(r->Ok_0.new_item.deep_view().modifiers[modifier_index as int], item.crafting_info)
            &&& r->Ok_0.new_item.deep_view() == (ItemSpec {
                modifiers: item.modifiers.update(
                    modifier_index as int,
                    r->Ok_0.new_item.deep_view().modifiers[modifier_index as int],
                ),
                ..item
            })
            &&& r->Ok_0.paid_cost == reroll_cost(item)
            &&& r->Ok_0.new_cost == reroll_cost(item)
            &&& final(game).deep_view() == (GameView {
                inventory: sacrificed(g.inventory, chosen).update(
                    inventory_index as int,
                    Some(r->Ok_0.new_item.deep_view()),
                ),
                random_generator_state: final(game).random_generator_state,
                ..g
            })
        },
{
    let ghost g = game.deep_view();
    if game.inventory.len() <= inventory_index {
        let mut m = String::new();
        push_inventory_range_text(&mut m, inventory_index, game.inventory.len());
        return Err(MyError::create_execute_command_error(m));
    }
    assert(g.inventory[inventory_index as int] == game.inventory@[inventory_index as int].deep_view());
    let inventory_item = match &game.inventory[inventory_index] {
        Some(item) => item.duplicate(),
        None => {
            let mut m = String::new();
            push_inventory_empty_text(&mut m, inventory_index);
            return Err(MyError::create_execute_command_error(m));
        },
    };
    if inventory_item.modifiers.len() <= modifier_index {
        let mut m = String::new();
        m.append("modifier_index ");
        push_decimal(&mut m, modifier_index as u64);
        m.append(" is not within the range of the item modifiers ");
        push_decimal(&mut m, inventory_item.modifiers.len() as u64);
        assert(m@ =~= "modifier_index "@ + decimal(modifier_index as nat)
            + " is not within the range of the item modifiers "@ + decimal(inventory_item.modifiers@.len()));
        return Err(MyError::create_execute_command_error(m));
    }
    let cost = execute_craft_reroll_modifier_calculate_cost(game, inventory_index);
    if sacrifice_item_indexes.len() < cost as usize {
        let mut m = String::new();
        push_too_few_sacrifices_text(&mut m, cost as u64, sacrifice_item_indexes.len());
        return Err(MyError::create_execute_command_error(m));
    }
    let ghost given = sacrifice_item_indexes@;
    let mut sacrifice_item_indexes = sacrifice_item_indexes;
    sacrifice_item_indexes.truncate(cost as usize);
    assert(sacrifice_item_indexes@ =~= given.take(cost as int));
    let error_conditions = get_index_specifier_error_conditions(modifier_index);
    let calculated = calculate_absolute_item_indexes(
        &game.inventory,
        inventory_index,
        &sacrifice_item_indexes,
        error_conditions,
    );
    let calculated_sacrifice_item_indexes = match calculated {
        Ok(v) => v,
        Err(e) => {
            return Err(e);
        },
    };
    let new_item_modifier = execute_craft(&mut game.random_generator_state, &inventory_item.crafting_info);
    sacrifice_items(&mut game.inventory, &calculated_sacrifice_item_indexes);
    let mut new_item = inventory_item;
    let ghost modifier_view = new_item_modifier.deep_view();
    new_item.modifiers.set(modifier_index, new_item_modifier);
    proof {
        assert(new_item.modifiers.deep_view() =~= inventory_item.modifiers.deep_view().update(
            modifier_index as int,
            modifier_view,
        ));
    }
    let report_item = new_item.duplicate();
    let ghost before_set = game.inventory.deep_view();
    game.inventory.set(inventory_index, Some(new_item));
    proof {
        assert(game.inventory.deep_view() =~= before_set.update(inventory_index as int, Some(report_item.deep_view())));
    }
    let new_cost = execute_craft_reroll_modifier_calculate_cost(game, inventory_index);
    Ok(ExecuteCraftRerollModifierReport { new_item: report_item, paid_cost: cost, new_cost })
}

/// The fewest modifiers a sacrificed item must have when the modifier at
/// `modifier_index` is rerolled: one more than that index.
fn get_index_specifier_error_conditions(modifier_index: usize) -> (r: usize)
    requires
        modifier_index < usize::MAX,
    ensures
        r == modifier_index + 1,
{
    modifier_index + 1
}

/// How many items rerolling a modifier of the item at `inventory_index` costs;
/// zero for an empty slot.
pub fn execute_craft_reroll_modifier_calculate_cost(game: &Game, inventory_index: usize) -> (r: u16)
    requires
        inventory_index < game.inventory@.len(),
    ensures
        r == match game.deep_view().inventory[inventory_index as int] {
            Some(item) => reroll_cost(item),
            None => 0,
        },
{
    assert(game.deep_view().inventory[inventory_index as int] == game.inventory@[inventory_index as int].deep_view());
    match &game.inventory[inventory_index] {
        Some(item) => {
            if item.modifiers.len() <= 0xffff {
                item.modifiers.len() as u16
            } else {
                0xffff
            }
        },
        None => 0,
    }
}

} // verus!
