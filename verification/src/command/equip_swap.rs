use vstd::prelude::*;
use crate::my_little_rpg_errors::{refused, MyError};
use crate::text::{decimal, push_decimal};
use crate::the_world::game::{Game, GameView};
use crate::the_world::item::{duplicate_items, Item, ItemSpec};

verus! {

/// What equipping or swapping gives back: the equipped items afterwards.
#[derive(Clone, PartialEq, Eq, Debug)]
pub struct ExecuteEquipOrSwapReport {
    pub new_equipped_items: Vec<Item>,
}

/// The message for a position past the equipment slots; `name` names the
/// position and ends with a space.
pub open spec fn slot_range_text(name: Seq<char>, position: nat, slots: nat) -> Seq<char> {
    name + decimal(position) + " is not within the range of the equipment slots "@ + decimal(slots)
}

/// The equipment with the items at `a` and `b` exchanged.
pub open spec fn swapped(items: Seq<ItemSpec>, a: int, b: int) -> Seq<ItemSpec> {
    items.update(a, items[b]).update(b, items[a])
}

/// Exchanges the item in inventory slot `inventory_index` with the item equipped
/// at `equipped_item_position`. Refused, changing nothing, where the position is
/// past the equipment slots, the index past the inventory, or the slot empty.
/// A position equal to the number of slots, or an index equal to the inventory's
/// length, passes those checks and is outside what this function accepts.
pub fn execute_equip_item(
    game: &mut Game,
    inventory_index: usize,
    equipped_item_position: usize,
) -> (r: Result<ExecuteEquipOrSwapReport, MyError>)
    requires
        old(game).equipped_items@.len() < equipped_item_position || old(game).inventory@.len() < inventory_index
            || (inventory_index < old(game).inventory@.len() && (old(game).inventory@[inventory_index as int] is None
            || equipped_item_position < old(game).equipped_items@.len())),
    ensures
        ({
            let g = old(game).deep_view();
            let slots = g.equipped_items.len();
            let len = g.inventory.len();
            &&& slots < equipped_item_position ==> final(game).deep_view() == g && refused(
                r,
                slot_range_text("equipped_item_position "@, equipped_item_position as nat, slots),
            )
            &&& equipped_item_position <= slots && len < inventory_index ==> final(game).deep_view() == g
                && refused(
                r,
                "inventory_position "@ + decimal(inventory_index as nat) + " is not within the range of the inventory "@
                    + decimal(len),
            )
            &&& equipped_item_position <= slots && inventory_index < len && g.inventory[inventory_index as int] is None
                ==> final(game).deep_view() == g && refused(
                r,
                "inventory_position "@ + decimal(inventory_index as nat) + " is empty."@,
            )
            &&& equipped_item_position <= slots && inventory_index < len && g.inventory[inventory_index as int] is Some
                ==> {
                let equipped = g.equipped_items.update(
                    equipped_item_position as int,
                    g.inventory[inventory_index as int]->0,
                );
                &&& r is Ok
                &&& final(game).deep_view() == (GameView {
                    inventory: g.inventory.update(
                        inventory_index as int,
                        Some(g.equipped_items[equipped_item_position as int]),
                    ),
                    equipped_items: equipped,
                    ..g
                })
                &&& r->Ok_0.new_equipped_items.deep_view() == equipped
            }
        }),
{
    let ghost g = game.deep_view();
    if game.equipped_items.len() < equipped_item_position {
        let mut m = String::new();
        m.append("equipped_item_position ");
        push_decimal(&mut m, equipped_item_position as u64);
        m.append(" is not within the range of the equipment slots ");
        push_decimal(&mut m, game.equipped_items.len() as u64);
        assert(m@ =~= slot_range_text("equipped_item_position "@, equipped_item_position as nat, g.equipped_items.len()));
        return Err(MyError::create_execute_command_error(m));
    }
    if game.inventory.len() < inventory_index {
        let mut m = String::new();
        m.append("inventory_position ");
        push_decimal(&mut m, inventory_index as u64);
        m.append(" is not within the range of the inventory ");
        push_decimal(&mut m, game.inventory.len() as u64);
        assert(m@ =~= "inventory_position "@ + decimal(inventory_index as nat)
            + " is not within the range of the inventory "@ + decimal(g.inventory.len()));
        return Err(MyError::create_execute_command_error(m));
    }
    assert(g.inventory[inventory_index as int] == game.inventory@[inventory_index as int].deep_view());
    let inventory_item = match &game.inventory[inventory_index] {
        Some(item) => item.duplicate(),
        None => {
            let mut m = String::new();
            m.append("inventory_position ");
            push_decimal(&mut m, inventory_index as u64);
            m.append(" is empty.");
            assert(m@ =~= "inventory_position "@ + decimal(inventory_index as nat) + " is empty."@);
            return Err(MyError::create_execute_command_error(m));
        },
    };
    let equipped_item = game.equipped_items[equipped_item_position].duplicate();
    let ghost equipped_view = equipped_item.deep_view();
    let ghost inventory_view = inventory_item.deep_view();
    let ghost inventory_before = game.inventory.deep_view();
    game.inventory.set(inventory_index, Some(equipped_item));
    assert(game.inventory.deep_view() =~= inventory_before.update(inventory_index as int, Some(equipped_view)));
    let ghost equipped_before = game.equipped_items.deep_view();
    game.equipped_items.set(equipped_item_position, inventory_item);
    assert(game.equipped_items.deep_view() =~= equipped_before.update(equipped_item_position as int, inventory_view));
    Ok(ExecuteEquipOrSwapReport { new_equipped_items: duplicate_items(&game.equipped_items) })
}

/// Exchanges the items equipped at two positions. Refused, changing nothing,
/// where either position is past the equipment slots or both are the same. A
/// position equal to the number of slots passes those checks and is outside what
/// this function accepts.
pub fn execute_swap_equipped_item(
    game: &mut Game,
    equipped_item_position_1: usize,
    equipped_item_position_2: usize,
) -> (r: Result<ExecuteEquipOrSwapReport, MyError>)
    requires
        old(game).equipped_items@.len() < equipped_item_position_1
            || old(game).equipped_items@.len() < equipped_item_position_2
            || equipped_item_position_1 == equipped_item_position_2
            || (equipped_item_position_1 < old(game).equipped_items@.len()
            && equipped_item_position_2 < old(game).equipped_items@.len()),
    ensures
        ({
            let g = old(game).deep_view();
            let slots = g.equipped_items.len();
            let p1 = equipped_item_position_1;
            let p2 = equipped_item_position_2;
            &&& slots < p1 ==> final(game).deep_view() == g && refused(
                r,
                slot_range_text("equipped_item_position_1 "@, p1 as nat, slots),
            )
            &&& p1 <= slots && slots < p2 ==> final(game).deep_view() == g && refused(
                r,
                slot_range_text("equipped_item_position_2 "@, p2 as nat, slots),
            )
            &&& p1 <= slots && p2 <= slots && p1 == p2 ==> final(game).deep_view() == g && refused(
                r,
                "equipped_item_position_1 "@ + decimal(p1 as nat) + " cannot be the same as equipped_item_position_2 "@
                    + decimal(p2 as nat),
            )
            &&& p1 <= slots && p2 <= slots && p1 != p2 ==> {
                let equipped = swapped(g.equipped_items, p1 as int, p2 as int);
                &&& r is Ok
                &&& final(game).deep_view() == (GameView { equipped_items: equipped, ..g })
                &&& r->Ok_0.new_equipped_items.deep_view() == equipped
            }
        }),
{
    let ghost g = game.deep_view();
    let slots = game.equipped_items.len();
    if slots < equipped_item_position_1 {
        let mut m = String::new();
        m.append("equipped_item_position_1 ");
        push_decimal(&mut m, equipped_item_position_1 as u64);
        m.append(" is not within the range of the equipment slots ");
        push_decimal(&mut m, slots as u64);
        assert(m@ =~= slot_range_text("equipped_item_position_1 "@, equipped_item_position_1 as nat, slots as nat));
        return Err(MyError::create_execute_command_error(m));
    }
    if slots < equipped_item_position_2 {
        let mut m = String::new();
        m.append("equipped_item_position_2 ");
        push_decimal(&mut m, equipped_item_position_2 as u64);
        m.append(" is not within the range of the equipment slots ");
        push_decimal(&mut m, slots as u64);
        assert(m@ =~= slot_range_text("equipped_item_position_2 "@, equipped_item_position_2 as nat, slots as nat));
        return Err(MyError::create_execute_command_error(m));
    }
    if equipped_item_position_1 == equipped_item_position_2 {
        let mut m = String::new();
        m.append("equipped_item_position_1 ");
        push_decimal(&mut m, equipped_item_position_1 as u64);
        m.append(" cannot be the same as equipped_item_position_2 ");
        push_decimal(&mut m, equipped_item_position_2 as u64);
        assert(m@ =~= "equipped_item_position_1 "@ + decimal(equipped_item_position_1 as nat)
            + " cannot be the same as equipped_item_position_2 "@ + decimal(equipped_item_position_2 as nat));
        return Err(MyError::create_execute_command_error(m));
    }
    let first = game.equipped_items[equipped_item_position_1].duplicate();
    let second = game.equipped_items[equipped_item_position_2].duplicate();
    let ghost first_view = first.deep_view();
    let ghost second_view = second.deep_view();
    let ghost before = game.equipped_items.deep_view();
    game.equipped_items.set(equipped_item_position_1, second);
    game.equipped_items.set(equipped_item_position_2, first);
    assert(game.equipped_items.deep_view() =~= swapped(before, equipped_item_position_1 as int, equipped_item_position_2 as int));
    Ok(ExecuteEquipOrSwapReport { new_equipped_items: duplicate_items(&game.equipped_items) })
}

/// Swapping two equipment slots exchanges their items and leaves every other
/// slot, and the number of slots, as they were.
pub proof fn lemma_swap_exchanges(items: Seq<ItemSpec>, a: int, b: int)
    requires
        0 <= a < items.len(),
        0 <= b < items.len(),
    ensures
        swapped(items, a, b).len() == items.len(),
        swapped(items, a, b)[a] == items[b],
        swapped(items, a, b)[b] == items[a],
        forall|k: int| 0 <= k < items.len() && k != a && k != b ==> #[trigger] swapped(items, a, b)[k] == items[k],
{
}

/// Swapping the same two equipment slots twice gives back the equipment as it
/// was.
pub proof fn lemma_swap_twice_restores(items: Seq<ItemSpec>, a: int, b: int)
    requires
        0 <= a < items.len(),
        0 <= b < items.len(),
    ensures
        swapped(swapped(items, a, b), a, b) == items,
{
    assert(swapped(swapped(items, a, b), a, b) =~= items);
}

/// Equipping from a slot and equipping back into it gives back the inventory and
/// the equipment as they were.
pub proof fn lemma_equip_twice_restores(inventory: Seq<Option<ItemSpec>>, equipped: Seq<ItemSpec>, i: int, p: int)
    requires
        0 <= i < inventory.len(),
        0 <= p < equipped.len(),
        inventory[i] is Some,
    ensures
        ({
            let inventory1 = inventory.update(i, Some(equipped[p]));
            let equipped1 = equipped.update(p, inventory[i]->0);
            &&& inventory1[i] is Some
            &&& inventory1.update(i, Some(equipped1[p])) == inventory
            &&& equipped1.update(p, inventory1[i]->0) == equipped
        }),
{
    let inventory1 = inventory.update(i, Some(equipped[p]));
    let equipped1 = equipped.update(p, inventory[i]->0);
    assert(inventory1.update(i, Some(equipped1[p])) =~= inventory);
    assert(equipped1.update(p, inventory1[i]->0) =~= equipped);
}

} // verus!
