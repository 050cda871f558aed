use vstd::prelude::*;
use crate::my_little_rpg_errors::{refused, MyError};
use crate::the_world::game::{after_payment, can_pay, cannot_pay_text, pay_crafting_cost, Game, GameView};
use crate::the_world::item::{duplicate_items, Item, ItemSpec};
use crate::the_world::treasure_types::TreasureMap;

verus! {

/// What adding an equipment slot gives back: the equipped items, the cost paid,
/// the cost of the next slot and the treasure left.
#[derive(Clone, PartialEq, Eq, Debug)]
pub struct ExecuteExpandEquipmentSlotsReport {
    pub new_equipped_items: Vec<Item>,
    pub paid_cost: TreasureMap,
    pub new_cost: TreasureMap,
    pub leftover_spending_treasure: TreasureMap,
}

/// `n` to the fifth power.
pub open spec fn fifth_power(n: nat) -> nat {
    n * n * n * n * n
}

/// The cost of one more equipment slot with `slots` slots: the fifth power of
/// `slots + 1` in gold.
pub open spec fn expand_equipment_slots_cost(slots: nat) -> TreasureMap {
    TreasureMap { gold: Some(fifth_power(slots + 1) as u64) }
}

/// The first inventory slot at `from` or after it that holds an item.
pub open spec fn first_item_from(inv: Seq<Option<ItemSpec>>, from: int) -> Option<int>
    decreases inv.len() - from,
{
    if from < 0 || from >= inv.len() {
        None
    } else if inv[from] is Some {
        Some(from)
    } else {
        first_item_from(inv, from + 1)
    }
}

/// The message when the inventory holds no item: one for an inventory without
/// slots, another for one whose slots are all empty.
pub open spec fn empty_inventory_text(slots: nat) -> Seq<char> {
    if slots == 0 {
        "No item in inventory to equip in new item slot."@
    } else {
        "No item in inventory to equip in new item slot. Whole inventory is empty."@
    }
}

proof fn lemma_fifth_power_grows(a: nat, b: nat)
    requires
        1 <= a <= b,
    ensures
        a <= a * a <= a * a * a <= a * a * a * a <= fifth_power(a) <= fifth_power(b),
{
    assert(a <= a * a <= a * a * a <= a * a * a * a <= fifth_power(a)) by (nonlinear_arith)
        requires
            1 <= a,
    ;
    assert(fifth_power(a) <= fifth_power(b)) by (nonlinear_arith)
        requires
            1 <= a <= b,
    ;
}

/// What one more equipment slot costs.
pub fn execute_expand_equipment_slots_calculate_cost(game: &Game) -> (r: TreasureMap)
    requires
        fifth_power(game.equipped_items@.len() + 1) <= usize::MAX,
    ensures
        r == expand_equipment_slots_cost(game.equipped_items@.len()),
{
    proof {
        lemma_fifth_power_grows((game.equipped_items@.len() + 1) as nat, (game.equipped_items@.len() + 1) as nat);
    }
    let n = game.equipped_items.len() + 1;
    TreasureMap::gold((n * n * n * n * n) as u64)
}

proof fn lemma_first_item_found(inv: Seq<Option<ItemSpec>>, from: int)
    requires
        first_item_from(inv, from) is Some,
    ensures
        0 <= first_item_from(inv, from)->0 < inv.len(),
        inv[first_item_from(inv, from)->0] is Some,
    decreases inv.len() - from,
{
    if !(from < 0 || from >= inv.len()) && inv[from] is None {
        lemma_first_item_found(inv, from + 1);
    }
}

/// The slot found from `from` on is the lowest occupied one: it holds an item
/// and every slot from `from` up to it is empty; none is found exactly when all
/// slots from `from` on are empty.
pub proof fn lemma_first_item_is_lowest(inv: Seq<Option<ItemSpec>>, from: int)
    requires
        0 <= from,
    ensures
        first_item_from(inv, from) matches Some(i) ==> {
            &&& from <= i < inv.len()
            &&& inv[i] is Some
            &&& forall|k: int| from <= k < i ==> (#[trigger] inv[k]) is None
        },
        first_item_from(inv, from) is None ==> forall|k: int| from <= k < inv.len() ==> (#[trigger] inv[k]) is None,
    decreases inv.len() - from,
{
    if from < inv.len() && inv[from] is None {
        lemma_first_item_is_lowest(inv, from + 1);
    }
}

fn first_item_index(inventory: &Vec<Option<Item>>) -> (r: Option<usize>)
    ensures
        match first_item_from(inventory.deep_view(), 0) {
            Some(i) => r == Some(i as usize) && 0 <= i < inventory@.len(),
            None => r is None,
        },
        r matches Some(x) ==> first_item_from(inventory.deep_view(), 0) == Some(x as int),
{
    let ghost inv = inventory.deep_view();
    let mut i: usize = 0;
    let mut result: Option<usize> = None;
    while i < inventory.len()
        invariant
            inv == inventory.deep_view(),
            inv.len() == inventory@.len(),
            result is None ==> first_item_from(inv, 0) == first_item_from(inv, i as int),
            result matches Some(x) ==> x < inventory@.len() && first_item_from(inv, 0) == Some(x as int),
            result is Some ==> i == inventory@.len(),
        decreases inventory@.len() - i,
    {
        assert(inv[i as int] == inventory@[i as int].deep_view());
        if inventory[i].is_some() {
            result = Some(i);
            i = inventory.len();
        } else {
            i = i + 1;
        }
    }
    result
}

/// Pays for a new equipment slot and moves the first item of the inventory into
/// it, leaving its slot empty. With no item in the inventory it is refused (the
/// message tells an inventory without slots from one whose slots are all empty);
/// so is a cost that cannot be paid. A refusal changes nothing.
pub fn execute(game: &mut Game) -> (r: Result<ExecuteExpandEquipmentSlotsReport, MyError>)
    requires
        fifth_power(old(game).equipped_items@.len() + 2) <= usize::MAX,
    ensures
        ({
            let g = old(game).deep_view();
            let cost = expand_equipment_slots_cost(g.equipped_items.len());
            &&& first_item_from(g.inventory, 0) is None ==> refused(r, empty_inventory_text(g.inventory.len()))
                && final(game).deep_view() == g
            &&& first_item_from(g.inventory, 0) is Some && !can_pay(g.treasure, cost)
                ==> refused(r, cannot_pay_text(cost, g.treasure)) && final(game).deep_view() == g
            &&& first_item_from(g.inventory, 0) is Some && can_pay(g.treasure, cost) ==> {
                let i = first_item_from(g.inventory, 0)->0;
                let equipped = g.equipped_items.push(g.inventory[i]->0);
                &&& r is Ok
                &&& final(game).deep_view() == (GameView {
                    equipped_items: equipped,
                    inventory: g.inventory.update(i, None),
                    treasure: after_payment(g.treasure, cost),
                    ..g
                })
                &&& r->Ok_0.new_equipped_items.deep_view() == equipped
                &&& r->Ok_0.paid_cost == cost
                &&& r->Ok_0.new_cost == expand_equipment_slots_cost(equipped.len())
                &&& r->Ok_0.leftover_spending_treasure == after_payment(g.treasure, cost)
            }
        }),
{
    proof {
        lemma_fifth_power_grows(old(game).equipped_items@.len() + 1, old(game).equipped_items@.len() + 2);
    }
    let first_index = match first_item_index(&game.inventory) {
        Some(i) => i,
        None => {
            let m = if game.inventory.len() == 0 {
                String::from_str("No item in inventory to equip in new item slot.")
            } else {
                String::from_str("No item in inventory to equip in new item slot. Whole inventory is empty.")
            };
            return Err(MyError::create_execute_command_error(m));
        },
    };
    let crafting_cost = execute_expand_equipment_slots_calculate_cost(game);
    match pay_crafting_cost(game, &crafting_cost) {
        Ok(()) => {},
        Err(e) => {
            return Err(e);
        },
    }
    let ghost inv = game.inventory.deep_view();
    proof {
        assert(inv == old(game).deep_view().inventory);
        assert(first_item_from(inv, 0) == Some(first_index as int));
        lemma_first_item_found(inv, 0);
        assert(inv[first_index as int] is Some);
    }
    assert(inv[first_index as int] == game.inventory@[first_index as int].deep_view());
    let item = match &game.inventory[first_index] {
        Some(item) => item.duplicate(),
        None => {
            return Err(MyError::create_execute_command_error(String::new()));
        },
    };
    game.inventory.set(first_index, None);
    assert(game.inventory.deep_view() =~= inv.update(first_index as int, None));
    let ghost equipped_before = game.equipped_items.deep_view();
    let ghost item_view = item.deep_view();
    game.equipped_items.push(item);
    assert(game.equipped_items.deep_view() =~= equipped_before.push(item_view));
    let new_cost = execute_expand_equipment_slots_calculate_cost(game);
    Ok(ExecuteExpandEquipmentSlotsReport {
        new_equipped_items: duplicate_items(&game.equipped_items),
        paid_cost: crafting_cost,
        new_cost,
        leftover_spending_treasure: game.treasure,
    })
}


/// One more equipment slot costs the number of slots it makes, to the fifth
/// power, in gold: `(slots + 1)^5`, as repeated products.
pub proof fn lemma_expand_equipment_slots_cost_power(slots: nat)
    requires
        fifth_power(slots + 1) <= u64::MAX,
    ensures
        ({
            let n = slots + 1;
            expand_equipment_slots_cost(slots).gold == Some((n * (n * (n * (n * n)))) as u64)
        }),
{
    let n = slots + 1;
    assert(n * n * n * n * n == n * (n * (n * (n * n)))) by (nonlinear_arith);
}

} // verus!
