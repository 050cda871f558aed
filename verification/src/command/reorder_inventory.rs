use vstd::prelude::*;
use crate::the_world::game::{Game, GameView};
use crate::the_world::item::{Item, ItemSpec};

verus! {

/// The slots of `inv` that hold an item, in order.
pub open spec fn occupied(inv: Seq<Option<ItemSpec>>) -> Seq<Option<ItemSpec>>
    decreases inv.len(),
{
    if inv.len() == 0 {
        Seq::empty()
    } else if inv.last() is Some {
        occupied(inv.drop_last()).push(inv.last())
    } else {
        occupied(inv.drop_last())
    }
}

/// Closes the gaps in the inventory: the items keep their order and no empty
/// slot is left.
pub fn execute(game: &mut Game) -> (r: String)
    ensures
        r@ == "Inventory is reordered."@,
        final(game).deep_view() == (GameView { inventory: occupied(old(game).deep_view().inventory), ..old(game).deep_view() }),
{
    let ghost inv = game.inventory.deep_view();
    let old_inventory = &game.inventory;
    let mut kept: Vec<Option<Item>> = Vec::new();
    let mut i: usize = 0;
    while i < old_inventory.len()
        invariant
            inv == old_inventory.deep_view(),
            i <= old_inventory@.len(),
            kept.deep_view() == occupied(inv.take(i as int)),
        decreases old_inventory@.len() - i,
    {
        proof {
            assert(inv.take(i + 1).drop_last() =~= inv.take(i as int));
            assert(inv[i as int] == old_inventory@[i as int].deep_view());
        }
        match &old_inventory[i] {
            Some(item) => {
                let copy = item.duplicate();
                let ghost before = kept.deep_view();
                let slot = Some(copy);
                let ghost slot_view = slot.deep_view();
                kept.push(slot);
                assert(kept.deep_view() =~= before.push(slot_view));
            },
            None => {},
        }
        i = i + 1;
    }
    assert(inv.take(inv.len() as int) =~= inv);
    game.inventory = kept;
    String::from_str("Inventory is reordered.")
}

/// Every slot left after reordering holds an item.
pub proof fn lemma_reordered_has_no_gaps(inv: Seq<Option<ItemSpec>>)
    ensures
        forall|k: int| 0 <= k < occupied(inv).len() ==> #[trigger] occupied(inv)[k] is Some,
    decreases inv.len(),
{
    if inv.len() > 0 {
        lemma_reordered_has_no_gaps(inv.drop_last());
    }
}

/// Reordering an inventory that has no gaps leaves it as it is; in particular,
/// reordering twice is the same as reordering once.
pub proof fn lemma_reorder_idempotent(inv: Seq<Option<ItemSpec>>)
    ensures
        occupied(occupied(inv)) == occupied(inv),
{
    lemma_reordered_has_no_gaps(inv);
    lemma_occupied_full(occupied(inv));
}

/// An inventory without gaps is left as it is.
pub proof fn lemma_occupied_full(inv: Seq<Option<ItemSpec>>)
    requires
        forall|k: int| 0 <= k < inv.len() ==> #[trigger] inv[k] is Some,
    ensures
        occupied(inv) == inv,
    decreases inv.len(),
{
    if inv.len() > 0 {
        lemma_occupied_full(inv.drop_last());
        assert(inv.drop_last().push(inv.last()) =~= inv);
    }
}

/// Reordering keeps every item: the number of items is the number of occupied
/// slots before.
pub proof fn lemma_reorder_keeps_items(inv: Seq<Option<ItemSpec>>)
    ensures
        occupied(inv).len() == inv.filter(|o: Option<ItemSpec>| o is Some).len(),
    decreases inv.len(),
{
    reveal(Seq::filter);
    if inv.len() > 0 {
        lemma_reorder_keeps_items(inv.drop_last());
    }
}

} // verus!
