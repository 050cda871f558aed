use vstd::prelude::*;
use crate::generator::place::{generated_place, new as new_place};
use crate::my_little_rpg_errors::{refused, MyError};
use crate::the_world::game::{after_payment, can_pay, cannot_pay_text, pay_crafting_cost, Game, GameView};
use crate::the_world::place::Place;
use crate::the_world::treasure_types::TreasureMap;

verus! {

/// What expanding the places gives back: the new place, the cost paid, the cost
/// of the next expansion and the treasure left.
#[derive(Clone, PartialEq, Eq, Debug)]
pub struct ExecuteExpandPlacesReport {
    pub new_place: Place,
    pub paid_cost: TreasureMap,
    pub new_cost: TreasureMap,
    pub leftover_spending_treasure: TreasureMap,
}

/// The cost of one more place with `places` places: ten gold per place.
pub open spec fn expand_places_cost(places: nat) -> TreasureMap {
    TreasureMap { gold: Some((places * 10) as u64) }
}

/// What one more place costs: ten gold per place the game has.
pub fn execute_expand_places_calculate_cost(game: &Game) -> (r: TreasureMap)
    requires
        game.places@.len() * 10 <= usize::MAX,
    ensures
        r == expand_places_cost(game.places@.len()),
{
    TreasureMap::gold((game.places.len() * 10) as u64)
}

/// Pays for and rolls a new place from the game's difficulty. A cost that cannot
/// be paid is refused and changes nothing.
pub fn execute(game: &mut Game) -> (r: Result<ExecuteExpandPlacesReport, MyError>)
    requires
        old(game).difficulty.well_formed(),
        (old(game).places@.len() + 1) * 10 <= usize::MAX,
    ensures
        ({
            let g = old(game).deep_view();
            let cost = expand_places_cost(g.places.len());
            &&& !can_pay(g.treasure, cost) ==> refused(r, cannot_pay_text(cost, g.treasure))
                && final(game).deep_view() == g
            &&& can_pay(g.treasure, cost) ==> {
                &&& r is Ok
                &&& generated_place(r->Ok_0.new_place, g.difficulty)
                &&& final(game).deep_view() == (GameView {
                    places: g.places.push(r->Ok_0.new_place),
                    treasure: after_payment(g.treasure, cost),
                    random_generator_state: final(game).random_generator_state,
                    ..g
                })
                &&& r->Ok_0.paid_cost == cost
                &&& r->Ok_0.new_cost == expand_places_cost(g.places.len() + 1)
                &&& r->Ok_0.leftover_spending_treasure == after_payment(g.treasure, cost)
            }
        }),
{
    let crafting_cost = execute_expand_places_calculate_cost(game);
    match pay_crafting_cost(game, &crafting_cost) {
        Ok(()) => {},
        Err(e) => {
            return Err(e);
        },
    }
    let place = new_place(game);
    game.places.push(place);
    let new_cost = execute_expand_places_calculate_cost(game);
    Ok(ExecuteExpandPlacesReport {
        new_place: place,
        paid_cost: crafting_cost,
        new_cost,
        leftover_spending_treasure: game.treasure,
    })
}


/// The first place costs nothing more to add than no place, and each place the
/// game has makes the next one ten gold dearer.
pub proof fn lemma_expand_places_cost_grows(places: nat)
    requires
        (places + 1) * 10 <= u64::MAX,
    ensures
        expand_places_cost(0).gold == Some(0u64),
        expand_places_cost(places + 1).gold->0 == expand_places_cost(places).gold->0 + 10,
{
}

} // verus!
