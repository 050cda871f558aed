use vstd::prelude::*;
use crate::my_little_rpg_errors::{refused, MyError};
use crate::text::{decimal, push_decimal};
use crate::the_world::difficulty::Difficulty;
use crate::the_world::game::{after_payment, can_pay, cannot_pay_text, pay_crafting_cost, Game, GameView};
use crate::the_world::treasure_types::TreasureMap;

verus! {

/// What raising the maximum number of simultaneous elements gives back: the new
/// maximum, the cost paid, the cost of the next raise and the treasure left.
#[derive(Clone, PartialEq, Eq, Debug)]
pub struct ExecuteExpandMaxSimultaneousElementReport {
    pub new_max_simultaneous_resistances: u8,
    pub paid_cost: TreasureMap,
    pub new_cost: TreasureMap,
    pub leftover_spending_treasure: TreasureMap,
}

/// The cost of raising the maximum number of simultaneous elements of `d`: ten
/// gold per element of the current maximum.
pub open spec fn expand_max_simultaneous_cost(d: Difficulty) -> TreasureMap {
    TreasureMap { gold: Some((d.max_simultaneous_resistances * 10) as u64) }
}

/// The message when the maximum has reached the number of elements.
pub open spec fn max_simultaneous_full_text(d: Difficulty) -> Seq<char> {
    "max_simultaneous_resistances "@ + decimal(d.max_simultaneous_resistances as nat)
        + " is already equal to number of active resistances "@ + decimal(d.max_resistance.spec_len())
        + ". Consider calling ExpandElements."@
}

/// What raising the maximum number of simultaneous elements costs.
pub fn execute_expand_max_simultaneous_element_calculate_cost(game: &Game) -> (r: TreasureMap)
    ensures
        r == expand_max_simultaneous_cost(game.difficulty),
{
    TreasureMap::gold((game.difficulty.max_simultaneous_resistances as u64) * 10)
}

/// Pays for and raises the maximum number of simultaneous elements by one. Where
/// it already reaches the number of elements it is refused; so is a cost that
/// cannot be paid. A refusal changes nothing.
pub fn execute_expand_max_simultaneous_element(
    game: &mut Game,
) -> (r: Result<ExecuteExpandMaxSimultaneousElementReport, MyError>)
    ensures
        ({
            let g = old(game).deep_view();
            let d = g.difficulty;
            let cost = expand_max_simultaneous_cost(d);
            let raised = Difficulty { max_simultaneous_resistances: (d.max_simultaneous_resistances + 1) as u8, ..d };
            &&& d.max_simultaneous_resistances >= d.max_resistance.spec_len()
                ==> refused(r, max_simultaneous_full_text(d)) && final(game).deep_view() == g
            &&& d.max_simultaneous_resistances < d.max_resistance.spec_len() && !can_pay(g.treasure, cost)
                ==> refused(r, cannot_pay_text(cost, g.treasure)) && final(game).deep_view() == g
            &&& d.max_simultaneous_resistances < d.max_resistance.spec_len() && can_pay(g.treasure, cost) ==> {
                &&& r is Ok
                &&& final(game).deep_view() == (GameView {
                    difficulty: raised,
                    treasure: after_payment(g.treasure, cost),
                    ..g
                })
                &&& r->Ok_0.new_max_simultaneous_resistances == d.max_simultaneous_resistances + 1
                &&& r->Ok_0.paid_cost == cost
                &&& r->Ok_0.new_cost == expand_max_simultaneous_cost(raised)
                &&& r->Ok_0.leftover_spending_treasure == after_payment(g.treasure, cost)
            }
        }),
{
    let elements = game.difficulty.max_resistance.len();
    if (game.difficulty.max_simultaneous_resistances as usize) >= elements {
        let mut m = String::new();
        m.append("max_simultaneous_resistances ");
        push_decimal(&mut m, game.difficulty.max_simultaneous_resistances as u64);
        m.append(" is already equal to number of active resistances ");
        push_decimal(&mut m, elements as u64);
        m.append(". Consider calling ExpandElements.");
        assert(m@ =~= max_simultaneous_full_text(game.difficulty));
        return Err(MyError::create_execute_command_error(m));
    }
    let crafting_cost = execute_expand_max_simultaneous_element_calculate_cost(game);
    match pay_crafting_cost(game, &crafting_cost) {
        Ok(()) => {},
        Err(e) => {
            return Err(e);
        },
    }
    game.difficulty.max_simultaneous_resistances = game.difficulty.max_simultaneous_resistances + 1;
    let new_cost = execute_expand_max_simultaneous_element_calculate_cost(game);
    Ok(ExecuteExpandMaxSimultaneousElementReport {
        new_max_simultaneous_resistances: game.difficulty.max_simultaneous_resistances,
        paid_cost: crafting_cost,
        new_cost,
        leftover_spending_treasure: game.treasure,
    })
}


/// Raising the maximum number of simultaneous elements by one makes the next
/// raise ten gold dearer.
pub proof fn lemma_expand_max_simultaneous_cost_grows(d: Difficulty)
    requires
        d.max_simultaneous_resistances < 255,
    ensures
        expand_max_simultaneous_cost(Difficulty { max_simultaneous_resistances: (d.max_simultaneous_resistances + 1) as u8, ..d }).gold->0
            == expand_max_simultaneous_cost(d).gold->0 + 10,
        expand_max_simultaneous_cost(Difficulty { max_simultaneous_resistances: 0, ..d }).gold == Some(0u64),
{
}

} // verus!
