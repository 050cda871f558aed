use vstd::prelude::*;
use crate::my_little_rpg_errors::{refused, MyError};
use crate::text::{decimal, push_decimal};
use crate::the_world::difficulty::Difficulty;
use crate::the_world::game::{after_payment, can_pay, cannot_pay_text, pay_crafting_cost, Game, GameView};
use crate::the_world::treasure_types::TreasureMap;

verus! {

/// What raising the minimum number of simultaneous elements gives back: the new
/// minimum, the cost paid, the cost of the next raise and the treasure left.
#[derive(Clone, PartialEq, Eq, Debug)]
pub struct ExecuteExpandMaxSimultaneousElementReport {
    pub new_min_simultaneous_resistances: u8,
    pub paid_cost: TreasureMap,
    pub new_cost: TreasureMap,
    pub leftover_spending_treasure: TreasureMap,
}

/// The cost of raising the minimum number of simultaneous elements of `d`: ten
/// gold per element of the current minimum.
pub open spec fn expand_min_simultaneous_cost(d: Difficulty) -> TreasureMap {
    TreasureMap { gold: Some((d.min_simultaneous_resistances * 10) as u64) }
}

/// The message when the minimum has reached the maximum.
pub open spec fn min_simultaneous_full_text(d: Difficulty) -> Seq<char> {
    "execute_expand_min_simultaneous_element "@ + decimal(d.max_simultaneous_resistances as nat)
        + " is already equal to max_simultaneous_resistances "@ + decimal(d.max_resistance.spec_len())
        + ". Consider calling ExpandMaxSimultaneousElement."@
}

/// What raising the minimum number of simultaneous elements costs.
pub fn execute_expand_min_simultaneous_element_calculate_cost(game: &Game) -> (r: TreasureMap)
    ensures
        r == expand_min_simultaneous_cost(game.difficulty),
{
    TreasureMap::gold((game.difficulty.min_simultaneous_resistances as u64) * 10)
}

/// Pays for and raises the minimum number of simultaneous elements by one. Where
/// it already reaches the maximum it is refused; so is a cost that cannot be
/// paid. A refusal changes nothing.
pub fn execute_expand_min_simultaneous_element(
    game: &mut Game,
) -> (r: Result<ExecuteExpandMaxSimultaneousElementReport, MyError>)
    ensures
        ({
            let g = old(game).deep_view();
            let d = g.difficulty;
            let cost = expand_min_simultaneous_cost(d);
            let raised = Difficulty { min_simultaneous_resistances: (d.min_simultaneous_resistances + 1) as u8, ..d };
            &&& d.min_simultaneous_resistances >= d.max_simultaneous_resistances
                ==> refused(r, min_simultaneous_full_text(d)) && final(game).deep_view() == g
            &&& d.min_simultaneous_resistances < d.max_simultaneous_resistances && !can_pay(g.treasure, cost)
                ==> refused(r, cannot_pay_text(cost, g.treasure)) && final(game).deep_view() == g
            &&& d.min_simultaneous_resistances < d.max_simultaneous_resistances && can_pay(g.treasure, cost) ==> {
                &&& r is Ok
                &&& final(game).deep_view() == (GameView {
                    difficulty: raised,
                    treasure: after_payment(g.treasure, cost),
                    ..g
                })
                &&& raised.min_simultaneous_resistances <= raised.max_simultaneous_resistances
                &&& r->Ok_0.new_min_simultaneous_resistances == d.min_simultaneous_resistances + 1
                &&& r->Ok_0.paid_cost == cost
                &&& r->Ok_0.new_cost == expand_min_simultaneous_cost(raised)
                &&& r->Ok_0.leftover_spending_treasure == after_payment(g.treasure, cost)
            }
        }),
{
    if game.difficulty.min_simultaneous_resistances >= game.difficulty.max_simultaneous_resistances {
        let mut m = String::new();
        m.append("execute_expand_min_simultaneous_element ");
        push_decimal(&mut m, game.difficulty.max_simultaneous_resistances as u64);
        m.append(" is already equal to max_simultaneous_resistances ");
        push_decimal(&mut m, game.difficulty.max_resistance.len() as u64);
        m.append(". Consider calling ExpandMaxSimultaneousElement.");
        assert(m@ =~= min_simultaneous_full_text(game.difficulty));
        return Err(MyError::create_execute_command_error(m));
    }
    let crafting_cost = execute_expand_min_simultaneous_element_calculate_cost(game);
    match pay_crafting_cost(game, &crafting_cost) {
        Ok(()) => {},
        Err(e) => {
            return Err(e);
        },
    }
    game.difficulty.min_simultaneous_resistances = game.difficulty.min_simultaneous_resistances + 1;
    let new_cost = execute_expand_min_simultaneous_element_calculate_cost(game);
    Ok(ExecuteExpandMaxSimultaneousElementReport {
        new_min_simultaneous_resistances: game.difficulty.min_simultaneous_resistances,
        paid_cost: crafting_cost,
        new_cost,
        leftover_spending_treasure: game.treasure,
    })
}


/// Raising the minimum number of simultaneous elements by one makes the next
/// raise ten gold dearer.
pub proof fn lemma_expand_min_simultaneous_cost_grows(d: Difficulty)
    requires
        d.min_simultaneous_resistances < 255,
    ensures
        expand_min_simultaneous_cost(Difficulty { min_simultaneous_resistances: (d.min_simultaneous_resistances + 1) as u8, ..d }).gold->0
            == expand_min_simultaneous_cost(d).gold->0 + 10,
        expand_min_simultaneous_cost(Difficulty { min_simultaneous_resistances: 0, ..d }).gold == Some(0u64),
{
}

} // verus!
