use vstd::prelude::*;
use crate::attack_types::DamageMap;
use crate::command::move_rules::{
    costs_fit_check, gains_fit_check, update_cost_effect,
    all_costs, all_gains, apply_gains, eval_costs_fit, evaluate_item_costs, gains_fit,
    item_cost_result, multiplied, add_multiplier_to_base, pay_resources, update_gain_effect,
    MoveAcc, Tally,
};
use crate::generator::place::{generated_place, new as new_place};
use crate::my_little_rpg_errors::MyError;
use crate::text::{decimal, push_decimal};
use crate::the_world::game::{Game, GameView};
use crate::the_world::game_statistics::GameStatistics;
use crate::the_world::item::{CraftingInfo, Item, ItemSpec, Modifier, ModifierSpec};
use crate::the_world::item_resource::ResourceMap;
use crate::the_world::place::{amount_or_zero, overcomes, Place};
use crate::the_world::treasure_types::{TreasureBonus, TreasureMap};

verus! {

/// What one equipped item did during a move, with the totals right after it.
#[derive(Clone, PartialEq, Eq, Debug)]
pub struct ItemReport {
    pub item: Item,
    pub current_damage: DamageMap,
    pub current_resistance_reduction: DamageMap,
    pub treasure_bonus: TreasureBonus,
    pub item_gain: u16,
    pub effect_description: String,
    pub item_resource_costs: Option<ResourceMap>,
    pub current_item_resources: ResourceMap,
}

/// The mathematical content of an item report.
pub ghost struct ReportSpec {
    pub item: ItemSpec,
    pub current_damage: Seq<Option<u64>>,
    pub current_resistance_reduction: Seq<Option<u64>>,
    pub treasure_bonus: Option<u16>,
    pub item_gain: u16,
    pub effect_description: Seq<char>,
    pub item_resource_costs: Option<ResourceMap>,
    pub current_item_resources: ResourceMap,
}

impl DeepView for ItemReport {
    type V = ReportSpec;

    open spec fn deep_view(&self) -> ReportSpec {
        ReportSpec {
            item: self.item.deep_view(),
            current_damage: self.current_damage@,
            current_resistance_reduction: self.current_resistance_reduction@,
            treasure_bonus: self.treasure_bonus.gold,
            item_gain: self.item_gain,
            effect_description: self.effect_description@,
            item_resource_costs: self.item_resource_costs,
            current_item_resources: self.current_item_resources,
        }
    }
}

/// The report of a won move.
#[derive(Clone, PartialEq, Eq, Debug)]
pub struct ExecuteMoveCommandReport {
    pub item_report: Vec<ItemReport>,
    pub result: String,
    pub new_place: Place,
}

/// The reports of a move that was not won, and why.
#[derive(Clone, PartialEq, Eq, Debug)]
pub struct ExecuteMoveCommandErrorReport {
    pub item_report: Vec<ItemReport>,
    pub result: String,
}

/// The report of one item, given the totals after it.
pub open spec fn report_of(
    item: ItemSpec,
    acc: MoveAcc,
    description: Seq<char>,
    cost: Option<ResourceMap>,
) -> ReportSpec {
    ReportSpec {
        item,
        current_damage: acc.damage,
        current_resistance_reduction: acc.reduction,
        treasure_bonus: acc.treasure_bonus,
        item_gain: acc.item_gain,
        effect_description: description,
        item_resource_costs: cost,
        current_item_resources: acc.resources,
    }
}

/// The damage to hold against the resistance: damage and resistance reduction
/// added per attack type (stopping at `u64::MAX`), present where either is.
pub open spec fn merged(damage: Seq<Option<u64>>, reduction: Seq<Option<u64>>) -> Seq<Option<u64>> {
    Seq::new(
        9,
        |i: int|
            if damage[i] is None && reduction[i] is None {
                None
            } else if amount_or_zero(damage[i]) + amount_or_zero(reduction[i]) > u64::MAX {
                Some(u64::MAX)
            } else {
                Some((amount_or_zero(damage[i]) + amount_or_zero(reduction[i])) as u64)
            },
    )
}

/// The state of a move after some of the equipped items.
pub ghost struct MoveRun {
    pub acc: MoveAcc,
    pub reports: Seq<ReportSpec>,
    pub won: bool,
}

/// The description of an item whose costs were paid.
pub open spec fn paid_text() -> Seq<char> {
    "Costs paid and all gains executed."@
}

/// One more equipped item takes its turn, unless the move is already won: its
/// costs are checked and paid, its gains take effect, and the place is claimed
/// when the damage now overcomes its resistance.
pub open spec fn item_step(run: MoveRun, item: ItemSpec, wins: u64, place: Place, index: usize) -> MoveRun {
    if run.won {
        run
    } else {
        match item_cost_result(item.modifiers, run.acc.damage, run.acc.resources, wins, place, index) {
            Err(reason) => MoveRun {
                reports: run.reports.push(report_of(item, run.acc, reason, None)),
                ..run
            },
            Ok(cost) => {
                let paid = MoveAcc { resources: pay_resources(run.acc.resources, cost), ..run.acc };
                let after = apply_gains(paid, all_gains(item.modifiers), place);
                MoveRun {
                    acc: after,
                    reports: run.reports.push(report_of(item, after, paid_text(), Some(cost))),
                    won: overcomes(merged(after.damage, after.reduction), place.resistance@),
                }
            },
        }
    }
}

/// The turn of `item` stays within the integer types.
pub open spec fn item_step_fits(run: MoveRun, item: ItemSpec, wins: u64, place: Place, index: usize) -> bool {
    run.won || {
        &&& eval_costs_fit(all_costs(item.modifiers), run.acc.damage, run.acc.resources, wins, place, index)
        &&& match item_cost_result(item.modifiers, run.acc.damage, run.acc.resources, wins, place, index) {
            Ok(cost) => gains_fit(
                MoveAcc { resources: pay_resources(run.acc.resources, cost), ..run.acc },
                all_gains(item.modifiers),
                place,
            ),
            Err(_) => true,
        }
    }
}

/// The totals a move starts from.
pub open spec fn start_acc(resources: ResourceMap) -> MoveAcc {
    MoveAcc {
        damage: Seq::new(9, |i: int| None::<u64>),
        reduction: Seq::new(9, |i: int| None::<u64>),
        treasure_bonus: None,
        item_gain: 1,
        resources,
    }
}

/// The move after the first items of `items` took their turns.
pub open spec fn move_run(items: Seq<ItemSpec>, resources: ResourceMap, wins: u64, place: Place, index: usize) -> MoveRun
    decreases items.len(),
{
    if items.len() == 0 {
        MoveRun { acc: start_acc(resources), reports: Seq::empty(), won: false }
    } else {
        item_step(move_run(items.drop_last(), resources, wins, place, index), items.last(), wins, place, index)
    }
}

/// Every turn of the move stays within the integer types.
pub open spec fn move_run_fits(items: Seq<ItemSpec>, resources: ResourceMap, wins: u64, place: Place, index: usize) -> bool
    decreases items.len(),
{
    if items.len() == 0 {
        true
    } else {
        move_run_fits(items.drop_last(), resources, wins, place, index)
            && item_step_fits(move_run(items.drop_last(), resources, wins, place, index), items.last(), wins, place, index)
    }
}

/// The move of `g` to the place at `index`, through all equipped items.
pub open spec fn game_move_run(g: GameView, index: usize) -> MoveRun {
    move_run(g.equipped_items, g.item_resources, g.statistics.wins_in_a_row, g.places[index as int], index)
}

/// The reward of a won place, each treasure raised by its bonus percentage.
pub open spec fn rewarded(reward: TreasureMap, bonus: Option<u16>) -> TreasureMap {
    TreasureMap {
        gold: match reward.gold {
            Some(a) => Some(
                match bonus {
                    Some(p) => multiplied(p, a),
                    None => a,
                },
            ),
            None => None,
        },
    }
}

/// `treasure` with `reward` added to it.
pub open spec fn add_treasure(treasure: TreasureMap, reward: TreasureMap) -> TreasureMap {
    match reward.gold {
        Some(a) => TreasureMap { gold: Some((amount_or_zero(treasure.gold) + a) as u64) },
        None => treasure,
    }
}

/// The item a won place rewards: one empty modifier, rolled within the
/// place's bounds.
pub open spec fn reward_item(possible_rolls: crate::the_world::difficulty::Difficulty, places_count: usize) -> ItemSpec {
    ItemSpec {
        modifiers: seq![ModifierSpec { costs: Seq::empty(), gains: Seq::empty() }],
        crafting_info: CraftingInfo { possible_rolls, places_count },
    }
}

/// The statistics after a won move.
pub open spec fn won_statistics(s: GameStatistics) -> GameStatistics {
    GameStatistics {
        moves_count: (s.moves_count + 1) as u64,
        wins: (s.wins + 1) as u64,
        loses: s.loses,
        wins_in_a_row: (s.wins_in_a_row + 1) as u64,
        loses_in_a_row: 0,
    }
}

/// The statistics after a lost move.
pub open spec fn lost_statistics(s: GameStatistics) -> GameStatistics {
    GameStatistics {
        moves_count: (s.moves_count + 1) as u64,
        wins: s.wins,
        loses: (s.loses + 1) as u64,
        wins_in_a_row: 0,
        loses_in_a_row: (s.loses_in_a_row + 1) as u64,
    }
}

/// The message of a move to a place that does not exist.
pub open spec fn no_such_place_text(index: usize, len: nat) -> Seq<char> {
    "Error: execute_move_command: Index "@ + decimal(index as nat) + " is out of range of places, places is "@
        + decimal(len) + " long."@
}

/// The result text of a won move.
pub open spec fn won_text() -> Seq<char> {
    "You won and got a new item in the inventory."@
}

/// The result text of a lost move.
pub open spec fn lost_text() -> Seq<char> {
    "You did not deal enough damage to overcome the challenges in this place."@
}

/// What a move to `index` needs so that no counter or amount overflows and a new
/// place can be rolled.
pub open spec fn move_fits(g: GameView, index: usize) -> bool {
    index < g.places.len() ==> {
        let run = game_move_run(g, index);
        &&& move_run_fits(g.equipped_items, g.item_resources, g.statistics.wins_in_a_row, g.places[index as int], index)
        &&& g.statistics.moves_count < u64::MAX
        &&& run.won ==> {
            &&& g.statistics.wins < u64::MAX
            &&& g.statistics.wins_in_a_row < u64::MAX
            &&& g.difficulty.well_formed()
            &&& match rewarded(g.places[index as int].reward, run.acc.treasure_bonus).gold {
                Some(a) => amount_or_zero(g.treasure.gold) + a <= u64::MAX,
                None => true,
            }
        }
        &&& !run.won ==> g.statistics.loses < u64::MAX && g.statistics.loses_in_a_row < u64::MAX
    }
}

/// The reports of a move error, if it is one.
pub open spec fn move_error(r: Result<ExecuteMoveCommandReport, MyError>, message: Seq<char>, reports: Seq<ReportSpec>) -> bool {
    match r {
        Err(MyError::MoveCommand { error_message, item_report }) => error_message@ == message
            && item_report.deep_view() == reports,
        _ => false,
    }
}

fn merge_damage(damage: &DamageMap, reduction: &DamageMap) -> (r: DamageMap)
    ensures
        r@ == merged(damage@, reduction@),
{
    let mut r = DamageMap::new();
    let mut i: usize = 0;
    while i < 9
        invariant
            i <= 9,
            forall|k: int| 0 <= k < i ==> r@[k] == merged(damage@, reduction@)[k],
            forall|k: int| i <= k < 9 ==> r@[k] is None,
        decreases 9 - i,
    {
        let d = damage.amounts[i];
        let e = reduction.amounts[i];
        let v = if d.is_some() || e.is_some() {
            let a = match d {
                Some(v) => v,
                None => 0,
            };
            let b = match e {
                Some(v) => v,
                None => 0,
            };
            Some(a.saturating_add(b))
        } else {
            None
        };
        assert(v == merged(damage@, reduction@)[i as int]);
        let ghost before = r@;
        r.amounts[i] = v;
        assert(r@ == before.update(i as int, v));
        i = i + 1;
    }
    assert(r@ =~= merged(damage@, reduction@));
    r
}

/// Moves to the place at `index`. Each equipped item in turn checks and pays its
/// costs and lets its gains take effect; as soon as the damage overcomes the
/// place's resistance the place is won: its treasure (raised by the treasure
/// bonus) is added, the rewarded items are put in the inventory and the place is
/// rolled anew. Item resources gained stay, whether the move is won or not.
pub fn execute(game: &mut Game, index: usize) -> (r: Result<ExecuteMoveCommandReport, MyError>)
    requires
        move_fits(old(game).deep_view(), index),
    ensures
        index >= old(game).places@.len() ==> {
            &&& move_error(r, no_such_place_text(index, old(game).places@.len()), Seq::empty())
            &&& final(game).deep_view() == old(game).deep_view()
        },
        index < old(game).places@.len() ==> {
            let g = old(game).deep_view();
            let run = game_move_run(g, index);
            let place = g.places[index as int];
            if run.won {
                &&& r is Ok
                &&& r->Ok_0.item_report.deep_view() == run.reports
                &&& r->Ok_0.result@ == won_text()
                &&& r->Ok_0.new_place == final(game).places@[index as int]
                &&& generated_place(final(game).places@[index as int], g.difficulty)
                &&& final(game).deep_view() == (GameView {
                    places: g.places.update(index as int, final(game).places@[index as int]),
                    inventory: g.inventory + Seq::new(
                        run.acc.item_gain as nat,
                        |k: int| Some(reward_item(place.item_reward_possible_rolls, g.places.len() as usize)),
                    ),
                    treasure: add_treasure(g.treasure, rewarded(place.reward, run.acc.treasure_bonus)),
                    item_resources: run.acc.resources,
                    statistics: won_statistics(g.statistics),
                    random_generator_state: final(game).random_generator_state,
                    ..g
                })
            } else {
                &&& move_error(r, lost_text(), run.reports)
                &&& final(game).deep_view() == (GameView {
                    item_resources: run.acc.resources,
                    statistics: lost_statistics(g.statistics),
                    ..g
                })
            }
        },
{
    if game.places.len() <= index {
        return report_place_does_not_exist(game, index);
    }
    let ghost g = game.deep_view();
    game.statistics.moves_count = game.statistics.moves_count + 1;

    let place = game.places[index];
    let wins = game.statistics.wins_in_a_row;
    let mut tally = Tally {
        damage: DamageMap::new(),
        reduction: DamageMap::new(),
        treasure_bonus: TreasureBonus { gold: None },
        item_gain: 1,
        resources: game.item_resources,
    };
    assert(tally@ == start_acc(g.item_resources)) by {
        assert(tally@.damage =~= start_acc(g.item_resources).damage);
        assert(tally@.reduction =~= start_acc(g.item_resources).reduction);
    }
    let mut item_report: Vec<ItemReport> = Vec::new();
    let ghost items = g.equipped_items;
    proof {
        assert(items.subrange(0, 0) =~= Seq::<ItemSpec>::empty());
        assert(item_report.deep_view() =~= Seq::<ReportSpec>::empty());
    }
    let mut won = false;
    let mut i: usize = 0;
    while i < game.equipped_items.len() && !won
        invariant
            i <= game.equipped_items@.len(),
            items == game.equipped_items.deep_view(),
            items == g.equipped_items,
            index < g.places.len(),
            place == g.places[index as int],
            wins == g.statistics.wins_in_a_row,
            move_fits(g, index),
            game.deep_view() == (GameView { statistics: game.statistics, ..g }),
            move_run(items.subrange(0, i as int), g.item_resources, wins, place, index) == (MoveRun {
                acc: tally@,
                reports: item_report.deep_view(),
                won,
            }),
        decreases game.equipped_items@.len() - i,
    {
        let ghost prefix = items.subrange(0, i as int);
        let ghost next = items.subrange(0, i + 1);
        proof {
            assert(next.drop_last() =~= prefix);
            assert(next.last() == items[i as int]);
            lemma_run_fits_prefix(items, next, g.item_resources, wins, place, index);
        }
        let ghost run = move_run(prefix, g.item_resources, wins, place, index);
        won = item_turn(&game.equipped_items[i], &mut tally, &mut item_report, &place, wins, index, Ghost(run));
        i = i + 1;
    }
    if won {
        proof {
            lemma_run_won_stays(items, i as nat, g.item_resources, wins, place, index);
        }
        let rewards = place.reward;
        return update_claim_place_effect(game, index, item_report, rewards, tally, Ghost(g));
    }
    proof {
        assert(items.subrange(0, i as int) =~= items);
    }
    game.item_resources = tally.resources;
    game.statistics.loses = game.statistics.loses + 1;
    game.statistics.loses_in_a_row = game.statistics.loses_in_a_row + 1;
    game.statistics.wins_in_a_row = 0;
    let mut message = String::new();
    message.append("You did not deal enough damage to overcome the challenges in this place.");
    Err(MyError::MoveCommand { error_message: message, item_report })
}

/// The error of a move to a place that does not exist.
fn report_place_does_not_exist(game: &Game, index: usize) -> (r: Result<ExecuteMoveCommandReport, MyError>)
    ensures
        move_error(r, no_such_place_text(index, game.places@.len()), Seq::empty()),
{
    let mut message = String::new();
    message.append("Error: execute_move_command: Index ");
    push_decimal(&mut message, index as u64);
    message.append(" is out of range of places, places is ");
    push_decimal(&mut message, game.places.len() as u64);
    message.append(" long.");
    assert(message@ =~= no_such_place_text(index, game.places@.len()));
    let reports: Vec<ItemReport> = Vec::new();
    assert(reports.deep_view() =~= Seq::<ReportSpec>::empty());
    Err(MyError::MoveCommand { error_message: message, item_report: reports })
}

/// One equipped item takes its turn; returns whether the place is now won.
fn item_turn(
    item: &Item,
    tally: &mut Tally,
    item_report: &mut Vec<ItemReport>,
    place: &Place,
    wins: u64,
    index: usize,
    Ghost(run): Ghost<MoveRun>,
) -> (won: bool)
    requires
        run == (MoveRun { acc: old(tally)@, reports: old(item_report).deep_view(), won: false }),
        item_step_fits(run, item.deep_view(), wins, *place, index),
    ensures
        item_step(run, item.deep_view(), wins, *place, index) == (MoveRun {
            acc: final(tally)@,
            reports: final(item_report).deep_view(),
            won,
        }),
{
    let cost_result = evaluate_item_costs(item, &tally.damage, &tally.resources, wins, place, index);
    match cost_result {
        Err(reason) => {
            let report = ItemReport {
                item: item.duplicate(),
                current_damage: tally.damage,
                current_resistance_reduction: tally.reduction,
                treasure_bonus: tally.treasure_bonus,
                item_gain: tally.item_gain,
                effect_description: reason,
                item_resource_costs: None,
                current_item_resources: tally.resources,
            };
            let ghost expected = report_of(item.deep_view(), run.acc, report.effect_description@, None);
            assert(report.deep_view() == expected);
            item_report.push(report);
            assert(item_report.deep_view() =~= run.reports.push(expected));
            false
        },
        Ok(cost) => {
            update_cost_effect(&mut tally.resources, &cost);
            update_gain_effect(tally, item, place);
            let mut description = String::new();
            description.append("Costs paid and all gains executed.");
            let report = ItemReport {
                item: item.duplicate(),
                current_damage: tally.damage,
                current_resistance_reduction: tally.reduction,
                treasure_bonus: tally.treasure_bonus,
                item_gain: tally.item_gain,
                effect_description: description,
                item_resource_costs: Some(cost),
                current_item_resources: tally.resources,
            };
            let ghost expected = report_of(item.deep_view(), tally@, paid_text(), Some(cost));
            assert(report.deep_view() == expected);
            item_report.push(report);
            assert(item_report.deep_view() =~= run.reports.push(expected));
            let merged_damage = merge_damage(&tally.damage, &tally.reduction);
            place.claim_rewards(&merged_damage).is_some()
        },
    }
}

proof fn lemma_push_deep_view(a: Vec<Option<Item>>, b: Vec<Option<Item>>, x: Option<Item>)
    requires
        b@ == a@.push(x),
    ensures
        b.deep_view() == a.deep_view().push(x.deep_view()),
{
    assert(b.deep_view() =~= a.deep_view().push(x.deep_view()));
}

proof fn lemma_run_fits_prefix(
    items: Seq<ItemSpec>,
    pre: Seq<ItemSpec>,
    resources: ResourceMap,
    wins: u64,
    place: Place,
    index: usize,
)
    requires
        pre.is_prefix_of(items),
        move_run_fits(items, resources, wins, place, index),
    ensures
        move_run_fits(pre, resources, wins, place, index),
    decreases items.len(),
{
    if pre.len() < items.len() {
        assert(pre.is_prefix_of(items.drop_last()));
        lemma_run_fits_prefix(items.drop_last(), pre, resources, wins, place, index);
    } else {
        assert(pre =~= items);
    }
}

/// Once won, the remaining items change nothing.
proof fn lemma_run_won_stays(
    items: Seq<ItemSpec>,
    k: nat,
    resources: ResourceMap,
    wins: u64,
    place: Place,
    index: usize,
)
    requires
        k <= items.len(),
        move_run(items.subrange(0, k as int), resources, wins, place, index).won,
    ensures
        move_run(items, resources, wins, place, index) == move_run(items.subrange(0, k as int), resources, wins, place, index),
    decreases items.len() - k,
{
    if k < items.len() {
        let next = items.subrange(0, k as int + 1);
        assert(next.drop_last() =~= items.subrange(0, k as int));
        lemma_run_won_stays(items, k + 1, resources, wins, place, index);
    } else {
        assert(items.subrange(0, k as int) =~= items);
    }
}

/// Claims the won place: the statistics count the win, the rewarded items go
/// into the inventory, the treasure (raised by the bonus) is added and the
/// place is rolled anew.
fn update_claim_place_effect(
    game: &mut Game,
    index: usize,
    item_report: Vec<ItemReport>,
    rewards: TreasureMap,
    tally: Tally,
    Ghost(g): Ghost<GameView>,
) -> (r: Result<ExecuteMoveCommandReport, MyError>)
    requires
        index < g.places.len(),
        move_fits(g, index),
        game_move_run(g, index).won,
        game_move_run(g, index).acc == tally@,
        game_move_run(g, index).reports == item_report.deep_view(),
        rewards == g.places[index as int].reward,
        old(game).deep_view() == (GameView {
            statistics: GameStatistics { moves_count: (g.statistics.moves_count + 1) as u64, ..g.statistics },
            ..g
        }),
    ensures
        ({
            let run = game_move_run(g, index);
            let place = g.places[index as int];
            &&& r is Ok
            &&& r->Ok_0.item_report.deep_view() == run.reports
            &&& r->Ok_0.result@ == won_text()
            &&& r->Ok_0.new_place == final(game).places@[index as int]
            &&& generated_place(final(game).places@[index as int], g.difficulty)
            &&& final(game).deep_view() == (GameView {
                places: g.places.update(index as int, final(game).places@[index as int]),
                inventory: g.inventory + Seq::new(
                    run.acc.item_gain as nat,
                    |k: int| Some(reward_item(place.item_reward_possible_rolls, g.places.len() as usize)),
                ),
                treasure: add_treasure(g.treasure, rewarded(place.reward, run.acc.treasure_bonus)),
                item_resources: run.acc.resources,
                statistics: won_statistics(g.statistics),
                random_generator_state: final(game).random_generator_state,
                ..g
            })
        }),
{
    game.item_resources = tally.resources;
    game.statistics.wins = game.statistics.wins + 1;
    game.statistics.wins_in_a_row = game.statistics.wins_in_a_row + 1;
    game.statistics.loses_in_a_row = 0;

    let modified = TreasureMap {
        gold: match rewards.gold {
            Some(a) => Some(
                match tally.treasure_bonus.gold {
                    Some(p) => add_multiplier_to_base(p, a),
                    None => a,
                },
            ),
            None => None,
        },
    };

    let possible_rolls = game.places[index].item_reward_possible_rolls;
    let places_count = game.places.len();
    let ghost reward = reward_item(possible_rolls, places_count);
    let ghost inventory_before = game.inventory.deep_view();
    let ghost pre = game.deep_view();
    let mut k: u16 = 0;
    while k < tally.item_gain
        invariant
            k <= tally.item_gain,
            game.deep_view() == (GameView { inventory: game.inventory.deep_view(), ..pre }),
            game.inventory.deep_view() == inventory_before + Seq::new(k as nat, |j: int| Some(reward)),
            game.places@ == g.places,
            possible_rolls == g.places[index as int].item_reward_possible_rolls,
            places_count == g.places.len(),
            reward == reward_item(possible_rolls, places_count),
        decreases tally.item_gain - k,
    {
        let costs: Vec<crate::the_world::item::Cost> = Vec::new();
        let gains: Vec<crate::the_world::item::Gain> = Vec::new();
        let mut modifiers: Vec<Modifier> = Vec::new();
        modifiers.push(Modifier { costs, gains });
        let new_item = Item {
            modifiers,
            crafting_info: CraftingInfo { possible_rolls, places_count },
        };
        proof {
            assert(new_item.modifiers@[0].costs.deep_view() =~= Seq::empty());
            assert(new_item.modifiers@[0].gains@ =~= Seq::empty());
            assert(new_item.deep_view().modifiers =~= reward.modifiers);
        }
        assert(new_item.deep_view() == reward);
        let slot = Some(new_item);
        let ghost slot_copy = slot;
        assert(slot_copy.deep_view() == Some(reward));
        let ghost inventory_prev = game.inventory;
        game.inventory.push(slot);
        proof {
            lemma_push_deep_view(inventory_prev, game.inventory, slot_copy);
            assert(game.inventory.deep_view() =~= inventory_before + Seq::new((k + 1) as nat, |j: int| Some(reward)));
        }
        k = k + 1;
    }

    assert(game.treasure == g.treasure);
    assert(modified == rewarded(g.places[index as int].reward, tally@.treasure_bonus));
    match modified.gold {
        Some(a) => {
            let base = match game.treasure.gold {
                Some(v) => v,
                None => 0,
            };
            game.treasure.gold = Some(base + a);
        },
        None => {},
    }

    assert(game.difficulty == g.difficulty);
    let fresh = new_place(game);
    game.places.set(index, fresh);
    let mut result = String::new();
    result.append("You won and got a new item in the inventory.");
    proof {
        assert(game.places@ =~= g.places.update(index as int, fresh));
    }
    Ok(ExecuteMoveCommandReport { item_report, result, new_place: fresh })
}

/// Whether the turn of `item` stays within the integer types, before the move
/// is won (see `item_step_fits`).
fn item_step_fits_check(
    item: &Item,
    tally: &Tally,
    wins: u64,
    place: &Place,
    index: usize,
    Ghost(run): Ghost<MoveRun>,
) -> (r: bool)
    requires
        run.acc == tally@,
        !run.won,
    ensures
        r == item_step_fits(run, item.deep_view(), wins, *place, index),
{
    if !costs_fit_check(item, &tally.damage, &tally.resources, wins, place, index) {
        return false;
    }
    match evaluate_item_costs(item, &tally.damage, &tally.resources, wins, place, index) {
        Err(_) => true,
        Ok(cost) => {
            let mut paid = *tally;
            update_cost_effect(&mut paid.resources, &cost);
            gains_fit_check(&paid, item, place)
        },
    }
}

/// Once the move is won, the remaining turns fit.
proof fn lemma_run_won_fits(
    items: Seq<ItemSpec>,
    k: nat,
    resources: ResourceMap,
    wins: u64,
    place: Place,
    index: usize,
)
    requires
        k <= items.len(),
        move_run(items.subrange(0, k as int), resources, wins, place, index).won,
        move_run_fits(items.subrange(0, k as int), resources, wins, place, index),
    ensures
        move_run_fits(items, resources, wins, place, index),
    decreases items.len() - k,
{
    if k < items.len() {
        let next = items.subrange(0, k as int + 1);
        assert(next.drop_last() =~= items.subrange(0, k as int));
        lemma_run_won_fits(items, k + 1, resources, wins, place, index);
    } else {
        assert(items.subrange(0, k as int) =~= items);
    }
}

/// Whether a move to `index` stays within the integer types and can roll a new
/// place (see `move_fits`): it goes through the turns of the equipped items as
/// the move would, checking each before it is taken.
pub fn move_fits_check(game: &Game, index: usize) -> (r: bool)
    ensures
        r == move_fits(game.deep_view(), index),
{
    if game.places.len() <= index {
        return true;
    }
    let ghost g = game.deep_view();
    let place = game.places[index];
    let wins = game.statistics.wins_in_a_row;
    let mut tally = Tally {
        damage: DamageMap::new(),
        reduction: DamageMap::new(),
        treasure_bonus: TreasureBonus { gold: None },
        item_gain: 1,
        resources: game.item_resources,
    };
    assert(tally@ == start_acc(g.item_resources)) by {
        assert(tally@.damage =~= start_acc(g.item_resources).damage);
        assert(tally@.reduction =~= start_acc(g.item_resources).reduction);
    }
    let mut item_report: Vec<ItemReport> = Vec::new();
    let ghost items = g.equipped_items;
    proof {
        assert(items.subrange(0, 0) =~= Seq::<ItemSpec>::empty());
        assert(item_report.deep_view() =~= Seq::<ReportSpec>::empty());
    }
    let mut won = false;
    let mut i: usize = 0;
    while i < game.equipped_items.len() && !won
        invariant
            i <= game.equipped_items@.len(),
            items == game.equipped_items.deep_view(),
            items == g.equipped_items,
            g == game.deep_view(),
            index < g.places.len(),
            place == g.places[index as int],
            wins == g.statistics.wins_in_a_row,
            move_run(items.subrange(0, i as int), g.item_resources, wins, place, index) == (MoveRun {
                acc: tally@,
                reports: item_report.deep_view(),
                won,
            }),
            move_run_fits(items.subrange(0, i as int), g.item_resources, wins, place, index),
        decreases game.equipped_items@.len() - i,
    {
        let ghost prefix = items.subrange(0, i as int);
        let ghost next = items.subrange(0, i + 1);
        let ghost run = move_run(prefix, g.item_resources, wins, place, index);
        proof {
            assert(next.drop_last() =~= prefix);
            assert(next.last() == items[i as int]);
        }
        if !item_step_fits_check(&game.equipped_items[i], &tally, wins, &place, index, Ghost(run)) {
            proof {
                if move_run_fits(items, g.item_resources, wins, place, index) {
                    lemma_run_fits_prefix(items, next, g.item_resources, wins, place, index);
                }
            }
            return false;
        }
        won = item_turn(&game.equipped_items[i], &mut tally, &mut item_report, &place, wins, index, Ghost(run));
        i = i + 1;
    }
    proof {
        if won {
            lemma_run_won_stays(items, i as nat, g.item_resources, wins, place, index);
            lemma_run_won_fits(items, i as nat, g.item_resources, wins, place, index);
        } else {
            assert(items.subrange(0, i as int) =~= items);
        }
    }
    if game.statistics.moves_count == u64::MAX {
        return false;
    }
    if won {
        if game.statistics.wins == u64::MAX || game.statistics.wins_in_a_row == u64::MAX {
            return false;
        }
        if !game.difficulty.is_well_formed() {
            return false;
        }
        match place.reward.gold {
            Some(a) => {
                let amount = match tally.treasure_bonus.gold {
                    Some(p) => add_multiplier_to_base(p, a),
                    None => a,
                };
                let have = match game.treasure.gold {
                    Some(v) => v,
                    None => 0,
                };
                have.checked_add(amount).is_some()
            },
            None => true,
        }
    } else {
        game.statistics.loses < u64::MAX && game.statistics.loses_in_a_row < u64::MAX
    }
}

/// The statistics stay balanced over moves: where the wins and losses add up to
/// the moves made, they still do after a won or a lost move, and after either
/// at most one of the two streaks is running.
pub proof fn lemma_statistics_stay_balanced(s: GameStatistics)
    requires
        s.wins + s.loses == s.moves_count,
        s.moves_count < u64::MAX,
        s.wins_in_a_row < u64::MAX,
        s.loses_in_a_row < u64::MAX,
    ensures
        won_statistics(s).wins + won_statistics(s).loses == won_statistics(s).moves_count,
        lost_statistics(s).wins + lost_statistics(s).loses == lost_statistics(s).moves_count,
        won_statistics(s).loses_in_a_row == 0,
        lost_statistics(s).wins_in_a_row == 0,
{
}

/// A place is won exactly when, for every attack type it resists, the damage
/// dealt plus the resistance reduction (each zero where absent) is at least
/// the resistance.
pub proof fn lemma_won_when(damage: Seq<Option<u64>>, reduction: Seq<Option<u64>>, resistance: Seq<Option<u64>>)
    ensures
        overcomes(merged(damage, reduction), resistance) <==> forall|i: int|
            0 <= i < 9 && (#[trigger] resistance[i]) is Some ==> amount_or_zero(damage[i]) + amount_or_zero(
                reduction[i],
            ) >= resistance[i]->0,
{
    let m = merged(damage, reduction);
    assert forall|i: int| 0 <= i < 9 && (#[trigger] resistance[i]) is Some implies
        (amount_or_zero(m[i]) >= resistance[i]->0 <==> amount_or_zero(damage[i]) + amount_or_zero(reduction[i])
            >= resistance[i]->0) by {}
}

/// After a won move one more move and one more win are counted, the winning
/// streak grows by one and the losing streak ends; after a lost move one more
/// move and one more loss are counted, the losing streak grows by one and the
/// winning streak ends.
pub proof fn lemma_statistics_after_move(s: GameStatistics)
    requires
        s.moves_count < u64::MAX,
        s.wins < u64::MAX,
        s.loses < u64::MAX,
        s.wins_in_a_row < u64::MAX,
        s.loses_in_a_row < u64::MAX,
    ensures
        won_statistics(s).moves_count == s.moves_count + 1,
        won_statistics(s).wins == s.wins + 1,
        won_statistics(s).loses == s.loses,
        won_statistics(s).wins_in_a_row == s.wins_in_a_row + 1,
        won_statistics(s).loses_in_a_row == 0,
        lost_statistics(s).moves_count == s.moves_count + 1,
        lost_statistics(s).wins == s.wins,
        lost_statistics(s).loses == s.loses + 1,
        lost_statistics(s).wins_in_a_row == 0,
        lost_statistics(s).loses_in_a_row == s.loses_in_a_row + 1,
{
}

/// What a won place adds to the treasure: its gold reward raised by the
/// treasure bonus percentage (by at least one, the product and the sum
/// stopping at `u64::MAX`), added to the gold held (zero where none); a place
/// without a gold reward leaves the treasure as it is.
pub proof fn lemma_reward_added(treasure: TreasureMap, reward: TreasureMap, bonus: Option<u16>)
    requires
        match rewarded(reward, bonus).gold {
            Some(a) => amount_or_zero(treasure.gold) + a <= u64::MAX,
            None => true,
        },
    ensures
        reward.gold is None ==> add_treasure(treasure, rewarded(reward, bonus)) == treasure,
        reward.gold matches Some(a) ==> {
            let raised = match bonus {
                None => a as int,
                Some(p) => {
                    let product = if a * p > u64::MAX { u64::MAX as int } else { a * p };
                    let increase = if product / 100 < 1 { 1 } else { product / 100 };
                    if a + increase > u64::MAX { u64::MAX as int } else { a + increase }
                },
            };
            add_treasure(treasure, rewarded(reward, bonus)).gold == Some((amount_or_zero(treasure.gold) + raised) as u64)
        },
{
}

} // verus!
