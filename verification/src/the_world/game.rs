use vstd::prelude::*;
use rand_pcg::Lcg64Xsh32;
use crate::the_world::difficulty::Difficulty;
use crate::the_world::game_statistics::GameStatistics;
use crate::the_world::item::{Item, ItemSpec};
use crate::the_world::item_resource::ResourceMap;
use crate::the_world::place::Place;
use crate::the_world::treasure_types::{treasure_text, TreasureMap};
use crate::my_little_rpg_errors::{refused, MyError};
use crate::attack_types::{attack_at, attack_index, count_some, lemma_attack_index_roundtrip, AttackType, DamageMap};
use crate::rng::choose_attack_type;

verus! {

/// The whole state of a game.
#[derive(PartialEq, Eq, Debug)]
pub struct Game {
    pub places: Vec<Place>,
    pub equipped_items: Vec<Item>,
    pub inventory: Vec<Option<Item>>,
    pub difficulty: Difficulty,
    pub treasure: TreasureMap,
    pub item_resources: ResourceMap,
    pub seed: [u8; 16],
    pub random_generator_state: Lcg64Xsh32,
    pub statistics: GameStatistics,
}

/// The mathematical content of a game.
pub ghost struct GameView {
    pub places: Seq<Place>,
    pub equipped_items: Seq<ItemSpec>,
    pub inventory: Seq<Option<ItemSpec>>,
    pub difficulty: Difficulty,
    pub treasure: TreasureMap,
    pub item_resources: ResourceMap,
    pub seed: Seq<u8>,
    pub random_generator_state: Lcg64Xsh32,
    pub statistics: GameStatistics,
}

impl DeepView for Game {
    type V = GameView;

    open spec fn deep_view(&self) -> GameView {
        GameView {
            places: self.places@,
            equipped_items: self.equipped_items.deep_view(),
            inventory: self.inventory.deep_view(),
            difficulty: self.difficulty,
            treasure: self.treasure,
            item_resources: self.item_resources,
            seed: self.seed@,
            random_generator_state: self.random_generator_state,
            statistics: self.statistics,
        }
    }
}

/// Whether `treasure` holds at least what `cost` asks for.
pub open spec fn can_pay(treasure: TreasureMap, cost: TreasureMap) -> bool {
    match cost.gold {
        Some(c) => match treasure.gold {
            Some(g) => g >= c,
            None => c == 0,
        },
        None => true,
    }
}

/// `treasure` after `cost` is paid out of it.
pub open spec fn after_payment(treasure: TreasureMap, cost: TreasureMap) -> TreasureMap {
    match (cost.gold, treasure.gold) {
        (Some(c), Some(g)) => TreasureMap { gold: Some((g - c) as u64) },
        _ => treasure,
    }
}

/// The message of a crafting cost that cannot be paid.
pub open spec fn cannot_pay_text(cost: TreasureMap, treasure: TreasureMap) -> Seq<char> {
    "Cant pay the crafting cost, the cost is "@ + treasure_text(cost) + " and you only have "@
        + treasure_text(treasure)
}

/// Pays a crafting cost out of the game's treasure, or reports that it cannot.
pub fn pay_crafting_cost(game: &mut Game, cost: &TreasureMap) -> (r: Result<(), MyError>)
    ensures
        can_pay(old(game).treasure, *cost) ==> r is Ok && final(game).deep_view() == (GameView {
            treasure: after_payment(old(game).treasure, *cost),
            ..old(game).deep_view()
        }),
        !can_pay(old(game).treasure, *cost) ==> final(game).deep_view() == old(game).deep_view()
            && refused(r, cannot_pay_text(*cost, old(game).treasure)),
{
    let payable = match cost.gold {
        Some(c) => match game.treasure.gold {
            Some(g) => g >= c,
            None => c == 0,
        },
        None => true,
    };
    if !payable {
        let mut message = String::new();
        message.append("Cant pay the crafting cost, the cost is ");
        cost.push_text(&mut message);
        message.append(" and you only have ");
        game.treasure.push_text(&mut message);
        assert(message@ =~= cannot_pay_text(*cost, old(game).treasure));
        return Err(MyError::create_execute_command_error(message));
    }
    match (cost.gold, game.treasure.gold) {
        (Some(c), Some(g)) => {
            game.treasure.gold = Some(g - c);
        },
        _ => {},
    }
    Ok(())
}

} // verus!

verus! {

/// The attack types present in the first `n` slots, in the canonical order.
pub open spec fn present_types(s: Seq<Option<u64>>, n: nat) -> Seq<AttackType>
    decreases n,
{
    if n == 0 {
        Seq::empty()
    } else if s[n - 1] is Some {
        present_types(s, (n - 1) as nat).push(attack_at(n - 1))
    } else {
        present_types(s, (n - 1) as nat)
    }
}

pub proof fn lemma_present_types(s: Seq<Option<u64>>, n: nat)
    requires
        n <= 9,
    ensures
        present_types(s, n).len() == count_some(s, n),
        forall|k: int|
            0 <= k < present_types(s, n).len() ==> {
                let t = #[trigger] present_types(s, n)[k];
                attack_index(t) < n && s[attack_index(t) as int] is Some
            },
        forall|i: int| 0 <= i < n && s[i] is Some ==> present_types(s, n).contains(attack_at(i)),
    decreases n,
{
    if n > 0 {
        lemma_present_types(s, (n - 1) as nat);
        let prev = present_types(s, (n - 1) as nat);
        if s[n - 1] is Some {
            assert forall|i: int| 0 <= i < n && s[i] is Some implies present_types(s, n).contains(
                attack_at(i),
            ) by {
                if i < n - 1 {
                    let k = choose|k: int| 0 <= k < prev.len() && prev[k] == attack_at(i);
                    assert(present_types(s, n)[k] == attack_at(i));
                } else {
                    assert(present_types(s, n)[prev.len() as int] == attack_at(i));
                }
            }
        }
    }
}

/// The attack types present in `m`, in the canonical order.
pub fn present_attack_types(m: &DamageMap) -> (r: Vec<AttackType>)
    ensures
        r@ == present_types(m@, 9),
        r@.len() == m.spec_len(),
{
    let mut r: Vec<AttackType> = Vec::new();
    let mut i: usize = 0;
    while i < 9
        invariant
            i <= 9,
            r@ == present_types(m@, i as nat),
        decreases 9 - i,
    {
        if m.amounts[i].is_some() {
            r.push(AttackType::from_index(i));
        }
        i = i + 1;
    }
    proof {
        lemma_present_types(m@, 9);
    }
    r
}

/// A random attack type among those present in `unlocks`, each equally likely.
pub fn get_random_attack_type_from_unlocked(
    random_generator_state: &mut Lcg64Xsh32,
    unlocks: &DamageMap,
) -> (r: AttackType)
    requires
        unlocks.spec_len() > 0,
    ensures
        unlocks.spec_get(r) is Some,
{
    let candidates = present_attack_types(unlocks);
    let t = choose_attack_type(random_generator_state, &candidates);
    proof {
        lemma_present_types(unlocks@, 9);
        let k = choose|k: int| 0 <= k < candidates@.len() && candidates@[k] == t;
        assert(present_types(unlocks@, 9)[k] == t);
        lemma_attack_index_roundtrip(t);
    }
    t
}

} // verus!

verus! {

pub proof fn lemma_count_some_positive(s: Seq<Option<u64>>, n: nat, i: int)
    requires
        0 <= i < n,
        s[i] is Some,
    ensures
        count_some(s, n) > 0,
    decreases n,
{
    if i < n - 1 {
        lemma_count_some_positive(s, (n - 1) as nat, i);
    }
}

/// A map in which `t` is present is not empty.
pub proof fn lemma_len_positive(m: DamageMap, t: AttackType)
    requires
        m.spec_get(t) is Some,
    ensures
        m.spec_len() > 0,
{
    lemma_attack_index_roundtrip(t);
    lemma_count_some_positive(m@, 9, attack_index(t) as int);
}


/// A crafting cost can be paid exactly when the gold held (zero where none) is
/// at least the gold it asks for; paying takes that gold away and leaves the
/// rest of the treasure: the gold left plus the gold paid is the gold held.
pub proof fn lemma_payment_takes_the_cost(treasure: TreasureMap, cost: TreasureMap)
    ensures
        can_pay(treasure, cost) <==> match cost.gold {
            Some(c) => c <= match treasure.gold {
                Some(g) => g as int,
                None => 0,
            },
            None => true,
        },
        can_pay(treasure, cost) && cost.gold is Some && treasure.gold is Some ==> after_payment(treasure, cost).gold
            is Some && after_payment(treasure, cost).gold->0 + cost.gold->0 == treasure.gold->0,
        cost.gold is None ==> after_payment(treasure, cost) == treasure,
{
}

} // verus!
