use vstd::prelude::*;
use crate::attack_types::{AttackType, DamageMap};
use crate::the_world::difficulty::Difficulty;
use crate::the_world::treasure_types::TreasureMap;

verus! {

/// A place to move to: the resistance that must be overcome, the treasure it
/// rewards, and the bounds of the item it rewards.
#[derive(Clone, Copy, PartialEq, Eq, Debug, Hash)]
pub struct Place {
    pub resistance: DamageMap,
    pub reward: TreasureMap,
    pub item_reward_possible_rolls: Difficulty,
}

/// The amount in a slot, zero where the slot is empty.
pub open spec fn amount_or_zero(o: Option<u64>) -> int {
    match o {
        Some(v) => v as int,
        None => 0,
    }
}

/// `damage` overcomes `resistance`: for every attack type the place resists,
/// the damage of that type is at least the resistance.
pub open spec fn overcomes(damage: Seq<Option<u64>>, resistance: Seq<Option<u64>>) -> bool {
    forall|i: int|
        0 <= i < 9 && (#[trigger] resistance[i]) is Some ==> amount_or_zero(damage[i])
            >= resistance[i]->0
}

impl Place {
    /// The reward of this place when `damage` overcomes its resistance, else `None`.
    pub fn claim_rewards(&self, damage: &DamageMap) -> (r: Option<TreasureMap>)
        ensures
            r == if overcomes(damage@, self.resistance@) {
                Some(self.reward)
            } else {
                None::<TreasureMap>
            },
    {
        let mut i: usize = 0;
        while i < 9
            invariant
                i <= 9,
                forall|k: int|
                    0 <= k < i && (#[trigger] self.resistance@[k]) is Some ==> amount_or_zero(damage@[k])
                        >= self.resistance@[k]->0,
            decreases 9 - i,
        {
            match self.resistance.amounts[i] {
                Some(needed) => {
                    let dealt = match damage.amounts[i] {
                        Some(d) => d,
                        None => 0,
                    };
                    if dealt < needed {
                        assert(!overcomes(damage@, self.resistance@));
                        return None;
                    }
                },
                None => {},
            }
            i = i + 1;
        }
        Some(self.reward)
    }
}

} // verus!
