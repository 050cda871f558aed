use vstd::prelude::*;
use crate::attack_types::{attack_at, lemma_attack_at_roundtrip, lemma_attack_index_roundtrip, AttackType, DamageMap};

verus! {

/// The bounds that places and crafted modifiers are rolled within.
#[derive(Clone, Copy, PartialEq, Eq, Debug, Hash)]
pub struct Difficulty {
    pub max_resistance: DamageMap,
    pub min_resistance: DamageMap,
    pub max_simultaneous_resistances: u8,
    pub min_simultaneous_resistances: u8,
}

impl Difficulty {
    /// Both resistance maps hold the same attack types, each minimum at most its
    /// maximum, and at least one attack type is unlocked.
    pub open spec fn well_formed(self) -> bool {
        &&& forall|t: AttackType|
            (#[trigger] self.max_resistance.spec_get(t) is Some) == (self.min_resistance.spec_get(t) is Some)
        &&& forall|t: AttackType|
            #[trigger] self.min_resistance.spec_get(t) is Some ==> self.min_resistance.spec_get(t)->0
                <= self.max_resistance.spec_get(t)->0
        &&& self.min_resistance.spec_len() > 0
    }

    /// Whether the difficulty is well-formed.
    pub fn is_well_formed(&self) -> (r: bool)
        ensures
            r == self.well_formed(),
    {
        let mut i: usize = 0;
        while i < 9
            invariant
                i <= 9,
                forall|k: int| 0 <= k < i ==> {
                    &&& (#[trigger] self.max_resistance@[k] is Some) == (self.min_resistance@[k] is Some)
                    &&& self.min_resistance@[k] is Some ==> self.min_resistance@[k]->0 <= self.max_resistance@[k]->0
                },
            decreases 9 - i,
        {
            match (self.min_resistance.amounts[i], self.max_resistance.amounts[i]) {
                (Some(low), Some(high)) => {
                    if low > high {
                        proof {
                            lemma_attack_at_roundtrip(i as int);
                            let t = attack_at(i as int);
                            assert(self.min_resistance.spec_get(t) is Some);
                        }
                        return false;
                    }
                },
                (None, None) => {},
                _ => {
                    proof {
                        lemma_attack_at_roundtrip(i as int);
                        let t = attack_at(i as int);
                        assert(self.min_resistance.spec_get(t) is Some != self.max_resistance.spec_get(t) is Some);
                    }
                    return false;
                },
            }
            i = i + 1;
        }
        proof {
            assert forall|t: AttackType| (#[trigger] self.max_resistance.spec_get(t) is Some)
                == (self.min_resistance.spec_get(t) is Some) by {
                lemma_attack_index_roundtrip(t);
            }
            assert forall|t: AttackType| #[trigger] self.min_resistance.spec_get(t) is Some
                implies self.min_resistance.spec_get(t)->0 <= self.max_resistance.spec_get(t)->0 by {
                lemma_attack_index_roundtrip(t);
            }
        }
        self.min_resistance.len() > 0
    }
}

} // verus!
