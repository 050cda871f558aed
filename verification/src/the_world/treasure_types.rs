use vstd::prelude::*;
use crate::text::{decimal, push_decimal};

verus! {

/// The kinds of treasure a place can reward.
#[derive(Clone, Copy, PartialEq, Eq, Debug, Hash, Structural)]
pub enum TreasureType {
    Gold,
}

/// An amount per treasure type; `None` where the treasure type is absent.
#[derive(Clone, Copy, PartialEq, Eq, Debug, Hash, Structural)]
pub struct TreasureMap {
    pub gold: Option<u64>,
}

/// How a treasure map is written in messages, such as `{Gold: 10}` or `{}`.
pub open spec fn treasure_text(m: TreasureMap) -> Seq<char> {
    match m.gold {
        Some(v) => "{Gold: "@ + decimal(v as nat) + "}"@,
        None => "{}"@,
    }
}

impl TreasureMap {
    /// A map with no treasure.
    pub fn new() -> (r: TreasureMap)
        ensures
            r.gold is None,
    {
        TreasureMap { gold: None }
    }

    /// A map holding `amount` of gold.
    pub fn gold(amount: u64) -> (r: TreasureMap)
        ensures
            r.gold == Some(amount),
    {
        TreasureMap { gold: Some(amount) }
    }

    /// The amount stored for `t`, if any.
    pub fn get(&self, t: TreasureType) -> (r: Option<u64>)
        ensures
            r == self.gold,
    {
        match t {
            TreasureType::Gold => self.gold,
        }
    }

    /// Stores `v` for `t`.
    pub fn insert(&mut self, t: TreasureType, v: u64)
        ensures
            final(self).gold == Some(v),
    {
        match t {
            TreasureType::Gold => {
                self.gold = Some(v);
            },
        }
    }

    /// Appends how this map is written in messages.
    pub fn push_text(&self, s: &mut String)
        ensures
            final(s)@ == old(s)@ + treasure_text(*self),
    {
        match self.gold {
            Some(v) => {
                s.append("{Gold: ");
                push_decimal(s, v);
                s.append("}");
            },
            None => {
                s.append("{}");
            },
        }
        assert(final(s)@ =~= old(s)@ + treasure_text(*self));
    }
}

} // verus!

verus! {

/// A percentage bonus per treasure type; `None` where no bonus applies.
#[derive(Clone, Copy, PartialEq, Eq, Debug, Hash, Structural)]
pub struct TreasureBonus {
    pub gold: Option<u16>,
}

} // verus!
