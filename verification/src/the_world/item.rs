use vstd::prelude::*;
use crate::attack_types::AttackType;
use crate::the_world::difficulty::Difficulty;
use crate::the_world::item_resource::Type;
use crate::the_world::treasure_types::TreasureType;

verus! {

/// A requirement or price that a modifier imposes before its gains take effect.
#[derive(Clone, PartialEq, Eq, Debug, Hash)]
pub enum Cost {
    FlatItemResource(Type, u64),
    FlatMinItemResourceRequirement(Type, u64),
    FlatMaxItemResourceRequirement(Type, u64),
    FlatMinAttackRequirement(AttackType, u64),
    FlatMaxAttackRequirement(AttackType, u64),
    FlatSumMinAttackRequirement(u64),
    FlatSumMaxAttackRequirement(u64),
    PlaceLimitedByIndexModulus(u8, Vec<u8>),
    FlatMinResistanceRequirement(AttackType, u64),
    FlatMaxResistanceRequirement(AttackType, u64),
    FlatMinSumResistanceRequirement(u64),
    FlatMaxSumResistanceRequirement(u64),
    MinWinsInARow(u8),
    MaxWinsInARow(u8),
}

/// The mathematical content of a cost: the list of valid remainders as a sequence.
pub ghost enum CostSpec {
    FlatItemResource(Type, u64),
    FlatMinItemResourceRequirement(Type, u64),
    FlatMaxItemResourceRequirement(Type, u64),
    FlatMinAttackRequirement(AttackType, u64),
    FlatMaxAttackRequirement(AttackType, u64),
    FlatSumMinAttackRequirement(u64),
    FlatSumMaxAttackRequirement(u64),
    PlaceLimitedByIndexModulus(u8, Seq<u8>),
    FlatMinResistanceRequirement(AttackType, u64),
    FlatMaxResistanceRequirement(AttackType, u64),
    FlatMinSumResistanceRequirement(u64),
    FlatMaxSumResistanceRequirement(u64),
    MinWinsInARow(u8),
    MaxWinsInARow(u8),
}

impl DeepView for Cost {
    type V = CostSpec;

    open spec fn deep_view(&self) -> CostSpec {
        match self {
            Cost::FlatItemResource(t, a) => CostSpec::FlatItemResource(*t, *a),
            Cost::FlatMinItemResourceRequirement(t, a) => CostSpec::FlatMinItemResourceRequirement(*t, *a),
            Cost::FlatMaxItemResourceRequirement(t, a) => CostSpec::FlatMaxItemResourceRequirement(*t, *a),
            Cost::FlatMinAttackRequirement(t, a) => CostSpec::FlatMinAttackRequirement(*t, *a),
            Cost::FlatMaxAttackRequirement(t, a) => CostSpec::FlatMaxAttackRequirement(*t, *a),
            Cost::FlatSumMinAttackRequirement(a) => CostSpec::FlatSumMinAttackRequirement(*a),
            Cost::FlatSumMaxAttackRequirement(a) => CostSpec::FlatSumMaxAttackRequirement(*a),
            Cost::PlaceLimitedByIndexModulus(m, v) => CostSpec::PlaceLimitedByIndexModulus(*m, v@),
            Cost::FlatMinResistanceRequirement(t, a) => CostSpec::FlatMinResistanceRequirement(*t, *a),
            Cost::FlatMaxResistanceRequirement(t, a) => CostSpec::FlatMaxResistanceRequirement(*t, *a),
            Cost::FlatMinSumResistanceRequirement(a) => CostSpec::FlatMinSumResistanceRequirement(*a),
            Cost::FlatMaxSumResistanceRequirement(a) => CostSpec::FlatMaxSumResistanceRequirement(*a),
            Cost::MinWinsInARow(a) => CostSpec::MinWinsInARow(*a),
            Cost::MaxWinsInARow(a) => CostSpec::MaxWinsInARow(*a),
        }
    }
}

/// An effect that a modifier has once its costs are paid.
#[derive(Clone, Copy, PartialEq, Eq, Debug, Hash, Structural)]
pub enum Gain {
    FlatDamage(AttackType, u64),
    PercentageIncreaseDamage(AttackType, u16),
    FlatItemResource(Type, u64),
    FlatResistanceReduction(AttackType, u64),
    PercentageIncreaseResistanceReduction(AttackType, u16),
    FlatDamageAgainstHighestResistance(u64),
    PercentageIncreaseDamageAgainstHighestResistance(u16),
    FlatDamageAgainstLowestResistance(u64),
    PercentageIncreaseDamageAgainstLowestResistance(u16),
    PercentageIncreaseTreasure(TreasureType, u16),
    FlatIncreaseRewardedItems(u16),
}

impl DeepView for Gain {
    type V = Gain;

    open spec fn deep_view(&self) -> Gain {
        *self
    }
}

/// The gain kinds a crafted modifier can get for the given attack types: per
/// attack type its flat and percentage damage and resistance reduction, then the
/// kinds that name no attack type. Amounts are zero; crafting fills them in.
pub open spec fn gain_options(attack_types: Seq<AttackType>) -> Seq<Gain> {
    Seq::new(
        (attack_types.len() * 4) as nat,
        |i: int|
            {
                let t = attack_types[i / 4];
                if i % 4 == 0 {
                    Gain::FlatDamage(t, 0)
                } else if i % 4 == 1 {
                    Gain::PercentageIncreaseDamage(t, 0)
                } else if i % 4 == 2 {
                    Gain::FlatResistanceReduction(t, 0)
                } else {
                    Gain::PercentageIncreaseResistanceReduction(t, 0)
                }
            },
    ) + seq![
        Gain::FlatItemResource(Type::Mana, 0),
        Gain::FlatDamageAgainstHighestResistance(0),
        Gain::PercentageIncreaseDamageAgainstHighestResistance(0),
        Gain::FlatDamageAgainstLowestResistance(0),
        Gain::PercentageIncreaseDamageAgainstLowestResistance(0),
        Gain::PercentageIncreaseTreasure(TreasureType::Gold, 0),
        Gain::FlatIncreaseRewardedItems(0),
    ]
}

impl Gain {
    /// The gain kinds a crafted modifier can get for `attack_types`.
    pub fn get_all_given_attack_types(attack_types: Vec<AttackType>) -> (r: Vec<Gain>)
        requires
            attack_types@.len() * 4 + 7 <= usize::MAX,
        ensures
            r@ == gain_options(attack_types@),
    {
        let mut r: Vec<Gain> = Vec::new();
        let mut i: usize = 0;
        while i < attack_types.len()
            invariant
                i <= attack_types@.len(),
                r@.len() == i * 4,
                forall|k: int| 0 <= k < i * 4 ==> #[trigger] r@[k] == gain_options(attack_types@)[k],
            decreases attack_types@.len() - i,
        {
            let t = attack_types[i];
            r.push(Gain::FlatDamage(t, 0));
            r.push(Gain::PercentageIncreaseDamage(t, 0));
            r.push(Gain::FlatResistanceReduction(t, 0));
            r.push(Gain::PercentageIncreaseResistanceReduction(t, 0));
            proof {
                assert forall|k: int| 0 <= k < (i + 1) * 4 implies #[trigger] r@[k] == gain_options(
                    attack_types@,
                )[k] by {
                    if k >= i * 4 {
                        assert(k / 4 == i);
                    }
                }
            }
            i = i + 1;
        }
        r.push(Gain::FlatItemResource(Type::Mana, 0));
        r.push(Gain::FlatDamageAgainstHighestResistance(0));
        r.push(Gain::PercentageIncreaseDamageAgainstHighestResistance(0));
        r.push(Gain::FlatDamageAgainstLowestResistance(0));
        r.push(Gain::PercentageIncreaseDamageAgainstLowestResistance(0));
        r.push(Gain::PercentageIncreaseTreasure(TreasureType::Gold, 0));
        r.push(Gain::FlatIncreaseRewardedItems(0));
        assert(r@ =~= gain_options(attack_types@));
        r
    }
}

/// One modifier of an item: its costs and its gains.
#[derive(Clone, PartialEq, Eq, Debug, Hash)]
pub struct Modifier {
    pub costs: Vec<Cost>,
    pub gains: Vec<Gain>,
}

/// The mathematical content of a modifier.
pub ghost struct ModifierSpec {
    pub costs: Seq<CostSpec>,
    pub gains: Seq<Gain>,
}

impl DeepView for Modifier {
    type V = ModifierSpec;

    open spec fn deep_view(&self) -> ModifierSpec {
        ModifierSpec { costs: self.costs.deep_view(), gains: self.gains@ }
    }
}

/// What an item can be crafted into: the bounds of its rolls and the number of
/// places when it was made.
#[derive(Clone, Copy, PartialEq, Eq, Debug, Hash)]
pub struct CraftingInfo {
    pub possible_rolls: Difficulty,
    pub places_count: usize,
}

/// An item: a list of modifiers and how it can be crafted.
#[derive(Clone, PartialEq, Eq, Debug, Hash)]
pub struct Item {
    pub modifiers: Vec<Modifier>,
    pub crafting_info: CraftingInfo,
}

/// The mathematical content of an item.
pub ghost struct ItemSpec {
    pub modifiers: Seq<ModifierSpec>,
    pub crafting_info: CraftingInfo,
}

impl DeepView for Item {
    type V = ItemSpec;

    open spec fn deep_view(&self) -> ItemSpec {
        ItemSpec { modifiers: self.modifiers.deep_view(), crafting_info: self.crafting_info }
    }
}

impl Cost {
    /// A copy of this cost.
    pub fn duplicate(&self) -> (r: Cost)
        ensures
            r.deep_view() == self.deep_view(),
    {
        match self {
            Cost::PlaceLimitedByIndexModulus(m, v) => {
                let mut w: Vec<u8> = Vec::new();
                let mut i: usize = 0;
                while i < v.len()
                    invariant
                        i <= v@.len(),
                        w@ == v@.subrange(0, i as int),
                    decreases v@.len() - i,
                {
                    w.push(v[i]);
                    assert(w@ =~= v@.subrange(0, i + 1));
                    i = i + 1;
                }
                assert(w@ =~= v@);
                Cost::PlaceLimitedByIndexModulus(*m, w)
            },
            Cost::FlatItemResource(t, a) => Cost::FlatItemResource(*t, *a),
            Cost::FlatMinItemResourceRequirement(t, a) => Cost::FlatMinItemResourceRequirement(*t, *a),
            Cost::FlatMaxItemResourceRequirement(t, a) => Cost::FlatMaxItemResourceRequirement(*t, *a),
            Cost::FlatMinAttackRequirement(t, a) => Cost::FlatMinAttackRequirement(*t, *a),
            Cost::FlatMaxAttackRequirement(t, a) => Cost::FlatMaxAttackRequirement(*t, *a),
            Cost::FlatSumMinAttackRequirement(a) => Cost::FlatSumMinAttackRequirement(*a),
            Cost::FlatSumMaxAttackRequirement(a) => Cost::FlatSumMaxAttackRequirement(*a),
            Cost::FlatMinResistanceRequirement(t, a) => Cost::FlatMinResistanceRequirement(*t, *a),
            Cost::FlatMaxResistanceRequirement(t, a) => Cost::FlatMaxResistanceRequirement(*t, *a),
            Cost::FlatMinSumResistanceRequirement(a) => Cost::FlatMinSumResistanceRequirement(*a),
            Cost::FlatMaxSumResistanceRequirement(a) => Cost::FlatMaxSumResistanceRequirement(*a),
            Cost::MinWinsInARow(a) => Cost::MinWinsInARow(*a),
            Cost::MaxWinsInARow(a) => Cost::MaxWinsInARow(*a),
        }
    }
}

impl Modifier {
    /// A copy of this modifier.
    pub fn duplicate(&self) -> (r: Modifier)
        ensures
            r.deep_view() == self.deep_view(),
    {
        let mut costs: Vec<Cost> = Vec::new();
        let mut i: usize = 0;
        while i < self.costs.len()
            invariant
                i <= self.costs@.len(),
                costs@.len() == i,
                forall|k: int| 0 <= k < i ==> (#[trigger] costs@[k]).deep_view() == self.costs@[k].deep_view(),
            decreases self.costs@.len() - i,
        {
            costs.push(self.costs[i].duplicate());
            i = i + 1;
        }
        assert(costs.deep_view() =~= self.costs.deep_view());
        let mut gains: Vec<Gain> = Vec::new();
        let mut j: usize = 0;
        while j < self.gains.len()
            invariant
                j <= self.gains@.len(),
                gains@ == self.gains@.subrange(0, j as int),
            decreases self.gains@.len() - j,
        {
            gains.push(self.gains[j]);
            assert(gains@ =~= self.gains@.subrange(0, j + 1));
            j = j + 1;
        }
        assert(gains@ =~= self.gains@);
        Modifier { costs, gains }
    }
}

impl Item {
    /// A copy of this item.
    pub fn duplicate(&self) -> (r: Item)
        ensures
            r.deep_view() == self.deep_view(),
    {
        let mut modifiers: Vec<Modifier> = Vec::new();
        let mut i: usize = 0;
        while i < self.modifiers.len()
            invariant
                i <= self.modifiers@.len(),
                modifiers@.len() == i,
                forall|k: int| 0 <= k < i ==> (#[trigger] modifiers@[k]).deep_view() == self.modifiers@[k].deep_view(),
            decreases self.modifiers@.len() - i,
        {
            modifiers.push(self.modifiers[i].duplicate());
            i = i + 1;
        }
        assert(modifiers.deep_view() =~= self.modifiers.deep_view());
        Item { modifiers, crafting_info: self.crafting_info }
    }
}

/// A copy of a list of items.
pub fn duplicate_items(items: &Vec<Item>) -> (r: Vec<Item>)
    ensures
        r.deep_view() == items.deep_view(),
{
    let mut r: Vec<Item> = Vec::new();
    let mut i: usize = 0;
    while i < items.len()
        invariant
            i <= items@.len(),
            r@.len() == i,
            forall|k: int| 0 <= k < i ==> (#[trigger] r@[k]).deep_view() == items@[k].deep_view(),
        decreases items@.len() - i,
    {
        r.push(items[i].duplicate());
        i = i + 1;
    }
    assert(r.deep_view() =~= items.deep_view());
    r
}

} // verus!
