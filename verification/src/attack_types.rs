use vstd::prelude::*;
use crate::text::{decimal, push_decimal};

verus! {

/// The elements that damage and resistance are measured in.
#[derive(Clone, Copy, PartialEq, Eq, Debug, Hash, Structural)]
pub enum AttackType {
    Physical,
    Fire,
    Frost,
    Lightning,
    Light,
    Darkness,
    Nature,
    Corruption,
    Holy,
}

/// Number of attack types; every map keyed by attack type has this many slots.
pub const ATTACK_TYPE_COUNT: usize = 9;

/// The position of an attack type in the canonical order.
pub open spec fn attack_index(t: AttackType) -> nat {
    match t {
        AttackType::Physical => 0,
        AttackType::Fire => 1,
        AttackType::Frost => 2,
        AttackType::Lightning => 3,
        AttackType::Light => 4,
        AttackType::Darkness => 5,
        AttackType::Nature => 6,
        AttackType::Corruption => 7,
        AttackType::Holy => 8,
    }
}

/// The attack type at a position of the canonical order.
pub open spec fn attack_at(i: int) -> AttackType {
    if i <= 0 {
        AttackType::Physical
    } else if i == 1 {
        AttackType::Fire
    } else if i == 2 {
        AttackType::Frost
    } else if i == 3 {
        AttackType::Lightning
    } else if i == 4 {
        AttackType::Light
    } else if i == 5 {
        AttackType::Darkness
    } else if i == 6 {
        AttackType::Nature
    } else if i == 7 {
        AttackType::Corruption
    } else {
        AttackType::Holy
    }
}

/// All attack types in the canonical order.
pub open spec fn all_attack_types() -> Seq<AttackType> {
    Seq::new(9, |i: int| attack_at(i))
}

pub proof fn lemma_attack_index_roundtrip(t: AttackType)
    ensures
        attack_index(t) < 9,
        attack_at(attack_index(t) as int) == t,
{
}

pub proof fn lemma_attack_index_injective(a: AttackType, b: AttackType)
    ensures
        (attack_index(a) == attack_index(b)) == (a == b),
{
}

pub proof fn lemma_attack_at_roundtrip(i: int)
    requires
        0 <= i < 9,
    ensures
        attack_index(attack_at(i)) == i,
{
}

impl AttackType {
    /// The position of this attack type in the canonical order.
    pub fn index(&self) -> (r: usize)
        ensures
            r == attack_index(*self),
    {
        match self {
            AttackType::Physical => 0,
            AttackType::Fire => 1,
            AttackType::Frost => 2,
            AttackType::Lightning => 3,
            AttackType::Light => 4,
            AttackType::Darkness => 5,
            AttackType::Nature => 6,
            AttackType::Corruption => 7,
            AttackType::Holy => 8,
        }
    }

    /// The attack type at position `i` of the canonical order.
    pub fn from_index(i: usize) -> (r: AttackType)
        requires
            i < 9,
        ensures
            r == attack_at(i as int),
            attack_index(r) == i,
    {
        if i == 0 {
            AttackType::Physical
        } else if i == 1 {
            AttackType::Fire
        } else if i == 2 {
            AttackType::Frost
        } else if i == 3 {
            AttackType::Lightning
        } else if i == 4 {
            AttackType::Light
        } else if i == 5 {
            AttackType::Darkness
        } else if i == 6 {
            AttackType::Nature
        } else if i == 7 {
            AttackType::Corruption
        } else {
            AttackType::Holy
        }
    }

    /// All attack types, in the canonical order.
    pub fn get_all() -> (r: Vec<AttackType>)
        ensures
            r@ == all_attack_types(),
    {
        let r = vec![
            AttackType::Physical,
            AttackType::Fire,
            AttackType::Frost,
            AttackType::Lightning,
            AttackType::Light,
            AttackType::Darkness,
            AttackType::Nature,
            AttackType::Corruption,
            AttackType::Holy,
        ];
        assert(r@ =~= all_attack_types());
        r
    }
}


/// Number of `Some` slots among the first `n` slots.
pub open spec fn count_some(s: Seq<Option<u64>>, n: nat) -> nat
    decreases n,
{
    if n == 0 {
        0
    } else {
        count_some(s, (n - 1) as nat) + if s[n - 1] is Some { 1nat } else { 0nat }
    }
}

/// Sum of the values in the first `n` slots.
pub open spec fn sum_some(s: Seq<Option<u64>>, n: nat) -> int
    decreases n,
{
    if n == 0 {
        0
    } else {
        sum_some(s, (n - 1) as nat) + match s[n - 1] {
            Some(v) => v as int,
            None => 0int,
        }
    }
}

/// The present entries among the first `n` slots, in the canonical order.
pub open spec fn ordered_entries(s: Seq<Option<u64>>, n: nat) -> Seq<(AttackType, u64)>
    decreases n,
{
    if n == 0 {
        Seq::empty()
    } else {
        ordered_entries(s, (n - 1) as nat) + match s[n - 1] {
            Some(v) => seq![(attack_at(n - 1), v)],
            None => Seq::empty(),
        }
    }
}

pub proof fn lemma_sum_some_monotone(s: Seq<Option<u64>>, i: nat, j: nat)
    requires
        i <= j,
    ensures
        0 <= sum_some(s, i) <= sum_some(s, j),
    decreases j,
{
    if j > i {
        lemma_sum_some_monotone(s, i, (j - 1) as nat);
    } else if j > 0 {
        lemma_sum_some_monotone(s, 0, (j - 1) as nat);
    }
}

pub proof fn lemma_count_some_bound(s: Seq<Option<u64>>, n: nat)
    ensures
        count_some(s, n) <= n,
    decreases n,
{
    if n > 0 {
        lemma_count_some_bound(s, (n - 1) as nat);
    }
}

/// An amount per attack type; a slot is `None` where the attack type is absent.
#[derive(Clone, Copy, PartialEq, Eq, Debug, Hash)]
pub struct DamageMap {
    pub amounts: [Option<u64>; 9],
}

impl View for DamageMap {
    type V = Seq<Option<u64>>;

    open spec fn view(&self) -> Seq<Option<u64>> {
        self.amounts@
    }
}

impl DamageMap {
    /// The amount stored for `t`, if any.
    pub open spec fn spec_get(self, t: AttackType) -> Option<u64> {
        self@[attack_index(t) as int]
    }

    /// The number of attack types present.
    pub open spec fn spec_len(self) -> nat {
        count_some(self@, 9)
    }

    /// The sum of all present amounts.
    pub open spec fn spec_sum(self) -> int {
        sum_some(self@, 9)
    }

    /// A map with no attack type present.
    pub fn new() -> (r: DamageMap)
        ensures
            r@ == Seq::new(9, |i: int| None::<u64>),
            forall|t: AttackType| r.spec_get(t) is None,
    {
        let r = DamageMap { amounts: [None; 9] };
        assert(r@ =~= Seq::new(9, |i: int| None::<u64>));
        r
    }

    /// The amount stored for `t`, if any.
    pub fn get(&self, t: AttackType) -> (r: Option<u64>)
        ensures
            r == self.spec_get(t),
    {
        self.amounts[t.index()]
    }

    /// Whether `t` is present.
    pub fn contains_key(&self, t: AttackType) -> (r: bool)
        ensures
            r == self.spec_get(t) is Some,
    {
        self.amounts[t.index()].is_some()
    }

    /// Stores `v` for `t`, replacing what was there.
    pub fn insert(&mut self, t: AttackType, v: u64)
        ensures
            final(self)@ == old(self)@.update(attack_index(t) as int, Some(v)),
    {
        let i = t.index();
        self.amounts[i] = Some(v);
    }

    /// Removes `t`.
    pub fn remove(&mut self, t: AttackType)
        ensures
            final(self)@ == old(self)@.update(attack_index(t) as int, None),
    {
        let i = t.index();
        self.amounts[i] = None;
    }

    /// Removes every attack type.
    pub fn clear(&mut self)
        ensures
            final(self)@ == Seq::new(9, |i: int| None::<u64>),
    {
        *self = DamageMap::new();
    }

    /// The number of attack types present.
    pub fn len(&self) -> (r: usize)
        ensures
            r == self.spec_len(),
            r <= 9,
    {
        let mut n: usize = 0;
        let mut i: usize = 0;
        while i < 9
            invariant
                i <= 9,
                n == count_some(self@, i as nat),
                n <= i,
            decreases 9 - i,
        {
            if self.amounts[i].is_some() {
                n = n + 1;
            }
            i = i + 1;
        }
        n
    }

    /// Whether no attack type is present.
    pub fn is_empty(&self) -> (r: bool)
        ensures
            r == (self.spec_len() == 0),
    {
        self.len() == 0
    }

    /// The sum of all present amounts, or `None` where it does not fit in `u64`.
    pub fn checked_sum(&self) -> (r: Option<u64>)
        ensures
            r is Some <==> self.spec_sum() <= u64::MAX,
            r is Some ==> r->0 == self.spec_sum(),
    {
        let mut total: u64 = 0;
        let mut i: usize = 0;
        while i < 9
            invariant
                i <= 9,
                total == sum_some(self@, i as nat),
            decreases 9 - i,
        {
            match self.amounts[i] {
                Some(v) => {
                    match total.checked_add(v) {
                        Some(t) => {
                            total = t;
                        },
                        None => {
                            proof {
                                lemma_sum_some_monotone(self@, (i + 1) as nat, 9);
                            }
                            return None;
                        },
                    }
                },
                None => {},
            }
            i = i + 1;
        }
        Some(total)
    }

    /// The sum of all present amounts.
    pub fn sum(&self) -> (r: u64)
        requires
            self.spec_sum() <= u64::MAX,
        ensures
            r == self.spec_sum(),
    {
        let mut total: u64 = 0;
        let mut i: usize = 0;
        while i < 9
            invariant
                i <= 9,
                total == sum_some(self@, i as nat),
                sum_some(self@, 9) <= u64::MAX,
            decreases 9 - i,
        {
            proof {
                lemma_sum_some_monotone(self@, (i + 1) as nat, 9);
            }
            match self.amounts[i] {
                Some(v) => {
                    total = total + v;
                },
                None => {},
            }
            i = i + 1;
        }
        total
    }
}

impl AttackType {
    /// The entries of `collection` in the canonical attack type order.
    pub fn order_map(collection: &DamageMap) -> (r: Vec<(AttackType, u64)>)
        ensures
            r@ == ordered_entries(collection@, 9),
    {
        let mut r: Vec<(AttackType, u64)> = Vec::new();
        let mut i: usize = 0;
        while i < 9
            invariant
                i <= 9,
                r@ == ordered_entries(collection@, i as nat),
            decreases 9 - i,
        {
            match collection.amounts[i] {
                Some(v) => {
                    r.push((AttackType::from_index(i), v));
                },
                None => {},
            }
            assert(r@ =~= ordered_entries(collection@, (i + 1) as nat));
            i = i + 1;
        }
        r
    }

    /// The attack types that occur in `collection`, each once, in the canonical order.
    pub fn order_set(collection: &Vec<AttackType>) -> (r: Vec<AttackType>)
        ensures
            r@ == ordered_members(collection@, 9),
    {
        let mut r: Vec<AttackType> = Vec::new();
        let mut i: usize = 0;
        while i < 9
            invariant
                i <= 9,
                r@ == ordered_members(collection@, i as nat),
            decreases 9 - i,
        {
            let t = AttackType::from_index(i);
            let mut found = false;
            let mut j: usize = 0;
            while j < collection.len()
                invariant
                    j <= collection@.len(),
                    found == (exists|k: int| 0 <= k < j && collection@[k] == t),
                decreases collection@.len() - j,
            {
                if collection[j] == t {
                    found = true;
                }
                j = j + 1;
            }
            assert(found == collection@.contains(t));
            if found {
                r.push(t);
            }
            assert(r@ =~= ordered_members(collection@, (i + 1) as nat));
            i = i + 1;
        }
        r
    }
}

/// The attack types among the first `n` of the canonical order that occur in `s`.
pub open spec fn ordered_members(s: Seq<AttackType>, n: nat) -> Seq<AttackType>
    decreases n,
{
    if n == 0 {
        Seq::empty()
    } else {
        ordered_members(s, (n - 1) as nat) + if s.contains(attack_at(n - 1)) {
            seq![attack_at(n - 1)]
        } else {
            Seq::empty()
        }
    }
}


/// How an attack type is written in messages.
pub open spec fn attack_name(t: AttackType) -> Seq<char> {
    match t {
        AttackType::Physical => "Physical"@,
        AttackType::Fire => "Fire"@,
        AttackType::Frost => "Frost"@,
        AttackType::Lightning => "Lightning"@,
        AttackType::Light => "Light"@,
        AttackType::Darkness => "Darkness"@,
        AttackType::Nature => "Nature"@,
        AttackType::Corruption => "Corruption"@,
        AttackType::Holy => "Holy"@,
    }
}

/// How one entry of a damage map is written in messages, such as `Fire: 2`.
pub open spec fn entry_text(e: (AttackType, u64)) -> Seq<char> {
    attack_name(e.0) + ": "@ + decimal(e.1 as nat)
}

/// Entries written one after another, separated by `, `.
pub open spec fn entries_text(es: Seq<(AttackType, u64)>) -> Seq<char>
    decreases es.len(),
{
    if es.len() == 0 {
        Seq::empty()
    } else if es.len() == 1 {
        entry_text(es[0])
    } else {
        entries_text(es.drop_last()) + ", "@ + entry_text(es.last())
    }
}

/// How a damage map is written in messages, such as `{Physical: 10, Fire: 2}`,
/// its entries in the canonical attack type order.
pub open spec fn damage_map_text(s: Seq<Option<u64>>) -> Seq<char> {
    "{"@ + entries_text(ordered_entries(s, 9)) + "}"@
}

/// How a list of pairs is written in messages, such as `[(Fire, 2)]`.
pub open spec fn pairs_text(es: Seq<(AttackType, u64)>) -> Seq<char>
    decreases es.len(),
{
    if es.len() == 0 {
        Seq::empty()
    } else if es.len() == 1 {
        "("@ + attack_name(es[0].0) + ", "@ + decimal(es[0].1 as nat) + ")"@
    } else {
        pairs_text(es.drop_last()) + ", "@ + "("@ + attack_name(es.last().0) + ", "@ + decimal(
            es.last().1 as nat,
        ) + ")"@
    }
}

impl AttackType {
    /// How this attack type is written in messages.
    pub fn name(&self) -> (r: &'static str)
        ensures
            r@ == attack_name(*self),
    {
        match self {
            AttackType::Physical => "Physical",
            AttackType::Fire => "Fire",
            AttackType::Frost => "Frost",
            AttackType::Lightning => "Lightning",
            AttackType::Light => "Light",
            AttackType::Darkness => "Darkness",
            AttackType::Nature => "Nature",
            AttackType::Corruption => "Corruption",
            AttackType::Holy => "Holy",
        }
    }
}

impl DamageMap {
    /// Appends how this map is written in messages.
    pub fn push_text(&self, s: &mut String)
        ensures
            final(s)@ == old(s)@ + damage_map_text(self@),
    {
        let entries = AttackType::order_map(self);
        s.append("{");
        let ghost start = s@;
        let mut i: usize = 0;
        while i < entries.len()
            invariant
                i <= entries@.len(),
                s@ == start + entries_text(entries@.subrange(0, i as int)),
            decreases entries@.len() - i,
        {
            let (t, v) = entries[i];
            if i > 0 {
                s.append(", ");
            }
            s.append(t.name());
            s.append(": ");
            push_decimal(s, v);
            proof {
                let sub = entries@.subrange(0, i + 1);
                assert(sub.drop_last() =~= entries@.subrange(0, i as int));
                assert(s@ =~= start + entries_text(sub));
            }
            i = i + 1;
        }
        assert(entries@.subrange(0, entries@.len() as int) =~= entries@);
        s.append("}");
        assert(s@ =~= old(s)@ + damage_map_text(self@));
    }

    /// Appends how the entries of this map are written as a list of pairs in
    /// the canonical order, such as `[(Fire, 2), (Frost, 3)]`.
    pub fn push_pairs_text(&self, s: &mut String)
        ensures
            final(s)@ == old(s)@ + "["@ + pairs_text(ordered_entries(self@, 9)) + "]"@,
    {
        let entries = AttackType::order_map(self);
        s.append("[");
        let ghost start = s@;
        let mut i: usize = 0;
        while i < entries.len()
            invariant
                i <= entries@.len(),
                s@ == start + pairs_text(entries@.subrange(0, i as int)),
            decreases entries@.len() - i,
        {
            let (t, v) = entries[i];
            if i > 0 {
                s.append(", ");
            }
            s.append("(");
            s.append(t.name());
            s.append(", ");
            push_decimal(s, v);
            s.append(")");
            proof {
                let sub = entries@.subrange(0, i + 1);
                assert(sub.drop_last() =~= entries@.subrange(0, i as int));
                assert(s@ =~= start + pairs_text(sub));
            }
            i = i + 1;
        }
        assert(entries@.subrange(0, entries@.len() as int) =~= entries@);
        s.append("]");
        assert(s@ =~= old(s)@ + "["@ + pairs_text(ordered_entries(self@, 9)) + "]"@);
    }
}

/// Replacing one of the first `n` slots changes the sum by the difference.
pub proof fn lemma_sum_some_update(s: Seq<Option<u64>>, n: nat, i: int, w: u64)
    requires
        0 <= i < n <= s.len(),
    ensures
        sum_some(s.update(i, Some(w)), n) == sum_some(s, n) - match s[i] {
            Some(v) => v as int,
            None => 0int,
        } + w,
    decreases n,
{
    if n - 1 > i {
        lemma_sum_some_update(s, (n - 1) as nat, i, w);
        assert(s.update(i, Some(w))[n - 1] == s[n - 1]);
    } else {
        lemma_sum_some_prefix_same(s, s.update(i, Some(w)), (n - 1) as nat);
    }
}

/// Sums of the first `k` slots agree where those slots agree.
pub proof fn lemma_sum_some_prefix_same(a: Seq<Option<u64>>, b: Seq<Option<u64>>, k: nat)
    requires
        forall|j: int| 0 <= j < k ==> a[j] == b[j],
    ensures
        sum_some(a, k) == sum_some(b, k),
    decreases k,
{
    if k > 0 {
        lemma_sum_some_prefix_same(a, b, (k - 1) as nat);
    }
}

/// A map with an attack type present has one: some slot among the first `n`
/// holds a value where the count is positive.
pub proof fn lemma_count_some_witness(s: Seq<Option<u64>>, n: nat) -> (i: int)
    requires
        count_some(s, n) > 0,
    ensures
        0 <= i < n,
        s[i] is Some,
    decreases n,
{
    if s[n - 1] is Some {
        n - 1
    } else {
        lemma_count_some_witness(s, (n - 1) as nat)
    }
}

impl DamageMap {
    /// A non-empty map has an attack type present.
    pub proof fn lemma_present_type(self) -> (t: AttackType)
        requires
            self.spec_len() > 0,
        ensures
            self.spec_get(t) is Some,
    {
        let i = lemma_count_some_witness(self@, 9);
        lemma_attack_at_roundtrip(i);
        attack_at(i)
    }
}

/// Counts of the first `k` slots agree where those slots agree.
pub proof fn lemma_count_some_prefix_same(a: Seq<Option<u64>>, b: Seq<Option<u64>>, k: nat)
    requires
        forall|j: int| 0 <= j < k ==> a[j] == b[j],
    ensures
        count_some(a, k) == count_some(b, k),
    decreases k,
{
    if k > 0 {
        lemma_count_some_prefix_same(a, b, (k - 1) as nat);
    }
}

/// Emptying one of the first `n` slots lowers the count by one where it was full.
pub proof fn lemma_count_some_clear(s: Seq<Option<u64>>, n: nat, i: int)
    requires
        0 <= i < n <= s.len(),
    ensures
        count_some(s.update(i, None), n) == count_some(s, n) - if s[i] is Some { 1int } else { 0int },
    decreases n,
{
    if n - 1 > i {
        lemma_count_some_clear(s, (n - 1) as nat, i);
        assert(s.update(i, None)[n - 1] == s[n - 1]);
    } else {
        lemma_count_some_prefix_same(s, s.update(i, None), (n - 1) as nat);
    }
}

} // verus!
