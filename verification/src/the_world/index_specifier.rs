use vstd::prelude::*;
use crate::my_little_rpg_errors::{refusal, refused, MyError};
use crate::text::{decimal, push_decimal};
use crate::the_world::item::{Item, ItemSpec};

verus! {

/// How a command names an inventory slot: by its index, or relative to the slot
/// being crafted on, searching forwards or backwards from that offset.
#[derive(Clone, Copy, PartialEq, Eq, Debug, Hash, Structural)]
pub enum IndexSpecifier {
    Absolute(usize),
    RelativePositive(usize),
    RelativeNegative(usize),
}

/// How an index specifier is written in messages, such as `Absolute(3)`.
pub open spec fn specifier_text(s: IndexSpecifier) -> Seq<char> {
    match s {
        IndexSpecifier::Absolute(n) => "Absolute("@ + decimal(n as nat) + ")"@,
        IndexSpecifier::RelativePositive(n) => "RelativePositive("@ + decimal(n as nat) + ")"@,
        IndexSpecifier::RelativeNegative(n) => "RelativeNegative("@ + decimal(n as nat) + ")"@,
    }
}

/// The indexes of `s` written one after another, each preceded by `, ` but the first.
pub open spec fn index_list_text(s: Seq<usize>) -> Seq<char>
    decreases s.len(),
{
    if s.len() == 0 {
        Seq::empty()
    } else if s.len() == 1 {
        decimal(s[0] as nat)
    } else {
        index_list_text(s.drop_last()) + ", "@ + decimal(s.last() as nat)
    }
}

/// How a set of chosen indexes is written in messages, such as `{8}`.
pub open spec fn index_set_text(s: Seq<usize>) -> Seq<char> {
    "{"@ + index_list_text(s) + "}"@
}

/// Slot `j` can be sacrificed: it holds an item, it is not the slot crafted on
/// and it has not been chosen yet.
pub open spec fn free_slot(inv: Seq<Option<ItemSpec>>, idx: int, chosen: Seq<usize>, j: int) -> bool {
    &&& 0 <= j < inv.len()
    &&& inv[j] is Some
    &&& j != idx
    &&& !chosen.contains(j as usize)
}

/// The first free slot at `from` or after it.
pub open spec fn first_free_up(inv: Seq<Option<ItemSpec>>, idx: int, chosen: Seq<usize>, from: int) -> Option<int>
    decreases inv.len() - from,
{
    if from < 0 || from >= inv.len() {
        None
    } else if free_slot(inv, idx, chosen, from) {
        Some(from)
    } else {
        first_free_up(inv, idx, chosen, from + 1)
    }
}

/// The first free slot at `from` or before it.
pub open spec fn first_free_down(inv: Seq<Option<ItemSpec>>, idx: int, chosen: Seq<usize>, from: int) -> Option<int>
    decreases from + 1,
{
    if from < 0 {
        None
    } else if free_slot(inv, idx, chosen, from) {
        Some(from)
    } else {
        first_free_down(inv, idx, chosen, from - 1)
    }
}

/// The message for a sacrificed item with fewer than `required` modifiers.
pub open spec fn too_few_modifiers_text(j: int, required: nat, had: nat) -> Seq<char> {
    "sacrifice_item_index "@ + decimal(j as nat) + " need to have at least "@ + decimal(required)
        + " modifiers but it only had "@ + decimal(had)
}

/// Slot `j` as a sacrifice, or the message if its item has fewer than `required`
/// modifiers.
pub open spec fn checked_sacrifice(inv: Seq<Option<ItemSpec>>, j: int, required: nat) -> Result<usize, Seq<char>> {
    if inv[j]->0.modifiers.len() < required {
        Err(too_few_modifiers_text(j, required, inv[j]->0.modifiers.len()))
    } else {
        Ok(j as usize)
    }
}

/// The slot that one specifier names, given the slots chosen before it, or the
/// message of why it names none.
pub open spec fn resolve_one(
    inv: Seq<Option<ItemSpec>>,
    idx: int,
    chosen: Seq<usize>,
    s: IndexSpecifier,
    required: nat,
) -> Result<usize, Seq<char>> {
    match s {
        IndexSpecifier::Absolute(i) => {
            if i >= inv.len() {
                Err("index_specifier "@ + specifier_text(s) + " is not within the range of the inventory "@
                    + decimal(inv.len()))
            } else if i == idx {
                Err("inventory_index "@ + decimal(idx as nat) + " and index_specifier "@ + specifier_text(s)
                    + " cannot be the same"@)
            } else if inv[i as int] is None {
                Err("index_specifier "@ + specifier_text(s) + " is pointing at empty inventory slot."@)
            } else if chosen.contains(i) {
                Err("index_specifier "@ + specifier_text(s) + " is already present in calculated sacrifice indexes "@
                    + index_set_text(chosen))
            } else {
                checked_sacrifice(inv, i as int, required)
            }
        },
        IndexSpecifier::RelativePositive(n) => {
            match first_free_up(inv, idx, chosen, idx + n) {
                Some(j) => checked_sacrifice(inv, j, required),
                None => Err("index_specifier: "@ + specifier_text(s)
                    + " did not find any items in inventory from relative point "@ + decimal((idx + n) as nat)
                    + " until end of inventory."@),
            }
        },
        IndexSpecifier::RelativeNegative(n) => {
            let point = if n <= idx { idx - n } else { 0 };
            let found = if n <= idx { first_free_down(inv, idx, chosen, idx - n) } else { None };
            match found {
                Some(j) => checked_sacrifice(inv, j, required),
                None => Err("index_specifier: "@ + specifier_text(s)
                    + " did not find any items in inventory from relative point "@ + decimal(point as nat)
                    + " until start of inventory."@),
            }
        },
    }
}

/// The slots that the specifiers name, in order, each resolved after the ones
/// before it; or the message of the first specifier that names none.
pub open spec fn resolve_all(
    inv: Seq<Option<ItemSpec>>,
    idx: int,
    specs: Seq<IndexSpecifier>,
    required: nat,
) -> Result<Seq<usize>, Seq<char>>
    decreases specs.len(),
{
    if specs.len() == 0 {
        Ok(Seq::empty())
    } else {
        match resolve_all(inv, idx, specs.drop_last(), required) {
            Err(e) => Err(e),
            Ok(chosen) => match resolve_one(inv, idx, chosen, specs.last(), required) {
                Ok(j) => Ok(chosen.push(j)),
                Err(e) => Err(e),
            },
        }
    }
}

/// Resolved slots are distinct, hold items, lie in the inventory and are not
/// the slot crafted on.
pub open spec fn valid_choice(inv: Seq<Option<ItemSpec>>, idx: int, chosen: Seq<usize>) -> bool {
    &&& forall|k: int| 0 <= k < chosen.len() ==> {
        &&& #[trigger] chosen[k] < inv.len()
        &&& inv[chosen[k] as int] is Some
        &&& chosen[k] != idx
    }
    &&& forall|a: int, b: int| 0 <= a < b < chosen.len() ==> chosen[a] != chosen[b]
}

proof fn lemma_first_free_up_found(inv: Seq<Option<ItemSpec>>, idx: int, chosen: Seq<usize>, from: int)
    requires
        first_free_up(inv, idx, chosen, from) is Some,
    ensures
        free_slot(inv, idx, chosen, first_free_up(inv, idx, chosen, from)->0),
    decreases inv.len() - from,
{
    if !(from < 0 || from >= inv.len()) && !free_slot(inv, idx, chosen, from) {
        lemma_first_free_up_found(inv, idx, chosen, from + 1);
    }
}

proof fn lemma_first_free_down_found(inv: Seq<Option<ItemSpec>>, idx: int, chosen: Seq<usize>, from: int)
    requires
        first_free_down(inv, idx, chosen, from) is Some,
    ensures
        free_slot(inv, idx, chosen, first_free_down(inv, idx, chosen, from)->0),
    decreases from + 1,
{
    if from >= 0 && !free_slot(inv, idx, chosen, from) {
        lemma_first_free_down_found(inv, idx, chosen, from - 1);
    }
}

/// Whether `v` holds `x`.
fn contains_index(v: &Vec<usize>, x: usize) -> (r: bool)
    ensures
        r == v@.contains(x),
{
    let mut i: usize = 0;
    while i < v.len()
        invariant
            i <= v@.len(),
            forall|j: int| 0 <= j < i ==> v@[j] != x,
        decreases v@.len() - i,
    {
        if v[i] == x {
            return true;
        }
        i = i + 1;
    }
    false
}

fn push_specifier_text(s: &mut String, spec: IndexSpecifier)
    ensures
        final(s)@ == old(s)@ + specifier_text(spec),
{
    match spec {
        IndexSpecifier::Absolute(n) => {
            s.append("Absolute(");
            push_decimal(s, n as u64);
        },
        IndexSpecifier::RelativePositive(n) => {
            s.append("RelativePositive(");
            push_decimal(s, n as u64);
        },
        IndexSpecifier::RelativeNegative(n) => {
            s.append("RelativeNegative(");
            push_decimal(s, n as u64);
        },
    }
    s.append(")");
    assert(final(s)@ =~= old(s)@ + specifier_text(spec));
}

fn push_index_set_text(s: &mut String, chosen: &Vec<usize>)
    ensures
        final(s)@ == old(s)@ + index_set_text(chosen@),
{
    s.append("{");
    let ghost start = s@;
    let mut i: usize = 0;
    while i < chosen.len()
        invariant
            i <= chosen@.len(),
            s@ == start + index_list_text(chosen@.subrange(0, i as int)),
        decreases chosen@.len() - i,
    {
        proof {
            assert(chosen@.subrange(0, i + 1).drop_last() =~= chosen@.subrange(0, i as int));
        }
        if i > 0 {
            s.append(", ");
        }
        push_decimal(s, chosen[i] as u64);
        proof {
            let p = chosen@.subrange(0, i + 1);
            assert(p.last() == chosen@[i as int]);
            if i == 0 {
                assert(p.len() == 1 && p[0] == chosen@[0]);
                assert(s@ =~= start + index_list_text(p));
            } else {
                assert(s@ =~= start + index_list_text(p));
            }
        }
        i = i + 1;
    }
    assert(chosen@.subrange(0, chosen@.len() as int) =~= chosen@);
    s.append("}");
    assert(final(s)@ =~= old(s)@ + index_set_text(chosen@));
}

fn too_few_modifiers_error(j: usize, required: usize, had: usize) -> (r: MyError)
    ensures
        refusal(r, too_few_modifiers_text(j as int, required as nat, had as nat)),
{
    let mut m = String::new();
    m.append("sacrifice_item_index ");
    push_decimal(&mut m, j as u64);
    m.append(" need to have at least ");
    push_decimal(&mut m, required as u64);
    m.append(" modifiers but it only had ");
    push_decimal(&mut m, had as u64);
    assert(m@ =~= too_few_modifiers_text(j as int, required as nat, had as nat));
    MyError::create_execute_command_error(m)
}

/// Slot `j` as a sacrifice, or the error if its item has fewer than `required`
/// modifiers.
fn check_sacrifice(inventory: &Vec<Option<Item>>, j: usize, required: usize) -> (r: Result<usize, MyError>)
    requires
        j < inventory@.len(),
        inventory.deep_view()[j as int] is Some,
    ensures
        match checked_sacrifice(inventory.deep_view(), j as int, required as nat) {
            Ok(k) => r == Ok::<usize, MyError>(k),
            Err(e) => refused(r, e),
        },
{
    let had = match &inventory[j] {
        Some(item) => item.modifiers.len(),
        None => 0,
    };
    assert(inventory.deep_view()[j as int] == inventory@[j as int].deep_view());
    if had < required {
        Err(too_few_modifiers_error(j, required, had))
    } else {
        Ok(j)
    }
}

/// One specifier resolved against the inventory, given the slots chosen before it.
fn resolve_specifier(
    inventory: &Vec<Option<Item>>,
    inventory_index: usize,
    chosen: &Vec<usize>,
    spec: IndexSpecifier,
    required: usize,
) -> (r: Result<usize, MyError>)
    requires
        inventory_index < inventory@.len(),
    ensures
        match resolve_one(inventory.deep_view(), inventory_index as int, chosen@, spec, required as nat) {
            Ok(k) => r == Ok::<usize, MyError>(k),
            Err(e) => refused(r, e),
        },
{
    let ghost inv = inventory.deep_view();
    let inventory_len = inventory.len();
    assert(inv.len() == inventory@.len());
    assert(forall|j: int| 0 <= j < inv.len() ==> (#[trigger] inv[j] is Some) == inventory@[j] is Some);
    match spec {
        IndexSpecifier::Absolute(i) => {
            if i >= inventory.len() {
                let mut m = String::new();
                m.append("index_specifier ");
                push_specifier_text(&mut m, spec);
                m.append(" is not within the range of the inventory ");
                push_decimal(&mut m, inventory.len() as u64);
                assert(m@ =~= "index_specifier "@ + specifier_text(spec) + " is not within the range of the inventory "@
                    + decimal(inv.len()));
                return Err(MyError::create_execute_command_error(m));
            }
            if i == inventory_index {
                let mut m = String::new();
                m.append("inventory_index ");
                push_decimal(&mut m, inventory_index as u64);
                m.append(" and index_specifier ");
                push_specifier_text(&mut m, spec);
                m.append(" cannot be the same");
                assert(m@ =~= "inventory_index "@ + decimal(inventory_index as nat) + " and index_specifier "@
                    + specifier_text(spec) + " cannot be the same"@);
                return Err(MyError::create_execute_command_error(m));
            }
            if inventory[i].is_none() {
                let mut m = String::new();
                m.append("index_specifier ");
                push_specifier_text(&mut m, spec);
                m.append(" is pointing at empty inventory slot.");
                assert(m@ =~= "index_specifier "@ + specifier_text(spec) + " is pointing at empty inventory slot."@);
                return Err(MyError::create_execute_command_error(m));
            }
            if contains_index(chosen, i) {
                let mut m = String::new();
                m.append("index_specifier ");
                push_specifier_text(&mut m, spec);
                m.append(" is already present in calculated sacrifice indexes ");
                push_index_set_text(&mut m, chosen);
                assert(m@ =~= "index_specifier "@ + specifier_text(spec)
                    + " is already present in calculated sacrifice indexes "@ + index_set_text(chosen@));
                return Err(MyError::create_execute_command_error(m));
            }
            check_sacrifice(inventory, i, required)
        },
        IndexSpecifier::RelativePositive(n) => {
            let len = inventory.len();
            let start = if n <= len - inventory_index { inventory_index + n } else { len };
            match find_free_up(inventory, inventory_index, chosen, start) {
                Some(j) => {
                    return check_sacrifice(inventory, j, required);
                },
                None => {},
            }
            let mut m = String::new();
            m.append("index_specifier: ");
            push_specifier_text(&mut m, spec);
            m.append(" did not find any items in inventory from relative point ");
            if n <= len - inventory_index {
                push_decimal(&mut m, (inventory_index + n) as u64);
            } else {
                push_decimal_sum(&mut m, inventory_index, n);
            }
            m.append(" until end of inventory.");
            assert(m@ =~= "index_specifier: "@ + specifier_text(spec)
                + " did not find any items in inventory from relative point "@
                + decimal((inventory_index + n) as nat) + " until end of inventory."@);
            Err(MyError::create_execute_command_error(m))
        },
        IndexSpecifier::RelativeNegative(n) => {
            let point = if n <= inventory_index { inventory_index - n } else { 0 };
            if n <= inventory_index {
                match find_free_down(inventory, inventory_index, chosen, point) {
                    Some(j) => {
                        assert(inventory.deep_view()[j as int] is Some);
                        return check_sacrifice(inventory, j, required);
                    },
                    None => {},
                }
            }
            let mut m = String::new();
            m.append("index_specifier: ");
            push_specifier_text(&mut m, spec);
            m.append(" did not find any items in inventory from relative point ");
            push_decimal(&mut m, point as u64);
            m.append(" until start of inventory.");
            assert(m@ =~= "index_specifier: "@ + specifier_text(spec)
                + " did not find any items in inventory from relative point "@ + decimal(point as nat)
                + " until start of inventory."@);
            Err(MyError::create_execute_command_error(m))
        },
    }
}

/// Whether slot `j` holds an item, is not `inventory_index` and is not chosen.
fn is_free_slot(inventory: &Vec<Option<Item>>, inventory_index: usize, chosen: &Vec<usize>, j: usize) -> (r: bool)
    requires
        j < inventory@.len(),
    ensures
        r == free_slot(inventory.deep_view(), inventory_index as int, chosen@, j as int),
{
    assert(inventory.deep_view()[j as int] == inventory@[j as int].deep_view());
    inventory[j].is_some() && j != inventory_index && !contains_index(chosen, j)
}

/// The first free slot at `start` or after it.
fn find_free_up(inventory: &Vec<Option<Item>>, inventory_index: usize, chosen: &Vec<usize>, start: usize) -> (r: Option<usize>)
    ensures
        match first_free_up(inventory.deep_view(), inventory_index as int, chosen@, start as int) {
            Some(j) => r == Some(j as usize) && j < inventory@.len()
                && free_slot(inventory.deep_view(), inventory_index as int, chosen@, j),
            None => r is None,
        },
{
    let ghost inv = inventory.deep_view();
    let mut j = start;
    let mut result: Option<usize> = None;
    while j < inventory.len()
        invariant
            inv == inventory.deep_view(),
            inv.len() == inventory@.len(),
            start <= j,
            result is None ==> first_free_up(inv, inventory_index as int, chosen@, start as int)
                == first_free_up(inv, inventory_index as int, chosen@, j as int),
            result matches Some(x) ==> x < inventory@.len()
                && first_free_up(inv, inventory_index as int, chosen@, start as int) == Some(x as int),
            result is Some ==> j == inventory@.len(),
            result matches Some(x) ==> free_slot(inv, inventory_index as int, chosen@, x as int),
        decreases inventory@.len() - j,
    {
        if is_free_slot(inventory, inventory_index, chosen, j) {
            assert(first_free_up(inv, inventory_index as int, chosen@, j as int) == Some(j as int));
            result = Some(j);
            j = inventory.len();
        } else {
            j = j + 1;
        }
    }
    result
}

/// The first free slot at `start` or before it.
fn find_free_down(inventory: &Vec<Option<Item>>, inventory_index: usize, chosen: &Vec<usize>, start: usize) -> (r: Option<usize>)
    requires
        start < inventory@.len(),
    ensures
        match first_free_down(inventory.deep_view(), inventory_index as int, chosen@, start as int) {
            Some(j) => r == Some(j as usize) && j < inventory@.len()
                && free_slot(inventory.deep_view(), inventory_index as int, chosen@, j),
            None => r is None,
        },
{
    let ghost inv = inventory.deep_view();
    let len = inventory.len();
    let mut k = start + 1;
    let mut result: Option<usize> = None;
    while k > 0
        invariant
            inv == inventory.deep_view(),
            inv.len() == inventory@.len(),
            k <= start + 1,
            start < inventory@.len(),
            result is None ==> first_free_down(inv, inventory_index as int, chosen@, start as int)
                == first_free_down(inv, inventory_index as int, chosen@, k - 1),
            result matches Some(x) ==> x < inventory@.len()
                && first_free_down(inv, inventory_index as int, chosen@, start as int) == Some(x as int),
            result is Some ==> k == 0,
            result matches Some(x) ==> free_slot(inv, inventory_index as int, chosen@, x as int),
        decreases k,
    {
        let j = k - 1;
        if is_free_slot(inventory, inventory_index, chosen, j) {
            assert(first_free_down(inv, inventory_index as int, chosen@, j as int) == Some(j as int));
            result = Some(j);
            k = 0;
        } else {
            k = j;
        }
    }
    result
}

/// Appends the decimal notation of `a + b`, a sum that may exceed `usize`.
fn push_decimal_sum(s: &mut String, a: usize, b: usize)
    ensures
        final(s)@ == old(s)@ + decimal((a + b) as nat),
{
    let sum: u128 = a as u128 + b as u128;
    push_decimal_wide(s, sum);
}

fn push_decimal_wide(s: &mut String, n: u128)
    ensures
        final(s)@ == old(s)@ + decimal(n as nat),
    decreases n,
{
    if n >= 10 {
        push_decimal_wide(s, n / 10);
    }
    push_decimal(s, (n % 10) as u64);
    proof {
        assert(decimal((n % 10) as nat) == seq![crate::text::digit_char((n % 10) as int)]);
        assert(final(s)@ =~= old(s)@ + decimal(n as nat));
    }
}

/// The inventory slots that `specifiers` name for a craft on slot
/// `inventory_index`, each sacrificed item needing at least `required_modifiers`
/// modifiers: resolved in order, or the error of the first that names none.
pub fn calculate_absolute_item_indexes(
    inventory: &Vec<Option<Item>>,
    inventory_index: usize,
    specifiers: &Vec<IndexSpecifier>,
    required_modifiers: usize,
) -> (r: Result<Vec<usize>, MyError>)
    requires
        inventory_index < inventory@.len(),
    ensures
        match resolve_all(inventory.deep_view(), inventory_index as int, specifiers@, required_modifiers as nat) {
            Ok(chosen) => r is Ok && r->Ok_0@ == chosen,
            Err(e) => refused(r, e),
        },
        r is Ok ==> valid_choice(inventory.deep_view(), inventory_index as int, r->Ok_0@),
{
    let ghost inv = inventory.deep_view();
    let inventory_len = inventory.len();
    assert(inv.len() == inventory_len);
    let mut chosen: Vec<usize> = Vec::new();
    let mut i: usize = 0;
    while i < specifiers.len()
        invariant
            inv == inventory.deep_view(),
            inv.len() == inventory_len,
            inventory_index < inventory@.len(),
            i <= specifiers@.len(),
            resolve_all(inv, inventory_index as int, specifiers@.subrange(0, i as int), required_modifiers as nat)
                == Ok::<Seq<usize>, Seq<char>>(chosen@),
            valid_choice(inv, inventory_index as int, chosen@),
        decreases specifiers@.len() - i,
    {
        proof {
            assert(specifiers@.subrange(0, i + 1).drop_last() =~= specifiers@.subrange(0, i as int));
        }
        let spec = specifiers[i];
        match resolve_specifier(inventory, inventory_index, &chosen, spec, required_modifiers) {
            Ok(j) => {
                proof {
                    lemma_resolved_slot_free(inv, inventory_index as int, chosen@, spec, required_modifiers as nat);
                }
                chosen.push(j);
            },
            Err(e) => {
                proof {
                    lemma_resolve_all_error_persists(inv, inventory_index as int, specifiers@, required_modifiers as nat, (i + 1) as int);
                }
                return Err(e);
            },
        }
        i = i + 1;
    }
    assert(specifiers@.subrange(0, specifiers@.len() as int) =~= specifiers@);
    Ok(chosen)
}

/// A slot that a specifier resolves to is free.
proof fn lemma_resolved_slot_free(
    inv: Seq<Option<ItemSpec>>,
    idx: int,
    chosen: Seq<usize>,
    s: IndexSpecifier,
    required: nat,
)
    requires
        0 <= idx < inv.len(),
        inv.len() <= usize::MAX,
        resolve_one(inv, idx, chosen, s, required) is Ok,
    ensures
        free_slot(inv, idx, chosen, resolve_one(inv, idx, chosen, s, required)->Ok_0 as int),
{
    match s {
        IndexSpecifier::Absolute(i) => {
            assert(i < inv.len());
            assert(i != idx);
            assert(inv[i as int] is Some);
            assert(!chosen.contains(i));
            assert(checked_sacrifice(inv, i as int, required) == Ok::<usize, Seq<char>>(i));
            assert(free_slot(inv, idx, chosen, i as int));
            assert(resolve_one(inv, idx, chosen, s, required) == Ok::<usize, Seq<char>>(i));
        },
        IndexSpecifier::RelativePositive(n) => {
            lemma_first_free_up_found(inv, idx, chosen, idx + n);
            let j = first_free_up(inv, idx, chosen, idx + n)->0;
            assert(resolve_one(inv, idx, chosen, s, required) == checked_sacrifice(inv, j, required));
            assert(resolve_one(inv, idx, chosen, s, required)->Ok_0 as int == j);
        },
        IndexSpecifier::RelativeNegative(n) => {
            if n <= idx {
                lemma_first_free_down_found(inv, idx, chosen, idx - n);
                let j = first_free_down(inv, idx, chosen, idx - n)->0;
                assert(resolve_one(inv, idx, chosen, s, required) == checked_sacrifice(inv, j, required));
                assert(resolve_one(inv, idx, chosen, s, required)->Ok_0 as int == j);
            }
        },
    }
}

/// Once a prefix of the specifiers fails, every longer prefix fails the same way.
proof fn lemma_resolve_all_error_persists(
    inv: Seq<Option<ItemSpec>>,
    idx: int,
    specs: Seq<IndexSpecifier>,
    required: nat,
    k: int,
)
    requires
        0 <= k <= specs.len(),
        resolve_all(inv, idx, specs.subrange(0, k), required) is Err,
    ensures
        resolve_all(inv, idx, specs, required) == resolve_all(inv, idx, specs.subrange(0, k), required),
    decreases specs.len() - k,
{
    if k < specs.len() {
        assert(specs.subrange(0, k + 1).drop_last() =~= specs.subrange(0, k));
        lemma_resolve_all_error_persists(inv, idx, specs, required, k + 1);
    } else {
        assert(specs.subrange(0, k) =~= specs);
    }
}

/// The inventory with the slots in `chosen` emptied.
pub open spec fn sacrificed(inv: Seq<Option<ItemSpec>>, chosen: Seq<usize>) -> Seq<Option<ItemSpec>> {
    Seq::new(inv.len(), |j: int| if chosen.contains(j as usize) { None } else { inv[j] })
}

/// Empties the inventory slots in `chosen`.
pub fn sacrifice_items(inventory: &mut Vec<Option<Item>>, chosen: &Vec<usize>)
    requires
        forall|k: int| 0 <= k < chosen@.len() ==> #[trigger] chosen@[k] < old(inventory)@.len(),
    ensures
        final(inventory).deep_view() == sacrificed(old(inventory).deep_view(), chosen@),
        final(inventory)@.len() == old(inventory)@.len(),
{
    let ghost inv = inventory.deep_view();
    let inventory_len = inventory.len();
    let mut k: usize = 0;
    while k < chosen.len()
        invariant
            k <= chosen@.len(),
            inv.len() == inventory_len,
            forall|a: int| 0 <= a < chosen@.len() ==> #[trigger] chosen@[a] < inv.len(),
            inventory@.len() == inv.len(),
            inventory.deep_view() == sacrificed(inv, chosen@.subrange(0, k as int)),
        decreases chosen@.len() - k,
    {
        let j = chosen[k];
        let ghost before = inventory.deep_view();
        inventory[j] = None;
        proof {
            let pre = chosen@.subrange(0, k as int);
            let post = chosen@.subrange(0, k + 1);
            assert(post =~= pre.push(j));
            assert forall|i: int| 0 <= i < inv.len() implies #[trigger] inventory.deep_view()[i]
                == sacrificed(inv, post)[i] by {
                if i == j {
                    assert(post[k as int] == j);
                    assert(post.contains(j));
                } else {
                    assert(inventory.deep_view()[i] == before[i]);
                    if pre.contains(i as usize) {
                        let w = choose|w: int| 0 <= w < pre.len() && pre[w] == i as usize;
                        assert(post[w] == i as usize);
                    }
                    if post.contains(i as usize) {
                        let w = choose|w: int| 0 <= w < post.len() && post[w] == i as usize;
                        assert(w < pre.len());
                        assert(pre[w] == i as usize);
                    }
                }
            }
            assert(inventory.deep_view() =~= sacrificed(inv, post));
        }
        k = k + 1;
    }
    assert(chosen@.subrange(0, chosen@.len() as int) =~= chosen@);
}

/// The number of occupied slots.
pub open spec fn item_count(inv: Seq<Option<ItemSpec>>) -> nat
    decreases inv.len(),
{
    if inv.len() == 0 {
        0
    } else {
        item_count(inv.drop_last()) + if inv.last() is Some { 1nat } else { 0nat }
    }
}

proof fn lemma_item_count_clear(inv: Seq<Option<ItemSpec>>, j: int)
    requires
        0 <= j < inv.len(),
        inv[j] is Some,
    ensures
        item_count(inv.update(j, None)) + 1 == item_count(inv),
    decreases inv.len(),
{
    let u = inv.update(j, None);
    if j < inv.len() - 1 {
        assert(u.drop_last() =~= inv.drop_last().update(j, None));
        lemma_item_count_clear(inv.drop_last(), j);
    } else {
        assert(u.drop_last() =~= inv.drop_last());
    }
}

/// Sacrificing the slots of a valid choice empties exactly that many occupied
/// slots: the inventory holds `chosen.len()` items fewer.
pub proof fn lemma_sacrifice_count(inv: Seq<Option<ItemSpec>>, idx: int, chosen: Seq<usize>)
    requires
        valid_choice(inv, idx, chosen),
        inv.len() <= usize::MAX,
    ensures
        item_count(sacrificed(inv, chosen)) + chosen.len() == item_count(inv),
    decreases chosen.len(),
{
    if chosen.len() == 0 {
        assert(sacrificed(inv, chosen) =~= inv);
    } else {
        let pre = chosen.drop_last();
        let j = chosen.last();
        assert(valid_choice(inv, idx, pre)) by {
            assert forall|k: int| 0 <= k < pre.len() implies {
                &&& #[trigger] pre[k] < inv.len()
                &&& inv[pre[k] as int] is Some
                &&& pre[k] != idx
            } by {
                assert(pre[k] == chosen[k]);
            }
            assert forall|a: int, b: int| 0 <= a < b < pre.len() implies pre[a] != pre[b] by {
                assert(pre[a] == chosen[a] && pre[b] == chosen[b]);
            }
        }
        lemma_sacrifice_count(inv, idx, pre);
        assert(chosen[chosen.len() - 1] == j);
        assert(!pre.contains(j)) by {
            if pre.contains(j) {
                let w = choose|w: int| 0 <= w < pre.len() && pre[w] == j;
                assert(chosen[w] == j);
            }
        }
        let s_pre = sacrificed(inv, pre);
        assert(s_pre[j as int] == inv[j as int]);
        assert(sacrificed(inv, chosen) =~= s_pre.update(j as int, None)) by {
            assert forall|i: int| 0 <= i < inv.len() implies #[trigger] sacrificed(inv, chosen)[i]
                == s_pre.update(j as int, None)[i] by {
                if chosen.contains(i as usize) {
                    let w = choose|w: int| 0 <= w < chosen.len() && chosen[w] == i as usize;
                    if w < pre.len() {
                        assert(pre[w] == i as usize);
                    }
                } else {
                    if pre.contains(i as usize) {
                        let w = choose|w: int| 0 <= w < pre.len() && pre[w] == i as usize;
                        assert(chosen[w] == i as usize);
                    }
                    if i == j {
                        assert(chosen.contains(j));
                    }
                }
            }
        }
        lemma_item_count_clear(s_pre, j as int);
    }
}


proof fn lemma_first_free_up_nearest(inv: Seq<Option<ItemSpec>>, idx: int, chosen: Seq<usize>, from: int)
    requires
        0 <= from,
    ensures
        first_free_up(inv, idx, chosen, from) matches Some(j) ==> from <= j && free_slot(inv, idx, chosen, j)
            && forall|k: int| from <= k < j ==> !#[trigger] free_slot(inv, idx, chosen, k),
    decreases inv.len() - from,
{
    if from < inv.len() && !free_slot(inv, idx, chosen, from) {
        lemma_first_free_up_nearest(inv, idx, chosen, from + 1);
    }
}

proof fn lemma_first_free_down_nearest(inv: Seq<Option<ItemSpec>>, idx: int, chosen: Seq<usize>, from: int)
    ensures
        first_free_down(inv, idx, chosen, from) matches Some(j) ==> j <= from && free_slot(inv, idx, chosen, j)
            && forall|k: int| j < k <= from ==> !#[trigger] free_slot(inv, idx, chosen, k),
    decreases from + 1,
{
    if from >= 0 && !free_slot(inv, idx, chosen, from) {
        lemma_first_free_down_nearest(inv, idx, chosen, from - 1);
    }
}

/// The slot a specifier names: an absolute index names that slot; a positive
/// relative index `n` the nearest slot at or after the crafted slot plus `n`
/// that holds an item, is not the crafted slot and was not chosen before; a
/// negative relative index `n` the nearest such slot at or before the crafted
/// slot minus `n`. The slot named holds an item with at least `required`
/// modifiers.
pub proof fn lemma_specifier_names(
    inv: Seq<Option<ItemSpec>>,
    idx: int,
    chosen: Seq<usize>,
    s: IndexSpecifier,
    required: nat,
)
    requires
        0 <= idx,
        inv.len() <= usize::MAX,
    ensures
        resolve_one(inv, idx, chosen, s, required) matches Ok(j) ==> {
            &&& free_slot(inv, idx, chosen, j as int)
            &&& inv[j as int]->0.modifiers.len() >= required
            &&& match s {
                IndexSpecifier::Absolute(i) => j == i,
                IndexSpecifier::RelativePositive(n) => idx + n <= j && forall|k: int|
                    idx + n <= k < j ==> !#[trigger] free_slot(inv, idx, chosen, k),
                IndexSpecifier::RelativeNegative(n) => n <= idx && j <= idx - n && forall|k: int|
                    j < k <= idx - n ==> !#[trigger] free_slot(inv, idx, chosen, k),
            }
        },
{
    match s {
        IndexSpecifier::Absolute(i) => {
            if resolve_one(inv, idx, chosen, s, required) is Ok {
                assert(i < inv.len() && i != idx && inv[i as int] is Some && !chosen.contains(i));
                assert((i as int) as usize == i);
                assert(free_slot(inv, idx, chosen, i as int));
                assert(inv[i as int]->0.modifiers.len() >= required);
                assert(resolve_one(inv, idx, chosen, s, required) == Ok::<usize, Seq<char>>(i));
            }
        },
        IndexSpecifier::RelativePositive(n) => {
            lemma_first_free_up_nearest(inv, idx, chosen, idx + n);
            if let Some(j) = first_free_up(inv, idx, chosen, idx + n) {
                assert((j as usize) as int == j);
            }
        },
        IndexSpecifier::RelativeNegative(n) => {
            if n <= idx {
                lemma_first_free_down_nearest(inv, idx, chosen, idx - n);
                if let Some(j) = first_free_down(inv, idx, chosen, idx - n) {
                    assert((j as usize) as int == j);
                }
            }
        },
    }
}

} // verus!
