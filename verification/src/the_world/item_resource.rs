use vstd::prelude::*;
use crate::text::{decimal, push_decimal};

verus! {

/// The kinds of resource that items produce and spend.
#[derive(Clone, Copy, PartialEq, Eq, Debug, Hash, Structural)]
pub enum Type {
    Mana,
}

/// An amount per item resource type; `None` where the resource is absent.
#[derive(Clone, Copy, PartialEq, Eq, Debug, Hash, Structural)]
pub struct ResourceMap {
    pub mana: Option<u64>,
}

/// How a resource type is written in messages.
pub open spec fn resource_name(t: Type) -> Seq<char> {
    match t {
        Type::Mana => "Mana"@,
    }
}

/// How a resource map is written in messages, such as `{Mana: 20}` or `{}`.
pub open spec fn resource_text(m: ResourceMap) -> Seq<char> {
    match m.mana {
        Some(v) => "{Mana: "@ + decimal(v as nat) + "}"@,
        None => "{}"@,
    }
}

impl Type {
    /// How this resource type is written in messages.
    pub fn name(&self) -> (r: &'static str)
        ensures
            r@ == resource_name(*self),
    {
        match self {
            Type::Mana => "Mana",
        }
    }
}

impl ResourceMap {
    /// A map with no resources.
    pub fn new() -> (r: ResourceMap)
        ensures
            r.mana is None,
    {
        ResourceMap { mana: None }
    }

    /// The amount stored for `t`, if any.
    pub fn get(&self, t: Type) -> (r: Option<u64>)
        ensures
            r == self.mana,
    {
        match t {
            Type::Mana => self.mana,
        }
    }

    /// Stores `v` for `t`.
    pub fn insert(&mut self, t: Type, v: u64)
        ensures
            final(self).mana == Some(v),
    {
        match t {
            Type::Mana => {
                self.mana = Some(v);
            },
        }
    }

    /// Appends how this map is written in messages.
    pub fn push_text(&self, s: &mut String)
        ensures
            final(s)@ == old(s)@ + resource_text(*self),
    {
        match self.mana {
            Some(v) => {
                s.append("{Mana: ");
                push_decimal(s, v);
                s.append("}");
            },
            None => {
                s.append("{}");
            },
        }
        assert(final(s)@ =~= old(s)@ + resource_text(*self));
    }
}

} // verus!
