//! The arguments of a tool call: a mapping from names to values.
//!
//! A value is kept by its shape. Only a text keeps what it holds, since no
//! tool reads anything else.

use crate::text::same_text;
use vstd::prelude::*;

verus! {

/// One value of an argument mapping.
#[derive(Clone, Debug, PartialEq, Eq)]
pub enum ArgumentValue {
    Null,
    Boolean,
    Number,
    Text(String),
    List,
    Mapping,
}

/// An `ArgumentValue` as a specification value.
pub enum Shape {
    Null,
    Boolean,
    Number,
    Text(Seq<char>),
    List,
    Mapping,
}

impl View for ArgumentValue {
    type V = Shape;

    open spec fn view(&self) -> Shape {
        match self {
            ArgumentValue::Null => Shape::Null,
            ArgumentValue::Boolean => Shape::Boolean,
            ArgumentValue::Number => Shape::Number,
            ArgumentValue::Text(text) => Shape::Text(text@),
            ArgumentValue::List => Shape::List,
            ArgumentValue::Mapping => Shape::Mapping,
        }
    }
}

/// A named value, as it was put into an argument mapping.
struct Argument {
    name: String,
    value: ArgumentValue,
}

/// The mapping that a sequence of named values stands for: each name maps
/// to the value that was put under it last.
spec fn mapping_of(entries: Seq<Argument>) -> Map<Seq<char>, Shape>
    decreases entries.len(),
{
    if entries.len() == 0 {
        Map::empty()
    } else {
        mapping_of(entries.drop_last()).insert(entries.last().name@, entries.last().value@)
    }
}

/// The arguments of a tool call.
pub struct Arguments {
    entries: Vec<Argument>,
}

impl View for Arguments {
    type V = Map<Seq<char>, Shape>;

    closed spec fn view(&self) -> Map<Seq<char>, Shape> {
        mapping_of(self.entries@)
    }
}

/// A name that none of the entries has is not in their mapping.
proof fn lemma_absent_name(entries: Seq<Argument>, name: Seq<char>)
    requires
        forall|i: int| 0 <= i < entries.len() ==> (#[trigger] entries[i]).name@ != name,
    ensures
        !mapping_of(entries).contains_key(name),
    decreases entries.len(),
{
    if entries.len() > 0 {
        lemma_absent_name(entries.drop_last(), name);
    }
}

/// A name maps to the value of the last entry that has it.
proof fn lemma_last_entry_decides(entries: Seq<Argument>, name: Seq<char>, at: int)
    requires
        0 <= at < entries.len(),
        entries[at].name@ == name,
        forall|i: int| at < i < entries.len() ==> (#[trigger] entries[i]).name@ != name,
    ensures
        mapping_of(entries).contains_key(name),
        mapping_of(entries)[name] == entries[at].value@,
    decreases entries.len(),
{
    if at < entries.len() - 1 {
        lemma_last_entry_decides(entries.drop_last(), name, at);
    }
}

impl Arguments {
    /// The empty mapping.
    pub fn new() -> (arguments: Arguments)
        ensures
            arguments@ == Map::<Seq<char>, Shape>::empty(),
    {
        Arguments { entries: Vec::new() }
    }

    /// Puts `value` under `name`, in place of what was there.
    pub fn insert(&mut self, name: String, value: ArgumentValue)
        ensures
            final(self)@ == old(self)@.insert(name@, value@),
    {
        self.entries.push(Argument { name, value });
        assert(self.entries@.drop_last() =~= old(self).entries@);
    }

    /// The value under `name`, `None` where the mapping has none.
    pub fn get(&self, name: &str) -> (found: Option<&ArgumentValue>)
        ensures
            match found {
                Some(value) => self@.contains_key(name@) && self@[name@] == value@,
                None => !self@.contains_key(name@),
            },
    {
        let mut at: usize = self.entries.len();
        while at > 0
            invariant
                at <= self.entries.len(),
                forall|i: int|
                    at <= i < self.entries.len() ==> (#[trigger] self.entries@[i]).name@ != name@,
            decreases at,
        {
            at = at - 1;
            if same_text(self.entries[at].name.as_str(), name) {
                proof {
                    lemma_last_entry_decides(self.entries@, name@, at as int);
                }
                return Some(&self.entries[at].value);
            }
        }
        proof {
            lemma_absent_name(self.entries@, name@);
        }
        None
    }
}

} // verus!
