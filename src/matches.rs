//! The result of one successful parse: an ordered list of (name, value)
//! entries, queried by name.

use vstd::prelude::*;
use crate::text::same_text;
use vstd::std_specs::vec::into_iter_elts;

verus! {

/// An entry of a match set: the parameter's name and the value it received.
pub type EntryModel = (Seq<char>, Option<Seq<char>>);

/// One resolved parameter.
#[derive(Debug)]
pub struct ArgMatch {
    name: String,
    value: Option<String>,
}

/// The view of an optional owned text.
pub open spec fn opt_view(v: Option<String>) -> Option<Seq<char>> {
    match v {
        Some(s) => Some(s@),
        None => None,
    }
}

impl View for ArgMatch {
    type V = EntryModel;

    closed spec fn view(&self) -> EntryModel {
        (self.name@, opt_view(self.value))
    }
}

impl ArgMatch {
    pub fn name(&self) -> (r: &String)
        ensures
            r@ == self@.0,
    {
        &self.name
    }

    pub fn value(&self) -> (r: Option<&String>)
        ensures
            r is Some <==> self@.1 is Some,
            r is Some ==> r.unwrap()@ == self@.1.unwrap(),
    {
        self.value.as_ref()
    }
}

/// The value of the first entry named `n` at or after position `i`; `None`
/// where there is no such entry or where it carries no value.
pub open spec fn value_from(ms: Seq<EntryModel>, n: Seq<char>, i: int) -> Option<Seq<char>>
    decreases ms.len() - i,
{
    if i < 0 || i >= ms.len() {
        None
    } else if ms[i].0 == n {
        ms[i].1
    } else {
        value_from(ms, n, i + 1)
    }
}

/// The value of the first entry named `n`.
pub open spec fn value_of_spec(ms: Seq<EntryModel>, n: Seq<char>) -> Option<Seq<char>> {
    value_from(ms, n, 0)
}

/// Some entry is named `n`.
pub open spec fn present(ms: Seq<EntryModel>, n: Seq<char>) -> bool {
    exists|i: int| 0 <= i < ms.len() && #[trigger] ms[i].0 == n
}

/// The resolved parameters of one parse, in the order they were resolved.
#[derive(Debug)]
pub struct ArgMatches {
    matches: Vec<ArgMatch>,
}

impl View for ArgMatches {
    type V = Seq<EntryModel>;

    closed spec fn view(&self) -> Seq<EntryModel> {
        self.matches@.map_values(|m: ArgMatch| m@)
    }
}

impl ArgMatches {
    pub fn new() -> (r: ArgMatches)
        ensures
            r@ == Seq::<EntryModel>::empty(),
    {
        let r = ArgMatches { matches: Vec::new() };
        assert(r@ =~= Seq::<EntryModel>::empty());
        r
    }

    /// Appends the entry `(name, value)`.
    pub(crate) fn add(&mut self, name: String, value: Option<String>)
        ensures
            final(self)@ == old(self)@.push((name@, opt_view(value))),
    {
        let m = ArgMatch { name: name, value: value };
        self.matches.push(m);
        assert(self@ =~= old(self)@.push((name@, opt_view(value))));
    }

    /// The value of the first entry named `name`, if that entry has one.
    pub fn value_of(&self, name: &str) -> (r: Option<&String>)
        ensures
            r is Some <==> value_of_spec(self@, name@) is Some,
            r is Some ==> r.unwrap()@ == value_of_spec(self@, name@).unwrap(),
    {
        let mut i: usize = 0;
        while i < self.matches.len()
            invariant
                i <= self.matches@.len(),
                value_of_spec(self@, name@) == value_from(self@, name@, i as int),
                self@.len() == self.matches@.len(),
            decreases self.matches.len() - i,
        {
            let m = &self.matches[i];
            assert(self@[i as int] == m@);
            if same_text(name, m.name.as_str()) {
                return m.value.as_ref();
            }
            i = i + 1;
        }
        None
    }

    /// Whether some entry is named `name`.
    pub fn is_present(&self, name: &str) -> (r: bool)
        ensures
            r == present(self@, name@),
    {
        let mut i: usize = 0;
        while i < self.matches.len()
            invariant
                i <= self.matches@.len(),
                self@.len() == self.matches@.len(),
                forall|j: int| 0 <= j < i ==> self@[j].0 != name@,
            decreases self.matches.len() - i,
        {
            let m = &self.matches[i];
            assert(self@[i as int] == m@);
            if same_text(name, m.name.as_str()) {
                assert(self@[i as int].0 == name@);
                return true;
            }
            i = i + 1;
        }
        false
    }

    /// The entries, in resolution order.
    pub fn get_matches(&self) -> (r: &Vec<ArgMatch>)
        ensures
            r@.map_values(|m: ArgMatch| m@) == self@,
    {
        &self.matches
    }

    /// The number of entries.
    pub fn len(&self) -> (r: usize)
        ensures
            r == self@.len(),
    {
        self.matches.len()
    }

    /// The name of the entry at position `i`.
    pub fn name_at(&self, i: usize) -> (r: &String)
        requires
            i < self@.len(),
        ensures
            r@ == self@[i as int].0,
    {
        &self.matches[i].name
    }
}

impl IntoIterator for ArgMatches {
    type Item = ArgMatch;
    type IntoIter = std::vec::IntoIter<ArgMatch>;

    /// The entries, in resolution order.
    fn into_iter(self) -> (r: std::vec::IntoIter<ArgMatch>)
        ensures
            into_iter_elts(r).map_values(|m: ArgMatch| m@) == self@,
    {
        self.matches.into_iter()
    }
}

} // verus!
