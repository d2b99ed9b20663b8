//! The declaration of one accepted parameter.

use vstd::prelude::*;

verus! {

/// The mathematical content of a parameter declaration.
pub struct ArgModel {
    pub name: Seq<char>,
    pub short: Seq<char>,
    pub long: Seq<char>,
    pub takes_value: bool,
    pub required: bool,
    pub value_name: Seq<char>,
    pub help: Seq<char>,
    pub matched: bool,
    pub internal: bool,
}

impl ArgModel {
    /// A parameter with neither a short nor a long spelling is positional.
    pub open spec fn is_positional(self) -> bool {
        self.short.len() == 0 && self.long.len() == 0
    }
}

/// One accepted input: a flag, when it has a short or long spelling, or a
/// positional parameter otherwise.
#[derive(Clone, Copy)]
pub struct Arg {
    pub(crate) name: &'static str,
    pub(crate) short: &'static str,
    pub(crate) long: &'static str,
    pub(crate) takes_value: bool,
    pub(crate) is_required: bool,
    pub(crate) value_name: &'static str,
    pub(crate) help: &'static str,
    pub(crate) matched: bool,
    pub(crate) internal: bool,
}

impl View for Arg {
    type V = ArgModel;

    closed spec fn view(&self) -> ArgModel {
        ArgModel {
            name: self.name@,
            short: self.short@,
            long: self.long@,
            takes_value: self.takes_value,
            required: self.is_required,
            value_name: self.value_name@,
            help: self.help@,
            matched: self.matched,
            internal: self.internal,
        }
    }
}

impl Arg {
    /// A positional parameter called `name`, with every other setting unset.
    pub fn with_name(name: &'static str) -> (r: Arg)
        ensures
            r@ == (ArgModel {
                name: name@,
                short: Seq::empty(),
                long: Seq::empty(),
                takes_value: false,
                required: false,
                value_name: Seq::empty(),
                help: Seq::empty(),
                matched: false,
                internal: false,
            }),
    {
        let r = Arg {
            name: name,
            short: "",
            long: "",
            takes_value: false,
            is_required: false,
            value_name: "",
            help: "",
            matched: false,
            internal: false,
        };
        proof {
            reveal_strlit("");
        }
        assert(r.short@ =~= Seq::<char>::empty());
        r
    }

    pub fn short(self, short: &'static str) -> (r: Arg)
        ensures
            r@ == (ArgModel { short: short@, ..self@ }),
    {
        Arg { short: short, ..self }
    }

    pub fn long(self, long: &'static str) -> (r: Arg)
        ensures
            r@ == (ArgModel { long: long@, ..self@ }),
    {
        Arg { long: long, ..self }
    }

    pub fn takes_value(self, takes_value: bool) -> (r: Arg)
        ensures
            r@ == (ArgModel { takes_value: takes_value, ..self@ }),
    {
        Arg { takes_value: takes_value, ..self }
    }

    pub fn required(self, is_required: bool) -> (r: Arg)
        ensures
            r@ == (ArgModel { required: is_required, ..self@ }),
    {
        Arg { is_required: is_required, ..self }
    }

    pub fn value_name(self, value_name: &'static str) -> (r: Arg)
        ensures
            r@ == (ArgModel { value_name: value_name@, ..self@ }),
    {
        Arg { value_name: value_name, ..self }
    }

    pub fn help(self, help: &'static str) -> (r: Arg)
        ensures
            r@ == (ArgModel { help: help@, ..self@ }),
    {
        Arg { help: help, ..self }
    }

    pub(crate) fn internal(self, internal: bool) -> (r: Arg)
        ensures
            r@ == (ArgModel { internal: internal, ..self@ }),
    {
        Arg { internal: internal, ..self }
    }

    pub(crate) fn set_matched(self) -> (r: Arg)
        ensures
            r@ == (ArgModel { matched: true, ..self@ }),
    {
        Arg { matched: true, ..self }
    }

    pub fn is_positional(&self) -> (r: bool)
        ensures
            r == self@.is_positional(),
    {
        self.short.is_empty() && self.long.is_empty()
    }

    pub fn is_matched(&self) -> (r: bool)
        ensures
            r == self@.matched,
    {
        self.matched
    }

    pub fn get_name(&self) -> (r: &'static str)
        ensures
            r@ == self@.name,
    {
        self.name
    }

    pub fn get_short(&self) -> (r: &'static str)
        ensures
            r@ == self@.short,
    {
        self.short
    }

    pub fn get_long(&self) -> (r: &'static str)
        ensures
            r@ == self@.long,
    {
        self.long
    }

    pub fn get_help(&self) -> (r: &'static str)
        ensures
            r@ == self@.help,
    {
        self.help
    }

    pub fn get_takes_value(&self) -> (r: bool)
        ensures
            r == self@.takes_value,
    {
        self.takes_value
    }

    pub fn get_required(&self) -> (r: bool)
        ensures
            r == self@.required,
    {
        self.is_required
    }
}

} // verus!
