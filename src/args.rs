//! The ordered registry of declared parameters.

use vstd::prelude::*;
use crate::arg::{Arg, ArgModel};
use crate::text::same_text;

verus! {

/// The first parameter at or after position `i` whose long spelling is `l`.
pub open spec fn long_from(args: Seq<ArgModel>, l: Seq<char>, i: int) -> Option<ArgModel>
    decreases args.len() - i,
{
    if i < 0 || i >= args.len() {
        None
    } else if args[i].long == l {
        Some(args[i])
    } else {
        long_from(args, l, i + 1)
    }
}

/// The first parameter at or after position `i` whose short spelling is `s`.
pub open spec fn short_from(args: Seq<ArgModel>, s: Seq<char>, i: int) -> Option<ArgModel>
    decreases args.len() - i,
{
    if i < 0 || i >= args.len() {
        None
    } else if args[i].short == s {
        Some(args[i])
    } else {
        short_from(args, s, i + 1)
    }
}

/// The first declared parameter whose long spelling is `l`.
pub open spec fn find_long(args: Seq<ArgModel>, l: Seq<char>) -> Option<ArgModel> {
    long_from(args, l, 0)
}

/// The first declared parameter whose short spelling is `s`.
pub open spec fn find_short(args: Seq<ArgModel>, s: Seq<char>) -> Option<ArgModel> {
    short_from(args, s, 0)
}

/// A positional parameter that has not received a token yet.
pub open spec fn is_open(a: ArgModel) -> bool {
    a.is_positional() && !a.matched
}

/// The position of the first open positional parameter at or after `i`.
pub open spec fn open_from(args: Seq<ArgModel>, i: int) -> Option<int>
    decreases args.len() - i,
{
    if i < 0 || i >= args.len() {
        None
    } else if is_open(args[i]) {
        Some(i)
    } else {
        open_from(args, i + 1)
    }
}

/// The position of the first open positional parameter.
pub open spec fn next_open(args: Seq<ArgModel>) -> Option<int> {
    open_from(args, 0)
}

/// The registry once the parameter at `k` has received its token.
pub open spec fn claim(args: Seq<ArgModel>, k: int) -> Seq<ArgModel> {
    args.update(k, ArgModel { matched: true, ..args[k] })
}

/// The positional parameters, in declaration order.
pub open spec fn positionals(args: Seq<ArgModel>) -> Seq<ArgModel> {
    args.filter(|a: ArgModel| a.is_positional())
}

/// The flags, in declaration order.
pub open spec fn options(args: Seq<ArgModel>) -> Seq<ArgModel> {
    args.filter(|a: ArgModel| !a.is_positional())
}

/// The views of a sequence of parameters.
pub open spec fn arg_views(v: Seq<Arg>) -> Seq<ArgModel> {
    v.map_values(|a: Arg| a@)
}

/// A built-in flag: internal, taking no value, with the given spellings.
pub open spec fn builtin(name: Seq<char>, short: Seq<char>) -> ArgModel {
    ArgModel {
        name: name,
        short: short,
        long: name,
        takes_value: false,
        required: false,
        value_name: Seq::empty(),
        help: Seq::empty(),
        matched: false,
        internal: true,
    }
}

/// The declarations that every registry starts with: `help` (`-h`,
/// `--help`) and `version` (`-v`, `--version`).
pub open spec fn builtin_args() -> Seq<ArgModel> {
    seq![builtin("help"@, "h"@), builtin("version"@, "v"@)]
}

/// The ordered collection of declared parameters.
pub struct Args {
    args: Vec<Arg>,
}

impl View for Args {
    type V = Seq<ArgModel>;

    closed spec fn view(&self) -> Seq<ArgModel> {
        arg_views(self.args@)
    }
}

impl Args {
    /// A registry holding the built-in `help` (`-h`, `--help`) and `version`
    /// (`-v`, `--version`) flags.
    pub fn with_defaults() -> (r: Args)
        ensures
            r@ == builtin_args(),
    {
        let help = Arg::with_name("help").short("h").long("help").internal(true);
        let version = Arg::with_name("version").short("v").long("version").internal(true);
        let mut args: Vec<Arg> = Vec::new();
        args.push(help);
        args.push(version);
        let r = Args { args: args };
        assert(r@ =~= builtin_args());
        r
    }

    /// Appends `arg` to the declarations.
    pub fn push(self, arg: Arg) -> (r: Args)
        ensures
            r@ == self@.push(arg@),
    {
        let mut args = self.args;
        args.push(arg);
        let r = Args { args: args };
        assert(r@ =~= self@.push(arg@));
        r
    }

    /// The first parameter whose long spelling is `long_name`.
    pub fn match_long(&self, long_name: &str) -> (r: Option<&Arg>)
        ensures
            r is Some <==> find_long(self@, long_name@) is Some,
            r is Some ==> r.unwrap()@ == find_long(self@, long_name@).unwrap(),
    {
        let mut i: usize = 0;
        while i < self.args.len()
            invariant
                i <= self.args@.len(),
                self@.len() == self.args@.len(),
                find_long(self@, long_name@) == long_from(self@, long_name@, i as int),
            decreases self.args.len() - i,
        {
            let a = &self.args[i];
            assert(self@[i as int] == a@);
            if same_text(a.get_long(), long_name) {
                return Some(a);
            }
            i = i + 1;
        }
        None
    }

    /// The first parameter whose short spelling is `short_name`.
    pub fn match_short(&self, short_name: &str) -> (r: Option<&Arg>)
        ensures
            r is Some <==> find_short(self@, short_name@) is Some,
            r is Some ==> r.unwrap()@ == find_short(self@, short_name@).unwrap(),
    {
        let mut i: usize = 0;
        while i < self.args.len()
            invariant
                i <= self.args@.len(),
                self@.len() == self.args@.len(),
                find_short(self@, short_name@) == short_from(self@, short_name@, i as int),
            decreases self.args.len() - i,
        {
            let a = &self.args[i];
            assert(self@[i as int] == a@);
            if same_text(a.get_short(), short_name) {
                return Some(a);
            }
            i = i + 1;
        }
        None
    }

    /// Claims the first positional parameter that has not received a token
    /// yet, and returns its position.
    pub fn match_positional(&mut self) -> (r: Option<usize>)
        ensures
            r is Some <==> next_open(old(self)@) is Some,
            r is Some ==> r.unwrap() < old(self)@.len() && r.unwrap() as int == next_open(
                old(self)@,
            ).unwrap() && is_open(old(self)@[r.unwrap() as int])
                && final(self)@ == claim(old(self)@, r.unwrap() as int),
            r is None ==> final(self)@ == old(self)@,
    {
        let mut i: usize = 0;
        while i < self.args.len()
            invariant
                i <= self.args@.len(),
                self@.len() == self.args@.len(),
                self == old(self),
                next_open(self@) == open_from(self@, i as int),
            decreases self.args.len() - i,
        {
            let a = self.args[i];
            assert(self@[i as int] == a@);
            if a.is_positional() && !a.is_matched() {
                self.args.set(i, a.set_matched());
                assert(self@ =~= claim(old(self)@, i as int));
                return Some(i);
            }
            i = i + 1;
        }
        None
    }

    /// The number of declared parameters.
    pub fn len(&self) -> (r: usize)
        ensures
            r == self@.len(),
    {
        self.args.len()
    }

    /// The parameter at position `i`.
    pub fn get(&self, i: usize) -> (r: &Arg)
        requires
            i < self@.len(),
        ensures
            r@ == self@[i as int],
    {
        &self.args[i]
    }

    /// The flags, in declaration order.
    pub fn get_options(&self) -> (r: Vec<Arg>)
        ensures
            arg_views(r@) == options(self@),
    {
        let mut out: Vec<Arg> = Vec::new();
        let mut i: usize = 0;
        while i < self.args.len()
            invariant
                i <= self.args@.len(),
                self@.len() == self.args@.len(),
                arg_views(out@) == options(self@.take(i as int)),
            decreases self.args.len() - i,
        {
            let a = self.args[i];
            assert(self@[i as int] == a@);
            proof {
                assert(self@.take(i + 1).drop_last() =~= self@.take(i as int));
                reveal(Seq::filter);
            }
            if !a.is_positional() {
                out.push(a);
            }
            assert(arg_views(out@) =~= options(self@.take(i + 1)));
            i = i + 1;
        }
        assert(self@.take(i as int) =~= self@);
        out
    }

    /// The positional parameters, in declaration order.
    pub fn get_positionals(&self) -> (r: Vec<Arg>)
        ensures
            arg_views(r@) == positionals(self@),
    {
        let mut out: Vec<Arg> = Vec::new();
        let mut i: usize = 0;
        while i < self.args.len()
            invariant
                i <= self.args@.len(),
                self@.len() == self.args@.len(),
                arg_views(out@) == positionals(self@.take(i as int)),
            decreases self.args.len() - i,
        {
            let a = self.args[i];
            assert(self@[i as int] == a@);
            proof {
                assert(self@.take(i + 1).drop_last() =~= self@.take(i as int));
                reveal(Seq::filter);
            }
            if a.is_positional() {
                out.push(a);
            }
            assert(arg_views(out@) =~= positionals(self@.take(i + 1)));
            i = i + 1;
        }
        assert(self@.take(i as int) =~= self@);
        out
    }
}

} // verus!
