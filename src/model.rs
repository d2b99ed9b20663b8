//! The mathematical model of one parse: how each token changes the registry
//! and the match set, and how the finished parse is judged.

use vstd::prelude::*;
use crate::arg::ArgModel;
use crate::args::{find_long, find_short, next_open, claim, positionals, options};
use crate::matches::{EntryModel, present};
use crate::error::Failure;
use crate::text::upper_of;

verus! {

/// The part of an engine that a parse changes.
pub struct ParseState {
    pub args: Seq<ArgModel>,
    pub matches: Seq<EntryModel>,
}

/// A token that begins with two dashes.
pub open spec fn is_long_token(t: Seq<char>) -> bool {
    t.len() >= 2 && t[0] == '-' && t[1] == '-'
}

/// A token that begins with exactly one dash.
pub open spec fn is_short_token(t: Seq<char>) -> bool {
    !is_long_token(t) && t.len() >= 1 && t[0] == '-'
}

/// The position of the first `=` at or after `i`, or the length where there is none.
pub open spec fn eq_from(b: Seq<char>, i: int) -> int
    decreases b.len() - i,
{
    if i < 0 || i >= b.len() {
        b.len() as int
    } else if b[i] == '=' {
        i
    } else {
        eq_from(b, i + 1)
    }
}

/// The option name of a long flag's body: everything before the first `=`.
pub open spec fn option_name(b: Seq<char>) -> Seq<char> {
    b.subrange(0, eq_from(b, 0))
}

/// The value text of a long flag's body: everything after the first `=`,
/// empty where there is no `=`.
pub open spec fn option_value(b: Seq<char>) -> Seq<char> {
    if eq_from(b, 0) < b.len() {
        b.subrange(eq_from(b, 0) + 1, b.len() as int)
    } else {
        Seq::empty()
    }
}

/// The body of a long flag token: the token without its two dashes.
pub open spec fn long_body(t: Seq<char>) -> Seq<char> {
    t.subrange(2, t.len() as int)
}

/// A value text as an entry's value: an empty text is no value.
pub open spec fn value_entry(v: Seq<char>) -> Option<Seq<char>> {
    if v.len() == 0 {
        None
    } else {
        Some(v)
    }
}

/// The outcome of a flag token with option name `name` and value text
/// `value`, resolved to `found`; `shown` is the token as an unknown option
/// is reported.
pub open spec fn flag_step(
    st: ParseState,
    found: Option<ArgModel>,
    name: Seq<char>,
    value: Seq<char>,
    shown: Seq<char>,
) -> Result<ParseState, Failure> {
    match found {
        None => Err(Failure::UnknownOption(shown)),
        Some(p) => if p.takes_value && value.len() == 0 {
            Err(Failure::MissingValue(name))
        } else if !p.takes_value && value.len() > 0 {
            Err(Failure::UnexpectedValue(name, value))
        } else {
            Ok(ParseState { args: st.args, matches: st.matches.push((p.name, value_entry(value))) })
        },
    }
}

/// The outcome of a long flag token.
pub open spec fn long_step(st: ParseState, t: Seq<char>) -> Result<ParseState, Failure> {
    let b = long_body(t);
    flag_step(st, find_long(st.args, option_name(b)), option_name(b), option_value(b), t)
}

/// The outcome of one single-character short flag `c`.
pub open spec fn short_step(st: ParseState, c: Seq<char>) -> Result<ParseState, Failure> {
    flag_step(st, find_short(st.args, c), c, Seq::empty(), c)
}

/// The outcome of a group of short flags, each character a flag of its own,
/// resolved from left to right. A short flag never carries a value: an `=`
/// in the group is looked up as a short spelling like any other character,
/// so a value-taking short flag always fails with a missing value. This is
/// a known gap of the token syntax.
pub open spec fn short_group(st: ParseState, g: Seq<char>) -> Result<ParseState, Failure>
    decreases g.len(),
{
    if g.len() == 0 {
        Ok(st)
    } else {
        match short_step(st, g.subrange(0, 1)) {
            Err(f) => Err(f),
            Ok(next) => short_group(next, g.subrange(1, g.len() as int)),
        }
    }
}

/// The state that a group of short flags leaves: the state after its last
/// character, or, where a character fails, the state after the characters
/// before it.
pub open spec fn short_group_reached(st: ParseState, g: Seq<char>) -> ParseState
    decreases g.len(),
{
    if g.len() == 0 {
        st
    } else {
        match short_step(st, g.subrange(0, 1)) {
            Err(_) => st,
            Ok(next) => short_group_reached(next, g.subrange(1, g.len() as int)),
        }
    }
}

/// A group of short flags keeps the registry and only appends entries.
pub proof fn lemma_short_group_reached(st: ParseState, g: Seq<char>)
    ensures
        short_group_reached(st, g).args == st.args,
        st.matches.is_prefix_of(short_group_reached(st, g).matches),
    decreases g.len(),
{
    if g.len() > 0 {
        if let Ok(next) = short_step(st, g.subrange(0, 1)) {
            lemma_short_group_reached(next, g.subrange(1, g.len() as int));
            let r = short_group_reached(next, g.subrange(1, g.len() as int));
            assert(r.matches.subrange(0, st.matches.len() as int) =~= r.matches.subrange(
                0,
                next.matches.len() as int,
            ).subrange(0, st.matches.len() as int));
        }
    }
}

/// The outcome of a bare token: it fills the first open positional slot.
pub open spec fn positional_step(st: ParseState, t: Seq<char>) -> Result<ParseState, Failure> {
    match next_open(st.args) {
        None => Err(Failure::InvalidPositional(t)),
        Some(k) => Ok(
            ParseState {
                args: claim(st.args, k),
                matches: st.matches.push((st.args[k].name, Some(t))),
            },
        ),
    }
}

/// The outcome of one token.
pub open spec fn token_step(st: ParseState, t: Seq<char>) -> Result<ParseState, Failure> {
    if is_long_token(t) {
        long_step(st, t)
    } else if is_short_token(t) {
        short_group(st, t.subrange(1, t.len() as int))
    } else {
        positional_step(st, t)
    }
}

/// The state that one token leaves, whether it is accepted or not: a long
/// flag or a bare token that fails leaves the state as it was; a group of
/// short flags that fails keeps the entries of the characters before the
/// failing one.
pub open spec fn token_reached(st: ParseState, t: Seq<char>) -> ParseState {
    if is_long_token(t) {
        match long_step(st, t) {
            Ok(next) => next,
            Err(_) => st,
        }
    } else if is_short_token(t) {
        short_group_reached(st, t.subrange(1, t.len() as int))
    } else {
        match positional_step(st, t) {
            Ok(next) => next,
            Err(_) => st,
        }
    }
}

/// The outcome of the tokens from position `i` on, stopping at the first failure.
pub open spec fn tokens_from(st: ParseState, toks: Seq<Seq<char>>, i: int) -> Result<
    ParseState,
    Failure,
>
    decreases toks.len() - i,
{
    if i < 0 || i >= toks.len() {
        Ok(st)
    } else {
        match token_step(st, toks[i]) {
            Err(f) => Err(f),
            Ok(next) => tokens_from(next, toks, i + 1),
        }
    }
}

/// Which built-in flag cuts a parse short.
#[derive(Debug, PartialEq, Eq)]
pub enum Shortcut {
    Help,
    Version,
}

/// The first entry at or after `i` that is the `help` or `version` flag.
pub open spec fn shortcut_from(ms: Seq<EntryModel>, i: int) -> Option<Shortcut>
    decreases ms.len() - i,
{
    if i < 0 || i >= ms.len() {
        None
    } else if ms[i].0 == "version"@ {
        Some(Shortcut::Version)
    } else if ms[i].0 == "help"@ {
        Some(Shortcut::Help)
    } else {
        shortcut_from(ms, i + 1)
    }
}

/// The name of the first of `ps` from position `i` on that no entry names.
pub open spec fn missing_from(ps: Seq<ArgModel>, ms: Seq<EntryModel>, i: int) -> Option<Seq<char>>
    decreases ps.len() - i,
{
    if i < 0 || i >= ps.len() {
        None
    } else if !present(ms, ps[i].name) {
        Some(ps[i].name)
    } else {
        missing_from(ps, ms, i + 1)
    }
}

/// The positional parameter that the validation reports missing, if any: a
/// lone optional positional is never reported, otherwise the first
/// positional in declaration order that no entry names.
pub open spec fn missing_positional(args: Seq<ArgModel>, ms: Seq<EntryModel>) -> Option<Seq<char>> {
    let ps = positionals(args);
    if ps.len() == 1 && !ps[0].required {
        None
    } else {
        missing_from(ps, ms, 0)
    }
}

/// The failure, if any, of the check on positional parameters.
pub open spec fn validation(args: Seq<ArgModel>, ms: Seq<EntryModel>) -> Option<Failure> {
    match missing_positional(args, ms) {
        Some(n) => Some(Failure::MissingRequiredPositional(upper_of(n))),
        None => None,
    }
}

/// Two declarations share a name.
pub open spec fn has_duplicates(args: Seq<ArgModel>) -> bool {
    exists|a: int, b: int| 0 <= a < b < args.len() && args[a].name == args[b].name
}

/// What a whole invocation comes to.
pub enum Verdict {
    Matched(Seq<EntryModel>),
    Help,
    Version,
}

/// The verdict on an invocation whose first token (the program's path) is
/// skipped and whose other tokens are consumed from state `st`; declarations
/// that share a name are refused before any token is read.
pub open spec fn invocation(st: ParseState, toks: Seq<Seq<char>>) -> Result<Verdict, Failure> {
    if has_duplicates(st.args) {
        Err(Failure::DuplicateNames)
    } else {
        invocation_of_tokens(st, toks)
    }
}

/// The verdict on an invocation's tokens, the first of which is skipped.
pub open spec fn invocation_of_tokens(st: ParseState, toks: Seq<Seq<char>>) -> Result<Verdict, Failure> {
    match tokens_from(st, toks, 1) {
        Err(f) => Err(f),
        Ok(done) => match shortcut_from(done.matches, 0) {
            Some(Shortcut::Version) => Ok(Verdict::Version),
            Some(Shortcut::Help) => Ok(Verdict::Help),
            None => match validation(done.args, done.matches) {
                Some(f) => Err(f),
                None => Ok(Verdict::Matched(done.matches)),
            },
        },
    }
}

/// The names of parameters.
pub open spec fn names(ps: Seq<ArgModel>) -> Seq<Seq<char>> {
    ps.map_values(|a: ArgModel| a.name)
}

/// `b` is the registry `a` after some positional parameters received their
/// tokens: only the `matched` marks of positionals may differ.
pub open spec fn same_shape(a: Seq<ArgModel>, b: Seq<ArgModel>) -> bool {
    &&& a.len() == b.len()
    &&& forall|i: int|
        0 <= i < a.len() ==> {
            &&& #[trigger] b[i] == ArgModel { matched: b[i].matched, ..a[i] }
            &&& (!a[i].is_positional() ==> b[i].matched == a[i].matched)
        }
}

/// Registries of the same shape have the same flags and the same
/// positional names.
pub proof fn lemma_same_shape_parts(a: Seq<ArgModel>, b: Seq<ArgModel>)
    requires
        same_shape(a, b),
    ensures
        options(a) == options(b),
        names(positionals(a)) == names(positionals(b)),
    decreases a.len(),
{
    reveal(Seq::filter);
    if a.len() > 0 {
        let (a0, b0) = (a.drop_last(), b.drop_last());
        assert(same_shape(a0, b0)) by {
            assert forall|i: int| 0 <= i < a0.len() implies {
                &&& #[trigger] b0[i] == ArgModel { matched: b0[i].matched, ..a0[i] }
                &&& (!a0[i].is_positional() ==> b0[i].matched == a0[i].matched)
            } by {
                assert(b[i] == ArgModel { matched: b[i].matched, ..a[i] });
            }
        }
        lemma_same_shape_parts(a0, b0);
        assert(b.last() == ArgModel { matched: b.last().matched, ..a.last() });
        let (pa, pb) = (positionals(a0), positionals(b0));
        if a.last().is_positional() {
            assert(positionals(a) == pa.push(a.last()));
            assert(positionals(b) == pb.push(b.last()));
            assert(names(pa.push(a.last())) =~= names(pa).push(a.last().name));
            assert(names(pb.push(b.last())) =~= names(pb).push(b.last().name));
        } else {
            assert(positionals(a) == pa);
            assert(positionals(b) == pb);
        }
    } else {
        assert(a =~= b);
    }
}

} // verus!
