//! Properties of the parser, stated over its model and proved.

use vstd::prelude::*;
use crate::arg::ArgModel;
use crate::args::{find_long, find_short, next_open, open_from, is_open, claim, positionals};
use crate::matches::{EntryModel, present};
use crate::error::Failure;
use crate::model::{
    ParseState, token_step, eq_from, long_body, option_name, option_value, missing_from,
    validation, shortcut_from, tokens_from, invocation, Verdict, has_duplicates, Shortcut, short_group,
};
use crate::text::upper_of;
use crate::app::AppModel;

verus! {

/// `b` holds no `=` from position `i` on.
pub open spec fn no_eq_from(b: Seq<char>, i: int) -> bool {
    forall|j: int| i <= j < b.len() ==> b[j] != '='
}

proof fn lemma_eq_at(b: Seq<char>, i: int, k: int)
    requires
        0 <= i <= k <= b.len(),
        k < b.len() ==> b[k] == '=',
        forall|j: int| i <= j < k ==> b[j] != '=',
    ensures
        eq_from(b, i) == k,
    decreases k - i,
{
    if i < k {
        lemma_eq_at(b, i + 1, k);
    }
}

/// A long flag without `=` that names a flag taking no value adds an entry
/// with that flag's name and no value.
pub proof fn law_long_flag_without_value(st: ParseState, l: Seq<char>)
    requires
        find_long(st.args, l) is Some,
        !find_long(st.args, l).unwrap().takes_value,
        no_eq_from(l, 0),
    ensures
        token_step(st, "--"@ + l) == Ok::<ParseState, Failure>(
            ParseState {
                args: st.args,
                matches: st.matches.push((find_long(st.args, l).unwrap().name, None)),
            },
        ),
{
    reveal_strlit("--");
    let t = "--"@ + l;
    assert(long_body(t) =~= l);
    lemma_eq_at(l, 0, l.len() as int);
    assert(option_name(l) =~= l);
}

/// `--name=value` with a non-empty value, for a flag that takes a value,
/// adds an entry with the flag's name and the whole text after the first
/// `=`, later `=` included.
pub proof fn law_long_flag_with_value(st: ParseState, l: Seq<char>, v: Seq<char>)
    requires
        find_long(st.args, l) is Some,
        find_long(st.args, l).unwrap().takes_value,
        no_eq_from(l, 0),
        v.len() > 0,
    ensures
        token_step(st, "--"@ + l + "="@ + v) == Ok::<ParseState, Failure>(
            ParseState {
                args: st.args,
                matches: st.matches.push((find_long(st.args, l).unwrap().name, Some(v))),
            },
        ),
{
    reveal_strlit("--");
    reveal_strlit("=");
    let t = "--"@ + l + "="@ + v;
    let b = l + "="@ + v;
    assert(long_body(t) =~= b);
    lemma_eq_at(b, 0, l.len() as int);
    assert(option_name(b) =~= l);
    assert(option_value(b) =~= v);
}

/// `--name` alone, for a flag that takes a value, fails with a missing value.
pub proof fn law_long_flag_missing_value(st: ParseState, l: Seq<char>)
    requires
        find_long(st.args, l) is Some,
        find_long(st.args, l).unwrap().takes_value,
        no_eq_from(l, 0),
    ensures
        token_step(st, "--"@ + l) == Err::<ParseState, Failure>(Failure::MissingValue(l)),
{
    reveal_strlit("--");
    let t = "--"@ + l;
    assert(long_body(t) =~= l);
    lemma_eq_at(l, 0, l.len() as int);
    assert(option_name(l) =~= l);
}

/// `--name=x` with a non-empty `x`, for a flag that takes no value, fails
/// with an unexpected value.
pub proof fn law_long_flag_unexpected_value(st: ParseState, l: Seq<char>, x: Seq<char>)
    requires
        find_long(st.args, l) is Some,
        !find_long(st.args, l).unwrap().takes_value,
        no_eq_from(l, 0),
        x.len() > 0,
    ensures
        token_step(st, "--"@ + l + "="@ + x) == Err::<ParseState, Failure>(
            Failure::UnexpectedValue(l, x),
        ),
{
    reveal_strlit("--");
    reveal_strlit("=");
    let t = "--"@ + l + "="@ + x;
    let b = l + "="@ + x;
    assert(long_body(t) =~= b);
    lemma_eq_at(b, 0, l.len() as int);
    assert(option_name(b) =~= l);
    assert(option_value(b) =~= x);
}

/// A group of two short flags that take no value resolves both, in order.
pub proof fn law_short_group_of_two(st: ParseState, a: char, b: char)
    requires
        a != '-',
        find_short(st.args, seq![a]) is Some,
        !find_short(st.args, seq![a]).unwrap().takes_value,
        find_short(st.args, seq![b]) is Some,
        !find_short(st.args, seq![b]).unwrap().takes_value,
    ensures
        token_step(st, seq!['-', a, b]) == Ok::<ParseState, Failure>(
            ParseState {
                args: st.args,
                matches: st.matches.push((find_short(st.args, seq![a]).unwrap().name, None)).push(
                    (find_short(st.args, seq![b]).unwrap().name, None),
                ),
            },
        ),
{
    let t = seq!['-', a, b];
    let g = t.subrange(1, 3);
    assert(g.subrange(0, 1) =~= seq![a]);
    let g1 = g.subrange(1, 2);
    assert(g1 =~= seq![b]);
    assert(g1.subrange(0, 1) =~= seq![b]);
    assert(g1.subrange(1, 1) =~= Seq::<char>::empty());
    let mid = ParseState {
        args: st.args,
        matches: st.matches.push((find_short(st.args, seq![a]).unwrap().name, None)),
    };
    let last = ParseState {
        args: st.args,
        matches: mid.matches.push((find_short(st.args, seq![b]).unwrap().name, None)),
    };
    assert(short_group(last, g1.subrange(1, 1)) == Ok::<ParseState, Failure>(last));
    assert(short_group(mid, g1) == Ok::<ParseState, Failure>(last));
    assert(g.subrange(1, 2) =~= g1);
    assert(short_group(st, g) == Ok::<ParseState, Failure>(last));
}

proof fn lemma_open_from(args: Seq<ArgModel>, i: int)
    requires
        0 <= i,
    ensures
        open_from(args, i) matches Some(k) ==> i <= k < args.len() && is_open(args[k])
            && forall|j: int| i <= j < k ==> !is_open(#[trigger] args[j]),
        open_from(args, i) is None ==> forall|j: int| i <= j < args.len() ==> !is_open(
            #[trigger] args[j],
        ),
    decreases args.len() - i,
{
    if i < args.len() && !is_open(args[i]) {
        lemma_open_from(args, i + 1);
    }
}

/// A bare token goes to the first positional parameter, in declaration
/// order, that has not received one; that parameter then takes no other.
/// Where none is left the token is refused.
pub proof fn law_positional_fill(st: ParseState, t: Seq<char>)
    requires
        !(t.len() >= 1 && t[0] == '-'),
    ensures
        next_open(st.args) matches Some(k) ==> {
            &&& forall|j: int| 0 <= j < k ==> !is_open(#[trigger] st.args[j])
            &&& is_open(st.args[k])
            &&& token_step(st, t) == Ok::<ParseState, Failure>(
                ParseState {
                    args: claim(st.args, k),
                    matches: st.matches.push((st.args[k].name, Some(t))),
                },
            )
            &&& !is_open(claim(st.args, k)[k])
        },
        next_open(st.args) is None ==> token_step(st, t) == Err::<ParseState, Failure>(
            Failure::InvalidPositional(t),
        ),
{
    lemma_open_from(st.args, 0);
}

/// The names of the positional parameters from position `i` on that have
/// not received a token, in declaration order.
pub open spec fn open_names_from(args: Seq<ArgModel>, i: int) -> Seq<Seq<char>>
    decreases args.len() - i,
{
    if i < 0 || i >= args.len() {
        Seq::empty()
    } else if is_open(args[i]) {
        seq![args[i].name] + open_names_from(args, i + 1)
    } else {
        open_names_from(args, i + 1)
    }
}

/// The names of the positional parameters that have not received a token,
/// in declaration order.
pub open spec fn open_names(args: Seq<ArgModel>) -> Seq<Seq<char>> {
    open_names_from(args, 0)
}

/// The entries that bare tokens `xs` give to the open slots named `os`.
pub open spec fn filled(os: Seq<Seq<char>>, xs: Seq<Seq<char>>) -> Seq<EntryModel> {
    Seq::new(xs.len(), |j: int| (os[j], Some(xs[j])))
}

/// A token that does not begin with a dash.
pub open spec fn is_bare(t: Seq<char>) -> bool {
    !(t.len() >= 1 && t[0] == '-')
}

proof fn lemma_claim_after(args: Seq<ArgModel>, k: int, j: int)
    requires
        0 <= k < args.len(),
        k < j,
    ensures
        open_names_from(claim(args, k), j) == open_names_from(args, j),
    decreases args.len() - j,
{
    if j < args.len() {
        lemma_claim_after(args, k, j + 1);
        assert(claim(args, k)[j] == args[j]);
    }
}

proof fn lemma_claim_open(args: Seq<ArgModel>, i: int)
    requires
        0 <= i,
    ensures
        open_from(args, i) is None <==> open_names_from(args, i).len() == 0,
        open_from(args, i) matches Some(k) ==> {
            &&& args[k].name == open_names_from(args, i)[0]
            &&& open_names_from(claim(args, k), i) == open_names_from(args, i).drop_first()
        },
    decreases args.len() - i,
{
    if i < args.len() {
        lemma_claim_open(args, i + 1);
        if let Some(k) = open_from(args, i) {
            lemma_open_from(args, i);
            if k == i {
                lemma_claim_after(args, k, i + 1);
                assert(open_names_from(claim(args, k), i) =~= open_names_from(args, i).drop_first());
            } else {
                assert(claim(args, k)[i] == args[i]);
            }
        }
    }
}

proof fn lemma_fill_from(st: ParseState, toks: Seq<Seq<char>>, i: int)
    requires
        1 <= i <= toks.len(),
        forall|j: int| 1 <= j < toks.len() ==> is_bare(#[trigger] toks[j]),
    ensures
        ({
            let os = open_names(st.args);
            let xs = toks.subrange(i, toks.len() as int);
            &&& xs.len() <= os.len() ==> (tokens_from(st, toks, i) matches Ok(done)
                && done.matches == st.matches + filled(os, xs) && open_names(done.args)
                == os.subrange(xs.len() as int, os.len() as int))
            &&& xs.len() > os.len() ==> tokens_from(st, toks, i) == Err::<ParseState, Failure>(
                Failure::InvalidPositional(toks[i + os.len() as int]),
            )
        }),
    decreases toks.len() - i,
{
    let os = open_names(st.args);
    let xs = toks.subrange(i, toks.len() as int);
    lemma_claim_open(st.args, 0);
    if i == toks.len() {
        assert(st.matches + filled(os, xs) =~= st.matches);
        assert(os.subrange(0, os.len() as int) =~= os);
    } else {
        let t = toks[i];
        assert(is_bare(t));
        match next_open(st.args) {
            None => {},
            Some(k) => {
                let next = ParseState {
                    args: claim(st.args, k),
                    matches: st.matches.push((st.args[k].name, Some(t))),
                };
                assert(token_step(st, t) == Ok::<ParseState, Failure>(next));
                lemma_fill_from(next, toks, i + 1);
                let os2 = open_names(next.args);
                let xs2 = toks.subrange(i + 1, toks.len() as int);
                assert(os2 == os.drop_first());
                if xs.len() <= os.len() {
                    assert(next.matches + filled(os2, xs2) =~= st.matches + filled(os, xs));
                    assert(os2.subrange(xs2.len() as int, os2.len() as int) =~= os.subrange(
                        xs.len() as int,
                        os.len() as int,
                    ));
                } else {
                    assert(i + 1 + os2.len() == i + os.len());
                }
            },
        }
    }
}

/// Bare tokens fill the open positional slots one each, in declaration
/// order: while slots are left each token gives one entry naming the next
/// slot, and the first token with no slot left is refused.
pub proof fn law_positionals_fill_in_order(st: ParseState, toks: Seq<Seq<char>>)
    requires
        toks.len() >= 1,
        forall|j: int| 1 <= j < toks.len() ==> is_bare(#[trigger] toks[j]),
    ensures
        ({
            let os = open_names(st.args);
            let xs = toks.subrange(1, toks.len() as int);
            &&& xs.len() <= os.len() ==> (tokens_from(st, toks, 1) matches Ok(done)
                && done.matches == st.matches + filled(os, xs) && open_names(done.args)
                == os.subrange(xs.len() as int, os.len() as int))
            &&& xs.len() > os.len() ==> tokens_from(st, toks, 1) == Err::<ParseState, Failure>(
                Failure::InvalidPositional(toks[1 + os.len() as int]),
            )
        }),
{
    lemma_fill_from(st, toks, 1);
}

/// A lone optional positional parameter is never reported missing.
pub proof fn law_lone_optional_positional(args: Seq<ArgModel>, ms: Seq<EntryModel>)
    requires
        positionals(args).len() == 1,
        !positionals(args)[0].required,
    ensures
        validation(args, ms) is None,
{
}

proof fn lemma_missing_at(ps: Seq<ArgModel>, ms: Seq<EntryModel>, i: int, k: int)
    requires
        0 <= i <= k < ps.len(),
        !present(ms, ps[k].name),
        forall|j: int| i <= j < k ==> present(ms, (#[trigger] ps[j]).name),
    ensures
        missing_from(ps, ms, i) == Some(ps[k].name),
    decreases k - i,
{
    if i < k {
        lemma_missing_at(ps, ms, i + 1, k);
    }
}

/// With two or more positional parameters, the first one in declaration
/// order that received no token is reported, by its name in upper case.
pub proof fn law_first_missing_positional(args: Seq<ArgModel>, ms: Seq<EntryModel>, k: int)
    requires
        positionals(args).len() >= 2,
        0 <= k < positionals(args).len(),
        !present(ms, positionals(args)[k].name),
        forall|j: int| 0 <= j < k ==> present(ms, (#[trigger] positionals(args)[j]).name),
    ensures
        validation(args, ms) == Some(
            Failure::MissingRequiredPositional(upper_of(positionals(args)[k].name)),
        ),
{
    lemma_missing_at(positionals(args), ms, 0, k);
}

/// Once the tokens are consumed, a `help` or `version` entry settles the
/// invocation as shown help or version, whatever the positional check
/// would have said.
pub proof fn law_builtin_flags_win(st: ParseState, toks: Seq<Seq<char>>)
    requires
        !has_duplicates(st.args),
        tokens_from(st, toks, 1) matches Ok(done) && shortcut_from(done.matches, 0) is Some,
    ensures
        invocation(st, toks) == Ok::<Verdict, Failure>(Verdict::Help) || invocation(st, toks)
            == Ok::<Verdict, Failure>(Verdict::Version),
{
}

/// Engines with the same declarations and the same parse state come to the
/// same verdict on the same tokens, whatever their metadata.
pub proof fn law_same_input_same_verdict(a: AppModel, b: AppModel, toks: Seq<Seq<char>>)
    requires
        a.args == b.args,
        a.matches == b.matches,
    ensures
        invocation(a.state(), toks) == invocation(b.state(), toks),
{
}

/// A fresh engine whose only positional parameter is optional accepts an
/// invocation with no tokens after the program's path, with an empty match
/// set.
pub proof fn law_lone_optional_positional_no_tokens(st: ParseState, toks: Seq<Seq<char>>)
    requires
        positionals(st.args).len() == 1,
        !positionals(st.args)[0].required,
        !has_duplicates(st.args),
        st.matches.len() == 0,
        toks.len() <= 1,
    ensures
        invocation(st, toks) == Ok::<Verdict, Failure>(Verdict::Matched(Seq::empty())),
{
    assert(st.matches =~= Seq::<EntryModel>::empty());
}

proof fn lemma_shortcut_at(ms: Seq<EntryModel>, i: int, k: int)
    requires
        0 <= i <= k < ms.len(),
        ms[k].0 == "help"@ || ms[k].0 == "version"@,
        forall|j: int| i <= j < k ==> (#[trigger] ms[j]).0 != "help"@ && ms[j].0 != "version"@,
    ensures
        shortcut_from(ms, i) == if ms[k].0 == "version"@ {
            Some(Shortcut::Version)
        } else {
            Some(Shortcut::Help)
        },
    decreases k - i,
{
    if i < k {
        lemma_shortcut_at(ms, i + 1, k);
    }
}

/// The first `help` or `version` entry of the match set decides between
/// showing help and showing the version.
pub proof fn law_first_builtin_decides(
    st: ParseState,
    toks: Seq<Seq<char>>,
    done: ParseState,
    k: int,
)
    requires
        !has_duplicates(st.args),
        tokens_from(st, toks, 1) == Ok::<ParseState, Failure>(done),
        0 <= k < done.matches.len(),
        done.matches[k].0 == "help"@ || done.matches[k].0 == "version"@,
        forall|j: int|
            0 <= j < k ==> (#[trigger] done.matches[j]).0 != "help"@ && done.matches[j].0
                != "version"@,
    ensures
        invocation(st, toks) == if done.matches[k].0 == "version"@ {
            Ok::<Verdict, Failure>(Verdict::Version)
        } else {
            Ok::<Verdict, Failure>(Verdict::Help)
        },
{
    lemma_shortcut_at(done.matches, 0, k);
}

} // verus!
