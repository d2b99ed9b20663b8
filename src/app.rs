//! The engine: fluent declarations, then the consumption and validation of
//! one invocation's tokens.

use vstd::prelude::*;
use crate::arg::{Arg, ArgModel};
use crate::args::{Args, builtin_args, positionals, options, arg_views};
use crate::help::{options_text, option_rows, upper_names, rows_view, option_row, options_table};
use crate::matches::{ArgMatches, EntryModel};
use crate::error::{ArgError, Failure};
use crate::model::{
    ParseState, is_long_token, is_short_token, eq_from, long_step, short_step, short_group, short_group_reached, lemma_short_group_reached, token_reached,
    positional_step, token_step, tokens_from, Shortcut, shortcut_from, missing_from, validation,
    invocation, Verdict, has_duplicates, names, same_shape, lemma_same_shape_parts,
};
use crate::text::{owned, same_text, uppercase};

verus! {

/// The mathematical content of an engine.
pub struct AppModel {
    pub name: Seq<char>,
    pub author: Seq<char>,
    pub version: Seq<char>,
    pub about: Seq<char>,
    pub args: Seq<ArgModel>,
    pub matches: Seq<EntryModel>,
    pub bin_path: Seq<char>,
}

impl AppModel {
    /// The part of the engine that a parse changes.
    pub open spec fn state(self) -> ParseState {
        ParseState { args: self.args, matches: self.matches }
    }

    /// The engine with its parse state replaced by `st`.
    pub open spec fn with_state(self, st: ParseState) -> AppModel {
        AppModel { args: st.args, matches: st.matches, ..self }
    }

    /// The registry after declaring `a`: a flag with a short spelling and no
    /// long one gets its name as long spelling, and a parameter declared
    /// after two or more positionals is required.
    pub open spec fn declare(self, a: ArgModel) -> Seq<ArgModel> {
        let a1 = if a.long.len() == 0 && a.short.len() != 0 {
            ArgModel { long: a.name, ..a }
        } else {
            a
        };
        let a2 = if positionals(self.args).len() > 1 {
            ArgModel { required: true, ..a1 }
        } else {
            a1
        };
        self.args.push(a2)
    }
}

/// Whether a step on `old` that was to come to `expect` ended in `new` with
/// result `r`. After a failure only the declarations and metadata are kept.
pub open spec fn stepped(
    old: AppModel,
    new: AppModel,
    r: Result<(), ArgError>,
    expect: Result<ParseState, Failure>,
) -> bool {
    match expect {
        Ok(st) => r is Ok && new == old.with_state(st),
        Err(f) => match r {
            Ok(_) => false,
            Err(e) => e@ == f && new.args == old.args && new.name == old.name && new.author
                == old.author && new.version == old.version && new.about == old.about
                && new.bin_path == old.bin_path,
        },
    }
}

/// The spelling kind of a flag token.
pub(crate) enum FlagType {
    Long,
    Short,
}

/// What one invocation comes to when it does not fail.
#[derive(Debug)]
pub enum Invocation {
    /// The resolved parameters.
    Matches(ArgMatches),
    /// `help` was given: the help text to show.
    Help(String),
    /// `version` was given: the version line to show.
    Version(String),
}

/// The engine: declarations, metadata for display, and the match set of the
/// invocation being parsed.
pub struct App {
    name: &'static str,
    author: &'static str,
    version: &'static str,
    about: &'static str,
    matches: ArgMatches,
    args: Args,
    bin_path: String,
}

impl View for App {
    type V = AppModel;

    closed spec fn view(&self) -> AppModel {
        AppModel {
            name: self.name@,
            author: self.author@,
            version: self.version@,
            about: self.about@,
            args: self.args@,
            matches: self.matches@,
            bin_path: self.bin_path@,
        }
    }
}

impl App {
    /// An engine called `name` that knows only the built-in `help` and
    /// `version` flags.
    pub fn new(name: &'static str) -> (r: App)
        ensures
            r@ == (AppModel {
                name: name@,
                author: Seq::empty(),
                version: Seq::empty(),
                about: Seq::empty(),
                args: builtin_args(),
                matches: Seq::empty(),
                bin_path: Seq::empty(),
            }),
    {
        proof {
            reveal_strlit("");
        }
        let r = App {
            name: name,
            author: "",
            version: "",
            about: "",
            args: Args::with_defaults(),
            matches: ArgMatches::new(),
            bin_path: String::new(),
        };
        assert(r@.author =~= Seq::<char>::empty());
        r
    }

    pub fn author(self, author: &'static str) -> (r: App)
        ensures
            r@ == (AppModel { author: author@, ..self@ }),
    {
        App { author: author, ..self }
    }

    pub fn version(self, version: &'static str) -> (r: App)
        ensures
            r@ == (AppModel { version: version@, ..self@ }),
    {
        App { version: version, ..self }
    }

    pub fn about(self, about: &'static str) -> (r: App)
        ensures
            r@ == (AppModel { about: about@, ..self@ }),
    {
        App { about: about, ..self }
    }

    /// Declares `arg`.
    pub fn arg(self, arg: Arg) -> (r: App)
        ensures
            r@ == (AppModel { args: self@.declare(arg@), ..self@ }),
    {
        let mut arg = arg;
        if arg.get_long().is_empty() && !arg.get_short().is_empty() {
            arg = arg.long(arg.get_name());
        }
        let ps = self.args.get_positionals();
        proof {
            assert(arg_views(ps@).len() == ps@.len());
        }
        if ps.len() > 1 {
            arg = arg.required(true);
        }
        let App { name, author, version, about, matches, args, bin_path } = self;
        App { name, author, version, about, matches, args: args.push(arg), bin_path }
    }

    /// Whether two declarations share a name; lookups by name then see only
    /// the first of them.
    pub fn has_duplicate_names(&self) -> (r: bool)
        ensures
            r == has_duplicates(self@.args),
    {
        let n = self.args.len();
        let mut i: usize = 0;
        while i < n
            invariant
                n == self@.args.len(),
                i <= n,
                forall|a: int, b: int|
                    0 <= a < i && a < b < n ==> self@.args[a].name != self@.args[b].name,
            decreases n - i,
        {
            let mut j: usize = i + 1;
            while j < n
                invariant
                    n == self@.args.len(),
                    i < n,
                    i + 1 <= j <= n,
                    forall|a: int, b: int|
                        0 <= a < i && a < b < n ==> self@.args[a].name != self@.args[b].name,
                    forall|b: int| i < b < j ==> self@.args[i as int].name != self@.args[b].name,
                decreases n - j,
            {
                if same_text(self.args.get(i).get_name(), self.args.get(j).get_name()) {
                    return true;
                }
                j = j + 1;
            }
            i = i + 1;
        }
        false
    }

    /// The match set gathered so far.
    pub fn get_arg_matches(&self) -> (r: &ArgMatches)
        ensures
            r@ == self@.matches,
    {
        &self.matches
    }

    /// Consumes one token: a long flag, a group of short flags, or a
    /// positional value.
    pub fn parse_argument(&mut self, current_arg: String) -> (r: Result<(), ArgError>)
        ensures
            stepped(old(self)@, final(self)@, r, token_step(old(self)@.state(), current_arg@)),
            final(self)@ == old(self)@.with_state(token_reached(old(self)@.state(), current_arg@)),
            old(self)@.matches.is_prefix_of(final(self)@.matches),
            same_shape(old(self)@.args, final(self)@.args),
    {
        let t = current_arg.as_str();
        let n = t.unicode_len();
        if n >= 2 && t.get_char(0) == '-' && t.get_char(1) == '-' {
            self.consume_flag(t, FlagType::Long)
        } else if n >= 1 && t.get_char(0) == '-' {
            let group = t.substring_char(1, n);
            let g = group.unicode_len();
            let ghost start = self@;
            let mut i: usize = 0;
            proof {
                assert(group@.subrange(0, g as int) =~= group@);
                assert(is_short_token(current_arg@));
                assert(token_step(start.state(), current_arg@) == short_group(start.state(), group@));
                assert(token_reached(start.state(), current_arg@) == short_group_reached(
                    start.state(),
                    group@,
                ));
            }
            while i < g
                invariant
                    g == group@.len(),
                    current_arg@.len() >= 1,
                    group@ == current_arg@.subrange(1, current_arg@.len() as int),
                    i <= g,
                    short_group(start.state(), group@) == short_group(
                        self@.state(),
                        group@.subrange(i as int, g as int),
                    ),
                    short_group_reached(start.state(), group@) == short_group_reached(
                        self@.state(),
                        group@.subrange(i as int, g as int),
                    ),
                    self@ == start.with_state(self@.state()),
                    self@.args == start.args,
                    start == old(self)@,
                    token_step(start.state(), current_arg@) == short_group(start.state(), group@),
                    token_reached(start.state(), current_arg@) == short_group_reached(
                        start.state(),
                        group@,
                    ),
                decreases g - i,
            {
                let c = group.substring_char(i, i + 1);
                let ghost rest = group@.subrange(i as int, g as int);
                proof {
                    assert(rest.subrange(0, 1) =~= c@);
                    assert(rest.subrange(1, rest.len() as int) =~= group@.subrange(
                        i + 1,
                        g as int,
                    ));
                }
                let ghost before = self@;
                let step = self.consume_flag(c, FlagType::Short);
                if step.is_err() {
                    assert(short_group(before.state(), rest) == short_step(before.state(), c@));
                    assert(short_group_reached(before.state(), rest) == before.state());
                    proof {
                        lemma_short_group_reached(start.state(), group@);
                    }
                    return step;
                }
                assert(short_group(before.state(), rest) == short_group(self@.state(), group@.subrange(i + 1, g as int)));
                i = i + 1;
            }
            proof {
                assert(group@.subrange(g as int, g as int) =~= Seq::<char>::empty());
                lemma_short_group_reached(start.state(), group@);
            }
            Ok(())
        } else {
            self.consume_positional(t)
        }
    }

    /// Gives `current_arg` to the first open positional parameter.
    pub(crate) fn consume_positional(&mut self, current_arg: &str) -> (r: Result<(), ArgError>)
        ensures
            stepped(old(self)@, final(self)@, r, positional_step(old(self)@.state(), current_arg@)),
            r is Err ==> final(self)@ == old(self)@,
            same_shape(old(self)@.args, final(self)@.args),
    {
        match self.args.match_positional() {
            Some(k) => {
                let name = self.args.get(k).get_name();
                proof {
                    let (a, b) = (old(self)@.args, self@.args);
                    assert forall|i: int| 0 <= i < a.len() implies {
                        &&& #[trigger] b[i] == ArgModel { matched: b[i].matched, ..a[i] }
                        &&& (!a[i].is_positional() ==> b[i].matched == a[i].matched)
                    } by {}
                }
                self.matches.add(owned(name), Some(owned(current_arg)));
                Ok(())
            },
            None => Err(ArgError::InvalidPositional(owned(current_arg))),
        }
    }

    /// Resolves one flag: a whole long flag token, or a single short flag
    /// character.
    pub(crate) fn consume_flag(&mut self, current_arg: &str, flag_type: FlagType) -> (r: Result<
        (),
        ArgError,
    >)
        requires
            flag_type is Long ==> is_long_token(current_arg@),
        ensures
            flag_type is Long ==> stepped(
                old(self)@,
                final(self)@,
                r,
                long_step(old(self)@.state(), current_arg@),
            ),
            flag_type is Short ==> stepped(
                old(self)@,
                final(self)@,
                r,
                short_step(old(self)@.state(), current_arg@),
            ),
            final(self)@.args == old(self)@.args,
            r is Err ==> final(self)@ == old(self)@,
    {
        let n = current_arg.unicode_len();
        let (input_option_name, input_option_value) = match flag_type {
            FlagType::Long => {
                let body = current_arg.substring_char(2, n);
                let (k, b) = first_eq(body);
                if k < b {
                    (body.substring_char(0, k), body.substring_char(k + 1, b))
                } else {
                    proof {
                        reveal_strlit("");
                        assert(body@.subrange(0, b as int) =~= body@);
                    }
                    (body, "")
                }
            },
            FlagType::Short => {
                proof {
                    reveal_strlit("");
                }
                (current_arg, "")
            },
        };
        let found: Option<Arg> = match flag_type {
            FlagType::Long => match self.args.match_long(input_option_name) {
                Some(a) => Some(*a),
                None => None,
            },
            FlagType::Short => match self.args.match_short(input_option_name) {
                Some(a) => Some(*a),
                None => None,
            },
        };
        match found {
            None => Err(ArgError::UnknownOption(owned(current_arg))),
            Some(a) => {
                let has_value = !input_option_value.is_empty();
                if a.get_takes_value() && !has_value {
                    Err(ArgError::MissingValue(owned(input_option_name)))
                } else if !a.get_takes_value() && has_value {
                    Err(
                        ArgError::UnexpectedValue(
                            owned(input_option_name),
                            owned(input_option_value),
                        ),
                    )
                } else {
                    let value = if has_value {
                        Some(owned(input_option_value))
                    } else {
                        None
                    };
                    self.matches.add(owned(a.get_name()), value);
                    Ok(())
                }
            },
        }
    }

    /// Which built-in flag, if any, the match set holds first.
    pub fn check_internal_flags(&self) -> (r: Option<Shortcut>)
        ensures
            r == shortcut_from(self@.matches, 0),
    {
        let n = self.matches.len();
        let mut i: usize = 0;
        while i < n
            invariant
                n == self@.matches.len(),
                i <= n,
                shortcut_from(self@.matches, 0) == shortcut_from(self@.matches, i as int),
            decreases n - i,
        {
            let name = self.matches.name_at(i);
            if same_text(name.as_str(), "version") {
                return Some(Shortcut::Version);
            } else if same_text(name.as_str(), "help") {
                return Some(Shortcut::Help);
            }
            i = i + 1;
        }
        None
    }

    /// Checks that the positional parameters received their tokens: a lone
    /// optional positional may be left out; otherwise the first positional
    /// without an entry is reported, by its name in upper case.
    pub fn validate_positionals(&self) -> (r: Result<(), ArgError>)
        ensures
            match validation(self@.args, self@.matches) {
                Some(f) => match r {
                    Ok(_) => false,
                    Err(e) => e@ == f,
                },
                None => r is Ok,
            },
    {
        let declared = self.args.get_positionals();
        let ghost ps = arg_views(declared@);
        proof {
            assert(ps.len() == declared@.len());
            if ps.len() > 0 {
                assert(ps[0] == declared@[0]@);
            }
        }
        if declared.len() == 1 && !declared[0].get_required() {
            return Ok(());
        }
        let mut i: usize = 0;
        while i < declared.len()
            invariant
                ps == arg_views(declared@),
                ps == positionals(self@.args),
                ps.len() == declared@.len(),
                i <= ps.len(),
                missing_from(ps, self@.matches, 0) == missing_from(ps, self@.matches, i as int),
                !(ps.len() == 1 && !ps[0].required),
            decreases declared.len() - i,
        {
            let a = declared[i];
            assert(ps[i as int] == a@);
            if !self.matches.is_present(a.get_name()) {
                return Err(ArgError::MissingRequiredPositional(uppercase(a.get_name())));
            }
            i = i + 1;
        }
        Ok(())
    }

    /// The usage line: the engine's name, `[OPTIONS]` where flags are
    /// declared, and the positional names in upper case.
    pub fn usage_line(&self) -> (r: String)
        ensures
            r@ == usage_of(self@),
    {
        let options = self.args.get_options();
        let declared = self.args.get_positionals();
        let ghost ps = arg_views(declared@);
        let ghost ns = names(ps);
        let mut usage = owned(self.name);
        if options.len() > 0 {
            usage = usage.concat(" [OPTIONS]");
        }
        proof {
            assert(arg_views(options@).len() == options@.len());
            assert(ns.take(0) =~= Seq::<Seq<char>>::empty());
        }
        let ghost head = usage@;
        let mut i: usize = 0;
        while i < declared.len()
            invariant
                ps == arg_views(declared@),
                ps.len() == declared@.len(),
                i <= ps.len(),
                ns == names(ps),
                usage@ == head + upper_names(ns.take(i as int)),
            decreases declared.len() - i,
        {
            let a = declared[i];
            assert(ps[i as int] == a@);
            let upper = uppercase(a.get_name());
            usage = usage.concat(" ").concat(upper.as_str());
            assert(ns.take(i + 1).drop_last() =~= ns.take(i as int));
            assert(ns.take(i + 1).last() == a@.name);
            i = i + 1;
        }
        assert(ns.take(i as int) =~= ns);
        usage
    }

    /// The help text: the about text, the usage line, and a table of the
    /// flags where any are declared.
    pub fn help_text(&self) -> (r: String)
        ensures
            r@ == help_text_of(self@),
    {
        let usage = self.usage_line();
        let text = owned(self.about).concat("\n\n").concat("USAGE:\n").concat("  ").concat(
            usage.as_str(),
        ).concat("\n\n");
        let options = self.args.get_options();
        let ghost os = arg_views(options@);
        if options.len() == 0 {
            return text;
        }
        let mut rows: Vec<Vec<String>> = Vec::new();
        let mut i: usize = 0;
        while i < options.len()
            invariant
                os == arg_views(options@),
                os.len() == options@.len(),
                i <= os.len(),
                rows_view(rows@) == option_rows(os.take(i as int)),
                forall|j: int| 0 <= j < rows@.len() ==> (#[trigger] rows@[j])@.len() == 4,
            decreases options.len() - i,
        {
            let row = option_row(&options[i]);
            assert(os[i as int] == options@[i as int]@);
            assert(row@.len() == row@.map_values(|c: String| c@).len());
            let ghost before = rows@;
            rows.push(row);
            assert(rows@ == before.push(row));
            proof {
                let (lhs, rhs) = (rows_view(rows@), option_rows(os.take(i + 1)));
                assert(rows_view(before).len() == before.len());
                assert(option_rows(os.take(i as int)).len() == i);
                assert(lhs.len() == rows@.len());
                assert(rhs.len() == i + 1);
                assert forall|j: int| 0 <= j < lhs.len() implies lhs[j] == rhs[j] by {
                    if j < i {
                        assert(rows_view(before)[j] == option_rows(os.take(i as int))[j]);
                    }
                }
                assert(lhs =~= rhs);
            }
            i = i + 1;
        }
        assert(os.take(i as int) =~= os);
        let table = options_table(&rows);
        text.concat("OPTIONS:\n").concat(table.as_str()).concat("\n")
    }

    /// The version line: the engine's name and its version.
    pub fn version_line(&self) -> (r: String)
        ensures
            r@ == self@.name + " "@ + self@.version,
    {
        owned(self.name).concat(" ").concat(self.version)
    }

    /// Rejects declarations that share a name, then consumes an invocation's
    /// tokens, the first of which is the program's path, and settles the
    /// outcome: the help text or the version line when
    /// the built-in flags were given, otherwise the checked match set.
    pub fn get_matches_from(self, tokens: Vec<String>) -> (r: Result<Invocation, ArgError>)
        ensures
            match invocation(self@.state(), strings_view(tokens@)) {
                Err(f) => match r {
                    Ok(_) => false,
                    Err(e) => e@ == f,
                },
                Ok(Verdict::Matched(ms)) => match r {
                    Ok(Invocation::Matches(m)) => m@ == ms,
                    _ => false,
                },
                Ok(Verdict::Help) => match r {
                    Ok(Invocation::Help(text)) => text@ == help_text_of(self@),
                    _ => false,
                },
                Ok(Verdict::Version) => match r {
                    Ok(Invocation::Version(text)) => text@ == self@.name + " "@ + self@.version,
                    _ => false,
                },
            },
    {
        if self.has_duplicate_names() {
            return Err(ArgError::DuplicateNames);
        }
        let mut app = self;
        let ghost toks = strings_view(tokens@);
        if tokens.len() > 0 {
            app.bin_path = tokens[0].clone();
        }
        let ghost start = app@;
        let mut i: usize = 1;
        while i < tokens.len()
            invariant
                toks == strings_view(tokens@),
                1 <= i,
                tokens@.len() == 0 ==> i == 1,
                tokens@.len() > 0 ==> i <= tokens@.len(),
                tokens_from(self@.state(), toks, 1) == tokens_from(app@.state(), toks, i as int),
                app@ == start.with_state(app@.state()),
                start.name == self@.name && start.version == self@.version && start.about
                    == self@.about && start.args == self@.args,
                same_shape(self@.args, app@.args),
                !has_duplicates(self@.args),
            decreases tokens.len() - i,
        {
            let t = tokens[i].clone();
            assert(toks[i as int] == t@);
            let step = app.parse_argument(t);
            match step {
                Err(e) => {
                    return Err(e);
                },
                Ok(_) => {},
            }
            i = i + 1;
        }
        match app.check_internal_flags() {
            Some(Shortcut::Version) => {
                return Ok(Invocation::Version(app.version_line()));
            },
            Some(Shortcut::Help) => {
                proof {
                    lemma_same_shape_parts(self@.args, app@.args);
                }
                return Ok(Invocation::Help(app.help_text()));
            },
            None => {},
        }
        match app.validate_positionals() {
            Err(e) => Err(e),
            Ok(_) => Ok(Invocation::Matches(app.matches)),
        }
    }
}

/// The usage line of an engine.
pub open spec fn usage_of(m: AppModel) -> Seq<char> {
    m.name + (if options(m.args).len() > 0 {
        " [OPTIONS]"@
    } else {
        Seq::empty()
    }) + upper_names(names(positionals(m.args)))
}

/// The help text of an engine.
pub open spec fn help_text_of(m: AppModel) -> Seq<char> {
    m.about + "\n\n"@ + "USAGE:\n"@ + "  "@ + usage_of(m) + "\n\n"@ + if options(m.args).len() > 0 {
        "OPTIONS:\n"@ + options_text(option_rows(options(m.args))) + "\n"@
    } else {
        Seq::empty()
    }
}

/// The views of a sequence of owned texts.
pub open spec fn strings_view(v: Seq<String>) -> Seq<Seq<char>> {
    v.map_values(|s: String| s@)
}


/// The position of the first `=` in `body` and the length of `body`.
fn first_eq(body: &str) -> (r: (usize, usize))
    ensures
        r.1 == body@.len(),
        r.0 == eq_from(body@, 0),
        r.0 <= r.1,
{
    let b = body.unicode_len();
    let mut k: usize = 0;
    while k < b
        invariant
            b == body@.len(),
            k <= b,
            eq_from(body@, 0) == eq_from(body@, k as int),
        decreases b - k,
    {
        if body.get_char(k) == '=' {
            return (k, b);
        }
        k = k + 1;
    }
    (k, b)
}

} // verus!
