use rawrgs::{App, Arg, ArgError, ArgMatches, Invocation};

fn tokens(v: &[&str]) -> Vec<String> {
    let mut out = vec!["prog".to_string()];
    for t in v {
        out.push(t.to_string());
    }
    out
}

fn matched(r: Result<Invocation, ArgError>) -> ArgMatches {
    match r {
        Ok(Invocation::Matches(m)) => m,
        other => panic!("expected a match set, got {:?}", other),
    }
}

fn failed(r: Result<Invocation, ArgError>) -> ArgError {
    match r {
        Err(e) => e,
        other => panic!("expected an error, got {:?}", other),
    }
}

fn entries(m: &ArgMatches) -> Vec<(String, Option<String>)> {
    m.get_matches()
        .iter()
        .map(|e| (e.name().clone(), e.value().cloned()))
        .collect()
}

fn flags_app() -> App {
    App::new("prog")
        .arg(Arg::with_name("verbose").long("verbose"))
        .arg(Arg::with_name("output").long("output").takes_value(true))
}

#[test]
fn long_flag_without_value_is_present() {
    let m = matched(flags_app().get_matches_from(tokens(&["--verbose"])));
    assert!(m.is_present("verbose"));
    assert_eq!(m.value_of("verbose"), None);
    assert_eq!(entries(&m), vec![("verbose".to_string(), None)]);
}

#[test]
fn long_flag_with_value() {
    let m = matched(flags_app().get_matches_from(tokens(&["--output=out.txt"])));
    assert_eq!(m.value_of("output"), Some(&"out.txt".to_string()));
}

#[test]
fn long_flag_value_splits_at_first_equals() {
    let m = matched(flags_app().get_matches_from(tokens(&["--output=a=b"])));
    assert_eq!(m.value_of("output"), Some(&"a=b".to_string()));
}

#[test]
fn long_flag_missing_value() {
    let e = failed(flags_app().get_matches_from(tokens(&["--output"])));
    assert_eq!(e, ArgError::MissingValue("output".to_string()));
    assert_eq!(
        e.message(),
        "Option output takes a value but none was supplied. Try --help for usage instructions"
    );
}

#[test]
fn long_flag_empty_value_is_missing() {
    let e = failed(flags_app().get_matches_from(tokens(&["--output="])));
    assert_eq!(e, ArgError::MissingValue("output".to_string()));
}

#[test]
fn long_flag_unexpected_value() {
    let e = failed(flags_app().get_matches_from(tokens(&["--verbose=x"])));
    assert_eq!(e, ArgError::UnexpectedValue("verbose".to_string(), "x".to_string()));
    assert_eq!(
        e.message(),
        "Option verbose does not take a value but x was supplied. Try --help for usage instructions"
    );
}

#[test]
fn unknown_long_option() {
    let e = failed(flags_app().get_matches_from(tokens(&["--nope"])));
    assert_eq!(e, ArgError::UnknownOption("--nope".to_string()));
    assert_eq!(e.message(), "--nope is not a valid option. Try --help for usage instructions");
}

#[test]
fn unknown_short_option_names_the_character() {
    let e = failed(flags_app().get_matches_from(tokens(&["-z"])));
    assert_eq!(e, ArgError::UnknownOption("z".to_string()));
}

#[test]
fn grouped_short_flags_resolve_in_order() {
    let app = App::new("prog")
        .arg(Arg::with_name("all").short("a"))
        .arg(Arg::with_name("brief").short("b"));
    let m = matched(app.get_matches_from(tokens(&["-ab"])));
    assert_eq!(
        entries(&m),
        vec![("all".to_string(), None), ("brief".to_string(), None)]
    );
}

#[test]
fn short_flag_gets_its_name_as_long_spelling() {
    let app = App::new("prog").arg(Arg::with_name("human").short("H"));
    let m = matched(app.get_matches_from(tokens(&["--human"])));
    assert!(m.is_present("human"));
}

#[test]
fn short_flag_that_takes_a_value_has_none() {
    let app = App::new("prog").arg(Arg::with_name("name").short("n").takes_value(true));
    let e = failed(app.get_matches_from(tokens(&["-n"])));
    assert_eq!(e, ArgError::MissingValue("n".to_string()));
}

#[test]
fn lone_dash_is_an_empty_group() {
    let m = matched(flags_app().get_matches_from(tokens(&["-"])));
    assert_eq!(entries(&m), vec![]);
}

fn two_positionals() -> App {
    App::new("prog")
        .arg(Arg::with_name("source"))
        .arg(Arg::with_name("target"))
}

#[test]
fn positionals_fill_in_declaration_order() {
    let m = matched(two_positionals().get_matches_from(tokens(&["x", "y"])));
    assert_eq!(
        entries(&m),
        vec![
            ("source".to_string(), Some("x".to_string())),
            ("target".to_string(), Some("y".to_string()))
        ]
    );
}

#[test]
fn extra_positional_is_invalid() {
    let e = failed(two_positionals().get_matches_from(tokens(&["x", "y", "z"])));
    assert_eq!(e, ArgError::InvalidPositional("z".to_string()));
    assert_eq!(
        e.message(),
        "Invalid positional argument: z. Try --help for usage instructions"
    );
}

#[test]
fn positional_without_declaration_is_invalid() {
    let e = failed(App::new("prog").get_matches_from(tokens(&["x"])));
    assert_eq!(e, ArgError::InvalidPositional("x".to_string()));
}

#[test]
fn lone_optional_positional_may_be_omitted() {
    let app = App::new("prog").arg(Arg::with_name("file"));
    let m = matched(app.get_matches_from(tokens(&[])));
    assert!(!m.is_present("file"));
    assert_eq!(m.len(), 0);
}

#[test]
fn lone_required_positional_is_reported() {
    let app = App::new("prog").arg(Arg::with_name("file").required(true));
    let e = failed(app.get_matches_from(tokens(&[])));
    assert_eq!(e, ArgError::MissingRequiredPositional("FILE".to_string()));
}

#[test]
fn first_missing_positional_is_reported_in_upper_case() {
    let e = failed(two_positionals().get_matches_from(tokens(&["x"])));
    assert_eq!(e, ArgError::MissingRequiredPositional("TARGET".to_string()));
    assert_eq!(
        e.message(),
        "Missing required argument: TARGET. Try --help for usage instructions"
    );
}

#[test]
fn all_missing_positionals_report_the_first() {
    let e = failed(two_positionals().get_matches_from(tokens(&[])));
    assert_eq!(e, ArgError::MissingRequiredPositional("SOURCE".to_string()));
}

#[test]
fn help_wins_over_missing_positional() {
    let app = App::new("prog")
        .about("Test program")
        .arg(Arg::with_name("file").required(true));
    match app.get_matches_from(tokens(&["--help"])) {
        Ok(Invocation::Help(text)) => assert_eq!(
            text,
            "Test program\n\nUSAGE:\n  prog [OPTIONS] FILE\n\nOPTIONS:\n  -h --help    \n  -v --version \n\n"
        ),
        other => panic!("expected help, got {:?}", other),
    }
}

#[test]
fn help_table_lists_declared_flags() {
    let app = App::new("tool")
        .about("About")
        .arg(Arg::with_name("gender").long("gender").help("Specify your gender"));
    let text = app.help_text();
    assert_eq!(
        text,
        "About\n\nUSAGE:\n  tool [OPTIONS]\n\nOPTIONS:\n  -h --help    \n  -v --version \n     --gender  Specify your gender\n\n"
    );
}

#[test]
fn version_short_flag_wins() {
    let app = App::new("prog").version("0.1").arg(Arg::with_name("file").required(true));
    match app.get_matches_from(tokens(&["-v"])) {
        Ok(Invocation::Version(text)) => assert_eq!(text, "prog 0.1"),
        other => panic!("expected version, got {:?}", other),
    }
}

#[test]
fn first_builtin_entry_decides() {
    let app = App::new("prog").version("2");
    match app.get_matches_from(tokens(&["-h", "--version"])) {
        Ok(Invocation::Help(_)) => {}
        other => panic!("expected help, got {:?}", other),
    }
}

#[test]
fn error_before_help_is_reported() {
    let e = failed(App::new("prog").get_matches_from(tokens(&["--bad", "--help"])));
    assert_eq!(e, ArgError::UnknownOption("--bad".to_string()));
}

#[test]
fn same_declarations_same_result() {
    let make = || {
        App::new("prog")
            .arg(Arg::with_name("verbose").short("V"))
            .arg(Arg::with_name("input"))
    };
    let a = matched(make().get_matches_from(tokens(&["-V", "in.txt"])));
    let b = matched(make().get_matches_from(tokens(&["-V", "in.txt"])));
    assert_eq!(entries(&a), entries(&b));
    assert_eq!(
        entries(&a),
        vec![
            ("verbose".to_string(), None),
            ("input".to_string(), Some("in.txt".to_string()))
        ]
    );
}

#[test]
fn parse_argument_step_by_step() {
    let mut app = flags_app().arg(Arg::with_name("file"));
    assert_eq!(app.parse_argument("--verbose".to_string()), Ok(()));
    assert_eq!(app.parse_argument("a.txt".to_string()), Ok(()));
    assert_eq!(
        app.parse_argument("b.txt".to_string()),
        Err(ArgError::InvalidPositional("b.txt".to_string()))
    );
    let m = app.get_arg_matches();
    assert_eq!(m.value_of("file"), Some(&"a.txt".to_string()));
    assert!(m.is_present("verbose"));
}

#[test]
fn value_of_returns_first_entry() {
    let app = App::new("prog").arg(Arg::with_name("out").long("out").takes_value(true));
    let m = matched(app.get_matches_from(tokens(&["--out=1", "--out=2"])));
    assert_eq!(m.value_of("out"), Some(&"1".to_string()));
    assert_eq!(m.len(), 2);
    assert_eq!(m.value_of("missing"), None);
}

#[test]
fn usage_line_names_positionals_in_upper_case() {
    let app = App::new("prog").arg(Arg::with_name("src")).arg(Arg::with_name("dest"));
    assert_eq!(app.usage_line(), "prog [OPTIONS] SRC DEST");
}

#[test]
fn declaring_third_positional_makes_it_required() {
    let app = App::new("prog")
        .arg(Arg::with_name("a"))
        .arg(Arg::with_name("b"))
        .arg(Arg::with_name("c"));
    let e = failed(app.get_matches_from(tokens(&["1", "2"])));
    assert_eq!(e, ArgError::MissingRequiredPositional("C".to_string()));
}

#[test]
fn duplicate_names_are_detected() {
    let app = App::new("prog").arg(Arg::with_name("x")).arg(Arg::with_name("y"));
    assert!(!app.has_duplicate_names());
    let app = app.arg(Arg::with_name("help").long("assist"));
    assert!(app.has_duplicate_names());
}

#[test]
fn match_set_iterates_in_resolution_order() {
    let app = App::new("prog")
        .arg(Arg::with_name("level").long("level").takes_value(true))
        .arg(Arg::with_name("quiet").short("q"));
    let m = matched(app.get_matches_from(tokens(&["-q", "--level=3"])));
    let names: Vec<String> = m.into_iter().map(|e| e.name().clone()).collect();
    assert_eq!(names, vec!["quiet".to_string(), "level".to_string()]);
}

#[test]
fn version_line_joins_name_and_version() {
    let app = App::new("tool").version("1.2.3").author("someone");
    assert_eq!(app.version_line(), "tool 1.2.3");
}

#[test]
fn double_dash_prefix_keeps_third_dash_in_name() {
    let e = failed(flags_app().get_matches_from(tokens(&["---verbose"])));
    assert_eq!(e, ArgError::UnknownOption("---verbose".to_string()));
}

#[test]
fn empty_token_list_gives_empty_match_set() {
    let m = matched(flags_app().get_matches_from(vec![]));
    assert_eq!(m.len(), 0);
}

#[test]
fn duplicate_names_are_refused() {
    let app = App::new("prog").arg(Arg::with_name("x")).arg(Arg::with_name("x"));
    let e = failed(app.get_matches_from(tokens(&["a", "b"])));
    assert_eq!(e, ArgError::DuplicateNames);
    assert_eq!(e.message(), "Two parameters are declared with the same name");
}

#[test]
fn failed_long_flag_leaves_match_set_unchanged() {
    let mut app = flags_app();
    assert_eq!(app.parse_argument("--verbose".to_string()), Ok(()));
    assert_eq!(
        app.parse_argument("--output".to_string()),
        Err(ArgError::MissingValue("output".to_string()))
    );
    assert_eq!(entries(app.get_arg_matches()), vec![("verbose".to_string(), None)]);
}

#[test]
fn failed_short_group_keeps_earlier_characters() {
    let mut app = App::new("prog")
        .arg(Arg::with_name("all").short("a"))
        .arg(Arg::with_name("brief").short("b"));
    assert_eq!(
        app.parse_argument("-azb".to_string()),
        Err(ArgError::UnknownOption("z".to_string()))
    );
    assert_eq!(entries(app.get_arg_matches()), vec![("all".to_string(), None)]);
}

#[test]
fn positionals_fill_over_repeated_calls() {
    let mut app = two_positionals();
    assert_eq!(app.parse_argument("x".to_string()), Ok(()));
    assert_eq!(app.parse_argument("y".to_string()), Ok(()));
    assert_eq!(
        app.parse_argument("z".to_string()),
        Err(ArgError::InvalidPositional("z".to_string()))
    );
    assert_eq!(
        entries(app.get_arg_matches()),
        vec![
            ("source".to_string(), Some("x".to_string())),
            ("target".to_string(), Some("y".to_string()))
        ]
    );
}
