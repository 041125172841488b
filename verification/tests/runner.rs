use shorthand::config::parameter::{Error as ExtractionError, ParamConfigs, ParamDef};
use shorthand::config::{CommandConfig, CommandConfigs, Config, DefaultConfig};
use shorthand::opt::{Opt, Parameter};
use shorthand::runner::{
    assemble, can_run, compose_value, resolve, run_command, CommandComposer, Error, Execution,
};
use shorthand::util::cstring::{str_to_cstring, CString};
use shorthand::util::value::{Referable, SingleOrVec};

fn words(words: &[&str]) -> Vec<String> {
    words.iter().map(|w| w.to_string()).collect()
}

fn cstrings(words: &[&str]) -> Vec<CString> {
    words.iter().map(|w| str_to_cstring(w)).collect()
}

fn strings(args: &[CString]) -> Vec<String> {
    args.iter().map(|arg| String::from_utf8(arg.as_bytes().to_vec()).expect("utf-8")).collect()
}

fn params(defs: &[(&str, &[&str])]) -> ParamConfigs {
    let mut table = ParamConfigs::new();
    for (name, templates) in defs {
        table.insert(name.to_string(), ParamDef::new(SingleOrVec::Vec(words(templates))));
    }
    table
}

fn defaults(passthrough: bool, placeholder: &str) -> DefaultConfig {
    DefaultConfig { passthrough_unknown_command: passthrough, placeholder: placeholder.to_string() }
}

fn git_commit() -> CommandConfig {
    CommandConfig {
        base: SingleOrVec::Vec(words(&["git", "commit"])),
        placeholder: None,
        headparams: params(&[("nopager", &["--no-pager"]), ("dir", &["-C", "{}"])]),
        middleparams: params(&[
            ("message", &["-m", "{}"]),
            ("verbose", &["-v"]),
            ("author", &["--author={}"]),
        ]),
        tailparams: params(&[("path", &["--", "{}"])]),
    }
}

fn config(passthrough: bool) -> Config {
    let mut command = CommandConfigs::new();
    command.insert("commit".to_string(), git_commit());
    command.insert(
        "ls".to_string(),
        CommandConfig {
            base: SingleOrVec::Single("ls".to_string()),
            placeholder: Some("%".to_string()),
            headparams: ParamConfigs::new(),
            middleparams: params(&[("color", &["--color=%"]), ("braces", &["{}"])]),
            tailparams: ParamConfigs::new(),
        },
    );
    Config { default: defaults(passthrough, "{}"), command }
}

fn parameter(name: &str, value: Option<&str>) -> Parameter {
    Parameter { name: name.to_string(), value: value.map(|v| v.to_string()) }
}

fn opt(command: &str, parameters: Vec<Parameter>, args: &[&str]) -> Opt {
    Opt {
        debug: false,
        verbose: false,
        dry_run: false,
        list: false,
        passthrough: None,
        command: Some(command.to_string()),
        parameters,
        args: args.iter().map(|a| a.as_bytes().to_vec()).collect(),
    }
}

fn exec_args(execution: Execution) -> Vec<String> {
    match execution {
        Execution::Exec { args, .. } => strings(&args),
        Execution::Print(args) => strings(&args),
    }
}

#[test]
fn assemble_puts_head_arguments_behind_the_executable() {
    let args = assemble(
        &words(&["git", "commit"]),
        &cstrings(&["-v"]),
        &cstrings(&["-m", "msg"]),
        &cstrings(&[]),
        &[],
    );
    assert_eq!(strings(&args), ["git", "-v", "commit", "-m", "msg"]);
}

#[test]
fn assemble_lays_out_all_six_parts_in_order() {
    let args = assemble(
        &words(&["exe", "sub", "cmd"]),
        &cstrings(&["h1", "h2"]),
        &cstrings(&["m1", "m2"]),
        &cstrings(&["t1", "t2"]),
        &[b"x1".to_vec(), b"x2".to_vec()],
    );
    assert_eq!(
        strings(&args),
        ["exe", "h1", "h2", "sub", "cmd", "m1", "m2", "x1", "x2", "t1", "t2"]
    );
}

#[test]
fn assemble_with_only_an_executable() {
    let args = assemble(&words(&["ls"]), &[], &[], &[], &[]);
    assert_eq!(strings(&args), ["ls"]);
    let args = assemble(&words(&["ls"]), &[], &[], &cstrings(&["t"]), &[b"x".to_vec()]);
    assert_eq!(strings(&args), ["ls", "x", "t"]);
}

#[test]
fn assemble_hands_extra_arguments_through_byte_for_byte() {
    let args = assemble(&words(&["cat"]), &[], &[], &[], &[vec![0xff, 0xfe], vec![]]);
    assert_eq!(args.len(), 3);
    assert_eq!(args[1].as_bytes(), [0xff, 0xfe]);
    assert_eq!(args[2].as_bytes(), b"");
}

#[test]
fn compose_value_prefers_the_call_then_the_command_then_the_default() {
    assert_eq!(*compose_value(&1, &Some(2), &Some(3)), 3);
    assert_eq!(*compose_value(&1, &None, &Some(3)), 3);
    assert_eq!(*compose_value(&1, &Some(2), &None), 2);
    assert_eq!(*compose_value(&1, &None, &None), 1);
}

#[test]
fn resolve_finds_a_defined_command_and_borrows_it() {
    let config = config(false);
    let found = resolve(&config, "commit", &None).expect("commit is defined");
    assert!(matches!(found, Referable::Borrowed(_)));
    assert_eq!(found.base.as_slice(), words(&["git", "commit"]));
    assert!(std::ptr::eq(&*found, config.command.get("commit").expect("defined")));
    let found = resolve(&config, "commit", &Some(true)).expect("commit is defined");
    assert!(matches!(found, Referable::Borrowed(_)));
}

#[test]
fn resolve_refuses_an_undefined_command_without_passthrough() {
    let config = config(false);
    let Err(Error::CommandIsNotDefined(name)) = resolve(&config, "undefined", &Some(false)) else {
        panic!("an undefined command is refused");
    };
    assert_eq!(name, "undefined");
    assert!(matches!(resolve(&config, "undefined", &None), Err(Error::CommandIsNotDefined(_))));
}

#[test]
fn resolve_passes_an_undefined_command_through() {
    let config = config(false);
    let found = resolve(&config, "undefined", &Some(true)).expect("passed through");
    assert!(matches!(found, Referable::Owned(_)));
    assert_eq!(found.base.as_slice(), words(&["undefined"]));
    assert!(matches!(found.base, SingleOrVec::Single(_)));
    assert_eq!(found.placeholder, None);
    assert!(found.headparams.is_empty());
    assert!(found.middleparams.is_empty());
    assert!(found.tailparams.is_empty());
}

#[test]
fn a_passed_through_command_takes_no_parameters() {
    let config = config(false);
    let found = resolve(&config, "undefined", &Some(true)).expect("passed through");
    let mut composer = CommandComposer::new(&config.default, &found);
    for given in [parameter("any", None), parameter("message", Some("x")), parameter("", None)] {
        let Err(Error::UnknownParameter(name)) = composer.add_parameter(&given) else {
            panic!("a command that is passed through has no parameters");
        };
        assert_eq!(name, given.name);
    }
    assert_eq!(strings(&composer.exec_args(&[])), ["undefined"]);
}

#[test]
fn passthrough_of_the_call_goes_before_that_of_the_configuration() {
    let on = config(true);
    assert!(resolve(&on, "undefined", &None).is_ok());
    assert!(resolve(&on, "undefined", &Some(true)).is_ok());
    assert!(matches!(
        resolve(&on, "undefined", &Some(false)),
        Err(Error::CommandIsNotDefined(_))
    ));
    let off = config(false);
    assert!(resolve(&off, "undefined", &None).is_err());
    assert!(resolve(&off, "undefined", &Some(true)).is_ok());
}

#[test]
fn the_placeholder_of_the_command_goes_before_the_global_one() {
    let config = config(false);
    let ls = config.command.get("ls").expect("defined");
    let mut composer = CommandComposer::new(&config.default, ls);
    composer.add_parameter(&parameter("color", Some("auto"))).expect("% is the placeholder");
    let Err(Error::ArgumentExtractionFailed(name, cause)) =
        composer.add_parameter(&parameter("braces", Some("x")))
    else {
        panic!("the global placeholder does not hold for this command");
    };
    assert_eq!(name, "braces");
    assert_eq!(cause, ExtractionError::ParameterValueIsNotAllowed);
    composer.add_parameter(&parameter("braces", None)).expect("{} is plain text here");
    assert_eq!(strings(&composer.exec_args(&[])), ["ls", "--color=auto", "{}"]);
}

#[test]
fn the_global_placeholder_holds_where_the_command_has_none() {
    let commit = git_commit();
    let percent = defaults(false, "%");
    let mut composer = CommandComposer::new(&percent, &commit);
    assert!(matches!(
        composer.add_parameter(&parameter("message", Some("x"))),
        Err(Error::ArgumentExtractionFailed(_, ExtractionError::ParameterValueIsNotAllowed))
    ));
    let braces = defaults(false, "{}");
    let mut composer = CommandComposer::new(&braces, &commit);
    composer.add_parameter(&parameter("message", Some("x"))).expect("{} is the placeholder");
    assert_eq!(strings(&composer.exec_args(&[])), ["git", "commit", "-m", "x"]);
}

#[test]
fn parameters_of_one_position_keep_their_order() {
    let config = config(false);
    let commit = config.command.get("commit").expect("defined");
    let mut composer = CommandComposer::new(&config.default, commit);
    composer.add_parameter(&parameter("verbose", None)).expect("ok");
    composer.add_parameter(&parameter("message", Some("first"))).expect("ok");
    composer.add_parameter(&parameter("author", Some("me"))).expect("ok");
    composer.add_parameter(&parameter("message", Some("second"))).expect("ok");
    assert_eq!(
        strings(&composer.exec_args(&[])),
        ["git", "commit", "-v", "-m", "first", "--author=me", "-m", "second"]
    );

    let mut composer = CommandComposer::new(&config.default, commit);
    composer.add_parameter(&parameter("message", Some("second"))).expect("ok");
    composer.add_parameter(&parameter("verbose", None)).expect("ok");
    assert_eq!(strings(&composer.exec_args(&[])), ["git", "commit", "-m", "second", "-v"]);
}

#[test]
fn parameters_go_to_their_positions_whatever_their_order() {
    let config = config(false);
    let commit = config.command.get("commit").expect("defined");
    let mut composer = CommandComposer::new(&config.default, commit);
    composer.add_parameter(&parameter("path", Some("src"))).expect("ok");
    composer.add_parameter(&parameter("message", Some("msg"))).expect("ok");
    composer.add_parameter(&parameter("dir", Some("/repo"))).expect("ok");
    composer.add_parameter(&parameter("nopager", None)).expect("ok");
    assert_eq!(
        strings(&composer.exec_args(&[b"--extra".to_vec()])),
        ["git", "-C", "/repo", "--no-pager", "commit", "-m", "msg", "--extra", "--", "src"]
    );
}

#[test]
fn an_unknown_parameter_is_an_error_and_gathers_nothing() {
    let config = config(false);
    let commit = config.command.get("commit").expect("defined");
    let mut composer = CommandComposer::new(&config.default, commit);
    composer.add_parameter(&parameter("verbose", None)).expect("ok");
    let Err(Error::UnknownParameter(name)) = composer.add_parameter(&parameter("nothing", None))
    else {
        panic!("the command has no such parameter");
    };
    assert_eq!(name, "nothing");
    assert_eq!(strings(&composer.exec_args(&[])), ["git", "commit", "-v"]);
}

#[test]
fn a_parameter_in_two_positions_is_ambiguous() {
    let command = CommandConfig {
        base: SingleOrVec::Single("tool".to_string()),
        placeholder: None,
        headparams: params(&[("both", &["-h"]), ("all", &["-a"]), ("head", &["-x"])]),
        middleparams: params(&[("both", &["-m"]), ("all", &["-a"])]),
        tailparams: params(&[("all", &["-a"]), ("tail", &["-t"])]),
    };
    let settings = defaults(false, "{}");
    let mut composer = CommandComposer::new(&settings, &command);
    for name in ["both", "all"] {
        let Err(Error::AmbiguousParameterPlacement(found)) =
            composer.add_parameter(&parameter(name, None))
        else {
            panic!("{name} stands in more than one table");
        };
        assert_eq!(found, name);
    }
    composer.add_parameter(&parameter("tail", None)).expect("in one table");
    composer.add_parameter(&parameter("head", None)).expect("in one table");
    assert_eq!(strings(&composer.exec_args(&[])), ["tool", "-x", "-t"]);
}

#[test]
fn a_failed_extraction_names_the_parameter_and_gathers_nothing() {
    let config = config(false);
    let commit = config.command.get("commit").expect("defined");
    let mut composer = CommandComposer::new(&config.default, commit);
    let Err(Error::ArgumentExtractionFailed(name, cause)) =
        composer.add_parameter(&parameter("message", None))
    else {
        panic!("message needs a value");
    };
    assert_eq!(name, "message");
    assert_eq!(cause, ExtractionError::ParameterValueIsRequired);
    let Err(Error::ArgumentExtractionFailed(name, cause)) =
        composer.add_parameter(&parameter("verbose", Some("yes")))
    else {
        panic!("verbose takes no value");
    };
    assert_eq!(name, "verbose");
    assert_eq!(cause, ExtractionError::ParameterValueIsNotAllowed);
    assert_eq!(strings(&composer.exec_args(&[])), ["git", "commit"]);
}

#[test]
fn run_command_composes_the_command_line() {
    let config = config(false);
    let call = opt(
        "commit",
        vec![parameter("verbose", None), parameter("message", Some("msg"))],
        &[],
    );
    assert!(can_run(&config, &call));
    let Ok(Execution::Exec { args, announce }) = run_command(&config, &call) else {
        panic!("the command is to be run");
    };
    assert_eq!(strings(&args), ["git", "commit", "-v", "-m", "msg"]);
    assert!(!announce);
}

#[test]
fn run_command_puts_extra_arguments_between_middle_and_tail() {
    let config = config(false);
    let call = opt(
        "commit",
        vec![
            parameter("path", Some("a.rs")),
            parameter("dir", Some("/r")),
            parameter("message", Some("m")),
        ],
        &["--dry", "x y"],
    );
    let execution = run_command(&config, &call).expect("ok");
    assert_eq!(
        exec_args(execution),
        ["git", "-C", "/r", "commit", "-m", "m", "--dry", "x y", "--", "a.rs"]
    );
}

#[test]
fn run_command_prints_on_a_dry_run() {
    let config = config(false);
    let mut call = opt("commit", vec![parameter("verbose", None)], &[]);
    call.dry_run = true;
    call.verbose = true;
    call.debug = true;
    let Ok(Execution::Print(args)) = run_command(&config, &call) else {
        panic!("a dry run prints");
    };
    assert_eq!(strings(&args), ["git", "commit", "-v"]);
}

#[test]
fn run_command_announces_when_verbose_or_debugging() {
    let config = config(false);
    let mut call = opt("ls", vec![], &[]);
    call.verbose = true;
    assert!(matches!(run_command(&config, &call), Ok(Execution::Exec { announce: true, .. })));
    call.verbose = false;
    call.debug = true;
    assert!(matches!(run_command(&config, &call), Ok(Execution::Exec { announce: true, .. })));
    call.debug = false;
    assert!(matches!(run_command(&config, &call), Ok(Execution::Exec { announce: false, .. })));
}

#[test]
fn run_command_passes_unknown_commands_through_when_asked() {
    let config = config(false);
    let mut call = opt("echo", vec![], &["hello"]);
    assert!(can_run(&config, &call));
    let Err(Error::CommandIsNotDefined(name)) = run_command(&config, &call) else {
        panic!("echo is not defined");
    };
    assert_eq!(name, "echo");
    call.passthrough = Some(true);
    assert!(can_run(&config, &call));
    assert_eq!(exec_args(run_command(&config, &call).expect("passed through")), ["echo", "hello"]);
    call.parameters = vec![parameter("n", None)];
    assert!(matches!(run_command(&config, &call), Err(Error::UnknownParameter(_))));
}

#[test]
fn run_command_stops_at_the_first_parameter_that_fails() {
    let config = config(false);
    let call = opt(
        "commit",
        vec![
            parameter("verbose", None),
            parameter("message", None),
            parameter("nothing", None),
        ],
        &[],
    );
    let Err(Error::ArgumentExtractionFailed(name, cause)) = run_command(&config, &call) else {
        panic!("message needs a value");
    };
    assert_eq!(name, "message");
    assert_eq!(cause, ExtractionError::ParameterValueIsRequired);

    let call = opt("commit", vec![parameter("nothing", None), parameter("message", None)], &[]);
    assert!(matches!(run_command(&config, &call), Err(Error::UnknownParameter(_))));
}

#[test]
fn can_run_refuses_what_cannot_be_made_into_arguments() {
    let config = config(false);
    let mut call = opt("commit", vec![], &[]);
    call.command = None;
    assert!(!can_run(&config, &call));

    let call = opt("commit", vec![parameter("message", Some("a\0b"))], &[]);
    assert!(!can_run(&config, &call));

    let mut call = opt("commit", vec![], &[]);
    call.args = vec![b"ok".to_vec(), b"not\0ok".to_vec()];
    assert!(!can_run(&config, &call));

    let mut call = opt("bad\0name", vec![], &[]);
    assert!(can_run(&config, &call));
    call.passthrough = Some(true);
    assert!(!can_run(&config, &call));
}

#[test]
fn can_run_looks_at_the_command_that_is_named() {
    let mut config = config(false);
    config.command.insert(
        "empty".to_string(),
        CommandConfig {
            base: SingleOrVec::Vec(Vec::new()),
            placeholder: None,
            headparams: ParamConfigs::new(),
            middleparams: ParamConfigs::new(),
            tailparams: ParamConfigs::new(),
        },
    );
    config.command.insert(
        "nul".to_string(),
        CommandConfig {
            base: SingleOrVec::Single("tool".to_string()),
            placeholder: None,
            headparams: ParamConfigs::new(),
            middleparams: ParamConfigs::new(),
            tailparams: params(&[("x", &["fine", "not\0fine"])]),
        },
    );
    assert!(!can_run(&config, &opt("empty", vec![], &[])));
    assert!(!can_run(&config, &opt("nul", vec![], &[])));
    assert!(can_run(&config, &opt("commit", vec![], &[])));
    assert!(can_run(&config, &opt("undefined", vec![parameter("x", Some("\0"))], &[])));
}

#[test]
fn command_definitions_say_whether_they_are_valid() {
    assert!(git_commit().is_valid());
    assert!(CommandConfig::empty_for("ls").is_valid());
    assert!(!CommandConfig::empty_for("l\0s").is_valid());
    let mut command = git_commit();
    command.base = SingleOrVec::Vec(Vec::new());
    assert!(!command.is_valid());
    let mut command = git_commit();
    command.headparams.insert("x".to_string(), ParamDef::new(SingleOrVec::Single("\0".into())));
    assert!(!command.is_valid());
    let mut command = git_commit();
    command.placeholder = Some("\0".to_string());
    assert!(command.is_valid());
}

#[test]
fn errors_in_words() {
    assert_eq!(
        Error::CommandIsNotDefined("foo".to_string()).message(),
        "command `foo` is not defined in config.yml"
    );
    assert_eq!(Error::UnknownParameter("p".to_string()).message(), "unknown parameter `p`");
    assert_eq!(
        Error::AmbiguousParameterPlacement("p".to_string()).message(),
        "ambiguous parameter placement for `p`"
    );
    assert_eq!(
        Error::ArgumentExtractionFailed("p".to_string(), ExtractionError::ParameterValueIsRequired)
            .message(),
        "parameter `p`: argument extraction failed: parameter value is required"
    );
    assert_eq!(
        Error::ArgumentExtractionFailed(
            "p".to_string(),
            ExtractionError::ParameterValueIsNotAllowed
        )
        .message(),
        "parameter `p`: argument extraction failed: parameter value is not allowed"
    );
}
