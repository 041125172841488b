//! From a command name and its parameters to the arguments of the command that is run.

use crate::config::parameter::{self, extracted, ParamDef};
use crate::config::{CommandConfig, CommandView, Config, ConfigView, DefaultConfig, DefaultView};
use crate::opt::{Opt, OptView, Parameter, ParameterView};
use crate::util::cstring::{
    arg_bytes, encoded, is_nul_free, is_text_nul_free, nul_free, str_to_cstring, text_nul_free,
    texts_nul_free, to_cstring, CString,
};
use crate::util::text::texts;
use crate::util::value::Referable;
use core::ops::Deref;
use vstd::prelude::*;

verus! {

/// Why no command line came about.
#[derive(Debug)]
pub enum Error {
    /// The command has no definition, and commands without one are not passed through.
    CommandIsNotDefined(String),
    /// The command has no parameter of this name.
    UnknownParameter(String),
    /// The command has a parameter of this name in more than one position.
    AmbiguousParameterPlacement(String),
    /// The parameter of this name could not be expanded.
    ArgumentExtractionFailed(String, parameter::Error),
}

/// What an [`Error`] holds, as plain values.
pub enum ErrorView {
    CommandIsNotDefined(Seq<char>),
    UnknownParameter(Seq<char>),
    AmbiguousParameterPlacement(Seq<char>),
    ArgumentExtractionFailed(Seq<char>, parameter::Error),
}

impl View for Error {
    type V = ErrorView;

    open spec fn view(&self) -> ErrorView {
        match self {
            Error::CommandIsNotDefined(name) => ErrorView::CommandIsNotDefined(name@),
            Error::UnknownParameter(name) => ErrorView::UnknownParameter(name@),
            Error::AmbiguousParameterPlacement(name) => ErrorView::AmbiguousParameterPlacement(
                name@,
            ),
            Error::ArgumentExtractionFailed(name, cause) => ErrorView::ArgumentExtractionFailed(
                name@,
                *cause,
            ),
        }
    }
}

impl ErrorView {
    /// The error in words.
    pub open spec fn message(self) -> Seq<char> {
        match self {
            ErrorView::CommandIsNotDefined(name) => "command `"@ + name
                + "` is not defined in config.yml"@,
            ErrorView::UnknownParameter(name) => "unknown parameter `"@ + name + "`"@,
            ErrorView::AmbiguousParameterPlacement(name) => "ambiguous parameter placement for `"@
                + name + "`"@,
            ErrorView::ArgumentExtractionFailed(name, cause) => "parameter `"@ + name
                + "`: argument extraction failed: "@ + match cause {
                parameter::Error::ParameterValueIsRequired => "parameter value is required"@,
                parameter::Error::ParameterValueIsNotAllowed => "parameter value is not allowed"@,
            },
        }
    }
}

impl Error {
    /// The error in words, as it is shown to the user.
    pub fn message(&self) -> (text: String)
        ensures
            text@ == self@.message(),
    {
        match self {
            Error::CommandIsNotDefined(name) => {
                let mut text = "command `".to_owned();
                text.append(name.as_str());
                text.append("` is not defined in config.yml");
                text
            },
            Error::UnknownParameter(name) => {
                let mut text = "unknown parameter `".to_owned();
                text.append(name.as_str());
                text.append("`");
                text
            },
            Error::AmbiguousParameterPlacement(name) => {
                let mut text = "ambiguous parameter placement for `".to_owned();
                text.append(name.as_str());
                text.append("`");
                text
            },
            Error::ArgumentExtractionFailed(name, cause) => {
                let mut text = "parameter `".to_owned();
                text.append(name.as_str());
                text.append("`: argument extraction failed: ");
                text.append(cause.message().as_str());
                text
            },
        }
    }
}

/// The value that holds where a setting can be given in three places: the one given with
/// the call, else the one of the command, else the default.
pub open spec fn composed_value<T>(default: T, cmd_val: Option<T>, opt_val: Option<T>) -> T {
    match opt_val {
        Some(value) => value,
        None => match cmd_val {
            Some(value) => value,
            None => default,
        },
    }
}

/// The value that holds where a setting can be given in three places: the one given with
/// the call, else the one of the command, else the default.
pub fn compose_value<'a, T>(default: &'a T, cmd_val: &'a Option<T>, opt_val: &'a Option<T>) -> (value:
    &'a T)
    ensures
        *value == composed_value(*default, *cmd_val, *opt_val),
{
    match opt_val {
        Some(value) => value,
        None => match cmd_val {
            Some(value) => value,
            None => default,
        },
    }
}

/// Whether a command without a definition is run under its own name: what the call asks
/// for, else what the configuration says.
pub open spec fn passthrough_enabled(default: DefaultView, requested: Option<bool>) -> bool {
    composed_value(default.passthrough_unknown_command, None, requested)
}

/// The placeholder that holds for a command: its own, else that of the configuration.
pub open spec fn effective_placeholder(default: DefaultView, command: CommandView) -> Seq<char> {
    composed_value(default.placeholder, command.placeholder, None)
}

/// The definition that a command name stands for.
///
/// A name with a definition stands for it. A name without one stands for the command of
/// that name without parameters where unknown commands are passed through, and for nothing
/// where they are not.
pub open spec fn resolved(config: ConfigView, name: Seq<char>, passthrough: Option<bool>) -> Result<
    CommandView,
    ErrorView,
> {
    if config.command.contains_key(name) {
        Ok(config.command[name])
    } else if passthrough_enabled(config.default, passthrough) {
        Ok(CommandView::empty_for(name))
    } else {
        Err(ErrorView::CommandIsNotDefined(name))
    }
}

/// Finds the definition that `command` stands for: the one in the configuration, borrowed,
/// or one made for a command that is passed through.
pub fn resolve<'a>(config: &'a Config, command: &str, passthrough: &Option<bool>) -> (result: Result<
    Referable<'a, CommandConfig>,
    Error,
>)
    ensures
        match resolved(config@, command@, *passthrough) {
            Ok(definition) => {
                &&& result matches Ok(found)
                &&& found.value()@ == definition
                &&& found is Borrowed <==> config.command@.contains_key(command@)
                &&& found is Borrowed ==> found.value() == config.command@[command@]
            },
            Err(e) => result matches Err(err) && err@ == e,
        },
{
    match config.command.get(command) {
        Some(definition) => Ok(Referable::Borrowed(definition)),
        None => {
            let no_setting: Option<bool> = None;
            if *compose_value(
                &config.default.passthrough_unknown_command,
                &no_setting,
                passthrough,
            ) {
                Ok(Referable::Owned(CommandConfig::empty_for(command)))
            } else {
                Err(Error::CommandIsNotDefined(command.to_owned()))
            }
        },
    }
}

/// The three positions in which the arguments of parameters stand.
#[derive(Debug, Clone, Copy, PartialEq, Eq, Structural)]
pub enum Slot {
    /// Right behind the executable.
    Head,
    /// Behind the fixed words of the command.
    Middle,
    /// At the end.
    Tail,
}

/// The position of the parameter `name` of `command`, and its templates.
///
/// The name must stand in exactly one of the three tables: in none it is unknown, in more
/// than one its position is ambiguous.
pub open spec fn placement(command: CommandView, name: Seq<char>) -> Result<
    (Slot, Seq<Seq<char>>),
    ErrorView,
> {
    let head = command.headparams.contains_key(name);
    let middle = command.middleparams.contains_key(name);
    let tail = command.tailparams.contains_key(name);
    if head && !middle && !tail {
        Ok((Slot::Head, command.headparams[name]))
    } else if !head && middle && !tail {
        Ok((Slot::Middle, command.middleparams[name]))
    } else if !head && !middle && tail {
        Ok((Slot::Tail, command.tailparams[name]))
    } else if !head && !middle && !tail {
        Err(ErrorView::UnknownParameter(name))
    } else {
        Err(ErrorView::AmbiguousParameterPlacement(name))
    }
}

/// The arguments gathered so far, by position.
pub struct Buckets {
    pub head: Seq<Seq<u8>>,
    pub middle: Seq<Seq<u8>>,
    pub tail: Seq<Seq<u8>>,
}

impl Buckets {
    /// No arguments in any position.
    pub open spec fn empty() -> Buckets {
        Buckets { head: seq![], middle: seq![], tail: seq![] }
    }

    /// These buckets with `args` put behind what stands at `slot`.
    pub open spec fn extended(self, slot: Slot, args: Seq<Seq<u8>>) -> Buckets {
        match slot {
            Slot::Head => Buckets { head: self.head + args, ..self },
            Slot::Middle => Buckets { middle: self.middle + args, ..self },
            Slot::Tail => Buckets { tail: self.tail + args, ..self },
        }
    }

    /// What stands at `slot`.
    pub open spec fn at(self, slot: Slot) -> Seq<Seq<u8>> {
        match slot {
            Slot::Head => self.head,
            Slot::Middle => self.middle,
            Slot::Tail => self.tail,
        }
    }
}

/// The buckets after one more parameter: its arguments stand behind what its position
/// held. A parameter that cannot be placed or expanded is an error.
pub open spec fn added(
    default: DefaultView,
    command: CommandView,
    buckets: Buckets,
    parameter: ParameterView,
) -> Result<Buckets, ErrorView> {
    match placement(command, parameter.name) {
        Ok((slot, templates)) => match extracted(
            templates,
            effective_placeholder(default, command),
            parameter.value,
        ) {
            Ok(expanded) => Ok(buckets.extended(slot, encoded(expanded))),
            Err(cause) => Err(ErrorView::ArgumentExtractionFailed(parameter.name, cause)),
        },
        Err(e) => Err(e),
    }
}

/// The buckets after `parameters`, taken one by one in their order. The first parameter
/// that fails decides the error.
pub open spec fn added_all(
    default: DefaultView,
    command: CommandView,
    buckets: Buckets,
    parameters: Seq<ParameterView>,
) -> Result<Buckets, ErrorView>
    decreases parameters.len(),
{
    if parameters.len() == 0 {
        Ok(buckets)
    } else {
        match added(default, command, buckets, parameters[0]) {
            Ok(next) => added_all(default, command, next, parameters.skip(1)),
            Err(e) => Err(e),
        }
    }
}

/// The command line: the executable, the head arguments, the other fixed words, the middle
/// arguments, the arguments handed through, the tail arguments.
pub open spec fn assembled(
    base: Seq<Seq<u8>>,
    head: Seq<Seq<u8>>,
    middle: Seq<Seq<u8>>,
    tail: Seq<Seq<u8>>,
    extra: Seq<Seq<u8>>,
) -> Seq<Seq<u8>>
    recommends
        base.len() >= 1,
{
    seq![base[0]] + head + base.skip(1) + middle + extra + tail
}

/// The bytes of each of `args`.
pub open spec fn byte_runs(args: Seq<Vec<u8>>) -> Seq<Seq<u8>> {
    args.map_values(|arg: Vec<u8>| arg@)
}

/// None of `args` holds a NUL byte.
pub open spec fn runs_nul_free(args: Seq<Seq<u8>>) -> bool {
    forall|i: int| 0 <= i < args.len() ==> nul_free(#[trigger] args[i])
}

/// Puts copies of `more` behind `args`.
fn push_args(args: &mut Vec<CString>, more: &[CString])
    ensures
        arg_bytes(final(args)@) == arg_bytes(old(args)@) + arg_bytes(more@),
{
    let n = more.len();
    let mut i: usize = 0;
    while i < n
        invariant
            n == more@.len(),
            i <= n,
            arg_bytes(args@) == arg_bytes(old(args)@) + arg_bytes(more@.take(i as int)),
        decreases n - i,
    {
        let ghost before = args@;
        args.push(more[i].clone());
        assert(arg_bytes(args@) =~= arg_bytes(before).push(more@[i as int]@));
        i += 1;
    }
}

/// Lays out a command line. The executable, `base[0]`, leads; the head arguments follow
/// it; then come the other words of `base`, the middle arguments, the arguments handed
/// through and the tail arguments.
pub fn assemble(
    base: &[String],
    head: &[CString],
    middle: &[CString],
    tail: &[CString],
    extra_args: &[Vec<u8>],
) -> (args: Vec<CString>)
    requires
        base@.len() >= 1,
        texts_nul_free(texts(base@)),
        runs_nul_free(byte_runs(extra_args@)),
    ensures
        arg_bytes(args@) == assembled(
            encoded(texts(base@)),
            arg_bytes(head@),
            arg_bytes(middle@),
            arg_bytes(tail@),
            byte_runs(extra_args@),
        ),
{
    let ghost words = encoded(texts(base@));
    let ghost extra = byte_runs(extra_args@);
    let mut args: Vec<CString> = Vec::new();
    assert(text_nul_free(texts(base@)[0]));
    args.push(str_to_cstring(base[0].as_str()));
    push_args(&mut args, head);
    let n = base.len();
    let mut i: usize = 1;
    while i < n
        invariant
            n == base@.len(),
            1 <= i <= n,
            texts_nul_free(texts(base@)),
            words == encoded(texts(base@)),
            arg_bytes(args@) == seq![words[0]] + arg_bytes(head@) + words.subrange(1, i as int),
        decreases n - i,
    {
        let ghost before = args@;
        assert(text_nul_free(texts(base@)[i as int]));
        args.push(str_to_cstring(base[i].as_str()));
        assert(arg_bytes(args@) =~= arg_bytes(before).push(words[i as int]));
        i += 1;
    }
    push_args(&mut args, middle);
    let m = extra_args.len();
    let mut k: usize = 0;
    let ghost front = arg_bytes(args@);
    while k < m
        invariant
            m == extra_args@.len(),
            k <= m,
            extra == byte_runs(extra_args@),
            runs_nul_free(extra),
            arg_bytes(args@) == front + extra.take(k as int),
        decreases m - k,
    {
        let ghost before = args@;
        assert(nul_free(extra[k as int]));
        let bytes = extra_args[k].clone();
        args.push(to_cstring(bytes));
        assert(arg_bytes(args@) =~= arg_bytes(before).push(extra[k as int]));
        k += 1;
    }
    push_args(&mut args, tail);
    args
}

/// Gathers the arguments of the parameters of one command, in the three positions.
pub struct CommandComposer<'a> {
    default_config: &'a DefaultConfig,
    cmd_config: &'a CommandConfig,
    head_args: Vec<CString>,
    middle_args: Vec<CString>,
    tail_args: Vec<CString>,
}

impl<'a> CommandComposer<'a> {
    /// The settings for all commands that the composer works with.
    pub closed spec fn defaults(&self) -> DefaultConfig {
        *self.default_config
    }

    /// The definition of the command that the composer works on.
    pub closed spec fn command(&self) -> CommandConfig {
        *self.cmd_config
    }

    /// The arguments gathered so far.
    pub closed spec fn buckets(&self) -> Buckets {
        Buckets {
            head: arg_bytes(self.head_args@),
            middle: arg_bytes(self.middle_args@),
            tail: arg_bytes(self.tail_args@),
        }
    }

    /// A composer for `cmd_config` that has gathered nothing yet.
    pub fn new(default_config: &'a DefaultConfig, cmd_config: &'a CommandConfig) -> (composer: Self)
        ensures
            composer.defaults() == *default_config,
            composer.command() == *cmd_config,
            composer.buckets() == Buckets::empty(),
    {
        let composer = CommandComposer {
            default_config,
            cmd_config,
            head_args: Vec::new(),
            middle_args: Vec::new(),
            tail_args: Vec::new(),
        };
        assert(composer.buckets().tail =~= Buckets::empty().tail);
        composer
    }

    /// Takes one parameter: finds its position, puts the value into its templates, and
    /// puts the arguments that result behind those that the position holds. On an error
    /// nothing is gathered. NUL cannot stand in an argument: the templates of the
    /// parameter and its value must be free of it.
    pub fn add_parameter(&mut self, param: &Parameter) -> (result: Result<(), Error>)
        requires
            placement(old(self).command()@, param@.name) matches Ok(target) ==> {
                &&& texts_nul_free(target.1)
                &&& param@.value matches Some(value) ==> text_nul_free(value)
            },
        ensures
            final(self).defaults() == old(self).defaults(),
            final(self).command() == old(self).command(),
            match added(old(self).defaults()@, old(self).command()@, old(self).buckets(), param@) {
                Ok(buckets) => result is Ok && final(self).buckets() == buckets,
                Err(e) => result matches Err(err) && err@ == e && final(self).buckets() == old(
                    self,
                ).buckets(),
            },
    {
        let no_setting: Option<String> = None;
        let placeholder = compose_value(
            &self.default_config.placeholder,
            &self.cmd_config.placeholder,
            &no_setting,
        );
        let (slot, param_def) = match self.select_param_target(param.name.as_str()) {
            Ok(target) => target,
            Err(e) => {
                return Err(e);
            },
        };
        let mut extracted = match param_def.extract_as_cstrings(placeholder.as_str(), &param.value) {
            Ok(extracted) => extracted,
            Err(cause) => {
                return Err(Error::ArgumentExtractionFailed(param.name.clone(), cause));
            },
        };
        let ghost more = extracted@;
        match slot {
            Slot::Head => {
                let ghost before = self.head_args@;
                self.head_args.append(&mut extracted);
                assert(arg_bytes(self.head_args@) =~= arg_bytes(before) + arg_bytes(more));
            },
            Slot::Middle => {
                let ghost before = self.middle_args@;
                self.middle_args.append(&mut extracted);
                assert(arg_bytes(self.middle_args@) =~= arg_bytes(before) + arg_bytes(more));
            },
            Slot::Tail => {
                let ghost before = self.tail_args@;
                self.tail_args.append(&mut extracted);
                assert(arg_bytes(self.tail_args@) =~= arg_bytes(before) + arg_bytes(more));
            },
        }
        Ok(())
    }

    /// The position of the parameter `name` and its definition.
    fn select_param_target(&self, name: &str) -> (result: Result<(Slot, &'a ParamDef), Error>)
        ensures
            match placement(self.command()@, name@) {
                Ok((slot, templates)) => result matches Ok(target) && target.0 == slot && target.1@
                    == templates,
                Err(e) => result matches Err(err) && err@ == e,
            },
    {
        match (
            self.cmd_config.headparams.get(name),
            self.cmd_config.middleparams.get(name),
            self.cmd_config.tailparams.get(name),
        ) {
            (Some(def), None, None) => Ok((Slot::Head, def)),
            (None, Some(def), None) => Ok((Slot::Middle, def)),
            (None, None, Some(def)) => Ok((Slot::Tail, def)),
            (None, None, None) => Err(Error::UnknownParameter(name.to_owned())),
            _ => Err(Error::AmbiguousParameterPlacement(name.to_owned())),
        }
    }

    /// The command line made of the words of the command, the arguments gathered, and
    /// `extra_args`, which are handed through as they are. The command must name an
    /// executable, and NUL must stand neither in its words nor in `extra_args`.
    pub fn exec_args(&self, extra_args: &[Vec<u8>]) -> (args: Vec<CString>)
        requires
            self.command()@.base.len() >= 1,
            texts_nul_free(self.command()@.base),
            runs_nul_free(byte_runs(extra_args@)),
        ensures
            arg_bytes(args@) == assembled(
                encoded(self.command()@.base),
                self.buckets().head,
                self.buckets().middle,
                self.buckets().tail,
                byte_runs(extra_args@),
            ),
    {
        assemble(
            self.cmd_config.base.as_slice(),
            self.head_args.as_slice(),
            self.middle_args.as_slice(),
            self.tail_args.as_slice(),
            extra_args,
        )
    }
}

/// What is to be done with a command line.
#[derive(Debug)]
pub enum Execution {
    /// The command line is printed and not run.
    Print(Vec<CString>),
    /// The command is run, in place of this program; where `announce` is set the command
    /// line is first written to diagnostic output.
    Exec { args: Vec<CString>, announce: bool },
}

/// What an [`Execution`] holds, as plain values.
pub enum ExecutionView {
    Print(Seq<Seq<u8>>),
    Exec { args: Seq<Seq<u8>>, announce: bool },
}

impl View for Execution {
    type V = ExecutionView;

    open spec fn view(&self) -> ExecutionView {
        match self {
            Execution::Print(args) => ExecutionView::Print(arg_bytes(args@)),
            Execution::Exec { args, announce } => ExecutionView::Exec {
                args: arg_bytes(args@),
                announce: *announce,
            },
        }
    }
}

/// None of `parameters` has a value that holds the NUL character.
pub open spec fn values_nul_free(parameters: Seq<ParameterView>) -> bool {
    forall|i: int|
        0 <= i < parameters.len() ==> ((#[trigger] parameters[i]).value matches Some(value)
            ==> text_nul_free(value))
}

/// The call can be answered: a command is named, and if it stands for a definition, that
/// definition can be made into a command line and NUL stands in no value and in no
/// argument that is handed through.
pub open spec fn runnable(config: ConfigView, opt: OptView) -> bool {
    &&& opt.command matches Some(name)
    &&& resolved(config, name, opt.passthrough) matches Ok(command) ==> {
        &&& command.valid()
        &&& values_nul_free(opt.parameters)
        &&& runs_nul_free(opt.args)
    }
}

/// What is to be done for a call: the command line of the command it names, with its
/// parameters expanded in their order, printed for a dry run and run otherwise.
pub open spec fn planned(config: ConfigView, opt: OptView) -> Result<ExecutionView, ErrorView>
    recommends
        opt.command is Some,
{
    match resolved(config, opt.command->0, opt.passthrough) {
        Ok(command) => match added_all(config.default, command, Buckets::empty(), opt.parameters) {
            Ok(buckets) => {
                let args = assembled(
                    encoded(command.base),
                    buckets.head,
                    buckets.middle,
                    buckets.tail,
                    opt.args,
                );
                if opt.dry_run {
                    Ok(ExecutionView::Print(args))
                } else {
                    Ok(ExecutionView::Exec { args, announce: opt.debug || opt.verbose })
                }
            },
            Err(e) => Err(e),
        },
        Err(e) => Err(e),
    }
}

/// Whether the call can be answered by [`run_command`].
#[verifier::loop_isolation(false)]
pub fn can_run(config: &Config, opt: &Opt) -> (ok: bool)
    ensures
        ok == runnable(config@, opt@),
{
    let command = match &opt.command {
        Some(command) => command,
        None => {
            return false;
        },
    };
    match resolve(config, command.as_str(), &opt.passthrough) {
        Ok(found) => {
            if !found.deref().is_valid() {
                return false;
            }
        },
        Err(_) => {
            return true;
        },
    }
    let n = opt.parameters.len();
    let mut i: usize = 0;
    while i < n
        invariant
            n == opt@.parameters.len(),
            n == opt.parameters@.len(),
            i <= n,
            forall|j: int|
                0 <= j < i ==> ((#[trigger] opt@.parameters[j]).value matches Some(value)
                    ==> text_nul_free(value)),
        decreases n - i,
    {
        assert(opt@.parameters[i as int] == opt.parameters@[i as int]@);
        match &opt.parameters[i].value {
            Some(value) => {
                if !is_text_nul_free(value.as_str()) {
                    return false;
                }
            },
            None => {},
        }
        i += 1;
    }
    let m = opt.args.len();
    let mut k: usize = 0;
    while k < m
        invariant
            m == opt@.args.len(),
            m == opt.args@.len(),
            k <= m,
            forall|j: int| 0 <= j < k ==> nul_free(#[trigger] opt@.args[j]),
        decreases m - k,
    {
        assert(opt@.args[k as int] == opt.args@[k as int]@);
        if !is_nul_free(opt.args[k].as_slice()) {
            return false;
        }
        k += 1;
    }
    true
}

/// Answers a call: finds the command, expands its parameters one by one in the order in
/// which they were given, lays out the command line, and says what is to be done with it.
///
/// The first parameter that cannot be placed or expanded ends the work with its error.
#[verifier::loop_isolation(false)]
pub fn run_command(config: &Config, opt: &Opt) -> (result: Result<Execution, Error>)
    requires
        runnable(config@, opt@),
    ensures
        match planned(config@, opt@) {
            Ok(plan) => result matches Ok(execution) && execution@ == plan,
            Err(e) => result matches Err(err) && err@ == e,
        },
{
    let command = opt.command.as_ref().unwrap();
    let found = match resolve(config, command.as_str(), &opt.passthrough) {
        Ok(found) => found,
        Err(e) => {
            return Err(e);
        },
    };
    let cmd_config = found.deref();
    let mut composer = CommandComposer::new(&config.default, cmd_config);
    let ghost parameters = opt@.parameters;
    let n = opt.parameters.len();
    let mut i: usize = 0;
    assert(parameters.skip(0) =~= parameters);
    while i < n
        invariant
            n == opt.parameters@.len(),
            parameters == opt@.parameters,
            n == parameters.len(),
            i <= n,
            values_nul_free(parameters),
            composer.defaults() == config.default,
            composer.command() == *cmd_config,
            cmd_config@.valid(),
            added_all(
                config@.default,
                cmd_config@,
                composer.buckets(),
                parameters.skip(i as int),
            ) == added_all(config@.default, cmd_config@, Buckets::empty(), parameters),
        decreases n - i,
    {
        let param = &opt.parameters[i];
        assert(parameters.skip(i as int).skip(1) =~= parameters.skip(i + 1));
        match composer.add_parameter(param) {
            Ok(()) => {},
            Err(e) => {
                return Err(e);
            },
        }
        i += 1;
    }
    let args = composer.exec_args(opt.args.as_slice());
    if opt.dry_run {
        Ok(Execution::Print(args))
    } else {
        Ok(Execution::Exec { args, announce: opt.debug || opt.verbose })
    }
}

/// A parameter has a position exactly if its name stands in exactly one of the three
/// tables of the command. A name in none of them is unknown; a name in more than one is
/// ambiguous.
pub proof fn lemma_placement(command: CommandView, name: Seq<char>)
    ensures
        ({
            let head: int = if command.headparams.contains_key(name) {
                1
            } else {
                0
            };
            let middle: int = if command.middleparams.contains_key(name) {
                1
            } else {
                0
            };
            let tail: int = if command.tailparams.contains_key(name) {
                1
            } else {
                0
            };
            &&& placement(command, name) is Ok <==> head + middle + tail == 1
            &&& head + middle + tail == 0 ==> placement(command, name) == Err::<
                (Slot, Seq<Seq<char>>),
                ErrorView,
            >(ErrorView::UnknownParameter(name))
            &&& head + middle + tail > 1 ==> placement(command, name) == Err::<
                (Slot, Seq<Seq<char>>),
                ErrorView,
            >(ErrorView::AmbiguousParameterPlacement(name))
        }),
{
}

/// Two parameters that go to the same position, taken one after the other, leave their
/// arguments there in the order in which they were taken: behind what the position held
/// stand the arguments of the first, and behind them those of the second. The other
/// positions hold what they held.
pub proof fn lemma_same_slot_keeps_order(
    default: DefaultView,
    command: CommandView,
    buckets: Buckets,
    first: ParameterView,
    second: ParameterView,
)
    requires
        added(default, command, buckets, first) is Ok,
        added(default, command, added(default, command, buckets, first)->Ok_0, second) is Ok,
        placement(command, first.name)->Ok_0.0 == placement(command, second.name)->Ok_0.0,
    ensures
        ({
            let slot = placement(command, first.name)->Ok_0.0;
            let placeholder = effective_placeholder(default, command);
            let first_args = encoded(
                extracted(placement(command, first.name)->Ok_0.1, placeholder, first.value)->Ok_0,
            );
            let second_args = encoded(
                extracted(placement(command, second.name)->Ok_0.1, placeholder, second.value)->Ok_0,
            );
            let after = added_all(default, command, buckets, seq![first, second]);
            &&& after matches Ok(gathered)
            &&& gathered.at(slot) == buckets.at(slot) + first_args + second_args
            &&& forall|other: Slot| other != slot ==> gathered.at(other) == buckets.at(other)
        }),
{
    let both = seq![first, second];
    let next = added(default, command, buckets, first)->Ok_0;
    let last = added(default, command, next, second)->Ok_0;
    assert(both.skip(1) =~= seq![second]);
    assert(seq![second].skip(1) =~= Seq::<ParameterView>::empty());
    assert(added_all(default, command, last, Seq::<ParameterView>::empty()) == Ok::<
        Buckets,
        ErrorView,
    >(last));
    assert(added_all(default, command, next, seq![second]) == Ok::<Buckets, ErrorView>(last));
}

/// The arguments of one parameter that can be placed and expanded.
pub open spec fn expansion(default: DefaultView, command: CommandView, parameter: ParameterView) -> Seq<
    Seq<u8>,
> {
    encoded(
        extracted(
            placement(command, parameter.name)->Ok_0.1,
            effective_placeholder(default, command),
            parameter.value,
        )->Ok_0,
    )
}

/// The arguments of those of `parameters` that go to `slot`, in the order of the
/// parameters.
pub open spec fn gathered_at(
    default: DefaultView,
    command: CommandView,
    parameters: Seq<ParameterView>,
    slot: Slot,
) -> Seq<Seq<u8>>
    decreases parameters.len(),
{
    if parameters.len() == 0 {
        seq![]
    } else {
        let rest = gathered_at(default, command, parameters.skip(1), slot);
        if placement(command, parameters[0].name)->Ok_0.0 == slot {
            expansion(default, command, parameters[0]) + rest
        } else {
            rest
        }
    }
}

/// Where all of `parameters` can be placed and expanded, each position holds afterwards
/// what it held before and, behind that, the arguments of the parameters that go to it,
/// in the order in which the parameters were given.
pub proof fn lemma_positions_keep_order(
    default: DefaultView,
    command: CommandView,
    buckets: Buckets,
    parameters: Seq<ParameterView>,
    slot: Slot,
)
    requires
        added_all(default, command, buckets, parameters) is Ok,
    ensures
        added_all(default, command, buckets, parameters)->Ok_0.at(slot) == buckets.at(slot)
            + gathered_at(default, command, parameters, slot),
    decreases parameters.len(),
{
    if parameters.len() > 0 {
        let next = added(default, command, buckets, parameters[0])->Ok_0;
        lemma_positions_keep_order(default, command, next, parameters.skip(1), slot);
    }
}

/// A command without a definition is refused where unknown commands are not passed
/// through. Where they are, it stands for the command of its own name without parameters,
/// and any parameter given to that is unknown.
pub proof fn lemma_undefined_command(
    config: ConfigView,
    name: Seq<char>,
    passthrough: bool,
    buckets: Buckets,
    parameter: ParameterView,
)
    requires
        !config.command.contains_key(name),
    ensures
        !passthrough ==> resolved(config, name, Some(passthrough)) == Err::<CommandView, ErrorView>(
            ErrorView::CommandIsNotDefined(name),
        ),
        passthrough ==> resolved(config, name, Some(passthrough)) == Ok::<CommandView, ErrorView>(
            CommandView::empty_for(name),
        ),
        CommandView::empty_for(name).base == seq![name],
        CommandView::empty_for(name).headparams == Map::<Seq<char>, Seq<Seq<char>>>::empty(),
        CommandView::empty_for(name).middleparams == Map::<Seq<char>, Seq<Seq<char>>>::empty(),
        CommandView::empty_for(name).tailparams == Map::<Seq<char>, Seq<Seq<char>>>::empty(),
        added(config.default, CommandView::empty_for(name), buckets, parameter) == Err::<
            Buckets,
            ErrorView,
        >(ErrorView::UnknownParameter(parameter.name)),
{
}

/// Where the command has a placeholder of its own, that is the one its parameters are
/// expanded with, whatever the configuration gives for all commands; where it has none,
/// the one of the configuration holds.
pub proof fn lemma_placeholder_precedence(default: DefaultView, command: CommandView)
    ensures
        command.placeholder matches Some(own) ==> effective_placeholder(default, command) == own,
        command.placeholder is None ==> effective_placeholder(default, command)
            == default.placeholder,
{
}

/// What the call asks for decides whether unknown commands are passed through; the
/// configuration decides where the call does not say.
pub proof fn lemma_passthrough_precedence(default: DefaultView, requested: Option<bool>)
    ensures
        requested matches Some(asked) ==> passthrough_enabled(default, requested) == asked,
        requested is None ==> passthrough_enabled(default, requested)
            == default.passthrough_unknown_command,
{
}

} // verus!
