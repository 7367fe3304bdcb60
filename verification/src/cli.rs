//! What the command line asks for.
//!
//! The arguments are taken apart by `pico_args`: flags are looked for
//! wherever they stand, the first argument that is no flag is the script, and
//! what is left goes to the script.

use pico_args::Arguments;
use vstd::prelude::*;
use vstd::string::*;

verus! {

/// The version of the language.
pub const VERSION: &'static str = "0.1.0";

/// What `version_string` returns.
pub open spec fn version_text() -> Seq<char> {
    "Koto "@ + VERSION@
}

/// What `help_string` returns behind the version.
pub open spec fn usage_text() -> Seq<char> {
    "\n\nUSAGE:\n    koto [FLAGS] [script] [<args>...]\n\nFLAGS:\n    -i, --show_instructions  Show compiled instructions annotated with source lines\n    -b, --show_bytecode      Show the script's compiled bytecode\n    -t, --tests              Run the script's tests before running the script\n    -h, --help               Prints help information\n    -v, --version            Prints version information\n\nARGS:\n    <script>     The koto script to run\n    <args>...    Arguments to pass into the script\n"@
}

pub fn version_string() -> (text: String)
    ensures
        text@ == version_text(),
{
    let mut text = String::from_str("Koto ");
    text.append(VERSION);
    text
}

pub fn help_string() -> (text: String)
    ensures
        text@ == version_text() + usage_text(),
{
    let mut text = version_string();
    text.append(
        "\n\nUSAGE:\n    koto [FLAGS] [script] [<args>...]\n\nFLAGS:\n    -i, --show_instructions  Show compiled instructions annotated with source lines\n    -b, --show_bytecode      Show the script's compiled bytecode\n    -t, --tests              Run the script's tests before running the script\n    -h, --help               Prints help information\n    -v, --version            Prints version information\n\nARGS:\n    <script>     The koto script to run\n    <args>...    Arguments to pass into the script\n",
    );
    text
}

/// What the command line asks for.
#[derive(Debug, Default)]
pub struct KotoArgs {
    pub help: bool,
    pub version: bool,
    pub run_tests: bool,
    pub show_bytecode: bool,
    pub show_annotated: bool,
    pub script: Option<String>,
    pub script_args: Vec<String>,
}

/// The texts of strings.
pub open spec fn texts(strings: Seq<String>) -> Seq<Seq<char>> {
    Seq::new(strings.len(), |i: int| strings[i]@)
}

/// The position of the first argument that is `key`; the number of
/// arguments where none is.
pub open spec fn position_of(left: Seq<Seq<char>>, key: Seq<char>) -> int
    decreases left.len(),
{
    if left.len() == 0 {
        0
    } else if left[0] == key {
        0
    } else {
        1 + position_of(left.drop_first(), key)
    }
}

/// Whether a flag stands among the arguments, in its short or in its long form.
pub open spec fn has_flag(left: Seq<Seq<char>>, short: Seq<char>, long: Seq<char>) -> bool {
    position_of(left, short) < left.len() || position_of(left, long) < left.len()
}

/// The arguments without a flag: without the first argument that is its
/// short form, or where there is none without the first that is its long form.
pub open spec fn without_flag(left: Seq<Seq<char>>, short: Seq<char>, long: Seq<char>) -> Seq<
    Seq<char>,
> {
    if position_of(left, short) < left.len() {
        left.remove(position_of(left, short))
    } else if position_of(left, long) < left.len() {
        left.remove(position_of(left, long))
    } else {
        left
    }
}

/// Whether an argument starts with a dash.
pub open spec fn is_dashed(arg: Seq<char>) -> bool {
    arg.len() > 0 && arg[0] == '-'
}

/// Whether an argument is a flag: whether it starts with a dash and is more
/// than a dash.
pub open spec fn is_flag(arg: Seq<char>) -> bool {
    is_dashed(arg) && arg.len() > 1
}

/// The flags among the arguments, in order.
pub open spec fn flags_of(left: Seq<Seq<char>>) -> Seq<Seq<char>> {
    left.filter(|arg: Seq<char>| is_flag(arg))
}

/// `pico_args::Arguments`: the arguments that are left to be taken.
#[verifier::external_type_specification]
#[verifier::external_body]
pub struct ExArguments(Arguments);

/// The arguments that are left in an `Arguments`, in order.
pub uninterp spec fn arguments_left(arguments: Arguments) -> Seq<Seq<char>>;

/// Whether every argument that is left in an `Arguments` is a UTF-8 string.
pub uninterp spec fn arguments_are_text(arguments: Arguments) -> bool;

/// `Arguments::from_vec`: a parser that holds the given arguments, which
/// are UTF-8 strings as they come from `String`s.
#[verifier::external_body]
fn arguments_from(args: Vec<String>) -> (arguments: Arguments)
    ensures
        arguments_left(arguments) == texts(args@),
        arguments_are_text(arguments),
{
    Arguments::from_vec(args.into_iter().map(|arg| arg.into()).collect())
}

/// `Arguments::contains` with a short and a long key: looks for the first
/// argument that is the short key, then for the first that is the long key,
/// and removes and reports the one it finds. In a debug build the call
/// panics unless the short key starts with one dash and the long key with two.
#[verifier::external_body]
fn take_flag(arguments: &mut Arguments, short: &'static str, long: &'static str) -> (found: bool)
    requires
        is_dashed(short@) && !is_dashed(short@.skip(1)),
        is_dashed(long@) && is_dashed(long@.skip(1)),
    ensures
        arguments_are_text(*old(arguments)) ==> {
            &&& arguments_are_text(*final(arguments))
            &&& found == has_flag(arguments_left(*old(arguments)), short@, long@)
            &&& arguments_left(*final(arguments)) == without_flag(
                arguments_left(*old(arguments)),
                short@,
                long@,
            )
        },
{
    arguments.contains([short, long])
}

/// `Arguments::subcommand`: takes the first argument unless it starts with
/// a dash. It fails only on an argument that is no UTF-8 string; the error
/// is handed out as its message.
#[verifier::external_body]
fn take_subcommand(arguments: &mut Arguments) -> (result: Result<Option<String>, String>)
    ensures
        arguments_are_text(*old(arguments)) ==> {
            let left = arguments_left(*old(arguments));
            &&& arguments_are_text(*final(arguments))
            &&& result is Ok
            &&& if left.len() == 0 || is_dashed(left[0]) {
                result->Ok_0 is None && arguments_left(*final(arguments)) == left
            } else {
                result->Ok_0 is Some && result->Ok_0->Some_0@ == left[0] && arguments_left(
                    *final(arguments),
                ) == left.drop_first()
            }
        },
{
    arguments.subcommand().map_err(|error| error.to_string())
}

/// Why the arguments that are left could not be handed out.
pub enum FreeError {
    /// Flags are left: these.
    UnusedArgsLeft(Vec<String>),
    /// Another error, with its message.
    Other(String),
}

/// `Arguments::free`: hands out the arguments that are left, unless a flag
/// is left among them; then it fails with the flags that are left. Another
/// error comes only of an argument that is no UTF-8 string.
#[verifier::external_body]
fn take_free(arguments: Arguments) -> (result: Result<Vec<String>, FreeError>)
    ensures
        arguments_are_text(arguments) ==> match result {
            Ok(free) => texts(free@) == arguments_left(arguments) && flags_of(
                arguments_left(arguments),
            ).len() == 0,
            Err(FreeError::UnusedArgsLeft(flags)) => texts(flags@) == flags_of(
                arguments_left(arguments),
            ) && flags@.len() > 0,
            Err(FreeError::Other(_)) => false,
        },
{
    match arguments.free() {
        Ok(free) => Ok(free),
        Err(pico_args::Error::UnusedArgsLeft(flags)) => Err(FreeError::UnusedArgsLeft(flags)),
        Err(other) => Err(FreeError::Other(other.to_string())),
    }
}

/// The mathematical value of what the command line asks for.
pub struct KotoArgsView {
    pub help: bool,
    pub version: bool,
    pub run_tests: bool,
    pub show_bytecode: bool,
    pub show_annotated: bool,
    pub script: Option<Seq<char>>,
    pub script_args: Seq<Seq<char>>,
}

impl View for KotoArgs {
    type V = KotoArgsView;

    open spec fn view(&self) -> KotoArgsView {
        KotoArgsView {
            help: self.help,
            version: self.version,
            run_tests: self.run_tests,
            show_bytecode: self.show_bytecode,
            show_annotated: self.show_annotated,
            script: match self.script {
                Some(script) => Some(script@),
                None => None,
            },
            script_args: texts(self.script_args@),
        }
    }
}

/// What the arguments `args` ask for. Each flag is looked for wherever it
/// stands and taken out, one after the other. Of what is left, the first
/// argument is the script unless it starts with a dash, and the others go to
/// the script. A flag among them is an error.
pub open spec fn parsed_arguments(args: Seq<Seq<char>>) -> Result<KotoArgsView, Seq<char>> {
    let a = without_flag(args, "-h"@, "--help"@);
    let b = without_flag(a, "-v"@, "--version"@);
    let c = without_flag(b, "-t"@, "--tests"@);
    let d = without_flag(c, "-b"@, "--show_bytecode"@);
    let e = without_flag(d, "-i"@, "--show_instructions"@);
    let script = if e.len() == 0 || is_dashed(e[0]) {
        None
    } else {
        Some(e[0])
    };
    let rest = if script is Some {
        e.drop_first()
    } else {
        e
    };
    if flags_of(rest).len() > 0 {
        Err("Unsupported argument: "@ + flags_of(rest)[0])
    } else {
        Ok(
            KotoArgsView {
                help: has_flag(args, "-h"@, "--help"@),
                version: has_flag(a, "-v"@, "--version"@),
                run_tests: has_flag(b, "-t"@, "--tests"@),
                show_bytecode: has_flag(c, "-b"@, "--show_bytecode"@),
                show_annotated: has_flag(d, "-i"@, "--show_instructions"@),
                script,
                script_args: rest,
            },
        )
    }
}

/// What parsing gave: the mathematical value, or the message.
pub open spec fn parsed_view(result: Result<KotoArgs, String>) -> Result<KotoArgsView, Seq<char>> {
    match result {
        Ok(args) => Ok(args@),
        Err(message) => Err(message@),
    }
}

/// What the arguments of the command line ask for; `args` holds them
/// without the path of the program.
pub fn parse_arguments(args: Vec<String>) -> (result: Result<KotoArgs, String>)
    ensures
        parsed_view(result) == parsed_arguments(texts(args@)),
{
    proof {
        reveal_strlit("-h");
        reveal_strlit("--help");
        reveal_strlit("-v");
        reveal_strlit("--version");
        reveal_strlit("-t");
        reveal_strlit("--tests");
        reveal_strlit("-b");
        reveal_strlit("--show_bytecode");
        reveal_strlit("-i");
        reveal_strlit("--show_instructions");
    }
    let mut arguments = arguments_from(args);

    let help = take_flag(&mut arguments, "-h", "--help");
    let version = take_flag(&mut arguments, "-v", "--version");
    let run_tests = take_flag(&mut arguments, "-t", "--tests");
    let show_bytecode = take_flag(&mut arguments, "-b", "--show_bytecode");
    let show_annotated = take_flag(&mut arguments, "-i", "--show_instructions");

    let script = match take_subcommand(&mut arguments) {
        Ok(script) => script,
        Err(error) => {
            let mut message = String::from_str("Error while parsing arguments: ");
            message.append(error.as_str());
            return Err(message);
        },
    };

    let script_args = match take_free(arguments) {
        Ok(extra_args) => extra_args,
        Err(FreeError::UnusedArgsLeft(unused)) => {
            let mut message = String::from_str("Unsupported argument: ");
            message.append(unused[0].as_str());
            return Err(message);
        },
        Err(FreeError::Other(other)) => {
            let mut message = String::from_str("Error while parsing arguments: ");
            message.append(other.as_str());
            return Err(message);
        },
    };

    Ok(KotoArgs { help, version, run_tests, show_bytecode, show_annotated, script, script_args })
}

} // verus!
