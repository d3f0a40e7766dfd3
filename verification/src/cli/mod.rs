use vstd::prelude::*;

use crate::text::{concat, owned, str_eq};

pub mod entry;
pub mod options;
pub mod test_runner;
pub mod watch;

verus! {

/// A subcommand of the `actus` tool.
#[derive(Clone, Copy, Debug, PartialEq, Eq, Structural)]
pub enum CliCommand {
    Build,
    Run,
    Check,
    New,
    Init,
    Test,
    Fmt,
    Lsp,
    Publish,
    Parse,
}

/// What an invocation of the tool comes to: text to print and an exit status, or a
/// subcommand to run with the arguments after its name.
#[derive(Debug)]
pub enum CliOutcome {
    Exit { code: i32, stdout: String, stderr: String },
    Command { command: CliCommand, arguments: Vec<String> },
}

pub enum CliOutcomeView {
    Exit { code: i32, stdout: Seq<char>, stderr: Seq<char> },
    Command { command: CliCommand, arguments: Seq<Seq<char>> },
}

pub open spec fn text_views(texts: Seq<String>) -> Seq<Seq<char>> {
    texts.map_values(|text: String| text@)
}

pub open spec fn outcome_view(outcome: CliOutcome) -> CliOutcomeView {
    match outcome {
        CliOutcome::Exit { code, stdout, stderr } => CliOutcomeView::Exit { code, stdout: stdout@, stderr: stderr@ },
        CliOutcome::Command { command, arguments } => CliOutcomeView::Command {
            command,
            arguments: text_views(arguments@),
        },
    }
}

impl CliOutcome {
    /// The exit status, where the invocation ends without running a subcommand.
    pub fn exit_code(&self) -> (code: Option<i32>)
        ensures
            code == match outcome_view(*self) {
                CliOutcomeView::Exit { code, .. } => Some(code),
                CliOutcomeView::Command { .. } => None,
            },
    {
        match self {
            CliOutcome::Exit { code, .. } => Some(*code),
            CliOutcome::Command { .. } => None,
        }
    }
}

pub open spec fn spec_usage_text() -> Seq<char> {
    "usage: actus <new|init|check|parse|build|run|test|fmt|lsp|publish> [options] [file.act]"@
}

pub open spec fn help_footer() -> Seq<char> {
    "Run `actus <command> --help` for command-specific options."@
}

pub open spec fn newline() -> Seq<char> {
    seq!['\n']
}

/// The help text of each subcommand.
pub open spec fn spec_command_help_text(command: Seq<char>) -> Option<Seq<char>> {
    if command == "new"@ {
        Some("usage: actus new <name> [--no-git|--vcs none]\n\nCreate a new Actus project."@)
    } else if command == "init"@ {
        Some("usage: actus init [--no-git|--vcs none]\n\nInitialize the current directory as an Actus project."@)
    } else if command == "check"@ {
        Some("usage: actus check [file.act]\n\nParse, resolve, and validate an Actus project without code generation."@)
    } else if command == "parse"@ {
        Some("usage: actus parse <file.act>\n\nParse a source file and print its AST."@)
    } else if command == "build"@ {
        Some(
            "usage: actus build [file.act] [--release|--profile <name>] [--emit obj|exe] [-o <output>]\n\nBuild an Actus source file or the project entry from Arca.toml."@,
        )
    } else if command == "run"@ {
        Some(
            "usage: actus run [file.act] [--release|--profile <name>] [-- program-args...]\n\nBuild and execute an Actus program once."@,
        )
    } else if command == "test"@ {
        Some("usage: actus test [path]\n\nCollect and run Actus meta tests."@)
    } else if command == "fmt"@ {
        Some("usage: actus fmt [path] [--check]\n\nFormat Actus source files with canonical rules."@)
    } else if command == "lsp"@ {
        Some("usage: actus lsp\n\nServe the Language Server Protocol over stdio."@)
    } else if command == "publish"@ {
        Some("usage: actus publish [path]\n\nValidate and publish a local deterministic package archive."@)
    } else {
        None
    }
}

/// The subcommand that `name` selects; `parse` is handled on its own.
pub open spec fn spec_dispatch_command(name: Seq<char>) -> Option<CliCommand> {
    if name == "build"@ {
        Some(CliCommand::Build)
    } else if name == "run"@ {
        Some(CliCommand::Run)
    } else if name == "check"@ {
        Some(CliCommand::Check)
    } else if name == "new"@ {
        Some(CliCommand::New)
    } else if name == "init"@ {
        Some(CliCommand::Init)
    } else if name == "test"@ {
        Some(CliCommand::Test)
    } else if name == "fmt"@ {
        Some(CliCommand::Fmt)
    } else if name == "lsp"@ {
        Some(CliCommand::Lsp)
    } else if name == "publish"@ {
        Some(CliCommand::Publish)
    } else {
        None
    }
}

pub open spec fn spec_is_help_flag(argument: Seq<char>) -> bool {
    argument == "--help"@ || argument == "-h"@
}

pub open spec fn usage_exit() -> CliOutcomeView {
    CliOutcomeView::Exit { code: 2, stdout: Seq::empty(), stderr: spec_usage_text() + newline() }
}

pub open spec fn unknown_command_exit(command: Seq<char>) -> CliOutcomeView {
    CliOutcomeView::Exit {
        code: 2,
        stdout: Seq::empty(),
        stderr: "error: unknown command `"@ + command + "`"@ + newline() + spec_usage_text() + newline(),
    }
}

/// What the tool does with the arguments after its own name.
pub open spec fn spec_run_with_args(arguments: Seq<Seq<char>>) -> CliOutcomeView {
    if arguments.len() == 0 {
        usage_exit()
    } else {
        let command = arguments[0];
        let remaining = arguments.drop_first();
        if spec_is_help_flag(command) {
            CliOutcomeView::Exit {
                code: 0,
                stdout: spec_usage_text() + newline() + newline() + help_footer() + newline(),
                stderr: Seq::empty(),
            }
        } else if remaining.len() > 0 && spec_is_help_flag(remaining[0]) {
            match spec_command_help_text(command) {
                Some(text) => CliOutcomeView::Exit { code: 0, stdout: text + newline(), stderr: Seq::empty() },
                None => unknown_command_exit(command),
            }
        } else {
            match spec_dispatch_command(command) {
                Some(selected) => CliOutcomeView::Command { command: selected, arguments: remaining },
                None => if command != "parse"@ {
                    unknown_command_exit(command)
                } else if remaining.len() == 0 {
                    CliOutcomeView::Exit {
                        code: 2,
                        stdout: Seq::empty(),
                        stderr: "error: missing input file"@ + newline() + spec_usage_text() + newline(),
                    }
                } else if remaining.len() > 1 {
                    CliOutcomeView::Exit {
                        code: 2,
                        stdout: Seq::empty(),
                        stderr: "error: unexpected extra argument"@ + newline(),
                    }
                } else {
                    CliOutcomeView::Command { command: CliCommand::Parse, arguments: remaining }
                },
            }
        }
    }
}

/// Whether `argument` asks for help.
pub fn is_help_flag(argument: &str) -> (help: bool)
    ensures
        help == spec_is_help_flag(argument@),
{
    str_eq(argument, "--help") || str_eq(argument, "-h")
}

/// The one-line usage of the tool.
pub fn usage_text() -> (text: &'static str)
    ensures
        text@ == spec_usage_text(),
{
    "usage: actus <new|init|check|parse|build|run|test|fmt|lsp|publish> [options] [file.act]"
}

/// The help text of `command`, if it is a subcommand.
pub fn command_help_text(command: &str) -> (text: Option<&'static str>)
    ensures
        match text {
            Some(t) => spec_command_help_text(command@) == Some(t@),
            None => spec_command_help_text(command@) is None,
        },
{
    if str_eq(command, "new") {
        Some("usage: actus new <name> [--no-git|--vcs none]\n\nCreate a new Actus project.")
    } else if str_eq(command, "init") {
        Some("usage: actus init [--no-git|--vcs none]\n\nInitialize the current directory as an Actus project.")
    } else if str_eq(command, "check") {
        Some("usage: actus check [file.act]\n\nParse, resolve, and validate an Actus project without code generation.")
    } else if str_eq(command, "parse") {
        Some("usage: actus parse <file.act>\n\nParse a source file and print its AST.")
    } else if str_eq(command, "build") {
        Some(
            "usage: actus build [file.act] [--release|--profile <name>] [--emit obj|exe] [-o <output>]\n\nBuild an Actus source file or the project entry from Arca.toml.",
        )
    } else if str_eq(command, "run") {
        Some(
            "usage: actus run [file.act] [--release|--profile <name>] [-- program-args...]\n\nBuild and execute an Actus program once.",
        )
    } else if str_eq(command, "test") {
        Some("usage: actus test [path]\n\nCollect and run Actus meta tests.")
    } else if str_eq(command, "fmt") {
        Some("usage: actus fmt [path] [--check]\n\nFormat Actus source files with canonical rules.")
    } else if str_eq(command, "lsp") {
        Some("usage: actus lsp\n\nServe the Language Server Protocol over stdio.")
    } else if str_eq(command, "publish") {
        Some("usage: actus publish [path]\n\nValidate and publish a local deterministic package archive.")
    } else {
        None
    }
}

fn dispatch_command(name: &str) -> (command: Option<CliCommand>)
    ensures
        command == spec_dispatch_command(name@),
{
    if str_eq(name, "build") {
        Some(CliCommand::Build)
    } else if str_eq(name, "run") {
        Some(CliCommand::Run)
    } else if str_eq(name, "check") {
        Some(CliCommand::Check)
    } else if str_eq(name, "new") {
        Some(CliCommand::New)
    } else if str_eq(name, "init") {
        Some(CliCommand::Init)
    } else if str_eq(name, "test") {
        Some(CliCommand::Test)
    } else if str_eq(name, "fmt") {
        Some(CliCommand::Fmt)
    } else if str_eq(name, "lsp") {
        Some(CliCommand::Lsp)
    } else if str_eq(name, "publish") {
        Some(CliCommand::Publish)
    } else {
        None
    }
}

fn line(text: &str) -> (result: String)
    ensures
        result@ == text@ + newline(),
{
    let mut result = owned(text);
    crate::text::push_char(&mut result, '\n');
    result
}

fn usage_line() -> (result: String)
    ensures
        result@ == spec_usage_text() + newline(),
{
    line(usage_text())
}

fn unknown_command(command: &str) -> (outcome: CliOutcome)
    ensures
        outcome_view(outcome) == unknown_command_exit(command@),
{
    proof {
        reveal_strlit("");
    }
    let message = crate::text::message_with_text("error: unknown command `", command, "`");
    let mut stderr = line(message.as_str());
    stderr = concat(stderr, usage_line().as_str());
    let stdout = owned("");
    proof {
        assert(stdout@ =~= Seq::<char>::empty());
        assert(stderr@ =~= "error: unknown command `"@ + command@ + "`"@ + newline() + spec_usage_text() + newline());
    }
    CliOutcome::Exit { code: 2, stdout, stderr }
}

/// Decides what an invocation of the tool with `arguments` (those after its own name) does:
/// print the usage, the help or the help of a subcommand, report an unknown subcommand, or
/// run a subcommand with the arguments after its name.
pub fn run_with_args(arguments: Vec<String>) -> (outcome: CliOutcome)
    ensures
        outcome_view(outcome) == spec_run_with_args(text_views(arguments@)),
{
    proof {
        reveal_strlit("");
    }
    let ghost views = text_views(arguments@);
    let empty = owned("");
    proof {
        assert(empty@ =~= Seq::<char>::empty());
    }
    if arguments.len() == 0 {
        return CliOutcome::Exit { code: 2, stdout: empty, stderr: usage_line() };
    }
    let command = &arguments[0];
    proof {
        assert(views[0] == command@);
    }
    if is_help_flag(command.as_str()) {
        let mut stdout = usage_line();
        crate::text::push_char(&mut stdout, '\n');
        stdout = concat(stdout, line("Run `actus <command> --help` for command-specific options.").as_str());
        proof {
            assert(stdout@ =~= spec_usage_text() + newline() + newline() + help_footer() + newline());
        }
        return CliOutcome::Exit { code: 0, stdout, stderr: empty };
    }
    let mut remaining: Vec<String> = Vec::new();
    let mut index: usize = 1;
    while index < arguments.len()
        invariant
            1 <= index <= arguments@.len(),
            views == text_views(arguments@),
            text_views(remaining@) == views.drop_first().take(index - 1),
        decreases arguments@.len() - index,
    {
        let ghost previous = remaining@;
        remaining.push(arguments[index].clone());
        proof {
            assert(text_views(remaining@) =~= text_views(previous).push(arguments@[index as int]@));
            assert(views.drop_first().take(index as int) =~= views.drop_first().take(index - 1).push(views[index as int]));
        }
        index = index + 1;
    }
    proof {
        assert(views.drop_first().take(index - 1) =~= views.drop_first());
        assert(views[0] == command@);
    }
    if remaining.len() > 0 && is_help_flag(remaining[0].as_str()) {
        return match command_help_text(command.as_str()) {
            Some(text) => CliOutcome::Exit { code: 0, stdout: line(text), stderr: empty },
            None => unknown_command(command.as_str()),
        };
    }
    if let Some(selected) = dispatch_command(command.as_str()) {
        return CliOutcome::Command { command: selected, arguments: remaining };
    }
    if !str_eq(command.as_str(), "parse") {
        return unknown_command(command.as_str());
    }
    if remaining.len() == 0 {
        let stderr = concat(line("error: missing input file"), usage_line().as_str());
        proof {
            assert(stderr@ =~= "error: missing input file"@ + newline() + spec_usage_text() + newline());
        }
        return CliOutcome::Exit { code: 2, stdout: empty, stderr };
    }
    if remaining.len() > 1 {
        return CliOutcome::Exit { code: 2, stdout: empty, stderr: line("error: unexpected extra argument") };
    }
    CliOutcome::Command { command: CliCommand::Parse, arguments: remaining }
}


/// Asking the tool for help always succeeds and prints to standard output only.
pub proof fn law_help_succeeds(arguments: Seq<Seq<char>>)
    requires
        arguments.len() > 0,
        spec_is_help_flag(arguments[0]),
    ensures
        spec_run_with_args(arguments) matches CliOutcomeView::Exit { code, stderr, .. } && code == 0 && stderr.len()
            == 0,
{
}

/// Every subcommand has help text, and asking a subcommand for help succeeds.
pub proof fn law_every_command_has_help(name: Seq<char>, arguments: Seq<Seq<char>>)
    requires
        spec_dispatch_command(name) is Some || name == "parse"@,
        arguments.len() >= 2,
        arguments[0] == name,
        spec_is_help_flag(arguments[1]),
    ensures
        spec_command_help_text(name) is Some,
        spec_run_with_args(arguments) matches CliOutcomeView::Exit { code, .. } && code == 0,
{
    reveal_strlit("--help");
    reveal_strlit("-h");
    reveal_strlit("parse");
    reveal_strlit("build");
    reveal_strlit("run");
    reveal_strlit("check");
    reveal_strlit("new");
    reveal_strlit("init");
    reveal_strlit("test");
    reveal_strlit("fmt");
    reveal_strlit("lsp");
    reveal_strlit("publish");
    assert(arguments.drop_first()[0] == arguments[1]);
}

} // verus!
