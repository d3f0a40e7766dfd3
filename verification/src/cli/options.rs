use vstd::prelude::*;

use crate::configuration::BuildProfile;
use crate::text::{message_with_text, owned, str_eq};

use super::entry::EmitKind;

verus! {

pub open spec fn starts_with_dash(argument: Seq<char>) -> bool {
    argument.len() > 0 && argument[0] == '-'
}

fn is_dashed(argument: &str) -> (dashed: bool)
    ensures
        dashed == starts_with_dash(argument@),
{
    argument.unicode_len() > 0 && argument.get_char(0) == '-'
}

pub open spec fn quoted(first: Seq<char>, middle: Seq<char>) -> Seq<char> {
    first + middle + "`"@
}

pub open spec fn duplicate_profile_message() -> Seq<char> {
    "duplicate or conflicting profile option"@
}

/// The profile named `name`.
pub open spec fn spec_parse_profile(name: Seq<char>) -> Result<BuildProfile, Seq<char>> {
    if name == "debug"@ {
        Ok(BuildProfile::Debug)
    } else if name == "release"@ {
        Ok(BuildProfile::Release)
    } else {
        Err(quoted("unsupported build profile `"@, name))
    }
}

/// The profile named `name`: `debug` or `release`.
pub fn parse_profile(name: &str) -> (profile: Result<BuildProfile, String>)
    ensures
        match profile {
            Ok(p) => spec_parse_profile(name@) == Ok::<BuildProfile, Seq<char>>(p),
            Err(e) => spec_parse_profile(name@) == Err::<BuildProfile, Seq<char>>(e@),
        },
{
    if str_eq(name, "debug") {
        Ok(BuildProfile::Debug)
    } else if str_eq(name, "release") {
        Ok(BuildProfile::Release)
    } else {
        Err(message_with_text("unsupported build profile `", name, "`"))
    }
}

/// Selects `selected` where no profile was selected yet.
pub fn replace_profile(current: Option<BuildProfile>, selected: BuildProfile) -> (result: Result<
    Option<BuildProfile>,
    String,
>)
    ensures
        match current {
            Some(_) => result matches Err(e) && e@ == duplicate_profile_message(),
            None => result == Ok::<Option<BuildProfile>, String>(Some(selected)),
        },
{
    if current.is_some() {
        return Err(owned("duplicate or conflicting profile option"));
    }
    Ok(Some(selected))
}

/// The options of `actus build`.
#[derive(Debug)]
pub struct BuildOptions {
    pub input: Option<String>,
    pub output: Option<String>,
    pub emit: EmitKind,
    pub profile: Option<BuildProfile>,
}

pub struct BuildOptionsView {
    pub input: Option<Seq<char>>,
    pub output: Option<Seq<char>>,
    pub emit: EmitKind,
    pub profile: Option<BuildProfile>,
}

pub open spec fn option_view(text: Option<String>) -> Option<Seq<char>> {
    match text {
        Some(t) => Some(t@),
        None => None,
    }
}

pub open spec fn build_options_view(options: BuildOptions) -> BuildOptionsView {
    BuildOptionsView {
        input: option_view(options.input),
        output: option_view(options.output),
        emit: options.emit,
        profile: options.profile,
    }
}

/// Reads the build options from position `index` on, with `state` read so far.
pub open spec fn build_options_from(
    arguments: Seq<Seq<char>>,
    index: int,
    state: BuildOptionsView,
) -> Result<BuildOptionsView, Seq<char>>
    decreases arguments.len() - index,
{
    if index < 0 || index >= arguments.len() {
        Ok(state)
    } else {
        let argument = arguments[index];
        if argument == "--release"@ {
            if state.profile is Some {
                Err(duplicate_profile_message())
            } else {
                build_options_from(arguments, index + 1, BuildOptionsView { profile: Some(BuildProfile::Release), ..state })
            }
        } else if argument == "--profile"@ {
            if index + 1 >= arguments.len() {
                Err("missing value after `--profile`"@)
            } else {
                match spec_parse_profile(arguments[index + 1]) {
                    Err(error) => Err(error),
                    Ok(profile) => if state.profile is Some {
                        Err(duplicate_profile_message())
                    } else {
                        build_options_from(arguments, index + 2, BuildOptionsView { profile: Some(profile), ..state })
                    },
                }
            }
        } else if argument == "-o"@ {
            if state.output is Some {
                Err("duplicate output option"@)
            } else if index + 1 >= arguments.len() {
                Err("missing output path after `-o`"@)
            } else {
                build_options_from(arguments, index + 2, BuildOptionsView { output: Some(arguments[index + 1]), ..state })
            }
        } else if argument == "--emit"@ {
            if index + 1 >= arguments.len() {
                Err("missing value after `--emit`"@)
            } else if arguments[index + 1] == "obj"@ {
                build_options_from(arguments, index + 2, BuildOptionsView { emit: EmitKind::Object, ..state })
            } else if arguments[index + 1] == "exe"@ {
                build_options_from(arguments, index + 2, BuildOptionsView { emit: EmitKind::Executable, ..state })
            } else {
                Err(quoted("unsupported emission kind `"@, arguments[index + 1]))
            }
        } else if state.input is None && !starts_with_dash(argument) {
            build_options_from(arguments, index + 1, BuildOptionsView { input: Some(argument), ..state })
        } else {
            Err(quoted("unexpected build argument `"@, argument))
        }
    }
}

pub open spec fn initial_build_options() -> BuildOptionsView {
    BuildOptionsView { input: None, output: None, emit: EmitKind::Object, profile: None }
}

pub open spec fn text_views(texts: Seq<String>) -> Seq<Seq<char>> {
    texts.map_values(|text: String| text@)
}

fn copy_text(text: &String) -> (copy: String)
    ensures
        copy@ == text@,
{
    text.clone()
}

/// Reads the options of `actus build`: an input file, `--release` or `--profile <name>` (at
/// most one of them), `-o <output>` (at most once), and `--emit obj|exe`.
pub fn parse_build_options(arguments: &Vec<String>) -> (result: Result<BuildOptions, String>)
    ensures
        match result {
            Ok(options) => build_options_from(text_views(arguments@), 0, initial_build_options())
                == Ok::<BuildOptionsView, Seq<char>>(build_options_view(options)),
            Err(error) => build_options_from(text_views(arguments@), 0, initial_build_options())
                == Err::<BuildOptionsView, Seq<char>>(error@),
        },
{
    let ghost views = text_views(arguments@);
    let mut options = BuildOptions { input: None, output: None, emit: EmitKind::Object, profile: None };
    let mut index: usize = 0;
    proof {
        assert(build_options_view(options) == initial_build_options());
    }
    while index < arguments.len()
        invariant
            views == text_views(arguments@),
            views.len() == arguments@.len(),
            index <= arguments@.len(),
            build_options_from(views, 0, initial_build_options()) == build_options_from(
                views,
                index as int,
                build_options_view(options),
            ),
        decreases arguments@.len() - index,
    {
        let argument = &arguments[index];
        proof {
            assert(views[index as int] == argument@);
        }
        if str_eq(argument.as_str(), "--release") {
            if options.profile.is_some() {
                return Err(owned("duplicate or conflicting profile option"));
            }
            options.profile = Some(BuildProfile::Release);
            index = index + 1;
        } else if str_eq(argument.as_str(), "--profile") {
            if index + 1 >= arguments.len() {
                return Err(owned("missing value after `--profile`"));
            }
            proof {
                assert(views[index + 1] == arguments@[index + 1]@);
            }
            let profile = match parse_profile(arguments[index + 1].as_str()) {
                Ok(profile) => profile,
                Err(error) => {
                    return Err(error);
                },
            };
            if options.profile.is_some() {
                return Err(owned("duplicate or conflicting profile option"));
            }
            options.profile = Some(profile);
            index = index + 2;
        } else if str_eq(argument.as_str(), "-o") {
            if options.output.is_some() {
                return Err(owned("duplicate output option"));
            }
            if index + 1 >= arguments.len() {
                return Err(owned("missing output path after `-o`"));
            }
            proof {
                assert(views[index + 1] == arguments@[index + 1]@);
            }
            options.output = Some(copy_text(&arguments[index + 1]));
            index = index + 2;
        } else if str_eq(argument.as_str(), "--emit") {
            if index + 1 >= arguments.len() {
                return Err(owned("missing value after `--emit`"));
            }
            let kind = &arguments[index + 1];
            proof {
                assert(views[index + 1] == kind@);
            }
            if str_eq(kind.as_str(), "obj") {
                options.emit = EmitKind::Object;
            } else if str_eq(kind.as_str(), "exe") {
                options.emit = EmitKind::Executable;
            } else {
                return Err(message_with_text("unsupported emission kind `", kind.as_str(), "`"));
            }
            index = index + 2;
        } else if options.input.is_none() && !is_dashed(argument.as_str()) {
            options.input = Some(copy_text(argument));
            index = index + 1;
        } else {
            return Err(message_with_text("unexpected build argument `", argument.as_str(), "`"));
        }
    }
    Ok(options)
}

/// The options of `actus run`.
#[derive(Debug)]
pub struct RunOptions {
    pub input: Option<String>,
    pub profile: Option<BuildProfile>,
    pub program_arguments: Vec<String>,
}

pub struct RunOptionsView {
    pub input: Option<Seq<char>>,
    pub profile: Option<BuildProfile>,
    pub program_arguments: Seq<Seq<char>>,
}

pub open spec fn run_options_view(options: RunOptions) -> RunOptionsView {
    RunOptionsView {
        input: option_view(options.input),
        profile: options.profile,
        program_arguments: text_views(options.program_arguments@),
    }
}

/// Reads the run options from position `index` on: everything after `--` goes to the program.
pub open spec fn run_options_from(arguments: Seq<Seq<char>>, index: int, state: RunOptionsView) -> Result<
    RunOptionsView,
    Seq<char>,
>
    decreases arguments.len() - index,
{
    if index < 0 || index >= arguments.len() {
        Ok(state)
    } else {
        let argument = arguments[index];
        if argument == "--"@ {
            Ok(RunOptionsView { program_arguments: arguments.subrange(index + 1, arguments.len() as int), ..state })
        } else if argument == "--release"@ {
            run_options_from(arguments, index + 1, RunOptionsView { profile: Some(BuildProfile::Release), ..state })
        } else if argument == "--profile"@ {
            if index + 1 >= arguments.len() {
                Err("missing value after `--profile`"@)
            } else {
                match spec_parse_profile(arguments[index + 1]) {
                    Err(error) => Err(error),
                    Ok(profile) => run_options_from(
                        arguments,
                        index + 2,
                        RunOptionsView { profile: Some(profile), ..state },
                    ),
                }
            }
        } else if state.input is None {
            run_options_from(arguments, index + 1, RunOptionsView { input: Some(argument), ..state })
        } else {
            Err(quoted("unexpected argument `"@, argument))
        }
    }
}

/// Reads the options of `actus run`: an input file, `--release` or `--profile <name>` (the
/// last one counts), and after `--` the arguments of the program.
pub fn parse_run_options(arguments: &Vec<String>) -> (result: Result<RunOptions, String>)
    ensures
        match result {
            Ok(options) => run_options_from(
                text_views(arguments@),
                0,
                RunOptionsView { input: None, profile: None, program_arguments: Seq::empty() },
            ) == Ok::<RunOptionsView, Seq<char>>(run_options_view(options)),
            Err(error) => run_options_from(
                text_views(arguments@),
                0,
                RunOptionsView { input: None, profile: None, program_arguments: Seq::empty() },
            ) == Err::<RunOptionsView, Seq<char>>(error@),
        },
{
    let ghost views = text_views(arguments@);
    let mut options = RunOptions { input: None, profile: None, program_arguments: Vec::new() };
    proof {
        assert(run_options_view(options).program_arguments =~= Seq::<Seq<char>>::empty());
    }
    let mut index: usize = 0;
    while index < arguments.len()
        invariant
            views == text_views(arguments@),
            views.len() == arguments@.len(),
            index <= arguments@.len(),
            options.program_arguments@.len() == 0,
            run_options_from(
                views,
                0,
                RunOptionsView { input: None, profile: None, program_arguments: Seq::empty() },
            ) == run_options_from(views, index as int, run_options_view(options)),
        decreases arguments@.len() - index,
    {
        let argument = &arguments[index];
        proof {
            assert(views[index as int] == argument@);
        }
        if str_eq(argument.as_str(), "--") {
            let mut rest: Vec<String> = Vec::new();
            let mut next: usize = index + 1;
            while next < arguments.len()
                invariant
                    views == text_views(arguments@),
                    views.len() == arguments@.len(),
                    index < next <= arguments@.len(),
                    text_views(rest@) == views.subrange(index + 1, next as int),
                decreases arguments@.len() - next,
            {
                let ghost previous = rest@;
                rest.push(copy_text(&arguments[next]));
                proof {
                    assert(text_views(rest@) =~= text_views(previous).push(arguments@[next as int]@));
                    assert(views.subrange(index + 1, next + 1) =~= views.subrange(index + 1, next as int).push(
                        views[next as int],
                    ));
                }
                next = next + 1;
            }
            let ghost before = run_options_view(options);
            options.program_arguments = rest;
            proof {
                assert(run_options_view(options).program_arguments =~= views.subrange(index + 1, views.len() as int));
                assert(run_options_view(options) == RunOptionsView {
                    program_arguments: views.subrange(index + 1, views.len() as int),
                    ..before
                });
            }
            return Ok(options);
        } else if str_eq(argument.as_str(), "--release") {
            options.profile = Some(BuildProfile::Release);
            index = index + 1;
        } else if str_eq(argument.as_str(), "--profile") {
            if index + 1 >= arguments.len() {
                return Err(owned("missing value after `--profile`"));
            }
            proof {
                assert(views[index + 1] == arguments@[index + 1]@);
            }
            let profile = match parse_profile(arguments[index + 1].as_str()) {
                Ok(profile) => profile,
                Err(error) => {
                    return Err(error);
                },
            };
            options.profile = Some(profile);
            index = index + 2;
        } else if options.input.is_none() {
            options.input = Some(copy_text(argument));
            index = index + 1;
        } else {
            return Err(message_with_text("unexpected argument `", argument.as_str(), "`"));
        }
    }
    Ok(options)
}


pub open spec fn is_digit(c: char) -> bool {
    '0' <= c && c <= '9'
}

/// The number that a run of decimal digits denotes.
pub open spec fn digits_value(digits: Seq<char>) -> nat
    decreases digits.len(),
{
    if digits.len() == 0 {
        0
    } else {
        digits_value(digits.drop_last()) * 10 + ((digits.last() as u32) - 48) as nat
    }
}

/// The digits of a number as `u64::from_str` reads it: an optional leading `+`, then the rest.
pub open spec fn unsigned_digits(text: Seq<char>) -> Seq<char> {
    if text.len() > 0 && text[0] == '+' {
        text.drop_first()
    } else {
        text
    }
}

/// The value of `text` read as a `u64`: one or more decimal digits after an optional `+`,
/// denoting a number that fits.
pub open spec fn spec_parse_u64(text: Seq<char>) -> Option<u64> {
    let digits = unsigned_digits(text);
    if digits.len() == 0 || exists|i: int| 0 <= i < digits.len() && !is_digit(#[trigger] digits[i]) {
        None
    } else if digits_value(digits) > u64::MAX {
        None
    } else {
        Some(digits_value(digits) as u64)
    }
}

proof fn lemma_digits_value_grows(digits: Seq<char>, count: int)
    requires
        0 <= count <= digits.len(),
        forall|i: int| 0 <= i < digits.len() ==> is_digit(#[trigger] digits[i]),
    ensures
        digits_value(digits.take(count)) <= digits_value(digits),
    decreases digits.len() - count,
{
    if count < digits.len() {
        lemma_digits_value_grows(digits, count + 1);
        assert(digits.take(count + 1).drop_last() =~= digits.take(count));
    } else {
        assert(digits.take(count) =~= digits);
    }
}

/// Reads a `u64` written in decimal, with an optional leading `+`, as `u64::from_str` does.
pub fn parse_u64(text: &str) -> (value: Option<u64>)
    ensures
        value == spec_parse_u64(text@),
{
    let length = text.unicode_len();
    let mut index: usize = 0;
    if length > 0 && text.get_char(0) == '+' {
        index = 1;
    }
    let ghost digits = unsigned_digits(text@);
    let start = index;
    proof {
        assert(digits =~= text@.skip(start as int));
    }
    if index >= length {
        return None;
    }
    let mut value: u64 = 0;
    while index < length
        invariant
            length == text@.len(),
            start <= index <= length,
            start < length,
            digits == text@.skip(start as int),
            digits == unsigned_digits(text@),
            forall|i: int| 0 <= i < index - start ==> is_digit(#[trigger] digits[i]),
            value == digits_value(digits.take(index - start)),
        decreases length - index,
    {
        let c = text.get_char(index);
        proof {
            assert(digits[index - start] == c);
            assert(digits.take(index - start + 1).drop_last() =~= digits.take(index - start));
        }
        if c < '0' || c > '9' {
            proof {
                assert(!is_digit(digits[index - start]));
            }
            return None;
        }
        let digit = (c as u32 - 48) as u64;
        let next = match value.checked_mul(10) {
            Some(scaled) => scaled.checked_add(digit),
            None => None,
        };
        match next {
            Some(next) => {
                value = next;
            },
            None => {
                proof {
                    assert(digits.take(index - start + 1).last() == c);
                    assert(digits_value(digits.take(index - start + 1)) == value * 10 + digit);
                    assert(value * 10 + digit > u64::MAX);
                    if forall|i: int| 0 <= i < digits.len() ==> is_digit(#[trigger] digits[i]) {
                        lemma_digits_value_grows(digits, index - start + 1);
                    } else {
                        let i = choose|i: int| 0 <= i < digits.len() && !is_digit(#[trigger] digits[i]);
                        assert(!is_digit(digits[i]));
                    }
                }
                return None;
            },
        }
        index = index + 1;
    }
    proof {
        assert(digits.take(index - start) =~= digits);
    }
    Some(value)
}

/// The options of a watch session: the file to watch, whether each round builds an executable
/// rather than checking, whether to run one round only, the pause between rounds, and the
/// profile.
#[derive(Debug)]
pub struct WatchOptions {
    pub input: String,
    pub build: bool,
    pub once: bool,
    pub interval_milliseconds: u64,
    pub profile: Option<BuildProfile>,
}

pub struct WatchOptionsView {
    pub input: Option<Seq<char>>,
    pub build: bool,
    pub once: bool,
    pub interval_milliseconds: u64,
    pub profile: Option<BuildProfile>,
}

/// Reads the watch options from position `index` on.
pub open spec fn watch_options_from(arguments: Seq<Seq<char>>, index: int, state: WatchOptionsView) -> Result<
    WatchOptionsView,
    Seq<char>,
>
    decreases arguments.len() - index,
{
    if index < 0 || index >= arguments.len() {
        Ok(state)
    } else {
        let argument = arguments[index];
        if argument == "--build"@ && !state.build {
            watch_options_from(arguments, index + 1, WatchOptionsView { build: true, ..state })
        } else if argument == "--once"@ && !state.once {
            watch_options_from(arguments, index + 1, WatchOptionsView { once: true, ..state })
        } else if argument == "--release"@ {
            if state.profile is Some {
                Err(duplicate_profile_message())
            } else {
                watch_options_from(arguments, index + 1, WatchOptionsView { profile: Some(BuildProfile::Release), ..state })
            }
        } else if argument == "--profile"@ {
            if index + 1 >= arguments.len() {
                Err("missing value after `--profile`"@)
            } else {
                match spec_parse_profile(arguments[index + 1]) {
                    Err(error) => Err(error),
                    Ok(profile) => if state.profile is Some {
                        Err(duplicate_profile_message())
                    } else {
                        watch_options_from(arguments, index + 2, WatchOptionsView { profile: Some(profile), ..state })
                    },
                }
            }
        } else if argument == "--interval"@ {
            if index + 1 >= arguments.len() {
                Err("missing value after `--interval`"@)
            } else {
                match spec_parse_u64(arguments[index + 1]) {
                    None => Err("watch interval must be an integer in milliseconds"@),
                    Some(milliseconds) => if milliseconds == 0 {
                        Err("watch interval must be greater than zero"@)
                    } else {
                        watch_options_from(
                            arguments,
                            index + 2,
                            WatchOptionsView { interval_milliseconds: milliseconds, ..state },
                        )
                    },
                }
            }
        } else if state.input is None && !starts_with_dash(argument) {
            watch_options_from(arguments, index + 1, WatchOptionsView { input: Some(argument), ..state })
        } else {
            Err(quoted("unexpected watch argument `"@, argument))
        }
    }
}

pub open spec fn initial_watch_options() -> WatchOptionsView {
    WatchOptionsView { input: None, build: false, once: false, interval_milliseconds: 200, profile: None }
}

/// The options that were read, with `src/main.act` watched where no file was named.
pub open spec fn completed_watch_options(view: WatchOptionsView) -> WatchOptionsView {
    WatchOptionsView {
        input: Some(
            match view.input {
                Some(input) => input,
                None => "src/main.act"@,
            },
        ),
        ..view
    }
}

pub open spec fn watch_options_view(options: WatchOptions) -> WatchOptionsView {
    WatchOptionsView {
        input: Some(options.input@),
        build: options.build,
        once: options.once,
        interval_milliseconds: options.interval_milliseconds,
        profile: options.profile,
    }
}

/// Reads the options of a watch session: `--build` and `--once` (each at most once), a
/// profile (at most once), `--interval <milliseconds>` (a positive integer), and the file to
/// watch, `src/main.act` by default; the pause is 200 milliseconds unless given.
pub fn parse_watch_options(arguments: &Vec<String>) -> (result: Result<WatchOptions, String>)
    ensures
        match result {
            Ok(options) => match watch_options_from(text_views(arguments@), 0, initial_watch_options()) {
                Ok(view) => watch_options_view(options) == completed_watch_options(view),
                Err(_) => false,
            },
            Err(error) => watch_options_from(text_views(arguments@), 0, initial_watch_options()) == Err::<
                WatchOptionsView,
                Seq<char>,
            >(error@),
        },
{
    let ghost views = text_views(arguments@);
    let mut input: Option<String> = None;
    let mut build = false;
    let mut once = false;
    let mut interval: u64 = 200;
    let mut profile: Option<BuildProfile> = None;
    let mut index: usize = 0;
    while index < arguments.len()
        invariant
            views == text_views(arguments@),
            views.len() == arguments@.len(),
            index <= arguments@.len(),
            watch_options_from(views, 0, initial_watch_options()) == watch_options_from(
                views,
                index as int,
                WatchOptionsView { input: option_view(input), build, once, interval_milliseconds: interval, profile },
            ),
        decreases arguments@.len() - index,
    {
        let argument = &arguments[index];
        proof {
            assert(views[index as int] == argument@);
        }
        if str_eq(argument.as_str(), "--build") && !build {
            build = true;
            index = index + 1;
        } else if str_eq(argument.as_str(), "--once") && !once {
            once = true;
            index = index + 1;
        } else if str_eq(argument.as_str(), "--release") {
            profile = match replace_profile(profile, BuildProfile::Release) {
                Ok(selected) => selected,
                Err(error) => {
                    return Err(error);
                },
            };
            index = index + 1;
        } else if str_eq(argument.as_str(), "--profile") {
            if index + 1 >= arguments.len() {
                return Err(owned("missing value after `--profile`"));
            }
            proof {
                assert(views[index + 1] == arguments@[index + 1]@);
            }
            let selected = match parse_profile(arguments[index + 1].as_str()) {
                Ok(selected) => selected,
                Err(error) => {
                    return Err(error);
                },
            };
            profile = match replace_profile(profile, selected) {
                Ok(selected) => selected,
                Err(error) => {
                    return Err(error);
                },
            };
            index = index + 2;
        } else if str_eq(argument.as_str(), "--interval") {
            if index + 1 >= arguments.len() {
                return Err(owned("missing value after `--interval`"));
            }
            proof {
                assert(views[index + 1] == arguments@[index + 1]@);
            }
            let milliseconds = match parse_u64(arguments[index + 1].as_str()) {
                Some(milliseconds) => milliseconds,
                None => {
                    return Err(owned("watch interval must be an integer in milliseconds"));
                },
            };
            if milliseconds == 0 {
                return Err(owned("watch interval must be greater than zero"));
            }
            interval = milliseconds;
            index = index + 2;
        } else if input.is_none() && !is_dashed(argument.as_str()) {
            input = Some(copy_text(argument));
            index = index + 1;
        } else {
            return Err(message_with_text("unexpected watch argument `", argument.as_str(), "`"));
        }
    }
    let input = match input {
        Some(input) => input,
        None => owned("src/main.act"),
    };
    Ok(WatchOptions { input, build, once, interval_milliseconds: interval, profile })
}


/// Reads the version-control options of `actus new` and `actus init` from position `index` on:
/// whether to initialise a git repository.
pub open spec fn vcs_from(arguments: Seq<Seq<char>>, index: int, vcs: bool) -> Result<bool, Seq<char>>
    decreases arguments.len() - index,
{
    if index < 0 || index >= arguments.len() {
        Ok(vcs)
    } else {
        let argument = arguments[index];
        if argument == "--no-git"@ {
            vcs_from(arguments, index + 1, false)
        } else if argument == "--vcs"@ {
            if index + 1 >= arguments.len() {
                Err("missing value after `--vcs`"@)
            } else if arguments[index + 1] == "none"@ {
                vcs_from(arguments, index + 2, false)
            } else if arguments[index + 1] == "git"@ {
                vcs_from(arguments, index + 2, true)
            } else {
                Err(quoted("unsupported VCS `"@, arguments[index + 1]))
            }
        } else {
            Err(quoted("unexpected argument `"@, argument))
        }
    }
}

/// Reads `--no-git` and `--vcs none|git`: whether a new project gets a git repository (it does
/// unless told otherwise; the last option counts).
pub fn parse_vcs_options(arguments: &Vec<String>) -> (result: Result<bool, String>)
    ensures
        match result {
            Ok(vcs) => vcs_from(text_views(arguments@), 0, true) == Ok::<bool, Seq<char>>(vcs),
            Err(error) => vcs_from(text_views(arguments@), 0, true) == Err::<bool, Seq<char>>(error@),
        },
{
    let ghost views = text_views(arguments@);
    let mut vcs = true;
    let mut index: usize = 0;
    while index < arguments.len()
        invariant
            views == text_views(arguments@),
            views.len() == arguments@.len(),
            index <= arguments@.len(),
            vcs_from(views, 0, true) == vcs_from(views, index as int, vcs),
        decreases arguments@.len() - index,
    {
        let argument = &arguments[index];
        proof {
            assert(views[index as int] == argument@);
        }
        if str_eq(argument.as_str(), "--no-git") {
            vcs = false;
            index = index + 1;
        } else if str_eq(argument.as_str(), "--vcs") {
            if index + 1 >= arguments.len() {
                return Err(owned("missing value after `--vcs`"));
            }
            let value = &arguments[index + 1];
            proof {
                assert(views[index + 1] == value@);
            }
            if str_eq(value.as_str(), "none") {
                vcs = false;
            } else if str_eq(value.as_str(), "git") {
                vcs = true;
            } else {
                return Err(message_with_text("unsupported VCS `", value.as_str(), "`"));
            }
            index = index + 2;
        } else {
            return Err(message_with_text("unexpected argument `", argument.as_str(), "`"));
        }
    }
    Ok(vcs)
}

/// The options of `actus publish`.
#[derive(Debug)]
pub struct PublishOptions {
    pub input: String,
    pub registry: Option<String>,
    pub cache: Option<String>,
}

pub struct PublishOptionsView {
    pub input: Seq<char>,
    pub registry: Option<Seq<char>>,
    pub cache: Option<Seq<char>>,
}

pub open spec fn publish_options_view(options: PublishOptions) -> PublishOptionsView {
    PublishOptionsView { input: options.input@, registry: option_view(options.registry), cache: option_view(options.cache) }
}

/// Reads the publish options from position `index` on. The manifest path can be replaced as
/// long as it still reads `Arca.toml`.
pub open spec fn publish_options_from(arguments: Seq<Seq<char>>, index: int, state: PublishOptionsView) -> Result<
    PublishOptionsView,
    Seq<char>,
>
    decreases arguments.len() - index,
{
    if index < 0 || index >= arguments.len() {
        Ok(state)
    } else {
        let argument = arguments[index];
        if argument == "--registry"@ {
            if index + 1 >= arguments.len() {
                Err("missing path after `"@ + "--registry"@ + "`"@)
            } else {
                publish_options_from(arguments, index + 2, PublishOptionsView { registry: Some(arguments[index + 1]), ..state })
            }
        } else if argument == "--cache"@ {
            if index + 1 >= arguments.len() {
                Err("missing path after `"@ + "--cache"@ + "`"@)
            } else {
                publish_options_from(arguments, index + 2, PublishOptionsView { cache: Some(arguments[index + 1]), ..state })
            }
        } else if state.input == "Arca.toml"@ {
            publish_options_from(arguments, index + 1, PublishOptionsView { input: argument, ..state })
        } else {
            Err(quoted("unexpected argument `"@, argument))
        }
    }
}

pub open spec fn initial_publish_options() -> PublishOptionsView {
    PublishOptionsView { input: "Arca.toml"@, registry: None, cache: None }
}

/// The path that follows the option `option`.
pub fn next_path(arguments: &Vec<String>, index: usize, option: &str) -> (result: Result<String, String>)
    ensures
        match result {
            Ok(path) => index + 1 < arguments@.len() && path@ == arguments@[index + 1]@,
            Err(error) => index + 1 >= arguments@.len() && error@ == "missing path after `"@ + option@ + "`"@,
        },
{
    if arguments.len() == 0 || index >= arguments.len() - 1 {
        return Err(message_with_text("missing path after `", option, "`"));
    }
    Ok(copy_text(&arguments[index + 1]))
}

/// Reads the options of `actus publish`: the manifest (or project) path, `Arca.toml` by
/// default, `--registry <path>` and `--cache <path>`.
pub fn parse_publish_options(arguments: &Vec<String>) -> (result: Result<PublishOptions, String>)
    ensures
        match result {
            Ok(options) => publish_options_from(text_views(arguments@), 0, initial_publish_options()) == Ok::<
                PublishOptionsView,
                Seq<char>,
            >(publish_options_view(options)),
            Err(error) => publish_options_from(text_views(arguments@), 0, initial_publish_options()) == Err::<
                PublishOptionsView,
                Seq<char>,
            >(error@),
        },
{
    let ghost views = text_views(arguments@);
    let mut options = PublishOptions { input: owned("Arca.toml"), registry: None, cache: None };
    let mut index: usize = 0;
    while index < arguments.len()
        invariant
            views == text_views(arguments@),
            views.len() == arguments@.len(),
            index <= arguments@.len(),
            publish_options_from(views, 0, initial_publish_options()) == publish_options_from(
                views,
                index as int,
                publish_options_view(options),
            ),
        decreases arguments@.len() - index,
    {
        let argument = &arguments[index];
        proof {
            assert(views[index as int] == argument@);
            if index + 1 < arguments@.len() {
                assert(views[index + 1] == arguments@[index + 1]@);
            }
        }
        if str_eq(argument.as_str(), "--registry") {
            options.registry = match next_path(arguments, index, "--registry") {
                Ok(path) => Some(path),
                Err(error) => {
                    return Err(error);
                },
            };
            index = index + 2;
        } else if str_eq(argument.as_str(), "--cache") {
            options.cache = match next_path(arguments, index, "--cache") {
                Ok(path) => Some(path),
                Err(error) => {
                    return Err(error);
                },
            };
            index = index + 2;
        } else if str_eq(options.input.as_str(), "Arca.toml") {
            options.input = copy_text(argument);
            index = index + 1;
        } else {
            return Err(message_with_text("unexpected argument `", argument.as_str(), "`"));
        }
    }
    Ok(options)
}

/// The options of `actus fmt`.
#[derive(Debug)]
pub struct FmtOptions {
    pub check_only: bool,
    pub input: Option<String>,
}

/// Reads the fmt options from position `index` on.
pub open spec fn fmt_options_from(arguments: Seq<Seq<char>>, index: int, check_only: bool, input: Option<Seq<char>>) -> Result<
    (bool, Option<Seq<char>>),
    Seq<char>,
>
    decreases arguments.len() - index,
{
    if index < 0 || index >= arguments.len() {
        Ok((check_only, input))
    } else {
        let argument = arguments[index];
        if argument == "--check"@ && !check_only {
            fmt_options_from(arguments, index + 1, true, input)
        } else if input is None {
            fmt_options_from(arguments, index + 1, check_only, Some(argument))
        } else {
            Err(quoted("unexpected argument `"@, argument))
        }
    }
}

/// Reads the options of `actus fmt`: `--check` (at most once) and a path.
pub fn parse_fmt_options(arguments: &Vec<String>) -> (result: Result<FmtOptions, String>)
    ensures
        match result {
            Ok(options) => fmt_options_from(text_views(arguments@), 0, false, None) == Ok::<
                (bool, Option<Seq<char>>),
                Seq<char>,
            >((options.check_only, option_view(options.input))),
            Err(error) => fmt_options_from(text_views(arguments@), 0, false, None) == Err::<
                (bool, Option<Seq<char>>),
                Seq<char>,
            >(error@),
        },
{
    let ghost views = text_views(arguments@);
    let mut check_only = false;
    let mut input: Option<String> = None;
    let mut index: usize = 0;
    while index < arguments.len()
        invariant
            views == text_views(arguments@),
            views.len() == arguments@.len(),
            index <= arguments@.len(),
            fmt_options_from(views, 0, false, None) == fmt_options_from(views, index as int, check_only, option_view(input)),
        decreases arguments@.len() - index,
    {
        let argument = &arguments[index];
        proof {
            assert(views[index as int] == argument@);
        }
        if str_eq(argument.as_str(), "--check") && !check_only {
            check_only = true;
        } else if input.is_none() {
            input = Some(copy_text(argument));
        } else {
            return Err(message_with_text("unexpected argument `", argument.as_str(), "`"));
        }
        index = index + 1;
    }
    Ok(FmtOptions { check_only, input })
}

/// The file that `actus check` checks: the one argument it takes, `src/main.act` by default.
pub fn check_input(arguments: &Vec<String>) -> (result: Result<String, String>)
    ensures
        arguments@.len() > 1 ==> (result matches Err(error) && error@ == "unexpected extra argument"@),
        arguments@.len() == 1 ==> (result matches Ok(input) && input@ == arguments@[0]@),
        arguments@.len() == 0 ==> (result matches Ok(input) && input@ == "src/main.act"@),
{
    if arguments.len() > 1 {
        return Err(owned("unexpected extra argument"));
    }
    if arguments.len() == 1 {
        return Ok(copy_text(&arguments[0]));
    }
    Ok(owned("src/main.act"))
}

} // verus!
