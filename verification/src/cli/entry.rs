use vstd::prelude::*;

use crate::ast::{Program, TopLevelDecl};
use crate::configuration::EntryContract;
use crate::text::{message_with_text, owned, str_eq};

verus! {

/// What `actus build` writes.
#[derive(Clone, Copy, Debug, PartialEq, Eq, Structural)]
pub enum EmitKind {
    Object,
    Executable,
}

/// The name of the declaration, where it is a verb.
pub open spec fn verb_name(declaration: TopLevelDecl) -> Option<Seq<char>> {
    match declaration {
        TopLevelDecl::Verb(verb) => Some(verb.name@),
        _ => None,
    }
}

/// The position of the first verb among `declarations`, or -1.
pub open spec fn first_verb(declarations: Seq<TopLevelDecl>) -> int
    decreases declarations.len(),
{
    if declarations.len() == 0 {
        -1
    } else if first_verb(declarations.drop_last()) >= 0 {
        first_verb(declarations.drop_last())
    } else if verb_name(declarations.last()) is Some {
        declarations.len() - 1
    } else {
        -1
    }
}

/// The position of the first verb named `name` among `declarations`, or -1.
pub open spec fn first_verb_named(declarations: Seq<TopLevelDecl>, name: Seq<char>) -> int
    decreases declarations.len(),
{
    if declarations.len() == 0 {
        -1
    } else if first_verb_named(declarations.drop_last(), name) >= 0 {
        first_verb_named(declarations.drop_last(), name)
    } else if verb_name(declarations.last()) == Some(name) {
        declarations.len() - 1
    } else {
        -1
    }
}

proof fn lemma_first_verb_bounds(declarations: Seq<TopLevelDecl>, name: Seq<char>)
    ensures
        -1 <= first_verb(declarations) < declarations.len(),
        -1 <= first_verb_named(declarations, name) < declarations.len(),
        first_verb(declarations) >= 0 ==> verb_name(declarations[first_verb(declarations)]) is Some,
        first_verb_named(declarations, name) >= 0 ==> verb_name(declarations[first_verb_named(declarations, name)])
            == Some(name),
    decreases declarations.len(),
{
    if declarations.len() > 0 {
        lemma_first_verb_bounds(declarations.drop_last(), name);
    }
}

/// The name of the first verb of `program`, which is the entry where none is configured.
pub fn first_defined_verb(program: &Program) -> (name: Option<&str>)
    ensures
        match name {
            Some(n) => {
                let i = first_verb(program.declarations@);
                0 <= i < program.declarations@.len() && verb_name(program.declarations@[i]) == Some(n@)
            },
            None => first_verb(program.declarations@) == -1,
        },
{
    let ghost declarations = program.declarations@;
    let mut index: usize = 0;
    while index < program.declarations.len()
        invariant
            declarations == program.declarations@,
            index <= declarations.len(),
            first_verb(declarations.take(index as int)) == -1,
        decreases declarations.len() - index,
    {
        proof {
            assert(declarations.take(index + 1).drop_last() =~= declarations.take(index as int));
        }
        if let TopLevelDecl::Verb(verb) = &program.declarations[index] {
            proof {
                assert(first_verb(declarations.take(index + 1)) == index);
                lemma_first_verb_prefix(declarations, index + 1);
            }
            return Some(verb.name.as_str());
        }
        index = index + 1;
    }
    proof {
        assert(declarations.take(index as int) =~= declarations);
    }
    None
}

proof fn lemma_first_verb_prefix(declarations: Seq<TopLevelDecl>, count: int)
    requires
        0 <= count <= declarations.len(),
        first_verb(declarations.take(count)) >= 0,
    ensures
        first_verb(declarations) == first_verb(declarations.take(count)),
    decreases declarations.len(),
{
    if count == declarations.len() {
        assert(declarations.take(count) =~= declarations);
    } else {
        assert(declarations.drop_last().take(count) =~= declarations.take(count));
        lemma_first_verb_prefix(declarations.drop_last(), count);
    }
}

proof fn lemma_first_verb_named_prefix(declarations: Seq<TopLevelDecl>, name: Seq<char>, count: int)
    requires
        0 <= count <= declarations.len(),
        first_verb_named(declarations.take(count), name) >= 0,
    ensures
        first_verb_named(declarations, name) == first_verb_named(declarations.take(count), name),
    decreases declarations.len(),
{
    if count == declarations.len() {
        assert(declarations.take(count) =~= declarations);
    } else {
        assert(declarations.drop_last().take(count) =~= declarations.take(count));
        lemma_first_verb_named_prefix(declarations.drop_last(), name, count);
    }
}

/// Whether the verb at position `index` takes parameters.
pub open spec fn verb_has_parameters(declarations: Seq<TopLevelDecl>, index: int) -> bool {
    match declarations[index] {
        TopLevelDecl::Verb(verb) => verb.params@.len() > 0,
        _ => false,
    }
}

pub open spec fn hosted_entry_message() -> Seq<char> {
    "hosted executables require entry verb `main`; freestanding targets accept a configured entry symbol"@
}

/// Why `symbol` cannot be the entry of what is emitted, if it cannot.
pub open spec fn spec_validate_entry(
    declarations: Seq<TopLevelDecl>,
    symbol: Seq<char>,
    emit: EmitKind,
    contract: EntryContract,
) -> Option<Seq<char>> {
    let index = first_verb_named(declarations, symbol);
    if index < 0 {
        Some("entry verb `"@ + symbol + "` was not found"@)
    } else if emit == EmitKind::Executable && contract == EntryContract::Hosted && symbol != "main"@ {
        Some(hosted_entry_message())
    } else if emit == EmitKind::Executable && verb_has_parameters(declarations, index) {
        Some("executable entry verb `"@ + symbol + "` cannot have parameters"@)
    } else {
        None
    }
}

/// Checks that `symbol` names a verb of `program` that can be the entry of what is emitted: a
/// hosted executable is entered at `main`, and an executable's entry takes no parameters.
pub fn validate_entry(program: &Program, symbol: &str, emit: EmitKind, contract: EntryContract) -> (result: Result<
    (),
    String,
>)
    ensures
        match result {
            Ok(()) => spec_validate_entry(program.declarations@, symbol@, emit, contract) is None,
            Err(error) => spec_validate_entry(program.declarations@, symbol@, emit, contract) == Some(error@),
        },
{
    let ghost declarations = program.declarations@;
    let mut index: usize = 0;
    let mut found: Option<usize> = None;
    while index < program.declarations.len()
        invariant
            declarations == program.declarations@,
            index <= declarations.len(),
            found is None,
            first_verb_named(declarations.take(index as int), symbol@) == -1,
        decreases declarations.len() - index,
    {
        proof {
            assert(declarations.take(index + 1).drop_last() =~= declarations.take(index as int));
        }
        let matches = match &program.declarations[index] {
            TopLevelDecl::Verb(verb) => str_eq(verb.name.as_str(), symbol),
            _ => false,
        };
        if matches {
            proof {
                assert(first_verb_named(declarations.take(index + 1), symbol@) == index);
                lemma_first_verb_named_prefix(declarations, symbol@, index + 1);
            }
            return check_entry_verb(program, index, symbol, emit, contract);
        }
        index = index + 1;
    }
    proof {
        assert(declarations.take(index as int) =~= declarations);
    }
    Err(message_with_text("entry verb `", symbol, "` was not found"))
}

fn check_entry_verb(program: &Program, index: usize, symbol: &str, emit: EmitKind, contract: EntryContract) -> (result: Result<
    (),
    String,
>)
    requires
        index == first_verb_named(program.declarations@, symbol@),
        0 <= index < program.declarations@.len(),
    ensures
        match result {
            Ok(()) => spec_validate_entry(program.declarations@, symbol@, emit, contract) is None,
            Err(error) => spec_validate_entry(program.declarations@, symbol@, emit, contract) == Some(error@),
        },
{
    if emit == EmitKind::Executable && contract == EntryContract::Hosted && !str_eq(symbol, "main") {
        return Err(
            owned(
                "hosted executables require entry verb `main`; freestanding targets accept a configured entry symbol",
            ),
        );
    }
    let has_parameters = match &program.declarations[index] {
        TopLevelDecl::Verb(verb) => verb.params.len() > 0,
        _ => false,
    };
    if emit == EmitKind::Executable && has_parameters {
        return Err(message_with_text("executable entry verb `", symbol, "` cannot have parameters"));
    }
    Ok(())
}

/// The entry symbol a hosted target implies: `main` for a hosted program, else the fallback.
pub fn hosted_entry_symbol<'a>(contract: EntryContract, fallback_symbol: &'a str) -> (symbol: Option<&'a str>)
    ensures
        symbol matches Some(s) && s@ == if contract == EntryContract::Hosted {
            "main"@
        } else {
            fallback_symbol@
        },
{
    if contract == EntryContract::Hosted {
        proof {
            reveal_strlit("main");
        }
        Some("main")
    } else {
        Some(fallback_symbol)
    }
}

/// The symbol a build enters at: the configured one, else the one the entry contract implies.
pub fn entry_symbol<'a>(configured: Option<&'a str>, contract: EntryContract, fallback_symbol: &'a str) -> (symbol:
    &'a str)
    ensures
        symbol@ == match configured {
            Some(s) => s@,
            None => if contract == EntryContract::Hosted {
                "main"@
            } else {
                fallback_symbol@
            },
        },
{
    match configured {
        Some(symbol) => symbol,
        None => match hosted_entry_symbol(contract, fallback_symbol) {
            Some(symbol) => symbol,
            None => fallback_symbol,
        },
    }
}


/// The source file a command works on: the one named, else the default entry of the project.
pub fn entry_path(configuration: &crate::configuration::CompilerConfiguration, input: Option<&str>) -> (path: String)
    ensures
        path@ == match input {
            Some(named) => named@,
            None => configuration.source_root@ + "/main.act"@,
        },
{
    match input {
        Some(named) => owned(named),
        None => configuration.default_entry_path(),
    }
}

} // verus!
