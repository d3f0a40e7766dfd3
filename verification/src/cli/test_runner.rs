use vstd::prelude::*;

use crate::ast::{Block, Expr, Program, Stmt, TopLevelDecl, TypeName, VerbDecl};
use crate::span::SourceSpan;
use crate::text::{owned, str_eq};

use super::entry::first_verb_named;

verus! {

/// The `main` verb that runs the meta test `name`: it calls the test and returns 0.
pub open spec fn is_test_main(declaration: TopLevelDecl, name: Seq<char>) -> bool {
    match declaration {
        TopLevelDecl::Verb(verb) => {
            &&& verb.name@ == "main"@
            &&& verb.generic_parameters@.len() == 0
            &&& verb.params@.len() == 0
            &&& verb.return_type matches Some(ty) && ty.name@ == "Int"@ && ty.arguments@.len() == 0
            &&& verb.body.statements@.len() == 2
            &&& verb.body.statements@[0] matches Stmt::Expression { expression: Expr::Call { callee, arguments, .. }, .. }
                && callee@ == name && arguments@.len() == 0
            &&& verb.body.statements@[1] matches Stmt::Return { value: Some(Expr::Integer { value, .. }), .. } && value@
                == "0"@
        },
        _ => false,
    }
}

/// The entry verb of the program that runs the meta test `name`.
pub fn test_main(name: &str) -> (declaration: TopLevelDecl)
    ensures
        is_test_main(declaration, name@),
{
    let span = SourceSpan::new(0, 0);
    let call = Stmt::Expression {
        expression: Expr::Call { callee: owned(name), arguments: Vec::new(), span },
        span,
    };
    let exit = Stmt::Return { value: Some(Expr::Integer { value: owned("0"), span }), span };
    let mut statements: Vec<Stmt> = Vec::new();
    statements.push(call);
    statements.push(exit);
    TopLevelDecl::Verb(
        VerbDecl {
            name: owned("main"),
            generic_parameters: Vec::new(),
            params: Vec::new(),
            return_type: Some(TypeName { name: owned("Int"), arguments: Vec::new(), span }),
            body: Block { statements, span },
            span,
        },
    )
}

/// Why the program of a meta test cannot be run, if it cannot: the test verb must still be
/// there, take no parameters, and the program must leave `main` free.
pub open spec fn spec_test_program_error(declarations: Seq<TopLevelDecl>, name: Seq<char>) -> Option<Seq<char>> {
    let index = first_verb_named(declarations, name);
    if index < 0 {
        Some("test verb disappeared during collection"@)
    } else if declarations[index] matches TopLevelDecl::Verb(verb) && verb.params@.len() > 0 {
        Some("meta test verbs must not have parameters"@)
    } else if first_verb_named(declarations, "main"@) >= 0 {
        Some("meta test program already defines `main`"@)
    } else {
        None
    }
}

fn find_verb(program: &Program, name: &str) -> (index: Option<usize>)
    ensures
        match index {
            Some(i) => i == first_verb_named(program.declarations@, name@) && i < program.declarations@.len(),
            None => first_verb_named(program.declarations@, name@) == -1,
        },
{
    let ghost declarations = program.declarations@;
    let mut index: usize = 0;
    while index < program.declarations.len()
        invariant
            declarations == program.declarations@,
            index <= declarations.len(),
            first_verb_named(declarations.take(index as int), name@) == -1,
        decreases declarations.len() - index,
    {
        proof {
            assert(declarations.take(index + 1).drop_last() =~= declarations.take(index as int));
        }
        let matches = match &program.declarations[index] {
            TopLevelDecl::Verb(verb) => str_eq(verb.name.as_str(), name),
            _ => false,
        };
        if matches {
            proof {
                assert(first_verb_named(declarations.take(index + 1), name@) == index);
                lemma_first_verb_named_prefix(declarations, name@, index + 1);
            }
            return Some(index);
        }
        index = index + 1;
    }
    proof {
        assert(declarations.take(index as int) =~= declarations);
    }
    None
}

proof fn lemma_first_verb_named_prefix(declarations: Seq<TopLevelDecl>, name: Seq<char>, count: int)
    requires
        0 <= count <= declarations.len(),
        first_verb_named(declarations.take(count), name) >= 0,
    ensures
        first_verb_named(declarations, name) == first_verb_named(declarations.take(count), name),
    decreases declarations.len(),
{
    if count == declarations.len() {
        assert(declarations.take(count) =~= declarations);
    } else {
        assert(declarations.drop_last().take(count) =~= declarations.take(count));
        lemma_first_verb_named_prefix(declarations.drop_last(), name, count);
    }
}

/// Turns the program of a meta test into one that runs it: checks the test verb and adds a
/// `main` that calls it. The program is left as it was where a check fails.
pub fn prepare_test_program(program: &mut Program, name: &str) -> (result: Result<(), String>)
    ensures
        match result {
            Ok(()) => {
                &&& spec_test_program_error(old(program).declarations@, name@) is None
                &&& final(program).declarations@.len() == old(program).declarations@.len() + 1
                &&& final(program).declarations@.drop_last() == old(program).declarations@
                &&& is_test_main(final(program).declarations@.last(), name@)
            },
            Err(error) => {
                &&& spec_test_program_error(old(program).declarations@, name@) == Some(error@)
                &&& *final(program) == *old(program)
            },
        },
{
    let index = match find_verb(program, name) {
        Some(index) => index,
        None => {
            return Err(owned("test verb disappeared during collection"));
        },
    };
    let has_parameters = match &program.declarations[index] {
        TopLevelDecl::Verb(verb) => verb.params.len() > 0,
        _ => false,
    };
    if has_parameters {
        return Err(owned("meta test verbs must not have parameters"));
    }
    proof {
        reveal_strlit("main");
    }
    if find_verb(program, "main").is_some() {
        return Err(owned("meta test program already defines `main`"));
    }
    program.declarations.push(test_main(name));
    proof {
        assert(program.declarations@.drop_last() =~= old(program).declarations@);
    }
    Ok(())
}

pub open spec fn spec_test_summary(passed: nat, total: nat) -> Seq<char> {
    "test result: "@ + (if passed == total {
        "ok"@
    } else {
        "FAILED"@
    }) + ". "@ + crate::text::spec_decimal(passed) + " passed; "@ + crate::text::spec_decimal(
        (total - passed) as nat,
    ) + " failed"@
}

/// The closing line of a test run and the status it exits with: 1 where any test failed.
pub fn test_summary(passed: usize, total: usize) -> (summary: (String, i32))
    requires
        passed <= total,
    ensures
        summary.0@ == spec_test_summary(passed as nat, total as nat),
        summary.1 == if passed == total { 0i32 } else { 1i32 },
{
    let failed = total - passed;
    let verdict = if failed == 0 { "ok" } else { "FAILED" };
    let mut line = crate::text::concat(owned("test result: "), verdict);
    line = crate::text::concat(line, ". ");
    crate::text::push_decimal(&mut line, passed);
    line = crate::text::concat(line, " passed; ");
    crate::text::push_decimal(&mut line, failed);
    line = crate::text::concat(line, " failed");
    proof {
        reveal_strlit("ok");
        reveal_strlit("FAILED");
        assert(line@ =~= spec_test_summary(passed as nat, total as nat));
    }
    (line, if failed != 0 { 1 } else { 0 })
}


/// How running one meta test ended: its program exited with a status, or it could not be built
/// or run, for the reason given.
#[derive(Debug)]
pub enum TestOutcome {
    Exited(i32),
    Failed(String),
}

/// A status in decimal, with a leading `-` where it is negative.
pub open spec fn spec_signed_decimal(value: int) -> Seq<char> {
    if value < 0 {
        "-"@ + crate::text::spec_decimal((0 - value) as nat)
    } else {
        crate::text::spec_decimal(value as nat)
    }
}

/// Whether a meta test passed: its program exited with status 0.
pub open spec fn spec_test_passed(outcome: TestOutcome) -> bool {
    outcome matches TestOutcome::Exited(code) && code == 0
}

/// The line that reports one meta test.
pub open spec fn spec_test_result_line(path: Seq<char>, name: Seq<char>, elapsed: nat, outcome: TestOutcome) -> Seq<
    char,
> {
    "test "@ + path + "::"@ + name + " ... "@ + match outcome {
        TestOutcome::Exited(code) => if code == 0 {
            "ok ("@ + crate::text::spec_decimal(elapsed) + " ms, exit code 0)"@
        } else {
            "FAILED ("@ + crate::text::spec_decimal(elapsed) + " ms, exit code "@ + spec_signed_decimal(code as int)
                + ")"@
        },
        TestOutcome::Failed(error) => "FAILED ("@ + crate::text::spec_decimal(elapsed) + " ms, "@ + error@ + ")"@,
    }
}

/// Reports one meta test of the file at `path`, named `name`, that ran for `elapsed`
/// milliseconds: the line to print, and whether the test passed (its program exited with 0).
pub fn test_result_line(path: &str, name: &str, elapsed: usize, outcome: &TestOutcome) -> (report: (String, bool))
    ensures
        report.0@ == spec_test_result_line(path@, name@, elapsed as nat, *outcome),
        report.1 == spec_test_passed(*outcome),
{
    let mut line = crate::text::concat(owned("test "), path);
    line = crate::text::concat(line, "::");
    line = crate::text::concat(line, name);
    line = crate::text::concat(line, " ... ");
    let passed = match outcome {
        TestOutcome::Exited(code) => *code == 0,
        TestOutcome::Failed(_) => false,
    };
    line = crate::text::concat(line, if passed { "ok (" } else { "FAILED (" });
    crate::text::push_decimal(&mut line, elapsed);
    match outcome {
        TestOutcome::Exited(code) => {
            if *code == 0 {
                line = crate::text::concat(line, " ms, exit code 0)");
            } else {
                line = crate::text::concat(line, " ms, exit code ");
                if *code < 0 {
                    crate::text::push_char(&mut line, '-');
                    let magnitude = (0 - (*code as i64)) as usize;
                    crate::text::push_decimal(&mut line, magnitude);
                } else {
                    crate::text::push_decimal(&mut line, *code as usize);
                }
                line = crate::text::concat(line, ")");
            }
        },
        TestOutcome::Failed(error) => {
            line = crate::text::concat(line, " ms, ");
            line = crate::text::concat(line, error.as_str());
            line = crate::text::concat(line, ")");
        },
    }
    proof {
        reveal_strlit("-");
        reveal_strlit("ok (");
        reveal_strlit("FAILED (");
        assert(line@ =~= spec_test_result_line(path@, name@, elapsed as nat, *outcome));
    }
    (line, passed)
}

} // verus!
