use vstd::prelude::*;

use crate::ast::{Argument, Block, CaseBody, CaseBranch, Expr, Program, Stmt, StructFieldInit, TopLevelDecl};

use crate::text::{lemma_text_less_irreflexive, lemma_text_less_total, lemma_text_less_transitive, str_eq, text_less, text_lt};

verus! {

pub open spec fn text_views(texts: Seq<String>) -> Seq<Seq<char>> {
    texts.map_values(|text: String| text@)
}

/// Each text comes strictly before the next, so none occurs twice.
pub open spec fn strictly_sorted(texts: Seq<Seq<char>>) -> bool {
    forall|i: int, j: int| 0 <= i < j < texts.len() ==> text_less(#[trigger] texts[i], #[trigger] texts[j])
}

/// The texts of `names` in strictly increasing order.
pub open spec fn sorted_listing(names: Set<Seq<char>>) -> Seq<Seq<char>> {
    choose|listing: Seq<Seq<char>>| strictly_sorted(listing) && listing.to_set() == names
}

/// Two strictly sorted sequences that hold the same texts are the same sequence.
pub proof fn lemma_strictly_sorted_unique(a: Seq<Seq<char>>, b: Seq<Seq<char>>)
    requires
        strictly_sorted(a),
        strictly_sorted(b),
        a.to_set() == b.to_set(),
    ensures
        a == b,
    decreases a.len(),
{
    if a.len() == 0 {
        if b.len() > 0 {
            assert(b.to_set().contains(b[0]));
        }
        assert(a =~= b);
    } else {
        assert(a.to_set().contains(a[0]));
        assert(b.len() > 0);
        assert(b.to_set().contains(b[0]));
        let k = choose|k: int| 0 <= k < b.len() && b[k] == a[0];
        let m = choose|m: int| 0 <= m < a.len() && a[m] == b[0];
        if k > 0 && m > 0 {
            assert(text_less(b[0], b[k]));
            assert(text_less(a[0], a[m]));
            lemma_text_less_transitive(a[0], b[0], a[0]);
            lemma_text_less_irreflexive(a[0]);
        } else if k > 0 {
            assert(a[0] == b[0]);
        }
        assert(a[0] == b[0]);
        let ra = a.drop_first();
        let rb = b.drop_first();
        assert forall|x: Seq<char>| ra.to_set().contains(x) implies rb.to_set().contains(x) by {
            let i = choose|i: int| 0 <= i < ra.len() && ra[i] == x;
            assert(a[i + 1] == x);
            assert(text_less(a[0], a[i + 1]));
            lemma_text_less_irreflexive(a[0]);
            assert(a.to_set().contains(x));
            let j = choose|j: int| 0 <= j < b.len() && b[j] == x;
            assert(j != 0);
            assert(rb[j - 1] == x);
        }
        assert forall|x: Seq<char>| rb.to_set().contains(x) implies ra.to_set().contains(x) by {
            let i = choose|i: int| 0 <= i < rb.len() && rb[i] == x;
            assert(b[i + 1] == x);
            assert(text_less(b[0], b[i + 1]));
            lemma_text_less_irreflexive(b[0]);
            assert(b.to_set().contains(x));
            let j = choose|j: int| 0 <= j < a.len() && a[j] == x;
            assert(j != 0);
            assert(ra[j - 1] == x);
        }
        assert(ra.to_set() =~= rb.to_set());
        assert(strictly_sorted(ra)) by {
            assert forall|i: int, j: int| 0 <= i < j < ra.len() implies text_less(#[trigger] ra[i], #[trigger] ra[j]) by {
                assert(ra[i] == a[i + 1] && ra[j] == a[j + 1]);
            }
        }
        assert(strictly_sorted(rb)) by {
            assert forall|i: int, j: int| 0 <= i < j < rb.len() implies text_less(#[trigger] rb[i], #[trigger] rb[j]) by {
                assert(rb[i] == b[i + 1] && rb[j] == b[j + 1]);
            }
        }
        lemma_strictly_sorted_unique(ra, rb);
        assert(a =~= b) by {
            assert forall|i: int| 0 <= i < a.len() implies a[i] == b[i] by {
                if i > 0 {
                    assert(a[i] == ra[i - 1] && b[i] == rb[i - 1]);
                }
            }
        }
    }
}

/// A strictly sorted sequence is the sorted listing of its texts.
pub proof fn lemma_sorted_listing(texts: Seq<Seq<char>>)
    requires
        strictly_sorted(texts),
    ensures
        sorted_listing(texts.to_set()) == texts,
{
    let listing = sorted_listing(texts.to_set());
    assert(strictly_sorted(listing) && listing.to_set() == texts.to_set());
    lemma_strictly_sorted_unique(listing, texts);
}

/// Adds `value` to the strictly sorted `values`, where it is not there yet.
pub fn insert_text(values: &mut Vec<String>, value: &String)
    requires
        strictly_sorted(text_views(old(values)@)),
    ensures
        strictly_sorted(text_views(final(values)@)),
        text_views(final(values)@).to_set() == text_views(old(values)@).to_set().insert(value@),
{
    let ghost texts = text_views(values@);
    let mut position: usize = 0;
    while position < values.len() && text_lt(values[position].as_str(), value.as_str())
        invariant
            texts == text_views(values@),
            values@ == old(values)@,
            strictly_sorted(texts),
            position <= values@.len(),
            forall|j: int| 0 <= j < position ==> text_less(#[trigger] texts[j], value@),
        decreases values@.len() - position,
    {
        position = position + 1;
    }
    if position < values.len() && str_eq(values[position].as_str(), value.as_str()) {
        proof {
            assert(texts.to_set() =~= texts.to_set().insert(value@)) by {
                assert(texts.contains(value@)) by {
                    assert(texts[position as int] == value@);
                }
            }
        }
        return;
    }
    proof {
        if position < texts.len() {
            lemma_text_less_total(texts[position as int], value@);
        }
    }
    values.insert(position, value.clone());
    proof {
        let inserted = texts.insert(position as int, value@);
        assert(text_views(values@) =~= inserted);
        assert forall|i: int, j: int| 0 <= i < j < inserted.len() implies text_less(
            #[trigger] inserted[i],
            #[trigger] inserted[j],
        ) by {
            if j < position {
                assert(inserted[i] == texts[i] && inserted[j] == texts[j]);
            } else if j == position {
                assert(inserted[i] == texts[i] && inserted[j] == value@);
            } else if i < position {
                assert(inserted[i] == texts[i] && inserted[j] == texts[j - 1]);
                if i < j - 1 {
                } else {
                    lemma_text_less_irreflexive(texts[i]);
                }
            } else if i == position {
                assert(inserted[i] == value@ && inserted[j] == texts[j - 1]);
                if position < j - 1 {
                    lemma_text_less_transitive(value@, texts[position as int], texts[j - 1]);
                }
            } else {
                assert(inserted[i] == texts[i - 1] && inserted[j] == texts[j - 1]);
            }
        }
        assert forall|x: Seq<char>| #[trigger] inserted.contains(x) <==> (texts.contains(x) || x == value@) by {
            if inserted.contains(x) {
                let k = choose|k: int| 0 <= k < inserted.len() && inserted[k] == x;
                if k < position {
                    assert(texts[k] == x);
                } else if k > position {
                    assert(texts[k - 1] == x);
                }
            }
            if texts.contains(x) {
                let k = choose|k: int| 0 <= k < texts.len() && texts[k] == x;
                if k < position {
                    assert(inserted[k] == x);
                } else {
                    assert(inserted[k + 1] == x);
                }
            }
            if x == value@ {
                assert(inserted[position as int] == x);
            }
        }
        assert(inserted.to_set() =~= texts.to_set().insert(value@));
    }
}


/// The string literals written in an expression.
pub open spec fn expression_strings(expression: Expr) -> Set<Seq<char>>
    decreases expression, 0nat,
{
    match expression {
        Expr::StringLiteral { value, .. } => set![value@],
        Expr::Grouping { expression: inner, .. } => expression_strings(*inner),
        Expr::Unary { expression: inner, .. } => expression_strings(*inner),
        Expr::Borrow { expression: inner, .. } => expression_strings(*inner),
        Expr::Binary { left, right, .. } => expression_strings(*left).union(expression_strings(*right)),
        Expr::Call { arguments, .. } => arguments_strings(arguments@, arguments@.len()),
        Expr::MethodCall { receiver, arguments, .. } => expression_strings(*receiver).union(
            arguments_strings(arguments@, arguments@.len()),
        ),
        Expr::StructLit { fields, .. } => field_inits_strings(fields@, fields@.len()),
        Expr::FieldAccess { object, .. } => expression_strings(*object),
        Expr::Case { subject, branches, .. } => expression_strings(*subject).union(
            branches_strings(branches@, branches@.len()),
        ),
        Expr::Identifier { .. } | Expr::Integer { .. } | Expr::FloatLiteral { .. } => Set::empty(),
    }
}

/// The string literals in the first `count` arguments.
pub open spec fn arguments_strings(arguments: Seq<Argument>, count: nat) -> Set<Seq<char>>
    decreases arguments, count,
{
    if count == 0 || count > arguments.len() {
        Set::empty()
    } else {
        arguments_strings(arguments, (count - 1) as nat).union(expression_strings(arguments[count - 1].expression))
    }
}

/// The string literals in the first `count` field initialisers.
pub open spec fn field_inits_strings(fields: Seq<StructFieldInit>, count: nat) -> Set<Seq<char>>
    decreases fields, count,
{
    if count == 0 || count > fields.len() {
        Set::empty()
    } else {
        field_inits_strings(fields, (count - 1) as nat).union(expression_strings(fields[count - 1].value))
    }
}

/// The string literals in the bodies of the first `count` case branches.
pub open spec fn branches_strings(branches: Seq<CaseBranch>, count: nat) -> Set<Seq<char>>
    decreases branches, count,
{
    if count == 0 || count > branches.len() {
        Set::empty()
    } else {
        branches_strings(branches, (count - 1) as nat).union(
            match branches[count - 1].body {
                CaseBody::Expression(body) => expression_strings(*body),
                CaseBody::Block(block) => statements_strings(block.statements@, block.statements@.len()),
            },
        )
    }
}

/// The string literals in the first `count` statements, nested blocks and loops included.
pub open spec fn statements_strings(statements: Seq<Stmt>, count: nat) -> Set<Seq<char>>
    decreases statements, count,
{
    if count == 0 || count > statements.len() {
        Set::empty()
    } else {
        statements_strings(statements, (count - 1) as nat).union(statement_strings(statements[count - 1]))
    }
}

/// The string literals in one statement.
pub open spec fn statement_strings(statement: Stmt) -> Set<Seq<char>>
    decreases statement, 0nat,
{
    match statement {
        Stmt::OwnerDecl { initializer, .. } => expression_strings(initializer),
        Stmt::Assignment { value, .. } => expression_strings(value),
        Stmt::Expression { expression, .. } => expression_strings(expression),
        Stmt::Return { value: Some(value), .. } => expression_strings(value),
        Stmt::Loop(block) => statements_strings(block.statements@, block.statements@.len()),
        Stmt::Block(block) => statements_strings(block.statements@, block.statements@.len()),
        _ => Set::empty(),
    }
}


/// Adds the string literals of `expression` to `values`.
pub fn collect_expression(expression: &Expr, values: &mut Vec<String>)
    requires
        strictly_sorted(text_views(old(values)@)),
    ensures
        strictly_sorted(text_views(final(values)@)),
        text_views(final(values)@).to_set() == text_views(old(values)@).to_set().union(expression_strings(*expression)),
    decreases expression,
{
    let ghost start = text_views(values@).to_set();
    match expression {
        Expr::StringLiteral { value, .. } => {
            insert_text(values, value);
            proof {
                assert(text_views(values@).to_set() =~= start.union(expression_strings(*expression)));
            }
        },
        Expr::Grouping { expression: inner, .. } | Expr::Unary { expression: inner, .. } | Expr::Borrow {
            expression: inner,
            ..
        } => {
            collect_expression(inner, values);
        },
        Expr::Binary { left, right, .. } => {
            collect_expression(left, values);
            collect_expression(right, values);
            proof {
                assert(text_views(values@).to_set() =~= start.union(expression_strings(*expression)));
            }
        },
        Expr::Call { arguments, .. } => {
            collect_arguments(arguments, values);
        },
        Expr::MethodCall { receiver, arguments, .. } => {
            collect_expression(receiver, values);
            collect_arguments(arguments, values);
            proof {
                assert(text_views(values@).to_set() =~= start.union(expression_strings(*expression)));
            }
        },
        Expr::StructLit { fields, .. } => {
            collect_field_inits(fields, values);
        },
        Expr::FieldAccess { object, .. } => {
            collect_expression(object, values);
        },
        Expr::Case { subject, branches, .. } => {
            collect_expression(subject, values);
            collect_branches(branches, values);
            proof {
                assert(text_views(values@).to_set() =~= start.union(expression_strings(*expression)));
            }
        },
        Expr::Identifier { .. } | Expr::Integer { .. } | Expr::FloatLiteral { .. } => {
            proof {
                assert(start.union(expression_strings(*expression)) =~= start);
            }
        },
    }
}

fn collect_arguments(arguments: &Vec<Argument>, values: &mut Vec<String>)
    requires
        strictly_sorted(text_views(old(values)@)),
    ensures
        strictly_sorted(text_views(final(values)@)),
        text_views(final(values)@).to_set() == text_views(old(values)@).to_set().union(
            arguments_strings(arguments@, arguments@.len()),
        ),
    decreases arguments,
{
    let ghost start = text_views(values@).to_set();
    let mut index: usize = 0;
    proof {
        assert(start.union(arguments_strings(arguments@, 0)) =~= start);
    }
    while index < arguments.len()
        invariant
            index <= arguments@.len(),
            strictly_sorted(text_views(values@)),
            text_views(values@).to_set() == start.union(arguments_strings(arguments@, index as nat)),
        decreases arguments@.len() - index,
    {
        collect_expression(&arguments[index].expression, values);
        proof {
            assert(text_views(values@).to_set() =~= start.union(arguments_strings(arguments@, (index + 1) as nat)));
        }
        index = index + 1;
    }
}

fn collect_field_inits(fields: &Vec<StructFieldInit>, values: &mut Vec<String>)
    requires
        strictly_sorted(text_views(old(values)@)),
    ensures
        strictly_sorted(text_views(final(values)@)),
        text_views(final(values)@).to_set() == text_views(old(values)@).to_set().union(
            field_inits_strings(fields@, fields@.len()),
        ),
    decreases fields,
{
    let ghost start = text_views(values@).to_set();
    let mut index: usize = 0;
    proof {
        assert(start.union(field_inits_strings(fields@, 0)) =~= start);
    }
    while index < fields.len()
        invariant
            index <= fields@.len(),
            strictly_sorted(text_views(values@)),
            text_views(values@).to_set() == start.union(field_inits_strings(fields@, index as nat)),
        decreases fields@.len() - index,
    {
        collect_expression(&fields[index].value, values);
        proof {
            assert(text_views(values@).to_set() =~= start.union(field_inits_strings(fields@, (index + 1) as nat)));
        }
        index = index + 1;
    }
}

fn collect_branches(branches: &Vec<CaseBranch>, values: &mut Vec<String>)
    requires
        strictly_sorted(text_views(old(values)@)),
    ensures
        strictly_sorted(text_views(final(values)@)),
        text_views(final(values)@).to_set() == text_views(old(values)@).to_set().union(
            branches_strings(branches@, branches@.len()),
        ),
    decreases branches,
{
    let ghost start = text_views(values@).to_set();
    let mut index: usize = 0;
    proof {
        assert(start.union(branches_strings(branches@, 0)) =~= start);
    }
    while index < branches.len()
        invariant
            index <= branches@.len(),
            strictly_sorted(text_views(values@)),
            text_views(values@).to_set() == start.union(branches_strings(branches@, index as nat)),
        decreases branches@.len() - index,
    {
        match &branches[index].body {
            CaseBody::Expression(body) => {
                collect_expression(body, values);
            },
            CaseBody::Block(block) => {
                collect_statements(&block.statements, values);
            },
        }
        proof {
            assert(text_views(values@).to_set() =~= start.union(branches_strings(branches@, (index + 1) as nat)));
        }
        index = index + 1;
    }
}

/// Adds the string literals of `statements` to `values`.
pub fn collect_statements(statements: &Vec<Stmt>, values: &mut Vec<String>)
    requires
        strictly_sorted(text_views(old(values)@)),
    ensures
        strictly_sorted(text_views(final(values)@)),
        text_views(final(values)@).to_set() == text_views(old(values)@).to_set().union(
            statements_strings(statements@, statements@.len()),
        ),
    decreases statements,
{
    let ghost start = text_views(values@).to_set();
    let mut index: usize = 0;
    proof {
        assert(start.union(statements_strings(statements@, 0)) =~= start);
    }
    while index < statements.len()
        invariant
            index <= statements@.len(),
            strictly_sorted(text_views(values@)),
            text_views(values@).to_set() == start.union(statements_strings(statements@, index as nat)),
        decreases statements@.len() - index,
    {
        collect_statement(&statements[index], values);
        proof {
            assert(text_views(values@).to_set() =~= start.union(statements_strings(statements@, (index + 1) as nat)));
        }
        index = index + 1;
    }
}

fn collect_statement(statement: &Stmt, values: &mut Vec<String>)
    requires
        strictly_sorted(text_views(old(values)@)),
    ensures
        strictly_sorted(text_views(final(values)@)),
        text_views(final(values)@).to_set() == text_views(old(values)@).to_set().union(statement_strings(*statement)),
    decreases statement,
{
    let ghost start = text_views(values@).to_set();
    match statement {
        Stmt::OwnerDecl { initializer, .. } => collect_expression(initializer, values),
        Stmt::Assignment { value, .. } => collect_expression(value, values),
        Stmt::Expression { expression, .. } => collect_expression(expression, values),
        Stmt::Return { value: Some(value), .. } => collect_expression(value, values),
        Stmt::Loop(block) | Stmt::Block(block) => collect_statements(&block.statements, values),
        _ => {
            proof {
                assert(start.union(statement_strings(*statement)) =~= start);
            }
        },
    }
}

/// The string literals of every verb body of a program, once each and in order.
pub open spec fn declarations_strings(declarations: Seq<TopLevelDecl>) -> Set<Seq<char>>
    decreases declarations.len(),
{
    if declarations.len() == 0 {
        Set::empty()
    } else {
        declarations_strings(declarations.drop_last()).union(
            match declarations.last() {
                TopLevelDecl::Verb(verb) => statements_strings(verb.body.statements@, verb.body.statements@.len()),
                _ => Set::empty(),
            },
        )
    }
}

/// The string literals that the verbs of `program` write, sorted, each once: the string data
/// that native code for the program carries.
pub fn program_string_literals(program: &Program) -> (values: Vec<String>)
    ensures
        strictly_sorted(text_views(values@)),
        text_views(values@).to_set() == declarations_strings(program.declarations@),
{
    let mut values: Vec<String> = Vec::new();
    let ghost declarations = program.declarations@;
    proof {
        assert(text_views(values@).to_set() =~= Set::<Seq<char>>::empty());
    }
    let mut index: usize = 0;
    while index < program.declarations.len()
        invariant
            declarations == program.declarations@,
            index <= declarations.len(),
            strictly_sorted(text_views(values@)),
            text_views(values@).to_set() == declarations_strings(declarations.take(index as int)),
        decreases declarations.len() - index,
    {
        proof {
            assert(declarations.take(index + 1).drop_last() =~= declarations.take(index as int));
        }
        let ghost before = text_views(values@).to_set();
        match &program.declarations[index] {
            TopLevelDecl::Verb(verb) => {
                collect_statements(&verb.body.statements, &mut values);
            },
            _ => {
                proof {
                    assert(before.union(Set::<Seq<char>>::empty()) =~= before);
                }
            },
        }
        proof {
            assert(text_views(values@).to_set() =~= declarations_strings(declarations.take(index + 1)));
        }
        index = index + 1;
    }
    proof {
        assert(declarations.take(index as int) =~= declarations);
    }
    values
}

pub open spec fn spec_string_symbol(index: nat) -> Seq<char> {
    "actus_string_"@ + crate::text::spec_decimal(index)
}

/// The symbol of the string data at position `index` of the sorted literals.
pub fn string_symbol(index: usize) -> (symbol: String)
    ensures
        symbol@ == spec_string_symbol(index as nat),
{
    let mut symbol = crate::text::owned("actus_string_");
    crate::text::push_decimal(&mut symbol, index);
    symbol
}


/// Every string literal gets its own data symbol: symbols at different positions differ.
pub proof fn law_string_symbols_distinct(first: nat, second: nat)
    requires
        spec_string_symbol(first) == spec_string_symbol(second),
    ensures
        first == second,
{
    let prefix = "actus_string_"@;
    assert(crate::text::spec_decimal(first) =~= spec_string_symbol(first).skip(prefix.len() as int));
    assert(crate::text::spec_decimal(second) =~= spec_string_symbol(second).skip(prefix.len() as int));
    crate::text::law_decimal_injective(first, second);
}

/// The expressions that are bodies of the first `count` case branches.
pub open spec fn branch_expressions(branches: Seq<CaseBranch>, count: nat) -> Seq<Expr>
    decreases count,
{
    if count == 0 || count > branches.len() {
        Seq::empty()
    } else {
        branch_expressions(branches, (count - 1) as nat) + match branches[count - 1].body {
            CaseBody::Expression(body) => seq![*body],
            CaseBody::Block(_) => Seq::empty(),
        }
    }
}

/// The statement lists that are bodies of the first `count` case branches.
pub open spec fn branch_blocks(branches: Seq<CaseBranch>, count: nat) -> Seq<Seq<Stmt>>
    decreases count,
{
    if count == 0 || count > branches.len() {
        Seq::empty()
    } else {
        branch_blocks(branches, (count - 1) as nat) + match branches[count - 1].body {
            CaseBody::Expression(_) => Seq::empty(),
            CaseBody::Block(block) => seq![block.statements@],
        }
    }
}

/// The expressions directly inside `expression`.
pub open spec fn expression_parts(expression: Expr) -> Seq<Expr> {
    match expression {
        Expr::Grouping { expression: inner, .. } => seq![*inner],
        Expr::Unary { expression: inner, .. } => seq![*inner],
        Expr::Borrow { expression: inner, .. } => seq![*inner],
        Expr::Binary { left, right, .. } => seq![*left, *right],
        Expr::Call { arguments, .. } => arguments@.map_values(|argument: Argument| argument.expression),
        Expr::MethodCall { receiver, arguments, .. } => seq![*receiver] + arguments@.map_values(
            |argument: Argument| argument.expression,
        ),
        Expr::StructLit { fields, .. } => fields@.map_values(|field: StructFieldInit| field.value),
        Expr::FieldAccess { object, .. } => seq![*object],
        Expr::Case { subject, branches, .. } => seq![*subject] + branch_expressions(branches@, branches@.len()),
        _ => Seq::empty(),
    }
}

/// The statement lists directly inside `expression`: the block bodies of its case branches.
pub open spec fn expression_blocks(expression: Expr) -> Seq<Seq<Stmt>> {
    match expression {
        Expr::Case { branches, .. } => branch_blocks(branches@, branches@.len()),
        _ => Seq::empty(),
    }
}

/// The expressions directly inside `statement`.
pub open spec fn statement_parts(statement: Stmt) -> Seq<Expr> {
    match statement {
        Stmt::OwnerDecl { initializer, .. } => seq![initializer],
        Stmt::Assignment { value, .. } => seq![value],
        Stmt::Expression { expression, .. } => seq![expression],
        Stmt::Return { value: Some(value), .. } => seq![value],
        _ => Seq::empty(),
    }
}

/// The statement lists directly inside `statement`: the body of a block or a loop.
pub open spec fn statement_blocks(statement: Stmt) -> Seq<Seq<Stmt>> {
    match statement {
        Stmt::Loop(block) => seq![block.statements@],
        Stmt::Block(block) => seq![block.statements@],
        _ => Seq::empty(),
    }
}

proof fn lemma_arguments_cover(arguments: Seq<Argument>, count: nat)
    ensures
        forall|i: int|
            0 <= i < count && count <= arguments.len() ==> expression_strings(#[trigger] arguments[i].expression).subset_of(
                arguments_strings(arguments, count),
            ),
    decreases count,
{
    if count > 0 && count <= arguments.len() {
        lemma_arguments_cover(arguments, (count - 1) as nat);
    }
}

proof fn lemma_field_inits_cover(fields: Seq<StructFieldInit>, count: nat)
    ensures
        forall|i: int|
            0 <= i < count && count <= fields.len() ==> expression_strings(#[trigger] fields[i].value).subset_of(
                field_inits_strings(fields, count),
            ),
    decreases count,
{
    if count > 0 && count <= fields.len() {
        lemma_field_inits_cover(fields, (count - 1) as nat);
    }
}

proof fn lemma_branches_cover(branches: Seq<CaseBranch>, count: nat)
    ensures
        forall|j: int|
            0 <= j < branch_expressions(branches, count).len() ==> expression_strings(
                #[trigger] branch_expressions(branches, count)[j],
            ).subset_of(branches_strings(branches, count)),
        forall|j: int|
            0 <= j < branch_blocks(branches, count).len() ==> statements_strings(
                #[trigger] branch_blocks(branches, count)[j],
                branch_blocks(branches, count)[j].len(),
            ).subset_of(branches_strings(branches, count)),
    decreases count,
{
    if count > 0 && count <= branches.len() {
        lemma_branches_cover(branches, (count - 1) as nat);
        let earlier = branch_expressions(branches, (count - 1) as nat);
        let earlier_blocks = branch_blocks(branches, (count - 1) as nat);
        assert forall|j: int| 0 <= j < branch_expressions(branches, count).len() implies expression_strings(
            #[trigger] branch_expressions(branches, count)[j],
        ).subset_of(branches_strings(branches, count)) by {
            if j < earlier.len() {
                assert(branch_expressions(branches, count)[j] == earlier[j]);
            }
        }
        assert forall|j: int| 0 <= j < branch_blocks(branches, count).len() implies statements_strings(
            #[trigger] branch_blocks(branches, count)[j],
            branch_blocks(branches, count)[j].len(),
        ).subset_of(branches_strings(branches, count)) by {
            if j < earlier_blocks.len() {
                assert(branch_blocks(branches, count)[j] == earlier_blocks[j]);
            }
        }
    }
}

/// Collecting string literals misses none: a string literal is collected, and whatever lies
/// directly inside an expression (its operands, its arguments, its field values, a case's
/// subject and the bodies of its branches) has its literals collected with the expression.
pub proof fn law_expression_literals_collected(expression: Expr)
    ensures
        expression matches Expr::StringLiteral { value, .. } ==> expression_strings(expression).contains(value@),
        forall|i: int|
            0 <= i < expression_parts(expression).len() ==> expression_strings(
                #[trigger] expression_parts(expression)[i],
            ).subset_of(expression_strings(expression)),
        forall|i: int|
            0 <= i < expression_blocks(expression).len() ==> statements_strings(
                #[trigger] expression_blocks(expression)[i],
                expression_blocks(expression)[i].len(),
            ).subset_of(expression_strings(expression)),
{
    match expression {
        Expr::Call { arguments, .. } => {
            lemma_arguments_cover(arguments@, arguments@.len());
        },
        Expr::MethodCall { receiver, arguments, .. } => {
            lemma_arguments_cover(arguments@, arguments@.len());
            assert forall|i: int| 0 <= i < expression_parts(expression).len() implies expression_strings(
                #[trigger] expression_parts(expression)[i],
            ).subset_of(expression_strings(expression)) by {
                if i > 0 {
                    assert(expression_parts(expression)[i] == arguments@[i - 1].expression);
                }
            }
        },
        Expr::StructLit { fields, .. } => {
            lemma_field_inits_cover(fields@, fields@.len());
        },
        Expr::Case { subject, branches, .. } => {
            lemma_branches_cover(branches@, branches@.len());
            assert forall|i: int| 0 <= i < expression_parts(expression).len() implies expression_strings(
                #[trigger] expression_parts(expression)[i],
            ).subset_of(expression_strings(expression)) by {
                if i > 0 {
                    assert(expression_parts(expression)[i] == branch_expressions(branches@, branches@.len())[i - 1]);
                }
            }
        },
        _ => {},
    }
}

proof fn lemma_statements_cover(statements: Seq<Stmt>, count: nat)
    ensures
        forall|i: int|
            0 <= i < count && count <= statements.len() ==> statement_strings(#[trigger] statements[i]).subset_of(
                statements_strings(statements, count),
            ),
    decreases count,
{
    if count > 0 && count <= statements.len() {
        lemma_statements_cover(statements, (count - 1) as nat);
    }
}

/// Collecting string literals misses no statement: each statement of a list has its literals
/// collected with the list, and whatever lies directly inside a statement (its expression, the
/// body of a block or a loop) has its literals collected with the statement.
pub proof fn law_statement_literals_collected(statements: Seq<Stmt>, statement: Stmt)
    ensures
        forall|i: int|
            0 <= i < statements.len() ==> statement_strings(#[trigger] statements[i]).subset_of(
                statements_strings(statements, statements.len()),
            ),
        forall|i: int|
            0 <= i < statement_parts(statement).len() ==> expression_strings(
                #[trigger] statement_parts(statement)[i],
            ).subset_of(statement_strings(statement)),
        forall|i: int|
            0 <= i < statement_blocks(statement).len() ==> statements_strings(
                #[trigger] statement_blocks(statement)[i],
                statement_blocks(statement)[i].len(),
            ).subset_of(statement_strings(statement)),
{
    lemma_statements_cover(statements, statements.len());
}

proof fn lemma_declarations_cover(declarations: Seq<TopLevelDecl>)
    ensures
        forall|i: int|
            0 <= i < declarations.len() ==> (#[trigger] declarations[i] matches TopLevelDecl::Verb(verb) ==> statements_strings(
                verb.body.statements@,
                verb.body.statements@.len(),
            ).subset_of(declarations_strings(declarations))),
    decreases declarations.len(),
{
    if declarations.len() > 0 {
        lemma_declarations_cover(declarations.drop_last());
        assert forall|i: int| 0 <= i < declarations.len() implies (#[trigger] declarations[i] matches TopLevelDecl::Verb(
            verb,
        ) ==> statements_strings(verb.body.statements@, verb.body.statements@.len()).subset_of(
            declarations_strings(declarations),
        )) by {
            if i < declarations.len() - 1 {
                assert(declarations[i] == declarations.drop_last()[i]);
            }
        }
    }
}

/// The string data of a program holds the literals of every verb body in it.
pub proof fn law_program_literals_collected(declarations: Seq<TopLevelDecl>)
    ensures
        forall|i: int|
            0 <= i < declarations.len() ==> (#[trigger] declarations[i] matches TopLevelDecl::Verb(verb) ==> statements_strings(
                verb.body.statements@,
                verb.body.statements@.len(),
            ).subset_of(declarations_strings(declarations))),
{
    lemma_declarations_cover(declarations);
}

} // verus!
