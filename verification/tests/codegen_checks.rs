use actus::ast::{
    Argument, Block, CaseBody, CaseBranch, EnumDef, EnumField, EnumPayload, EnumVariant, Expr,
    ExternalVerbDecl, ForeignAbi, NamedPattern, Param, Pattern, PatternBinding, Program, Role, Stmt,
    TopLevelDecl, TypeName, VariantPayload, VerbDecl,
};
use actus::codegen::abi::{validate_external_native_signature, validate_native_signature};
use actus::ast::LiteralPattern;
use actus::codegen::calls::order_arguments;
use actus::codegen::case::{BranchPlan, PatternTest, parse_i64, pattern_test, plan_case_branches};
use actus::codegen::case_payload::{bind_payload, branch_binding};
use actus::codegen::control_flow::{FlowKind, assigned_outer_bindings, carried_positions, plan_loop, plan_loop_jump};
use actus::codegen::emission::plan_program_emission;
use actus::codegen::enums::{enum_expression_type, ordered_payload_arguments};
use actus::codegen::layout::{LayoutRegistry, NativeType};
use actus::codegen::literals::{program_string_literals, string_symbol};
use actus::semantic::{ReachablePerformance, SemanticModel};
use actus::span::SourceSpan;

fn span() -> SourceSpan {
    SourceSpan::new(0, 0)
}

fn ty(name: &str) -> TypeName {
    TypeName { name: name.to_owned(), arguments: Vec::new(), span: span() }
}

fn integer(value: &str) -> Expr {
    Expr::Integer { value: value.to_owned(), span: span() }
}

fn text(value: &str) -> Expr {
    Expr::StringLiteral { value: value.to_owned(), span: span() }
}

fn ident(name: &str) -> Expr {
    Expr::Identifier { name: name.to_owned(), span: span() }
}

fn positional(expression: Expr) -> Argument {
    Argument { name: None, expression }
}

fn named(name: &str, expression: Expr) -> Argument {
    Argument { name: Some(name.to_owned()), expression }
}

fn param(name: &str, ty_name: &str) -> Param {
    Param { role: Role::Erg, name: name.to_owned(), ty: ty(ty_name), span: span() }
}

fn verb(name: &str, params: Vec<Param>, return_type: Option<&str>, statements: Vec<Stmt>) -> TopLevelDecl {
    TopLevelDecl::Verb(VerbDecl {
        name: name.to_owned(),
        generic_parameters: Vec::new(),
        params,
        return_type: return_type.map(ty),
        body: Block { statements, span: span() },
        span: span(),
    })
}

fn value_enum() -> TopLevelDecl {
    TopLevelDecl::Enum(EnumDef {
        name: "Value".to_owned(),
        generic_parameters: Vec::new(),
        variants: vec![
            EnumVariant { name: "Empty".to_owned(), payload: EnumPayload::Unit, span: span() },
            EnumVariant { name: "Count".to_owned(), payload: EnumPayload::Tuple(vec![ty("Int")]), span: span() },
            EnumVariant {
                name: "Pair".to_owned(),
                payload: EnumPayload::Struct(vec![
                    EnumField { name: "left".to_owned(), ty: ty("Int"), span: span() },
                    EnumField { name: "right".to_owned(), ty: ty("String"), span: span() },
                ]),
                span: span(),
            },
        ],
        span: span(),
    })
}

fn empty_model() -> SemanticModel {
    SemanticModel {
        bindings: Vec::new(),
        borrows: Vec::new(),
        cleanup_plans: Vec::new(),
        return_unwind_plans: Vec::new(),
        loop_unwind_plans: Vec::new(),
    }
}

#[test]
fn orders_positional_and_named_arguments() {
    let arguments = vec![positional(integer("1")), positional(integer("2"))];
    let ordered = order_arguments(&arguments, &vec!["a".to_owned(), "b".to_owned()]).unwrap();
    assert_eq!(ordered.len(), 2);
    assert!(matches!(ordered[1], Expr::Integer { value, .. } if value == "2"));

    let arguments = vec![named("b", integer("2")), named("a", integer("1"))];
    let ordered = order_arguments(&arguments, &vec!["a".to_owned(), "b".to_owned()]).unwrap();
    assert!(matches!(ordered[0], Expr::Integer { value, .. } if value == "1"));
    assert!(matches!(ordered[1], Expr::Integer { value, .. } if value == "2"));
}

#[test]
fn rejects_mixed_and_missing_arguments() {
    let mixed = vec![named("a", integer("1")), positional(integer("2"))];
    let error = order_arguments(&mixed, &vec!["a".to_owned(), "b".to_owned()]).unwrap_err();
    assert_eq!(error.message(), "native calls cannot mix named and positional arguments");

    let missing = vec![named("a", integer("1"))];
    let error = order_arguments(&missing, &vec!["a".to_owned(), "b".to_owned()]).unwrap_err();
    assert_eq!(error.message(), "missing native argument `b");
}

#[test]
fn validates_native_signatures() {
    let program = Program { declarations: vec![value_enum()] };
    let layouts = LayoutRegistry::from_program(&program, 8).unwrap();
    let good = VerbDecl {
        name: "main".to_owned(),
        generic_parameters: Vec::new(),
        params: vec![param("count", "Int"), param("value", "Value")],
        return_type: Some(ty("Int")),
        body: Block { statements: Vec::new(), span: span() },
        span: span(),
    };
    assert!(validate_native_signature(&good, &layouts).is_ok());

    let bad_return = VerbDecl { return_type: Some(ty("Array")), ..good };
    assert_eq!(
        validate_native_signature(&bad_return, &layouts).unwrap_err().message(),
        "native backend supports `Int` and `Buffer` returns, found `Array`"
    );

    let bad_param = VerbDecl {
        name: "main".to_owned(),
        generic_parameters: Vec::new(),
        params: vec![param("items", "Unknown")],
        return_type: None,
        body: Block { statements: Vec::new(), span: span() },
        span: span(),
    };
    assert_eq!(
        validate_native_signature(&bad_param, &layouts).unwrap_err().message(),
        "native backend supports `Int` and `Buffer` parameters, found `Unknown` for `items`"
    );
}

#[test]
fn external_verbs_need_an_unsafe_boundary_and_a_return_type() {
    let program = Program { declarations: Vec::new() };
    let layouts = LayoutRegistry::from_program(&program, 8).unwrap();
    let external = ExternalVerbDecl {
        unsafe_boundary: false,
        abi: ForeignAbi::C,
        name: "puts".to_owned(),
        generic_parameters: Vec::new(),
        params: Vec::new(),
        return_type: Some(ty("Int")),
        span: span(),
    };
    assert_eq!(
        validate_external_native_signature(&external, &layouts).unwrap_err().message(),
        "external native verb `puts` requires an explicit `unsafe` boundary"
    );
    let external = ExternalVerbDecl { unsafe_boundary: true, return_type: None, ..external };
    assert_eq!(
        validate_external_native_signature(&external, &layouts).unwrap_err().message(),
        "external native verb `puts` requires an explicit return type"
    );
    let external = ExternalVerbDecl { return_type: Some(ty("Int")), ..external };
    assert!(validate_external_native_signature(&external, &layouts).is_ok());
}

#[test]
fn plans_emission_only_for_a_present_entry() {
    let model = empty_model();
    let empty = Program { declarations: Vec::new() };
    let error = plan_program_emission(&empty, &model, &[], &[], "main", 8).err().unwrap();
    assert_eq!(error.message(), "program has no verb declarations");

    let program = Program { declarations: vec![verb("helper", Vec::new(), Some("Int"), Vec::new())] };
    let error = plan_program_emission(&program, &model, &[], &[], "main", 8).err().unwrap();
    assert_eq!(error.message(), "entry verb `main` was not found");

    let program = Program {
        declarations: vec![value_enum(), verb("main", Vec::new(), Some("Int"), Vec::new())],
    };
    let plan = plan_program_emission(&program, &model, &[], &[], "main", 8).ok().unwrap();
    assert_eq!(plan.entry, "main");
    assert!(plan.performances.implementations().is_empty());
}

#[test]
fn emission_refuses_duplicate_performance_symbols() {
    let model = empty_model();
    let program = Program { declarations: vec![verb("main", Vec::new(), Some("Int"), Vec::new())] };
    let reachable = vec![
        ReachablePerformance { role_name: "Writer".to_owned(), target_type: "File".to_owned(), method_name: "write".to_owned() },
        ReachablePerformance { role_name: "Writer".to_owned(), target_type: "File".to_owned(), method_name: "write".to_owned() },
    ];
    let error = plan_program_emission(&program, &model, &reachable, &[], "main", 8).err().unwrap();
    assert_eq!(error.message(), "duplicate performance symbol `actus_perf_Writer_File_write`");
}

#[test]
fn binds_payload_fields_by_name_and_position() {
    let program = Program { declarations: vec![value_enum()] };
    let layouts = LayoutRegistry::from_program(&program, 8).unwrap();
    let id = layouts.enum_id_for("Value").unwrap();
    let branch = CaseBranch {
        pattern: Pattern::Variant {
            enum_name: "Value".to_owned(),
            variant: "Pair".to_owned(),
            payload: VariantPayload::Named(vec![
                NamedPattern {
                    name: "right".to_owned(),
                    binding: PatternBinding { name: "r".to_owned(), span: span() },
                    span: span(),
                },
                NamedPattern {
                    name: "left".to_owned(),
                    binding: PatternBinding { name: "_".to_owned(), span: span() },
                    span: span(),
                },
            ]),
            span: span(),
        },
        body: CaseBody::Expression(Box::new(integer("0"))),
        span: span(),
    };
    let bindings = bind_payload(&branch, NativeType::Enum(id), &layouts).ok().unwrap();
    assert_eq!(bindings.len(), 1);
    assert_eq!(bindings[0].name, "r");
    assert_eq!(bindings[0].payload_offset, 8);
    assert_eq!(bindings[0].field_offset, 8);
    assert_eq!(bindings[0].ty, NativeType::String);
    assert_eq!(branch_binding(&branch, "r").unwrap(), "r");
    assert!(branch_binding(&branch, "x").is_none());

    let missing = CaseBranch {
        pattern: Pattern::Variant {
            enum_name: "Value".to_owned(),
            variant: "Missing".to_owned(),
            payload: VariantPayload::Unit,
            span: span(),
        },
        body: CaseBody::Expression(Box::new(integer("0"))),
        span: span(),
    };
    assert_eq!(
        bind_payload(&missing, NativeType::Enum(id), &layouts).err().unwrap().message(),
        "missing case variant layout"
    );
}

#[test]
fn orders_enum_payload_arguments() {
    let program = Program { declarations: vec![value_enum()] };
    let layouts = LayoutRegistry::from_program(&program, 8).unwrap();
    let id = layouts.enum_id_for("Value").unwrap();
    let pair = layouts.enum_variant(id, "Pair").unwrap();
    let arguments = vec![named("right", text("r")), named("left", integer("1"))];
    assert_eq!(ordered_payload_arguments(&pair.fields, &arguments).ok().unwrap(), vec![(0, 1), (1, 0)]);
    let count = layouts.enum_variant(id, "Count").unwrap();
    let arguments = vec![named("value", integer("1"))];
    assert_eq!(
        ordered_payload_arguments(&count.fields, &arguments).err().unwrap().message(),
        "tuple enum constructors require positional arguments"
    );
    let call = Expr::MethodCall {
        receiver: Box::new(ident("Value")),
        method: "Count".to_owned(),
        arguments: vec![positional(integer("1"))],
        span: span(),
    };
    assert_eq!(enum_expression_type(&call, &layouts), Some(NativeType::Enum(id)));
}

#[test]
fn collects_each_string_literal_once_in_order() {
    let program = Program {
        declarations: vec![verb(
            "main",
            Vec::new(),
            Some("Int"),
            vec![
                Stmt::Expression {
                    expression: Expr::Call {
                        callee: "print".to_owned(),
                        arguments: vec![positional(text("world")), positional(text("hello"))],
                        span: span(),
                    },
                    span: span(),
                },
                Stmt::Loop(Block {
                    statements: vec![Stmt::Return { value: Some(text("hello")), span: span() }],
                    span: span(),
                }),
            ],
        )],
    };
    assert_eq!(program_string_literals(&program), vec!["hello".to_owned(), "world".to_owned()]);
    assert_eq!(string_symbol(12), "actus_string_12");
}

#[test]
fn finds_bindings_a_loop_carries() {
    let statements = vec![
        Stmt::Assignment { name: "total".to_owned(), value: integer("1"), span: span() },
        Stmt::Block(Block {
            statements: vec![
                Stmt::Assignment { name: "count".to_owned(), value: integer("2"), span: span() },
                Stmt::Assignment { name: "fresh".to_owned(), value: integer("3"), span: span() },
            ],
            span: span(),
        }),
        Stmt::Assignment { name: "total".to_owned(), value: integer("4"), span: span() },
    ];
    let locals = vec!["total".to_owned(), "count".to_owned()];
    let carried = assigned_outer_bindings(&statements, &locals);
    assert_eq!(carried, vec!["count".to_owned(), "total".to_owned()]);
    assert_eq!(carried_positions(&locals, &carried).ok().unwrap(), vec![1, 0]);
    assert_eq!(
        carried_positions(&locals, &vec!["other".to_owned()]).err().unwrap().message(),
        "native binding `other` is unavailable"
    );
}

#[test]
fn plans_a_loop_by_how_its_body_ends() {
    let statements = vec![
        Stmt::Assignment { name: "count".to_owned(), value: integer("1"), span: span() },
        Stmt::Assignment { name: "total".to_owned(), value: integer("4"), span: span() },
    ];
    let locals = vec!["total".to_owned(), "count".to_owned()];
    let falls = plan_loop(&statements, &locals, FlowKind::Fallthrough);
    assert_eq!(falls.carried, vec!["count".to_owned(), "total".to_owned()]);
    assert!(falls.back_edge && falls.resumes_after);
    assert_eq!(falls.flow_after, FlowKind::Fallthrough);
    let breaks = plan_loop(&statements, &locals, FlowKind::Break);
    assert!(!breaks.back_edge && breaks.resumes_after);
    assert_eq!(breaks.flow_after, FlowKind::Fallthrough);
    let continues = plan_loop(&statements, &locals, FlowKind::Continue);
    assert!(!continues.back_edge && continues.resumes_after);
    assert_eq!(continues.flow_after, FlowKind::Fallthrough);
    let returns = plan_loop(&statements, &locals, FlowKind::Return);
    assert!(!returns.back_edge && !returns.resumes_after);
    assert_eq!(returns.flow_after, FlowKind::Return);
    assert!(plan_loop(&statements, &Vec::new(), FlowKind::Fallthrough).carried.is_empty());
}

#[test]
fn plans_break_and_continue() {
    let locals = vec!["total".to_owned(), "count".to_owned()];
    let carried = vec!["count".to_owned()];
    let again = plan_loop_jump(Some(&carried), &locals, true).ok().unwrap();
    assert!(again.to_header);
    assert_eq!(again.positions, vec![1]);
    assert_eq!(again.flow, FlowKind::Continue);
    let out = plan_loop_jump(Some(&carried), &locals, false).ok().unwrap();
    assert!(!out.to_header);
    assert_eq!(out.positions, vec![1]);
    assert_eq!(out.flow, FlowKind::Break);
    assert_eq!(
        plan_loop_jump(None, &locals, false).err().unwrap().message(),
        "break has no native loop target"
    );
    assert_eq!(
        plan_loop_jump(None, &locals, true).err().unwrap().message(),
        "continue has no native loop target"
    );
    assert_eq!(
        plan_loop_jump(Some(&vec!["gone".to_owned()]), &locals, true).err().unwrap().message(),
        "native binding `gone` is unavailable"
    );
}

#[test]
fn plans_case_branches_in_order() {
    let program = Program { declarations: vec![value_enum()] };
    let layouts = LayoutRegistry::from_program(&program, 8).unwrap();
    let id = layouts.enum_id_for("Value").unwrap();
    let branch = |pattern: Pattern| CaseBranch {
        pattern,
        body: CaseBody::Expression(Box::new(integer("1"))),
        span: span(),
    };
    let variant = |name: &str| Pattern::Variant {
        enum_name: "Value".to_owned(),
        variant: name.to_owned(),
        payload: VariantPayload::Unit,
        span: span(),
    };
    let branches = vec![branch(variant("Count")), branch(variant("Empty")), branch(Pattern::Wildcard { span: span() })];
    assert_eq!(
        plan_case_branches(&branches, NativeType::Enum(id), &layouts).ok().unwrap(),
        vec![
            BranchPlan { test: PatternTest::Discriminant { offset: 0, value: 1 }, miss_to_merge: false },
            BranchPlan { test: PatternTest::Discriminant { offset: 0, value: 0 }, miss_to_merge: false },
            BranchPlan { test: PatternTest::Always, miss_to_merge: true },
        ]
    );
    assert!(plan_case_branches(&Vec::new(), NativeType::Int, &layouts).ok().unwrap().is_empty());
    let unknown = vec![branch(variant("Empty")), branch(variant("Missing")), branch(variant("Other"))];
    assert_eq!(
        plan_case_branches(&unknown, NativeType::Enum(id), &layouts).err().unwrap().message(),
        "unknown case variant `Value.Missing`"
    );
    assert_eq!(
        plan_case_branches(&vec![branch(variant("Empty"))], NativeType::Int, &layouts).err().unwrap().message(),
        "case subject is not enum `Value`"
    );
}

#[test]
fn tests_patterns_against_subjects() {
    let program = Program { declarations: vec![value_enum()] };
    let layouts = LayoutRegistry::from_program(&program, 8).unwrap();
    let id = layouts.enum_id_for("Value").unwrap();
    let wildcard = Pattern::Wildcard { span: span() };
    assert_eq!(pattern_test(&wildcard, NativeType::Int, &layouts).ok(), Some(PatternTest::Always));
    let literal = Pattern::Literal { value: LiteralPattern::Integer("-42".to_owned()), span: span() };
    assert_eq!(pattern_test(&literal, NativeType::Int, &layouts).ok(), Some(PatternTest::Equals(-42)));
    let unreadable = Pattern::Literal { value: LiteralPattern::Integer("4x".to_owned()), span: span() };
    assert_eq!(pattern_test(&unreadable, NativeType::Int, &layouts).ok(), Some(PatternTest::Equals(0)));
    let flag = Pattern::Literal { value: LiteralPattern::Bool(true), span: span() };
    assert_eq!(pattern_test(&flag, NativeType::Int, &layouts).ok(), Some(PatternTest::Equals(1)));
    let pair = Pattern::Variant {
        enum_name: "Value".to_owned(),
        variant: "Pair".to_owned(),
        payload: VariantPayload::Unit,
        span: span(),
    };
    assert_eq!(
        pattern_test(&pair, NativeType::Enum(id), &layouts).ok(),
        Some(PatternTest::Discriminant { offset: 0, value: 2 })
    );
    assert_eq!(
        pattern_test(&pair, NativeType::Int, &layouts).err().unwrap().message(),
        "case subject is not enum `Value`"
    );
    let unknown = Pattern::Variant {
        enum_name: "Value".to_owned(),
        variant: "Nope".to_owned(),
        payload: VariantPayload::Unit,
        span: span(),
    };
    assert_eq!(
        pattern_test(&unknown, NativeType::Enum(id), &layouts).err().unwrap().message(),
        "unknown case variant `Value.Nope`"
    );
    assert_eq!(parse_i64("-9223372036854775808"), Some(i64::MIN));
    assert_eq!(parse_i64("9223372036854775808"), None);
    assert_eq!(parse_i64("+12"), Some(12));
    assert_eq!(parse_i64("-"), None);
    assert_eq!(parse_i64("--1"), None);
}
