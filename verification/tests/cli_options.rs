use actus::ast::{Block, Param, Program, Role, TopLevelDecl, TypeName, VerbDecl};
use actus::build_graph::{UnitMetadata, metadata_path, stale_paths};
use actus::cli::entry::{EmitKind, entry_symbol, first_defined_verb, validate_entry};
use actus::cli::options::{
    check_input, parse_build_options, parse_fmt_options, parse_profile, parse_publish_options,
    parse_run_options, parse_u64, parse_vcs_options, parse_watch_options, replace_profile,
};
use actus::cli::test_runner::{TestOutcome, prepare_test_program, test_result_line, test_summary};
use actus::cli::watch::{WatchStep, watch_step};
use actus::cli::{CliCommand, CliOutcome, run_with_args};
use actus::codegen::linker::link_arguments;
use actus::configuration::{
    BuildProfile, CompilerConfiguration, EntryContract, LibraryKind, NativeLibrary,
};
use actus::span::SourceSpan;
use actus::target::LinkerFlavor;

fn args(values: &[&str]) -> Vec<String> {
    values.iter().map(|value| value.to_string()).collect()
}

fn span() -> SourceSpan {
    SourceSpan::new(0, 0)
}

fn verb(name: &str, params: Vec<Param>) -> TopLevelDecl {
    TopLevelDecl::Verb(VerbDecl {
        name: name.to_owned(),
        generic_parameters: Vec::new(),
        params,
        return_type: None,
        body: Block { statements: Vec::new(), span: span() },
        span: span(),
    })
}

fn configuration() -> CompilerConfiguration {
    CompilerConfiguration {
        project_root: "/work".to_owned(),
        source_root: "/work/src".to_owned(),
        capsula_root: "/work/capsula".to_owned(),
        dependency_roots: Vec::new(),
        toolchain_hash: "development".to_owned(),
        target_triple: "x86_64-unknown-linux-gnu".to_owned(),
        target_spec_hash: "abc".to_owned(),
        profile: BuildProfile::Debug,
        entry_contract: EntryContract::Hosted,
        entry_symbol: None,
        linker: "cc".to_owned(),
        linker_flavor: LinkerFlavor::Gnu,
        library_paths: vec!["/opt/lib".to_owned()],
        libraries: vec![NativeLibrary { name: "m".to_owned(), kind: LibraryKind::Static }],
    }
}

#[test]
fn reports_usage_and_unknown_commands() {
    match run_with_args(Vec::new()) {
        CliOutcome::Exit { code, stderr, .. } => {
            assert_eq!(code, 2);
            assert!(stderr.starts_with("usage: actus"));
        }
        CliOutcome::Command { .. } => panic!("no command expected"),
    }
    match run_with_args(args(&["frobnicate"])) {
        CliOutcome::Exit { code, stderr, .. } => {
            assert_eq!(code, 2);
            assert!(stderr.starts_with("error: unknown command `frobnicate`\n"));
        }
        CliOutcome::Command { .. } => panic!("no command expected"),
    }
    assert_eq!(run_with_args(args(&["parse"])).exit_code(), Some(2));
    assert_eq!(run_with_args(args(&["parse", "a.act", "b.act"])).exit_code(), Some(2));
    match run_with_args(args(&["build", "main.act", "--release"])) {
        CliOutcome::Command { command, arguments } => {
            assert_eq!(command, CliCommand::Build);
            assert_eq!(arguments, args(&["main.act", "--release"]));
        }
        CliOutcome::Exit { .. } => panic!("a command expected"),
    }
}

#[test]
fn reads_build_options() {
    let options = parse_build_options(&args(&["main.act", "--emit", "exe", "-o", "out", "--release"])).unwrap();
    assert_eq!(options.input.as_deref(), Some("main.act"));
    assert_eq!(options.output.as_deref(), Some("out"));
    assert_eq!(options.emit, EmitKind::Executable);
    assert_eq!(options.profile, Some(BuildProfile::Release));
    assert_eq!(
        parse_build_options(&args(&["--release", "--profile", "debug"])).unwrap_err(),
        "duplicate or conflicting profile option"
    );
    assert_eq!(parse_build_options(&args(&["--emit", "wasm"])).unwrap_err(), "unsupported emission kind `wasm`");
    assert_eq!(parse_build_options(&args(&["-o"])).unwrap_err(), "missing output path after `-o`");
    assert_eq!(parse_build_options(&args(&["a.act", "b.act"])).unwrap_err(), "unexpected build argument `b.act`");
    assert_eq!(parse_build_options(&args(&["--fast"])).unwrap_err(), "unexpected build argument `--fast`");
}

#[test]
fn reads_run_and_watch_options() {
    let options = parse_run_options(&args(&["main.act", "--profile", "release", "--", "x", "--y"])).unwrap();
    assert_eq!(options.input.as_deref(), Some("main.act"));
    assert_eq!(options.profile, Some(BuildProfile::Release));
    assert_eq!(options.program_arguments, args(&["x", "--y"]));
    assert_eq!(parse_run_options(&args(&["a", "b"])).unwrap_err(), "unexpected argument `b`");

    let watch = parse_watch_options(&args(&["--build", "--interval", "50"])).unwrap();
    assert_eq!(watch.input, "src/main.act");
    assert!(watch.build);
    assert_eq!(watch.interval_milliseconds, 50);
    assert_eq!(
        parse_watch_options(&args(&["--interval", "0"])).unwrap_err(),
        "watch interval must be greater than zero"
    );
    assert_eq!(
        parse_watch_options(&args(&["--interval", "soon"])).unwrap_err(),
        "watch interval must be an integer in milliseconds"
    );
    assert_eq!(parse_watch_options(&args(&["--once", "--once"])).unwrap_err(), "unexpected watch argument `--once`");
    assert_eq!(parse_profile("fast").unwrap_err(), "unsupported build profile `fast`");
    assert!(replace_profile(Some(BuildProfile::Debug), BuildProfile::Release).is_err());
    assert_eq!(watch_step(true, true), WatchStep::Stop);
    assert_eq!(watch_step(false, true), WatchStep::Rerun);
    assert_eq!(watch_step(false, false), WatchStep::Wait);
}

#[test]
fn reads_integers_like_the_standard_library() {
    assert_eq!(parse_u64("200"), Some(200));
    assert_eq!(parse_u64("+7"), Some(7));
    assert_eq!(parse_u64("18446744073709551615"), Some(u64::MAX));
    assert_eq!(parse_u64("18446744073709551616"), None);
    assert_eq!(parse_u64(""), None);
    assert_eq!(parse_u64("+"), None);
    assert_eq!(parse_u64("-1"), None);
    assert_eq!(parse_u64("1x"), None);
}

#[test]
fn reads_project_publish_fmt_and_check_options() {
    assert_eq!(parse_vcs_options(&args(&[])), Ok(true));
    assert_eq!(parse_vcs_options(&args(&["--no-git"])), Ok(false));
    assert_eq!(parse_vcs_options(&args(&["--vcs", "git"])), Ok(true));
    assert_eq!(parse_vcs_options(&args(&["--vcs", "svn"])), Err("unsupported VCS `svn`".to_owned()));
    assert_eq!(parse_vcs_options(&args(&["--vcs"])), Err("missing value after `--vcs`".to_owned()));

    let publish = parse_publish_options(&args(&["pkg", "--registry", "/r"])).unwrap();
    assert_eq!(publish.input, "pkg");
    assert_eq!(publish.registry.as_deref(), Some("/r"));
    assert_eq!(parse_publish_options(&args(&["--cache"])).unwrap_err(), "missing path after `--cache`");
    assert_eq!(parse_publish_options(&args(&["a", "b"])).unwrap_err(), "unexpected argument `b`");

    let fmt = parse_fmt_options(&args(&["--check", "src"])).unwrap();
    assert!(fmt.check_only);
    assert_eq!(fmt.input.as_deref(), Some("src"));
    assert_eq!(parse_fmt_options(&args(&["a", "b"])).unwrap_err(), "unexpected argument `b`");

    assert_eq!(check_input(&args(&[])), Ok("src/main.act".to_owned()));
    assert_eq!(check_input(&args(&["x.act", "y.act"])), Err("unexpected extra argument".to_owned()));
}

#[test]
fn validates_entry_verbs() {
    let parameter = Param {
        role: Role::Erg,
        name: "x".to_owned(),
        ty: TypeName { name: "Int".to_owned(), arguments: Vec::new(), span: span() },
        span: span(),
    };
    let program = Program { declarations: vec![verb("start", Vec::new()), verb("main", vec![parameter])] };
    assert_eq!(first_defined_verb(&program), Some("start"));
    assert_eq!(
        validate_entry(&program, "missing", EmitKind::Object, EntryContract::Hosted),
        Err("entry verb `missing` was not found".to_owned())
    );
    assert_eq!(
        validate_entry(&program, "start", EmitKind::Executable, EntryContract::Hosted),
        Err("hosted executables require entry verb `main`; freestanding targets accept a configured entry symbol".to_owned())
    );
    assert_eq!(
        validate_entry(&program, "main", EmitKind::Executable, EntryContract::Hosted),
        Err("executable entry verb `main` cannot have parameters".to_owned())
    );
    assert_eq!(validate_entry(&program, "start", EmitKind::Executable, EntryContract::Freestanding), Ok(()));
    assert_eq!(entry_symbol(None, EntryContract::Hosted, "start"), "main");
    assert_eq!(entry_symbol(None, EntryContract::Freestanding, "start"), "start");
    assert_eq!(entry_symbol(Some("boot"), EntryContract::Hosted, "start"), "boot");
}

#[test]
fn prepares_meta_test_programs() {
    let mut program = Program { declarations: vec![verb("checks_sum", Vec::new())] };
    assert_eq!(prepare_test_program(&mut program, "checks_sum"), Ok(()));
    assert_eq!(program.declarations.len(), 2);
    assert_eq!(
        prepare_test_program(&mut program, "checks_sum"),
        Err("meta test program already defines `main`".to_owned())
    );
    assert_eq!(
        prepare_test_program(&mut program, "gone"),
        Err("test verb disappeared during collection".to_owned())
    );
    assert_eq!(test_summary(3, 3), ("test result: ok. 3 passed; 0 failed".to_owned(), 0));
    assert_eq!(test_summary(1, 3), ("test result: FAILED. 1 passed; 2 failed".to_owned(), 1));
}

#[test]
fn keeps_or_removes_artifacts_by_their_metadata() {
    let configuration = configuration();
    let recorded = UnitMetadata::for_configuration("app", &configuration);
    assert!(recorded.matches_configuration(&configuration));
    assert!(stale_paths("/work/capsula/debug/app.obj", true, Some(&recorded), &configuration).is_empty());
    let release = configuration.clone().with_profile(BuildProfile::Release);
    assert!(!recorded.matches_configuration(&release));
    assert_eq!(stale_paths("/work/capsula/debug/app.obj", true, Some(&recorded), &release).len(), 4);
    assert!(stale_paths("/elsewhere/app.obj", false, None, &configuration).is_empty());
    assert_eq!(metadata_path("/work/capsula/debug/app.obj"), "/work/capsula/debug/app.actmeta");
    assert_eq!(configuration.capsula_target_directory(), "/work/capsula/debug");
}

#[test]
fn records_the_toolchain_hash_and_treats_another_as_stale() {
    let mut configuration = configuration();
    configuration.toolchain_hash = "0f1e2d".to_owned();
    let recorded = UnitMetadata::for_configuration("app", &configuration);
    assert_eq!(recorded.toolchain_hash, "0f1e2d");
    assert!(recorded.matches_configuration(&configuration));
    let mut rebuilt = configuration.clone();
    rebuilt.toolchain_hash = "development".to_owned();
    assert!(!recorded.matches_configuration(&rebuilt));
    assert_eq!(stale_paths("/work/capsula/debug/app.obj", true, Some(&recorded), &rebuilt).len(), 4);
}

#[test]
fn reports_each_test_with_its_time_and_status() {
    assert_eq!(
        test_result_line("tests/sum.act", "checks_sum", 12, &TestOutcome::Exited(0)),
        ("test tests/sum.act::checks_sum ... ok (12 ms, exit code 0)".to_owned(), true)
    );
    assert_eq!(
        test_result_line("tests/sum.act", "checks_sum", 7, &TestOutcome::Exited(3)),
        ("test tests/sum.act::checks_sum ... FAILED (7 ms, exit code 3)".to_owned(), false)
    );
    assert_eq!(
        test_result_line("a.act", "t", 0, &TestOutcome::Exited(-2)),
        ("test a.act::t ... FAILED (0 ms, exit code -2)".to_owned(), false)
    );
    assert_eq!(
        test_result_line("a.act", "t", 1500, &TestOutcome::Failed("could not start".to_owned())),
        ("test a.act::t ... FAILED (1500 ms, could not start)".to_owned(), false)
    );
}

#[test]
fn links_objects_with_search_paths_and_libraries() {
    let configuration = configuration();
    assert_eq!(
        link_arguments("app.o", "app", Some("runtime.a"), &configuration),
        args(&["app.o", "runtime.a", "-L/opt/lib", "-Wl,-Bstatic", "-lm", "-Wl,-Bdynamic", "-o", "app"])
    );
}
