use actus::build_graph::UnitMetadata;
use actus::configuration::{BuildProfile, CompilerConfiguration, EntryContract};
use actus::target::LinkerFlavor;

fn configuration() -> CompilerConfiguration {
    CompilerConfiguration {
        project_root: ".".to_owned(),
        source_root: "./src".to_owned(),
        capsula_root: "./capsula".to_owned(),
        dependency_roots: Vec::new(),
        toolchain_hash: "development".to_owned(),
        target_triple: "x86_64-unknown-linux-gnu".to_owned(),
        target_spec_hash: "0123456789abcdef".to_owned(),
        profile: BuildProfile::Debug,
        entry_contract: EntryContract::Hosted,
        entry_symbol: None,
        linker: "cc".to_owned(),
        linker_flavor: LinkerFlavor::Gnu,
        library_paths: Vec::new(),
        libraries: Vec::new(),
    }
}

#[test]
fn metadata_contains_the_target_spec_hash() {
    let configuration = configuration();
    let metadata = UnitMetadata::for_configuration("sample", &configuration);
    assert_eq!(metadata.target_spec_hash, configuration.target_spec_hash());
    assert_eq!(metadata.target_triple, configuration.target_triple().to_string());
}
