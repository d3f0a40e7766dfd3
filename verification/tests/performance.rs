use actus::codegen::performance::{PerformanceRegistry, performance_symbol};
use actus::semantic::ReachablePerformance;

#[test]
fn creates_stable_symbols_for_simple_performances() {
    assert_eq!(performance_symbol("Writer", "File", "write"), "actus_perf_Writer_File_write");
}

#[test]
fn encodes_type_applications_without_symbol_collisions() {
    let first = performance_symbol("Writer", "Box[Int]", "write");
    let second = performance_symbol("Writer", "Box_BInt", "write");
    assert_ne!(first, second);
}

#[test]
fn sorts_reachable_implementations_by_symbol() {
    let registry = PerformanceRegistry::from_reachable(&[
        ReachablePerformance {
            role_name: "Reader".to_owned(),
            target_type: "File".to_owned(),
            method_name: "read".to_owned(),
        },
        ReachablePerformance {
            role_name: "Writer".to_owned(),
            target_type: "File".to_owned(),
            method_name: "write".to_owned(),
        },
    ]);
    assert_eq!(registry.implementations()[0].symbol, "actus_perf_Reader_File_read");
    assert!(registry.validate().is_ok());
}
