use actus::target::LinkerFlavor;

#[test]
fn isolates_gnu_static_flags() {
    assert_eq!(
        LinkerFlavor::Gnu.library_arguments("math", true),
        ["-Wl,-Bstatic", "-lmath", "-Wl,-Bdynamic"]
    );
}

#[test]
fn emits_platform_specific_library_arguments() {
    assert_eq!(LinkerFlavor::Apple.library_arguments("math", true), ["-Wl,-force_load,libmath.a"]);
    assert_eq!(LinkerFlavor::Msvc.library_arguments("math", false), ["math.lib"]);
}

#[test]
fn emits_library_search_path_for_each_linker() {
    let path = "/tmp/actus-libs";
    assert_eq!(LinkerFlavor::Gnu.library_path_argument(path), "-L/tmp/actus-libs");
    assert_eq!(LinkerFlavor::Apple.library_path_argument(path), "-L/tmp/actus-libs");
    assert_eq!(LinkerFlavor::Msvc.library_path_argument(path), "/LIBPATH:/tmp/actus-libs");
}
