use vstd::prelude::*;

use crate::text::{concat, message_with_text, owned};

verus! {

/// The command-line conventions of a system linker.
#[derive(Clone, Copy, Debug, PartialEq, Eq, Structural)]
pub enum LinkerFlavor {
    /// A GNU-compatible driver (`cc`, `gcc`, `clang` on ELF targets).
    Gnu,
    /// The Apple linker driver.
    Apple,
    /// The Microsoft linker.
    Msvc,
}

/// The arguments that link `library`, statically where `static_link` holds.
pub open spec fn spec_library_arguments(flavor: LinkerFlavor, library: Seq<char>, static_link: bool) -> Seq<Seq<char>> {
    match flavor {
        LinkerFlavor::Gnu => if static_link {
            seq!["-Wl,-Bstatic"@, "-l"@ + library, "-Wl,-Bdynamic"@]
        } else {
            seq!["-l"@ + library]
        },
        LinkerFlavor::Apple => if static_link {
            seq!["-Wl,-force_load,lib"@ + library + ".a"@]
        } else {
            seq!["-l"@ + library]
        },
        LinkerFlavor::Msvc => seq![library + ".lib"@],
    }
}

/// The argument that adds `path` to the library search path.
pub open spec fn spec_library_path_argument(flavor: LinkerFlavor, path: Seq<char>) -> Seq<char> {
    match flavor {
        LinkerFlavor::Gnu | LinkerFlavor::Apple => "-L"@ + path,
        LinkerFlavor::Msvc => "/LIBPATH:"@ + path,
    }
}

pub open spec fn text_views(texts: Seq<String>) -> Seq<Seq<char>> {
    texts.map_values(|text: String| text@)
}

impl LinkerFlavor {
    /// The linker arguments that link the library named `library`. A static GNU link is
    /// bracketed so that the libraries after it are still linked dynamically; Apple loads a
    /// static archive whole; the Microsoft linker names the import library either way.
    pub fn library_arguments(&self, library: &str, static_link: bool) -> (arguments: Vec<String>)
        ensures
            text_views(arguments@) == spec_library_arguments(*self, library@, static_link),
    {
        let mut arguments: Vec<String> = Vec::new();
        match self {
            LinkerFlavor::Gnu => {
                if static_link {
                    arguments.push(owned("-Wl,-Bstatic"));
                    arguments.push(message_with_text("-l", library, ""));
                    arguments.push(owned("-Wl,-Bdynamic"));
                } else {
                    arguments.push(message_with_text("-l", library, ""));
                }
            },
            LinkerFlavor::Apple => {
                if static_link {
                    arguments.push(message_with_text("-Wl,-force_load,lib", library, ".a"));
                } else {
                    arguments.push(message_with_text("-l", library, ""));
                }
            },
            LinkerFlavor::Msvc => {
                arguments.push(concat(owned(library), ".lib"));
            },
        }
        proof {
            reveal_strlit("");
            assert(text_views(arguments@) =~= spec_library_arguments(*self, library@, static_link));
        }
        arguments
    }

    /// The linker argument that searches `path` for libraries.
    pub fn library_path_argument(&self, path: &str) -> (argument: String)
        ensures
            argument@ == spec_library_path_argument(*self, path@),
    {
        match self {
            LinkerFlavor::Gnu | LinkerFlavor::Apple => concat(owned("-L"), path),
            LinkerFlavor::Msvc => concat(owned("/LIBPATH:"), path),
        }
    }
}

/// A dynamic library is linked by the plain `-l` argument on GNU and Apple linkers alike; a
/// static GNU link is that same argument bracketed by `-Wl,-Bstatic` and `-Wl,-Bdynamic`, so
/// the libraries after it stay dynamic; Apple's linker loads a static archive `lib<name>.a`
/// whole; the Microsoft linker names the import library `<name>.lib` whether it is static or
/// not.
pub proof fn law_library_arguments(library: Seq<char>)
    ensures
        spec_library_arguments(LinkerFlavor::Gnu, library, false) == seq!["-l"@ + library],
        spec_library_arguments(LinkerFlavor::Apple, library, false) == spec_library_arguments(
            LinkerFlavor::Gnu,
            library,
            false,
        ),
        spec_library_arguments(LinkerFlavor::Gnu, library, true) == seq!["-Wl,-Bstatic"@] + spec_library_arguments(
            LinkerFlavor::Gnu,
            library,
            false,
        ) + seq!["-Wl,-Bdynamic"@],
        spec_library_arguments(LinkerFlavor::Msvc, library, true) == spec_library_arguments(
            LinkerFlavor::Msvc,
            library,
            false,
        ),
        spec_library_arguments(LinkerFlavor::Msvc, library, false) == seq![library + ".lib"@],
        spec_library_arguments(LinkerFlavor::Apple, library, true) == seq!["-Wl,-force_load,lib"@ + library + ".a"@],
{
    assert(seq!["-Wl,-Bstatic"@] + seq!["-l"@ + library] + seq!["-Wl,-Bdynamic"@] =~= seq![
        "-Wl,-Bstatic"@,
        "-l"@ + library,
        "-Wl,-Bdynamic"@,
    ]);
}

} // verus!
