use vstd::prelude::*;

use crate::configuration::{CompilerConfiguration, LibraryKind, NativeLibrary};
use crate::target::{LinkerFlavor, spec_library_arguments, spec_library_path_argument, text_views};
use crate::text::{message_with_text, owned};

verus! {

/// Why an object could not be linked into an executable.
#[derive(Debug)]
pub struct NativeLinkError(pub String);

impl NativeLinkError {
    pub open spec fn spec_message(&self) -> Seq<char> {
        self.0@
    }

    pub fn message(&self) -> (message: String)
        ensures
            message@ == self.spec_message(),
    {
        self.0.clone()
    }
}

/// The arguments that link every library of `libraries`, in order.
pub open spec fn library_arguments_of(flavor: LinkerFlavor, libraries: Seq<NativeLibrary>) -> Seq<Seq<char>>
    decreases libraries.len(),
{
    if libraries.len() == 0 {
        Seq::empty()
    } else {
        library_arguments_of(flavor, libraries.drop_last()) + spec_library_arguments(
            flavor,
            libraries.last().name@,
            libraries.last().kind == LibraryKind::Static,
        )
    }
}

/// The linker command line after the linker itself: the object, the runtime archive if there
/// is one, a search path argument per library path, the arguments of each library, and the
/// output.
pub open spec fn spec_link_arguments(
    object: Seq<char>,
    executable: Seq<char>,
    runtime_archive: Option<Seq<char>>,
    configuration: CompilerConfiguration,
) -> Seq<Seq<char>> {
    seq![object] + match runtime_archive {
        Some(archive) => seq![archive],
        None => Seq::empty(),
    } + configuration.library_paths@.map_values(
        |path: String| spec_library_path_argument(configuration.linker_flavor, path@),
    ) + library_arguments_of(configuration.linker_flavor, configuration.libraries@) + seq!["-o"@, executable]
}

fn append_all(arguments: &mut Vec<String>, more: Vec<String>)
    ensures
        text_views(final(arguments)@) == text_views(old(arguments)@) + text_views(more@),
{
    let ghost start = text_views(arguments@);
    let mut index: usize = 0;
    while index < more.len()
        invariant
            index <= more@.len(),
            text_views(arguments@) == start + text_views(more@).take(index as int),
        decreases more@.len() - index,
    {
        let ghost previous = arguments@;
        arguments.push(more[index].clone());
        proof {
            assert(text_views(arguments@) =~= text_views(previous).push(more@[index as int]@));
            assert(text_views(more@).take(index + 1) =~= text_views(more@).take(index as int).push(more@[index as int]@));
            assert(text_views(arguments@) =~= start + text_views(more@).take(index + 1));
        }
        index = index + 1;
    }
    proof {
        assert(text_views(more@).take(index as int) =~= text_views(more@));
    }
}

/// The arguments to hand the linker of `configuration` so that it links `object` (and the
/// runtime archive, if any) into `executable`.
pub fn link_arguments(
    object: &str,
    executable: &str,
    runtime_archive: Option<&str>,
    configuration: &CompilerConfiguration,
) -> (arguments: Vec<String>)
    ensures
        text_views(arguments@) == spec_link_arguments(
            object@,
            executable@,
            match runtime_archive {
                Some(archive) => Some(archive@),
                None => None,
            },
            *configuration,
        ),
{
    let flavor = configuration.linker_flavor;
    let mut arguments: Vec<String> = Vec::new();
    arguments.push(owned(object));
    if let Some(archive) = runtime_archive {
        arguments.push(owned(archive));
    }
    let ghost head = text_views(arguments@);
    let mut index: usize = 0;
    while index < configuration.library_paths.len()
        invariant
            flavor == configuration.linker_flavor,
            index <= configuration.library_paths@.len(),
            text_views(arguments@) == head + configuration.library_paths@.take(index as int).map_values(
                |path: String| spec_library_path_argument(flavor, path@),
            ),
        decreases configuration.library_paths@.len() - index,
    {
        let argument = flavor.library_path_argument(configuration.library_paths[index].as_str());
        let ghost previous = arguments@;
        arguments.push(argument);
        proof {
            assert(text_views(arguments@) =~= text_views(previous).push(argument@));
            assert(configuration.library_paths@.take(index + 1).map_values(
                |path: String| spec_library_path_argument(flavor, path@),
            ) =~= configuration.library_paths@.take(index as int).map_values(
                |path: String| spec_library_path_argument(flavor, path@),
            ).push(spec_library_path_argument(flavor, configuration.library_paths@[index as int]@)));
            assert(text_views(arguments@) =~= head + configuration.library_paths@.take(index + 1).map_values(
                |path: String| spec_library_path_argument(flavor, path@),
            ));
        }
        index = index + 1;
    }
    proof {
        assert(configuration.library_paths@.take(index as int) =~= configuration.library_paths@);
    }
    let ghost middle = text_views(arguments@);
    let mut index: usize = 0;
    while index < configuration.libraries.len()
        invariant
            flavor == configuration.linker_flavor,
            index <= configuration.libraries@.len(),
            text_views(arguments@) == middle + library_arguments_of(flavor, configuration.libraries@.take(index as int)),
        decreases configuration.libraries@.len() - index,
    {
        let library = &configuration.libraries[index];
        let more = flavor.library_arguments(library.name.as_str(), library.kind == LibraryKind::Static);
        append_all(&mut arguments, more);
        proof {
            assert(configuration.libraries@.take(index + 1).drop_last() =~= configuration.libraries@.take(index as int));
            assert(text_views(arguments@) =~= middle + library_arguments_of(flavor, configuration.libraries@.take(index + 1)));
        }
        index = index + 1;
    }
    proof {
        assert(configuration.libraries@.take(index as int) =~= configuration.libraries@);
    }
    let ghost before_output = arguments@;
    arguments.push(owned("-o"));
    arguments.push(owned(executable));
    proof {
        reveal_strlit("-o");
        assert(text_views(arguments@) =~= text_views(before_output) + seq!["-o"@, executable@]);
        assert(text_views(arguments@) =~= spec_link_arguments(
            object@,
            executable@,
            match runtime_archive {
                Some(archive) => Some(archive@),
                None => None,
            },
            *configuration,
        ));
    }
    arguments
}

/// The error for a linker that could not be started.
pub fn cannot_execute_linker(reason: &str) -> (error: NativeLinkError)
    ensures
        error.spec_message() == "cannot execute linker: "@ + reason@,
{
    proof {
        reveal_strlit("");
    }
    NativeLinkError(message_with_text("cannot execute linker: ", reason, ""))
}

/// The error for a linker that ran and failed, with what it reported.
pub fn linker_failed(linker: &str, details: &str) -> (error: NativeLinkError)
    ensures
        error.spec_message() == "linker `"@ + linker@ + "` failed: "@ + details@,
{
    let text = message_with_text("linker `", linker, "` failed: ");
    NativeLinkError(crate::text::concat(text, details))
}

} // verus!
