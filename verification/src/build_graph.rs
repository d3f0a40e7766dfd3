use vstd::prelude::*;

use crate::configuration::{CompilerConfiguration, spec_capsula_target_directory, spec_directory_name};
use crate::text::{owned, str_eq};

verus! {

/// The version of the metadata format that this compiler writes and accepts.
pub const ACTMETA_FORMAT_VERSION: u32 = 1;

/// The version of this compiler, as recorded beside the artifacts it builds.
pub open spec fn spec_compiler_version() -> Seq<char> {
    "0.1.0"@
}

pub fn compiler_version() -> (version: &'static str)
    ensures
        version@ == spec_compiler_version(),
{
    proof {
        reveal_strlit("0.1.0");
    }
    "0.1.0"
}

/// Why the artifacts of a build could not be kept consistent.
#[derive(Debug)]
pub struct BuildGraphError(pub String);

impl BuildGraphError {
    pub fn message(&self) -> (message: String)
        ensures
            message@ == self.0@,
    {
        self.0.clone()
    }
}

/// What is recorded beside a built artifact: the unit it was built from and everything about
/// the compiler and target that the artifact depends on.
#[derive(Clone, Debug)]
pub struct UnitMetadata {
    pub(crate) format_version: u32,
    pub unit: String,
    pub compiler_version: String,
    pub toolchain_hash: String,
    pub target_triple: String,
    pub target_spec_hash: String,
    pub profile: String,
}

/// The metadata this compiler records for `unit` under `configuration`.
pub open spec fn spec_for_configuration(unit: Seq<char>, configuration: CompilerConfiguration) -> (
    u32,
    Seq<char>,
    Seq<char>,
    Seq<char>,
    Seq<char>,
    Seq<char>,
    Seq<char>,
) {
    (
        ACTMETA_FORMAT_VERSION,
        unit,
        spec_compiler_version(),
        configuration.toolchain_hash@,
        configuration.target_triple@,
        configuration.target_spec_hash@,
        spec_directory_name(configuration.profile),
    )
}

impl UnitMetadata {
    /// All that the metadata records, as plain values.
    pub closed spec fn record(&self) -> (u32, Seq<char>, Seq<char>, Seq<char>, Seq<char>, Seq<char>, Seq<char>) {
        (
            self.format_version,
            self.unit@,
            self.compiler_version@,
            self.toolchain_hash@,
            self.target_triple@,
            self.target_spec_hash@,
            self.profile@,
        )
    }

    /// What `record` holds is the fields, in order.
    pub(crate) proof fn lemma_record_fields(&self)
        ensures
            self.record().0 == self.format_version,
            self.record().1 == self.unit@,
            self.record().2 == self.compiler_version@,
            self.record().3 == self.toolchain_hash@,
            self.record().4 == self.target_triple@,
            self.record().5 == self.target_spec_hash@,
            self.record().6 == self.profile@,
    {
    }

    /// Metadata as it was read back, field by field.
    pub fn recorded(
        format_version: u32,
        unit: String,
        compiler_version: String,
        toolchain_hash: String,
        target_triple: String,
        target_spec_hash: String,
        profile: String,
    ) -> (metadata: Self)
        ensures
            metadata.record() == (
                format_version,
                unit@,
                compiler_version@,
                toolchain_hash@,
                target_triple@,
                target_spec_hash@,
                profile@,
            ),
    {
        UnitMetadata { format_version, unit, compiler_version, toolchain_hash, target_triple, target_spec_hash, profile }
    }

    pub fn format_version(&self) -> (version: u32)
        ensures
            version == self.record().0,
    {
        self.format_version
    }

    /// The metadata of `unit` built under `configuration`.
    pub fn for_configuration(unit: &str, configuration: &CompilerConfiguration) -> (metadata: Self)
        ensures
            metadata.record() == spec_for_configuration(unit@, *configuration),
    {
        UnitMetadata {
            format_version: ACTMETA_FORMAT_VERSION,
            unit: owned(unit),
            compiler_version: owned(compiler_version()),
            toolchain_hash: owned(configuration.toolchain_hash.as_str()),
            target_triple: owned(configuration.target_triple()),
            target_spec_hash: owned(configuration.target_spec_hash()),
            profile: owned(configuration.profile().directory_name()),
        }
    }

    /// Whether an artifact with this metadata was built by this compiler for the target and
    /// profile of `configuration`; the unit name does not matter.
    pub fn matches_configuration(&self, configuration: &CompilerConfiguration) -> (matches: bool)
        ensures
            matches == {
                let expected = spec_for_configuration(self.record().1, *configuration);
                self.record() == expected
            },
    {
        self.format_version == ACTMETA_FORMAT_VERSION && str_eq(self.compiler_version.as_str(), compiler_version())
            && str_eq(self.toolchain_hash.as_str(), configuration.toolchain_hash.as_str()) && str_eq(
            self.target_triple.as_str(),
            configuration.target_triple(),
        ) && str_eq(self.target_spec_hash.as_str(), configuration.target_spec_hash()) && str_eq(
            self.profile.as_str(),
            configuration.profile().directory_name(),
        )
    }
}

/// `path` with its extension replaced by (or extended with) `extension`, as
/// `std::path::Path::with_extension` computes it.
pub uninterp spec fn path_with_extension(path: Seq<char>, extension: Seq<char>) -> Seq<char>;

/// Whether `base` is a leading run of whole components of `path`, as
/// `std::path::Path::starts_with` decides it.
pub uninterp spec fn path_starts_with(path: Seq<char>, base: Seq<char>) -> bool;

/// An extension that holds no path separator, which `Path::with_extension` accepts without
/// panicking.
pub open spec fn plain_extension(extension: Seq<char>) -> bool {
    forall|i: int| 0 <= i < extension.len() ==> extension[i] != '/' && extension[i] != '\\'
}

/// Wraps `std::path::Path::with_extension`, which panics on an extension holding a path
/// separator; the contract only names its result.
#[verifier::external_body]
fn with_extension(path: &str, extension: &str) -> (result: String)
    requires
        plain_extension(extension@),
    ensures
        result@ == path_with_extension(path@, extension@),
{
    std::path::Path::new(path).with_extension(extension).to_string_lossy().into_owned()
}

/// Wraps `std::path::Path::starts_with`; the contract only names its result.
#[verifier::external_body]
fn starts_with(path: &str, base: &str) -> (result: bool)
    ensures
        result == path_starts_with(path@, base@),
{
    std::path::Path::new(path).starts_with(base)
}

/// Where the metadata of `artifact` is kept: beside it, with the extension `actmeta`.
pub fn metadata_path(artifact: &str) -> (path: String)
    ensures
        path@ == path_with_extension(artifact@, "actmeta"@),
{
    proof {
        reveal_strlit("actmeta");
    }
    with_extension(artifact, "actmeta")
}

/// Every file that a build of `artifact` may leave: the artifact, its object and executable
/// forms, and its metadata.
pub open spec fn spec_generated_paths(artifact: Seq<char>) -> Seq<Seq<char>> {
    seq![
        artifact,
        path_with_extension(artifact, "obj"@),
        path_with_extension(artifact, "bin"@),
        path_with_extension(artifact, "actmeta"@),
    ]
}

pub open spec fn text_views(texts: Seq<String>) -> Seq<Seq<char>> {
    texts.map_values(|text: String| text@)
}

pub fn generated_paths(artifact: &str) -> (paths: Vec<String>)
    ensures
        text_views(paths@) == spec_generated_paths(artifact@),
{
    proof {
        reveal_strlit("obj");
        reveal_strlit("bin");
    }
    let mut paths: Vec<String> = Vec::new();
    paths.push(owned(artifact));
    paths.push(with_extension(artifact, "obj"));
    paths.push(with_extension(artifact, "bin"));
    paths.push(metadata_path(artifact));
    proof {
        assert(text_views(paths@) =~= spec_generated_paths(artifact@));
    }
    paths
}

/// The files to remove so that no stale artifact survives: none for an artifact outside the
/// managed target directory or one whose recorded metadata matches the configuration, else
/// every file the build of it may have left. Metadata that is missing or cannot be read
/// counts as not matching.
pub fn stale_paths(
    artifact: &str,
    managed: bool,
    recorded: Option<&UnitMetadata>,
    configuration: &CompilerConfiguration,
) -> (paths: Vec<String>)
    ensures
        text_views(paths@) == if !managed {
            Seq::<Seq<char>>::empty()
        } else {
            match recorded {
                Some(metadata) => if metadata.record() == spec_for_configuration(metadata.record().1, *configuration) {
                    Seq::<Seq<char>>::empty()
                } else {
                    spec_generated_paths(artifact@)
                },
                None => spec_generated_paths(artifact@),
            }
        },
{
    if !managed {
        let paths: Vec<String> = Vec::new();
        assert(text_views(paths@) =~= Seq::<Seq<char>>::empty());
        return paths;
    }
    let compatible = match recorded {
        Some(metadata) => metadata.matches_configuration(configuration),
        None => false,
    };
    if compatible {
        let paths: Vec<String> = Vec::new();
        assert(text_views(paths@) =~= Seq::<Seq<char>>::empty());
        return paths;
    }
    generated_paths(artifact)
}

/// The files to remove before `artifact` is built again under `configuration`, given the
/// metadata read back from beside it, if any: only an artifact under the target directory of
/// the configuration is managed.
pub fn invalidate_stale_artifact(
    artifact: &str,
    recorded: Option<&UnitMetadata>,
    configuration: &CompilerConfiguration,
) -> (paths: Vec<String>)
    ensures
        ({
            let managed = path_starts_with(artifact@, spec_capsula_target_directory(*configuration));
            text_views(paths@) == if !managed {
                Seq::<Seq<char>>::empty()
            } else {
                match recorded {
                    Some(metadata) => if metadata.record() == spec_for_configuration(metadata.record().1, *configuration) {
                        Seq::<Seq<char>>::empty()
                    } else {
                        spec_generated_paths(artifact@)
                    },
                    None => spec_generated_paths(artifact@),
                }
            }
        }),
{
    let directory = configuration.capsula_target_directory();
    let managed = starts_with(artifact, directory.as_str());
    stale_paths(artifact, managed, recorded, configuration)
}


/// Metadata written for a unit under one configuration is accepted under another exactly when
/// the two agree on the toolchain hash, the target triple, the target specification hash and
/// the profile.
pub proof fn law_metadata_tracks_configuration(
    unit: Seq<char>,
    written: CompilerConfiguration,
    current: CompilerConfiguration,
)
    ensures
        spec_for_configuration(unit, written) == spec_for_configuration(unit, current) <==> same_build(written, current),
{
    reveal_strlit("debug");
    reveal_strlit("release");
    if spec_directory_name(written.profile) == spec_directory_name(current.profile) && written.profile
        != current.profile {
        assert(spec_directory_name(written.profile).len() != spec_directory_name(current.profile).len());
    }
}

/// Two configurations build the same artifacts: same toolchain, target and profile.
pub open spec fn same_build(written: CompilerConfiguration, current: CompilerConfiguration) -> bool {
    &&& written.toolchain_hash@ == current.toolchain_hash@
    &&& written.target_triple@ == current.target_triple@
    &&& written.target_spec_hash@ == current.target_spec_hash@
    &&& written.profile == current.profile
}

/// Rebuilding an artifact under the configuration it was built with removes nothing; under a
/// configuration that differs in toolchain, target or profile, every file the build left is
/// removed.
pub proof fn law_stale_artifacts(
    artifact: Seq<char>,
    unit: Seq<char>,
    written: CompilerConfiguration,
    current: CompilerConfiguration,
)
    ensures
        ({
            let recorded = spec_for_configuration(unit, written);
            let compatible = recorded == spec_for_configuration(recorded.1, current);
            &&& same_build(written, current) ==> compatible
            &&& !same_build(written, current) ==> !compatible
        }),
{
    law_metadata_tracks_configuration(unit, written, current);
}

} // verus!
