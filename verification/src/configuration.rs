use vstd::prelude::*;

use crate::target::LinkerFlavor;
use crate::text::{concat, owned};

verus! {

/// The optimisation profile of a build.
#[derive(Clone, Copy, Debug, PartialEq, Eq, Structural)]
pub enum BuildProfile {
    Debug,
    Release,
}

pub open spec fn spec_directory_name(profile: BuildProfile) -> Seq<char> {
    match profile {
        BuildProfile::Debug => "debug"@,
        BuildProfile::Release => "release"@,
    }
}

impl BuildProfile {
    /// The name of the directory that holds the artifacts of this profile.
    pub fn directory_name(&self) -> (name: &'static str)
        ensures
            name@ == spec_directory_name(*self),
    {
        match self {
            BuildProfile::Debug => {
                proof {
                    reveal_strlit("debug");
                }
                "debug"
            },
            BuildProfile::Release => {
                proof {
                    reveal_strlit("release");
                }
                "release"
            },
        }
    }
}

/// What the entry verb of an executable must look like.
#[derive(Clone, Copy, Debug, PartialEq, Eq, Structural)]
pub enum EntryContract {
    /// A program run by an operating system, entered at `main`.
    Hosted,
    /// A program entered at a configured symbol.
    Freestanding,
}

/// How a native library is linked.
#[derive(Clone, Copy, Debug, PartialEq, Eq, Structural)]
pub enum LibraryKind {
    Static,
    Dynamic,
}

/// A native library that executables are linked against.
#[derive(Clone, Debug)]
pub struct NativeLibrary {
    pub name: String,
    pub kind: LibraryKind,
}

/// Everything a build needs to know about its project and target.
#[derive(Clone, Debug)]
pub struct CompilerConfiguration {
    pub project_root: String,
    pub source_root: String,
    /// The directory under which built artifacts are kept, one subdirectory per profile.
    pub capsula_root: String,
    /// The sources of the project's dependencies, one directory each.
    pub dependency_roots: Vec<String>,
    /// The hash of the toolchain this compiler was built with, recorded beside artifacts.
    pub toolchain_hash: String,
    pub target_triple: String,
    pub target_spec_hash: String,
    pub profile: BuildProfile,
    pub entry_contract: EntryContract,
    pub entry_symbol: Option<String>,
    pub linker: String,
    pub linker_flavor: LinkerFlavor,
    pub library_paths: Vec<String>,
    pub libraries: Vec<NativeLibrary>,
}

pub open spec fn spec_capsula_target_directory(configuration: CompilerConfiguration) -> Seq<char> {
    configuration.capsula_root@ + "/"@ + spec_directory_name(configuration.profile)
}

impl CompilerConfiguration {
    /// The same configuration, building with `profile`.
    pub fn with_profile(self, profile: BuildProfile) -> (configuration: Self)
        ensures
            configuration == (CompilerConfiguration { profile, ..self }),
    {
        CompilerConfiguration { profile, ..self }
    }

    pub fn target_triple(&self) -> (triple: &str)
        ensures
            triple@ == self.target_triple@,
    {
        self.target_triple.as_str()
    }

    pub fn target_spec_hash(&self) -> (hash: &str)
        ensures
            hash@ == self.target_spec_hash@,
    {
        self.target_spec_hash.as_str()
    }

    pub fn profile(&self) -> (profile: BuildProfile)
        ensures
            profile == self.profile,
    {
        self.profile
    }

    pub fn entry_contract(&self) -> (contract: EntryContract)
        ensures
            contract == self.entry_contract,
    {
        self.entry_contract
    }

    /// The source file built when none is named: `main.act` in the source root.
    pub fn default_entry_path(&self) -> (path: String)
        ensures
            path@ == self.source_root@ + "/main.act"@,
    {
        concat(owned(self.source_root.as_str()), "/main.act")
    }

    /// The directory that holds the artifacts of the current profile.
    pub fn capsula_target_directory(&self) -> (directory: String)
        ensures
            directory@ == spec_capsula_target_directory(*self),
    {
        let directory = concat(owned(self.capsula_root.as_str()), "/");
        concat(directory, self.profile.directory_name())
    }
}

} // verus!
