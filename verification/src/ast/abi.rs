use vstd::prelude::*;

verus! {

/// The calling conventions an external verb may name.
#[derive(Clone, Copy, Debug, PartialEq, Eq, Structural)]
pub enum ForeignAbi {
    C,
}

impl ForeignAbi {
    /// The name of the convention as written in source.
    pub fn name(self) -> (name: &'static str)
        ensures
            name@ == "C"@,
    {
        match self {
            ForeignAbi::C => "C",
        }
    }
}

} // verus!
