use vstd::prelude::*;

verus! {

/// Whether an entry of a built-in registry may still be used.
#[derive(Clone, Copy, Debug, PartialEq, Eq, Structural)]
pub enum RegistryStatus {
    Active,
    Deprecated,
}

impl RegistryStatus {
    pub fn is_active(self) -> (active: bool)
        ensures
            active == (self == RegistryStatus::Active),
    {
        matches!(self, RegistryStatus::Active)
    }
}

} // verus!
