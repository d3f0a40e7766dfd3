use vstd::prelude::*;

verus! {

/// Why native code for a program could not be produced.
#[derive(Debug)]
pub struct NativeEmitError(pub String);

impl NativeEmitError {
    pub open spec fn spec_message(&self) -> Seq<char> {
        self.0@
    }

    /// The text of the error.
    pub fn message(&self) -> (message: String)
        ensures
            message@ == self.spec_message(),
    {
        self.0.clone()
    }
}

} // verus!
