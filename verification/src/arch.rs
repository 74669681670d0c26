//! CPU architectures of download artifacts.

use vstd::prelude::*;

verus! {

/// A supported CPU architecture.
#[derive(Clone, Copy, Debug, PartialEq, Eq, Structural)]
pub enum Architecture {
    Arm,
    X86_64,
}

/// The token an architecture contributes to artifact names.
pub open spec fn arch_name_chars(a: Architecture) -> Seq<char> {
    match a {
        Architecture::Arm => "arm64"@,
        Architecture::X86_64 => "x86_64"@,
    }
}

impl Architecture {
    /// The architecture's token in artifact names.
    pub fn name(self) -> (r: &'static str)
        ensures
            r@ == arch_name_chars(self),
    {
        match self {
            Architecture::Arm => "arm64",
            Architecture::X86_64 => "x86_64",
        }
    }
}

} // verus!
