//! The desktop OS build variants and their artifact path elements.

use vstd::prelude::*;

use crate::arch::{arch_name_chars, Architecture};
use crate::version::{version_chars, Version, VersionView};

verus! {

/// A desktop OS build: linked against the SSL library or not.
#[derive(Clone, Copy, Debug, PartialEq, Eq, Structural)]
pub enum MacOsType {
    NonSsl,
    Ssl,
}

/// The artifact path elements of a desktop OS build: an `ssl` marker for the
/// SSL-linked build, the architecture token, and the version string.
pub open spec fn spec_macos_url_path(t: MacOsType, v: VersionView) -> Seq<Seq<char>> {
    let head = match t {
        MacOsType::Ssl => seq!["ssl"@],
        MacOsType::NonSsl => Seq::empty(),
    };
    head.push(arch_name_chars(Architecture::X86_64)).push(version_chars(v))
}

impl MacOsType {
    /// The architecture of a desktop OS build.
    pub fn architecture(&self) -> (r: Architecture)
        ensures
            r == Architecture::X86_64,
    {
        Architecture::X86_64
    }

    /// The artifact path elements for a release of this build.
    pub fn url_path(&self, version: &Version) -> (r: Vec<String>)
        ensures
            r.deep_view() == spec_macos_url_path(*self, version@),
    {
        let mut path: Vec<String> = Vec::new();
        if let MacOsType::Ssl = *self {
            path.push("ssl".to_owned());
        }
        path.push(self.architecture().name().to_owned());
        path.push(version.version_string());
        proof {
            assert(path.deep_view() =~= spec_macos_url_path(*self, version@));
        }
        path
    }
}

} // verus!
