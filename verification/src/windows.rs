//! The Windows build variants and their artifact path elements.

use vstd::prelude::*;

use crate::arch::{arch_name_chars, Architecture};
use crate::version::{version_chars, Version, VersionView};

verus! {

/// A Windows server build variant.
#[derive(Clone, Copy, Debug, PartialEq, Eq, Structural)]
pub enum WindowsType {
    Server2008,
    Server2008R2,
    Server2008R2Ssl,
}

/// The token a Windows variant contributes to artifact names; the plain
/// server build contributes none.
pub open spec fn windows_name_chars(t: WindowsType) -> Option<Seq<char>> {
    match t {
        WindowsType::Server2008R2 | WindowsType::Server2008R2Ssl => Some("2008plus"@),
        WindowsType::Server2008 => None,
    }
}

/// The artifact path elements of a Windows build: the architecture token,
/// the variant token when there is one, an `ssl` marker for the SSL build,
/// the version string, and the trailing `signed` marker.
pub open spec fn spec_windows_url_path(t: WindowsType, v: VersionView) -> Seq<Seq<char>> {
    let head = seq![arch_name_chars(Architecture::X86_64)];
    let named = match windows_name_chars(t) {
        Some(n) => head.push(n),
        None => head,
    };
    let with_ssl = if t is Server2008R2Ssl {
        named.push("ssl"@)
    } else {
        named
    };
    with_ssl.push(version_chars(v)).push("signed"@)
}

impl WindowsType {
    /// The architecture of a Windows build.
    pub fn architecture(&self) -> (r: Architecture)
        ensures
            r == Architecture::X86_64,
    {
        Architecture::X86_64
    }

    /// The variant token in artifact names.
    pub fn name(&self) -> (r: Option<&'static str>)
        ensures
            match r {
                Some(n) => windows_name_chars(*self) == Some(n@),
                None => windows_name_chars(*self) is None,
            },
    {
        match *self {
            WindowsType::Server2008R2 | WindowsType::Server2008R2Ssl => Some("2008plus"),
            WindowsType::Server2008 => None,
        }
    }

    /// The artifact path elements for a release of this build.
    pub fn url_path(&self, version: &Version) -> (r: Vec<String>)
        ensures
            r.deep_view() == spec_windows_url_path(*self, version@),
    {
        let mut path: Vec<String> = Vec::new();
        path.push(self.architecture().name().to_owned());
        if let Some(name) = self.name() {
            path.push(name.to_owned());
        }
        if let WindowsType::Server2008R2Ssl = *self {
            path.push("ssl".to_owned());
        }
        path.push(version.version_string());
        path.push("signed".to_owned());
        proof {
            assert(path.deep_view() =~= spec_windows_url_path(*self, version@));
        }
        path
    }
}

} // verus!
