//! Classifying a version specifier. The classification is a pure function of
//! the specifier string: in particular, the system sentinel resolves here
//! alone, before any store listing or catalog query is so much as prepared.

use vstd::prelude::*;

use crate::util::spec_major_minor;
use crate::version::{spec_parse_version, str_eq, Version};

verus! {

/// What a specifier asks for.
pub enum SpecifierKind {
    /// The system sentinel: run whatever binary the search path offers.
    System,
    /// The newest stable release.
    Latest,
    /// The newest release of one `major.minor` line.
    MajorMinor(u64, u64),
    /// One exact release.
    Exact(Version),
    /// None of the recognized forms.
    Invalid,
}

/// Classifies a specifier: the two sentinels by name, then the
/// `major.minor` shorthand, then an exact version; anything else is invalid.
/// The result depends on the specifier alone, so the system sentinel never
/// costs a store or catalog access.
pub fn resolve_kind(specifier: &str) -> (r: SpecifierKind)
    ensures
        match r {
            SpecifierKind::System => specifier@ == "system"@,
            SpecifierKind::Latest => specifier@ != "system"@ && specifier@ == "latest"@,
            SpecifierKind::MajorMinor(major, minor) => specifier@ != "system"@ && specifier@
                != "latest"@ && spec_major_minor(specifier@) == Some((major as int, minor as int)),
            SpecifierKind::Exact(v) => specifier@ != "system"@ && specifier@ != "latest"@
                && spec_major_minor(specifier@) is None && spec_parse_version(specifier@)
                == Some(v@),
            SpecifierKind::Invalid => specifier@ != "system"@ && specifier@ != "latest"@
                && spec_major_minor(specifier@) is None && spec_parse_version(specifier@) is None,
        },
{
    if str_eq(specifier, "system") {
        return SpecifierKind::System;
    }
    if str_eq(specifier, "latest") {
        return SpecifierKind::Latest;
    }
    if let Some((major, minor)) = crate::util::parse_major_minor_version(specifier) {
        return SpecifierKind::MajorMinor(major, minor);
    }
    match Version::parse(specifier) {
        Some(v) => SpecifierKind::Exact(v),
        None => SpecifierKind::Invalid,
    }
}

} // verus!
