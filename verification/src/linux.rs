//! Linux distribution detection and the path elements a distribution
//! contributes to a download artifact name.
//!
//! Detection works on the `ID` and `VERSION_ID` fields of the host's OS
//! release metadata; the caller reads that file and hands the two fields in.

use vstd::prelude::*;

use crate::arch::{arch_name_chars, Architecture};
use crate::digits::{all_digits, digits_val, is_digit, lemma_digits_val_nonneg};
use crate::error::Error;
use crate::version::{
    find_from, lemma_find_from, str_eq, version_chars, Version, VersionView,
};

verus! {

/// A Linux distribution with a dedicated build, or the generic legacy build.
#[derive(Clone, Copy, Debug, PartialEq, Eq, Structural)]
pub enum LinuxType {
    Amazon,
    Debian7,
    Debian8,
    Legacy,
    Rhel6,
    Rhel7,
    Suse11,
    Suse12,
    Ubuntu1204,
    Ubuntu1404,
    Ubuntu1604(Architecture),
    Ubuntu1804,
}

/// The numeric value of the first dot-separated segment of a version-id
/// field, when it is a nonempty digit run whose value fits in a byte; the
/// reading a byte-sized parse of that segment would give.
pub open spec fn spec_first_segment_u8(s: Seq<char>) -> Option<int> {
    let e = find_from(s, 0, '.');
    let seg = s.subrange(0, e);
    if seg.len() > 0 && all_digits(seg) && digits_val(seg) <= 255 {
        Some(digits_val(seg))
    } else {
        None
    }
}

/// Reads the leading numeric segment of a version-id field.
fn first_segment_u8(s: &str) -> (r: Option<u8>)
    ensures
        match r {
            Some(v) => spec_first_segment_u8(s@) == Some(v as int),
            None => spec_first_segment_u8(s@) is None,
        },
{
    let n = s.unicode_len();
    proof {
        lemma_find_from(s@, 0, '.');
    }
    let e = crate::version::find_char(s, 0, '.');
    let ghost seg = s@.subrange(0, e as int);
    proof {
        assert(forall|j: int| 0 <= j < seg.len() ==> is_digit(#[trigger] seg[j]) == is_digit(
            s@[j],
        ));
    }
    match crate::version::parse_dec_range(s, 0, e) {
        Some(v) => {
            proof {
                lemma_digits_val_nonneg(seg);
            }
            if v <= 255 {
                Some(v as u8)
            } else {
                None
            }
        },
        None => None,
    }
}

/// Ubuntu: the lowest supported release at or below the host's release wins.
pub open spec fn spec_check_ubuntu(id: Seq<char>, version_id: Option<Seq<char>>) -> Option<
    LinuxType,
> {
    if id == "ubuntu"@ {
        match version_id {
            Some(vid) => match spec_first_segment_u8(vid) {
                Some(i) => if i >= 18 {
                    Some(LinuxType::Ubuntu1804)
                } else if i >= 16 {
                    Some(LinuxType::Ubuntu1604(Architecture::X86_64))
                } else if i >= 14 {
                    Some(LinuxType::Ubuntu1404)
                } else if i >= 12 {
                    Some(LinuxType::Ubuntu1204)
                } else {
                    None
                },
                None => None,
            },
            None => None,
        }
    } else {
        None
    }
}

/// Amazon Linux is recognized by its distribution id alone.
pub open spec fn spec_check_amazon(id: Seq<char>) -> Option<LinuxType> {
    if id == "amzn"@ {
        Some(LinuxType::Amazon)
    } else {
        None
    }
}

/// RHEL and CentOS share builds; release seven and later use the newer one.
pub open spec fn spec_check_rhel(id: Seq<char>, version_id: Option<Seq<char>>) -> Option<
    LinuxType,
> {
    if id == "rhel"@ || id == "centos"@ {
        match version_id {
            Some(vid) => match spec_first_segment_u8(vid) {
                Some(i) => if i >= 7 {
                    Some(LinuxType::Rhel7)
                } else if i >= 6 {
                    Some(LinuxType::Rhel6)
                } else {
                    None
                },
                None => None,
            },
            None => None,
        }
    } else {
        None
    }
}

/// SUSE: release twelve and later use the newer build.
pub open spec fn spec_check_suse(id: Seq<char>, version_id: Option<Seq<char>>) -> Option<
    LinuxType,
> {
    if id == "suse"@ {
        match version_id {
            Some(vid) => match spec_first_segment_u8(vid) {
                Some(i) => if i >= 12 {
                    Some(LinuxType::Suse12)
                } else if i >= 11 {
                    Some(LinuxType::Suse11)
                } else {
                    None
                },
                None => None,
            },
            None => None,
        }
    } else {
        None
    }
}

/// Debian: only releases seven and eight have dedicated builds.
pub open spec fn spec_check_debian(id: Seq<char>, version_id: Option<Seq<char>>) -> Option<
    LinuxType,
> {
    if id == "debian"@ {
        match version_id {
            Some(vid) => match spec_first_segment_u8(vid) {
                Some(i) => if i == 8 {
                    Some(LinuxType::Debian8)
                } else if i == 7 {
                    Some(LinuxType::Debian7)
                } else {
                    None
                },
                None => None,
            },
            None => None,
        }
    } else {
        None
    }
}

/// The full detection: the first matching distribution predicate wins, and a
/// host that matches none gets the generic legacy build.
pub open spec fn spec_linux_type(id: Seq<char>, version_id: Option<Seq<char>>) -> LinuxType {
    match spec_check_ubuntu(id, version_id) {
        Some(t) => t,
        None => match spec_check_amazon(id) {
            Some(t) => t,
            None => match spec_check_rhel(id, version_id) {
                Some(t) => t,
                None => match spec_check_suse(id, version_id) {
                    Some(t) => t,
                    None => match spec_check_debian(id, version_id) {
                        Some(t) => t,
                        None => LinuxType::Legacy,
                    },
                },
            },
        },
    }
}

pub fn check_ubuntu(id: &str, version_id: Option<&str>) -> (r: Option<LinuxType>)
    ensures
        r == spec_check_ubuntu(id@, match version_id {
            Some(v) => Some(v@),
            None => None::<Seq<char>>,
        }),
{
    if str_eq(id, "ubuntu") {
        check_ubuntu_version(version_id)
    } else {
        None
    }
}

pub fn check_ubuntu_version(version_id: Option<&str>) -> (r: Option<LinuxType>)
    ensures
        r == spec_check_ubuntu("ubuntu"@, match version_id {
            Some(v) => Some(v@),
            None => None::<Seq<char>>,
        }),
{
    proof {
        reveal_strlit("ubuntu");
    }
    match version_id {
        Some(vid) => match first_segment_u8(vid) {
            Some(i) => {
                if i >= 18 {
                    Some(LinuxType::Ubuntu1804)
                } else if i >= 16 {
                    Some(LinuxType::Ubuntu1604(Architecture::X86_64))
                } else if i >= 14 {
                    Some(LinuxType::Ubuntu1404)
                } else if i >= 12 {
                    Some(LinuxType::Ubuntu1204)
                } else {
                    None
                }
            },
            None => None,
        },
        None => None,
    }
}

pub fn check_amazon(id: &str) -> (r: Option<LinuxType>)
    ensures
        r == spec_check_amazon(id@),
{
    if str_eq(id, "amzn") {
        Some(LinuxType::Amazon)
    } else {
        None
    }
}

pub fn check_rhel(id: &str, version_id: Option<&str>) -> (r: Option<LinuxType>)
    ensures
        r == spec_check_rhel(id@, match version_id {
            Some(v) => Some(v@),
            None => None::<Seq<char>>,
        }),
{
    if str_eq(id, "rhel") || str_eq(id, "centos") {
        check_rhel_version(version_id)
    } else {
        None
    }
}

pub fn check_rhel_version(version_id: Option<&str>) -> (r: Option<LinuxType>)
    ensures
        r == spec_check_rhel("rhel"@, match version_id {
            Some(v) => Some(v@),
            None => None::<Seq<char>>,
        }),
{
    proof {
        reveal_strlit("rhel");
    }
    match version_id {
        Some(vid) => match first_segment_u8(vid) {
            Some(i) => {
                if i >= 7 {
                    Some(LinuxType::Rhel7)
                } else if i >= 6 {
                    Some(LinuxType::Rhel6)
                } else {
                    None
                }
            },
            None => None,
        },
        None => None,
    }
}

pub fn check_suse(id: &str, version_id: Option<&str>) -> (r: Option<LinuxType>)
    ensures
        r == spec_check_suse(id@, match version_id {
            Some(v) => Some(v@),
            None => None::<Seq<char>>,
        }),
{
    if str_eq(id, "suse") {
        check_suse_version(version_id)
    } else {
        None
    }
}

pub fn check_suse_version(version_id: Option<&str>) -> (r: Option<LinuxType>)
    ensures
        r == spec_check_suse("suse"@, match version_id {
            Some(v) => Some(v@),
            None => None::<Seq<char>>,
        }),
{
    proof {
        reveal_strlit("suse");
    }
    match version_id {
        Some(vid) => match first_segment_u8(vid) {
            Some(i) => {
                if i >= 12 {
                    Some(LinuxType::Suse12)
                } else if i >= 11 {
                    Some(LinuxType::Suse11)
                } else {
                    None
                }
            },
            None => None,
        },
        None => None,
    }
}

pub fn check_debian(id: &str, version_id: Option<&str>) -> (r: Option<LinuxType>)
    ensures
        r == spec_check_debian(id@, match version_id {
            Some(v) => Some(v@),
            None => None::<Seq<char>>,
        }),
{
    if str_eq(id, "debian") {
        check_debian_version(version_id)
    } else {
        None
    }
}

pub fn check_debian_version(version_id: Option<&str>) -> (r: Option<LinuxType>)
    ensures
        r == spec_check_debian("debian"@, match version_id {
            Some(v) => Some(v@),
            None => None::<Seq<char>>,
        }),
{
    proof {
        reveal_strlit("debian");
    }
    match version_id {
        Some(vid) => match first_segment_u8(vid) {
            Some(i) => {
                if i == 8 {
                    Some(LinuxType::Debian8)
                } else if i == 7 {
                    Some(LinuxType::Debian7)
                } else {
                    None
                }
            },
            None => None,
        },
        None => None,
    }
}

/// The token a distribution contributes to artifact names; the legacy build
/// contributes none.
pub open spec fn linux_name_chars(t: LinuxType) -> Option<Seq<char>> {
    match t {
        LinuxType::Amazon => Some("amazon"@),
        LinuxType::Debian7 => Some("debian71"@),
        LinuxType::Debian8 => Some("debian81"@),
        LinuxType::Legacy => None,
        LinuxType::Rhel6 => Some("rhel62"@),
        LinuxType::Rhel7 => Some("rhel70"@),
        LinuxType::Suse11 => Some("suse11"@),
        LinuxType::Suse12 => Some("suse12"@),
        LinuxType::Ubuntu1204 => Some("ubuntu1204"@),
        LinuxType::Ubuntu1404 => Some("ubuntu1404"@),
        LinuxType::Ubuntu1604(_) => Some("ubuntu1604"@),
        LinuxType::Ubuntu1804 => Some("ubuntu1804"@),
    }
}

/// The artifact path elements of a Linux build: the architecture token, the
/// distribution token when there is one, and the version string.
pub open spec fn spec_linux_url_path(t: LinuxType, v: VersionView) -> Seq<Seq<char>> {
    let head = seq![arch_name_chars(spec_linux_architecture(t))];
    let mid = match linux_name_chars(t) {
        Some(n) => head.push(n),
        None => head,
    };
    mid.push(version_chars(v))
}

/// The architecture of a Linux build: only one build line carries an ARM
/// variant, everything else is x86-64.
pub open spec fn spec_linux_architecture(t: LinuxType) -> Architecture {
    match t {
        LinuxType::Ubuntu1604(arch) => arch,
        _ => Architecture::X86_64,
    }
}

impl LinuxType {
    /// Detects the distribution from the OS release fields. Fails with
    /// `UnknownOs` when the id field is absent.
    pub fn get(id: Option<&str>, version_id: Option<&str>) -> (r: Result<LinuxType, Error>)
        ensures
            match r {
                Ok(t) => id matches Some(i) && t == spec_linux_type(i@, match version_id {
                    Some(v) => Some(v@),
                    None => None::<Seq<char>>,
                }),
                Err(e) => id is None && e matches Error::UnknownOs,
            },
    {
        let id = match id {
            Some(i) => i,
            None => {
                return Err(Error::UnknownOs);
            },
        };
        if let Some(t) = check_ubuntu(id, version_id) {
            return Ok(t);
        }
        if let Some(t) = check_amazon(id) {
            return Ok(t);
        }
        if let Some(t) = check_rhel(id, version_id) {
            return Ok(t);
        }
        if let Some(t) = check_suse(id, version_id) {
            return Ok(t);
        }
        if let Some(t) = check_debian(id, version_id) {
            return Ok(t);
        }
        Ok(LinuxType::Legacy)
    }

    /// The architecture of this build.
    pub fn architecture(&self) -> (r: Architecture)
        ensures
            r == spec_linux_architecture(*self),
    {
        if let LinuxType::Ubuntu1604(arch) = *self {
            arch
        } else {
            Architecture::X86_64
        }
    }

    /// The distribution token in artifact names.
    pub fn name(&self) -> (r: Option<&'static str>)
        ensures
            match r {
                Some(n) => linux_name_chars(*self) == Some(n@),
                None => linux_name_chars(*self) is None,
            },
    {
        match *self {
            LinuxType::Amazon => Some("amazon"),
            LinuxType::Debian7 => Some("debian71"),
            LinuxType::Debian8 => Some("debian81"),
            LinuxType::Legacy => None,
            LinuxType::Rhel6 => Some("rhel62"),
            LinuxType::Rhel7 => Some("rhel70"),
            LinuxType::Suse11 => Some("suse11"),
            LinuxType::Suse12 => Some("suse12"),
            LinuxType::Ubuntu1204 => Some("ubuntu1204"),
            LinuxType::Ubuntu1404 => Some("ubuntu1404"),
            LinuxType::Ubuntu1604(_) => Some("ubuntu1604"),
            LinuxType::Ubuntu1804 => Some("ubuntu1804"),
        }
    }

    /// The artifact path elements for a release of this build.
    pub fn url_path(&self, version: &Version) -> (r: Vec<String>)
        ensures
            r.deep_view() == spec_linux_url_path(*self, version@),
    {
        let mut path: Vec<String> = Vec::new();
        path.push(self.architecture().name().to_owned());
        if let Some(name) = self.name() {
            path.push(name.to_owned());
        }
        path.push(version.version_string());
        proof {
            assert(path.deep_view() =~= spec_linux_url_path(*self, version@));
        }
        path
    }
}

} // verus!
