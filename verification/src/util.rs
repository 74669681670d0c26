//! Small shared pieces: the download file extensions, numeral reading for
//! the `major.minor` shorthand, the executable-mode test, and the character
//! set used for generated identifiers.

use vstd::prelude::*;

use crate::digits::{digits_val, is_digit, lemma_digits_val_nonneg};
use crate::error::Error;
use crate::version::{
    digit_run_end, lemma_digit_run_end, num_fits, parse_dec_range, digit_run_exec,
    spec_parse_version, Version,
};

verus! {

/// The file extension of a download artifact.
pub enum FileExtension {
    Msi,
    Tgz,
}

impl FileExtension {
    /// The extension's text.
    pub fn name(&self) -> (r: &'static str)
        ensures
            r@ == match self {
                FileExtension::Msi => "msi"@,
                FileExtension::Tgz => "tgz"@,
            },
    {
        match self {
            FileExtension::Msi => "msi",
            FileExtension::Tgz => "tgz",
        }
    }
}

/// The number a nonempty digit string denotes, when it fits the machine
/// word; `None` for any other string.
pub fn get_from_str(s: &str) -> (r: Option<u64>)
    ensures
        r == if num_fits(s@) {
            Some(digits_val(s@) as u64)
        } else {
            None::<u64>
        },
{
    let n = s.unicode_len();
    proof {
        assert(s@.subrange(0, n as int) =~= s@);
    }
    parse_dec_range(s, 0, n)
}

/// The `major.minor` shorthand: two nonempty digit runs joined by a single
/// dot, and nothing else.
pub open spec fn spec_major_minor(s: Seq<char>) -> Option<(int, int)> {
    let e1 = digit_run_end(s, 0);
    if !(0 < e1 < s.len() && s[e1] == '.') {
        None
    } else {
        let maj = s.subrange(0, e1);
        let min = s.subrange(e1 + 1, s.len() as int);
        if e1 + 1 < s.len() && digit_run_end(s, e1 + 1) == s.len() && digits_val(maj) <= u64::MAX
            && digits_val(min) <= u64::MAX {
            Some((digits_val(maj), digits_val(min)))
        } else {
            None
        }
    }
}

/// Reads a `major.minor` shorthand specifier. Returns the two components, or
/// `None` when the string is not of that shape or a component does not fit.
pub fn parse_major_minor_version(version: &str) -> (r: Option<(u64, u64)>)
    ensures
        match r {
            Some((maj, min)) => spec_major_minor(version@) == Some((maj as int, min as int)),
            None => spec_major_minor(version@) is None,
        },
{
    let n = version.unicode_len();
    let e1 = digit_run_exec(version, 0);
    proof {
        lemma_digit_run_end(version@, 0);
    }
    if e1 == 0 || e1 >= n || version.get_char(e1) != '.' {
        return None;
    }
    let ghost maj = version@.subrange(0, e1 as int);
    let ghost min = version@.subrange(e1 as int + 1, n as int);
    if e1 + 1 >= n {
        return None;
    }
    let e2 = digit_run_exec(version, e1 + 1);
    proof {
        lemma_digit_run_end(version@, e1 as int + 1);
    }
    if e2 != n {
        return None;
    }
    proof {
        assert(forall|j: int| 0 <= j < maj.len() ==> is_digit(#[trigger] maj[j]));
        assert(forall|j: int| 0 <= j < min.len() ==> is_digit(#[trigger] min[j]));
    }
    let major = match parse_dec_range(version, 0, e1) {
        Some(v) => v,
        None => {
            return None;
        },
    };
    let minor = match parse_dec_range(version, e1 + 1, n) {
        Some(v) => v,
        None => {
            return None;
        },
    };
    proof {
        lemma_digits_val_nonneg(maj);
        lemma_digits_val_nonneg(min);
    }
    Some((major, minor))
}

/// Parses an exact version specifier, mapping a string outside the version
/// grammar to `VersionNotFound`.
pub fn parse_version(version: &str) -> (r: Result<Version, Error>)
    ensures
        match r {
            Ok(v) => spec_parse_version(version@) == Some(v@),
            Err(e) => spec_parse_version(version@) is None && (e matches Error::VersionNotFound {
                version: w,
            } && w@ == version@),
        },
{
    match Version::parse(version) {
        Some(v) => Ok(v),
        None => Err(Error::VersionNotFound { version: version.to_owned() }),
    }
}

/// The mode bits that must all be set for a file to count as executable.
pub const EXECUTABLE_BITS: u32 = 0b0_0100_1001;

/// True when a file mode carries all the executable bits.
pub fn is_executable(mode: u32) -> (r: bool)
    ensures
        r == (mode & EXECUTABLE_BITS == EXECUTABLE_BITS),
{
    mode & EXECUTABLE_BITS == EXECUTABLE_BITS
}

/// The characters from which generated identifiers draw: the digits below 9,
/// and the upper- and lowercase letters below Z and z.
pub fn alpha_numeric() -> (r: Vec<char>)
    ensures
        r@.len() == 59,
        forall|i: int| 0 <= i < 9 ==> (#[trigger] r@[i]) as u32 == 48 + i,
        forall|i: int| 9 <= i < 34 ==> (#[trigger] r@[i]) as u32 == 65 + (i - 9),
        forall|i: int| 34 <= i < 59 ==> (#[trigger] r@[i]) as u32 == 97 + (i - 34),
{
    let mut out: Vec<char> = Vec::new();
    let mut u: u8 = 48;
    while u < 57
        invariant
            48 <= u <= 57,
            out@.len() == u - 48,
            forall|i: int| 0 <= i < out@.len() ==> (#[trigger] out@[i]) as u32 == 48 + i,
        decreases 57 - u,
    {
        out.push(u as char);
        u = u + 1;
    }
    let mut u: u8 = 65;
    while u < 90
        invariant
            65 <= u <= 90,
            out@.len() == 9 + u - 65,
            forall|i: int| 0 <= i < 9 ==> (#[trigger] out@[i]) as u32 == 48 + i,
            forall|i: int| 9 <= i < out@.len() ==> (#[trigger] out@[i]) as u32 == 65 + (i - 9),
        decreases 90 - u,
    {
        out.push(u as char);
        u = u + 1;
    }
    let mut u: u8 = 97;
    while u < 122
        invariant
            97 <= u <= 122,
            out@.len() == 34 + u - 97,
            forall|i: int| 0 <= i < 9 ==> (#[trigger] out@[i]) as u32 == 48 + i,
            forall|i: int| 9 <= i < 34 ==> (#[trigger] out@[i]) as u32 == 65 + (i - 9),
            forall|i: int| 34 <= i < out@.len() ==> (#[trigger] out@[i]) as u32 == 97 + (i - 34),
        decreases 122 - u,
    {
        out.push(u as char);
        u = u + 1;
    }
    out
}

} // verus!
