//! The remote version catalog: a listing page's entries are filtered to
//! those matching the source-tarball naming pattern, the embedded versions
//! are read, and the latest stable release is found with an early cutoff.
//!
//! At most one development line is active at a time, so the newest stable
//! release is never more than one minor version behind the newest
//! development release: the scan stops as soon as a tracked development
//! release sits exactly one minor version above the tracked stable one.

use soup::NodeExt;
use soup::QueryBuilderExt;
use vstd::prelude::*;

use crate::digits::{dec_repr, is_digit};
use crate::error::Error;
use crate::version::{
    spec_is_plain, spec_parse_version, str_eq, version_lt, Version, VersionView,
};

verus! {

/// The remote listing of source tarballs.
pub const MONGODB_VERSION_LIST_URL: &'static str = "https://dl.mongodb.org/dl/src";

/// The href attributes of the anchor elements of an HTML page, in document
/// order; those without an href attribute are absent.
pub uninterp spec fn anchor_hrefs_of(html: Seq<char>) -> Seq<Seq<char>>;

/// Relies on soup: `Soup::new` parses the HTML page, the `a`-tag query walks
/// the anchor elements in document order, and `get` reads an element's
/// `href` attribute. The result is a function of the page text alone.
#[verifier::external_body]
fn anchor_hrefs(html: &str) -> (r: Vec<String>)
    ensures
        r.deep_view() == anchor_hrefs_of(html@),
{
    let mut out = Vec::new();
    for node in soup::Soup::new(html).tag("a").find_all() {
        if let Some(href) = node.get("href") {
            out.push(href);
        }
    }
    out
}

/// The start of the maximal run of digit-or-dot characters ending at `from`.
pub open spec fn digit_dot_run_start(s: Seq<char>, from: int) -> int
    decreases from,
{
    if from <= 0 || from > s.len() {
        0
    } else if is_digit(s[from - 1]) || s[from - 1] == '.' {
        digit_dot_run_start(s, from - 1)
    } else {
        from
    }
}

proof fn lemma_digit_dot_run_start(s: Seq<char>, from: int)
    requires
        0 <= from <= s.len(),
    ensures
        0 <= digit_dot_run_start(s, from) <= from,
        forall|j: int|
            digit_dot_run_start(s, from) <= j < from ==> is_digit(#[trigger] s[j]) || s[j] == '.',
        digit_dot_run_start(s, from) > 0 ==> !(is_digit(s[digit_dot_run_start(s, from) - 1]) || s[
            digit_dot_run_start(s, from) - 1
        ] == '.'),
    decreases from,
{
    if from > 0 && (is_digit(s[from - 1]) || s[from - 1] == '.') {
        lemma_digit_dot_run_start(s, from - 1);
    }
}

/// The version a source-tarball listing entry carries: the entry ends with
/// `src/mongodb-src-r`, a plain canonical version, and `.tar.gz`; any other
/// entry carries none.
pub open spec fn spec_tarball_version(s: Seq<char>) -> Option<VersionView> {
    let suffix = ".tar.gz"@;
    let marker = "src/mongodb-src-r"@;
    if s.len() < suffix.len() + marker.len() || s.skip(s.len() - suffix.len()) != suffix {
        None
    } else {
        let t_end = s.len() - suffix.len();
        let vstart = digit_dot_run_start(s, t_end);
        if vstart < marker.len() || s.subrange(vstart - marker.len(), vstart) != marker {
            None
        } else {
            match spec_parse_version(s.subrange(vstart, t_end)) {
                Some(v) => if spec_is_plain(v) {
                    Some(v)
                } else {
                    None
                },
                None => None,
            }
        }
    }
}

/// Reads the version out of one listing entry, when the entry matches the
/// source-tarball naming pattern.
pub fn tarball_version(entry: &str) -> (r: Option<Version>)
    ensures
        match r {
            Some(v) => spec_tarball_version(entry@) == Some(v@),
            None => spec_tarball_version(entry@) is None,
        },
{
    proof {
        reveal_strlit(".tar.gz");
        reveal_strlit("src/mongodb-src-r");
    }
    let n = entry.unicode_len();
    if n < 24 {
        return None;
    }
    let tail = entry.substring_char(n - 7, n);
    if !str_eq(tail, ".tar.gz") {
        return None;
    }
    let t_end = n - 7;
    proof {
        lemma_digit_dot_run_start(entry@, t_end as int);
    }
    let mut vstart = t_end;
    loop
        invariant_except_break
            0 <= vstart <= t_end,
            t_end as int <= entry@.len(),
            digit_dot_run_start(entry@, t_end as int) == digit_dot_run_start(
                entry@,
                vstart as int,
            ),
        ensures
            0 <= vstart <= t_end,
            t_end as int <= entry@.len(),
            digit_dot_run_start(entry@, t_end as int) == vstart as int,
        decreases vstart,
    {
        if vstart == 0 {
            break;
        }
        let c = entry.get_char(vstart - 1);
        if !crate::version::digit_or_dot(c) {
            break;
        }
        vstart = vstart - 1;
    }
    if vstart < 17 {
        return None;
    }
    let head = entry.substring_char(vstart - 17, vstart);
    if !str_eq(head, "src/mongodb-src-r") {
        return None;
    }
    let vpart = entry.substring_char(vstart, t_end);
    match Version::parse(vpart) {
        Some(v) => {
            if v.is_plain() {
                Some(v)
            } else {
                None
            }
        },
        None => None,
    }
}

/// The view of an optional version.
pub open spec fn opt_version_view(o: Option<Version>) -> Option<VersionView> {
    match o {
        Some(v) => Some(v@),
        None => None,
    }
}

/// The releases the listing entries carry, in listing order.
pub open spec fn catalog_versions(entries: Seq<Seq<char>>) -> Seq<VersionView>
    decreases entries.len(),
{
    if entries.len() == 0 {
        Seq::empty()
    } else {
        (match spec_tarball_version(entries[0]) {
            Some(v) => seq![v],
            None => Seq::empty(),
        }) + catalog_versions(entries.drop_first())
    }
}

/// The version to keep of an already-selected one and a newly found one.
pub open spec fn spec_select_newer(existing: Option<VersionView>, found: VersionView) -> VersionView {
    match existing {
        Some(e) => if version_lt(found, e) {
            e
        } else {
            found
        },
        None => found,
    }
}

/// The latest-stable scan: walk the releases in listing order, tracking the
/// newest stable release and the most recent development release; stop with
/// the tracked stable release as soon as the tracked development release is
/// exactly one minor version above it, else finish with the newest stable
/// release seen, if any.
pub open spec fn spec_latest_scan(
    vs: Seq<VersionView>,
    stable: Option<VersionView>,
    dev: Option<VersionView>,
) -> Option<VersionView>
    decreases vs.len(),
{
    if vs.len() == 0 {
        stable
    } else {
        let v = vs[0];
        let stable2 = if v.minor % 2 == 0 {
            Some(spec_select_newer(stable, v))
        } else {
            stable
        };
        let dev2 = if v.minor % 2 == 0 {
            dev
        } else {
            Some(v)
        };
        if stable2 matches Some(s) && dev2 matches Some(d) && d.major == s.major && d.minor
            == s.minor + 1 {
            stable2
        } else {
            spec_latest_scan(vs.drop_first(), stable2, dev2)
        }
    }
}

/// Extracts the releases from the listing entries.
fn extract_catalog_versions(entries: &Vec<String>) -> (r: Vec<Version>)
    ensures
        r@.map_values(|v: Version| v@) =~= catalog_versions(entries.deep_view()),
{
    let mut out: Vec<Version> = Vec::new();
    let mut i: usize = 0;
    proof {
        assert(entries.deep_view().skip(0) =~= entries.deep_view());
        assert(out@.map_values(|v: Version| v@) =~= Seq::<VersionView>::empty());
    }
    while i < entries.len()
        invariant
            0 <= i <= entries.len(),
            catalog_versions(entries.deep_view()) =~= out@.map_values(|v: Version| v@)
                + catalog_versions(entries.deep_view().skip(i as int)),
        decreases entries.len() - i,
    {
        proof {
            assert(entries.deep_view().skip(i as int)[0] == entries.deep_view()[i as int]);
            assert(entries.deep_view().skip(i as int).drop_first() =~= entries.deep_view().skip(
                i as int + 1,
            ));
        }
        let ghost before = out@.map_values(|v: Version| v@);
        if let Some(v) = tarball_version(entries[i].as_str()) {
            out.push(v);
            proof {
                assert(out@.map_values(|v: Version| v@) =~= before.push(
                    spec_tarball_version(entries.deep_view()[i as int])->Some_0,
                ));
            }
        }
        i = i + 1;
    }
    proof {
        assert(catalog_versions(entries.deep_view().skip(entries.len() as int))
            =~= Seq::<VersionView>::empty());
    }
    out
}

/// Finds the latest stable release in a catalog listing page, scanning with
/// the early cutoff. Fails with `InvalidHtml` when the page yields no stable
/// release at all.
pub fn find_latest_mongodb_version(html: &str, url: &str) -> (r: Result<Version, Error>)
    ensures
        match r {
            Ok(v) => spec_latest_scan(catalog_versions(anchor_hrefs_of(html@)), None, None)
                == Some(v@),
            Err(e) => spec_latest_scan(catalog_versions(anchor_hrefs_of(html@)), None, None)
                is None && (e matches Error::InvalidHtml { url: u } && u@ == url@),
        },
{
    let hrefs = anchor_hrefs(html);
    let versions = extract_catalog_versions(&hrefs);
    let ghost vs = catalog_versions(anchor_hrefs_of(html@));
    let mut newest_stable: Option<Version> = None;
    let mut newest_dev: Option<Version> = None;
    let mut i: usize = 0;
    proof {
        assert(vs.skip(0) =~= vs);
    }
    while i < versions.len()
        invariant
            0 <= i <= versions.len(),
            vs == catalog_versions(anchor_hrefs_of(html@)),
            versions@.map_values(|v: Version| v@) =~= vs,
            spec_latest_scan(vs, None, None) == spec_latest_scan(
                vs.skip(i as int),
                opt_version_view(newest_stable),
                opt_version_view(newest_dev),
            ),
        decreases versions.len() - i,
    {
        let v = versions[i].duplicate();
        let ghost prev_stable = opt_version_view(newest_stable);
        let ghost prev_dev = opt_version_view(newest_dev);
        proof {
            assert(vs.skip(i as int)[0] == v@);
            assert(vs.skip(i as int).drop_first() =~= vs.skip(i as int + 1));
        }
        if v.minor % 2 == 0 {
            let cur = newest_stable;
            newest_stable = Some(crate::version::select_newer_version(cur, v));
        } else {
            newest_dev = Some(v);
        }
        let ghost stable2 = opt_version_view(newest_stable);
        let ghost dev2 = opt_version_view(newest_dev);
        proof {
            assert(stable2 == if v@.minor % 2 == 0 {
                Some(spec_select_newer(prev_stable, v@))
            } else {
                prev_stable
            });
            assert(dev2 == if v@.minor % 2 == 0 {
                prev_dev
            } else {
                Some(v@)
            });
            assert(spec_latest_scan(vs.skip(i as int), prev_stable, prev_dev) == (
            if stable2 matches Some(s) && dev2 matches Some(d) && d.major == s.major && d.minor
                == s.minor + 1 {
                stable2
            } else {
                spec_latest_scan(vs.skip(i as int + 1), stable2, dev2)
            }));
        }
        let mut stop = false;
        if let Some(s) = &newest_stable {
            if let Some(d) = &newest_dev {
                stop = d.major == s.major && s.minor < u64::MAX && d.minor == s.minor + 1;
            }
        }
        if stop {
            proof {
                assert(spec_latest_scan(vs, None, None) == stable2);
            }
            return Ok(
                match newest_stable {
                    Some(s2) => s2,
                    None => {
                        proof {
                            assert(false);
                        }
                        Version::new(0, 0, 0)
                    },
                },
            );
        }
        i = i + 1;
    }
    proof {
        assert(vs.skip(versions.len() as int) =~= Seq::<VersionView>::empty());
    }
    match newest_stable {
        Some(s) => Ok(s),
        None => Err(Error::InvalidHtml { url: url.to_owned() }),
    }
}

/// The first release in a catalog listing with the given major and minor
/// components, in listing order.
pub open spec fn spec_first_matching(vs: Seq<VersionView>, major: int, minor: int) -> Option<
    VersionView,
>
    decreases vs.len(),
{
    if vs.len() == 0 {
        None
    } else if vs[0].major == major && vs[0].minor == minor {
        Some(vs[0])
    } else {
        spec_first_matching(vs.drop_first(), major, minor)
    }
}

/// Finds the newest release of a `major.minor` line in a catalog listing
/// page; the listing runs newest first, so the first match wins. Fails with
/// `VersionNotFound` naming the line when the catalog has none.
pub fn find_latest_matching_version(html: &str, major: u64, minor: u64) -> (r: Result<
    Version,
    Error,
>)
    ensures
        match r {
            Ok(v) => spec_first_matching(
                catalog_versions(anchor_hrefs_of(html@)),
                major as int,
                minor as int,
            ) == Some(v@),
            Err(e) => spec_first_matching(
                catalog_versions(anchor_hrefs_of(html@)),
                major as int,
                minor as int,
            ) is None && (e matches Error::VersionNotFound { version: w } && w@ == dec_repr(
                major as int,
            ) + seq!['.'] + dec_repr(minor as int)),
        },
{
    let hrefs = anchor_hrefs(html);
    let versions = extract_catalog_versions(&hrefs);
    let ghost vs = catalog_versions(anchor_hrefs_of(html@));
    let mut i: usize = 0;
    proof {
        assert(vs.skip(0) =~= vs);
    }
    while i < versions.len()
        invariant
            0 <= i <= versions.len(),
            vs == catalog_versions(anchor_hrefs_of(html@)),
            versions@.map_values(|v: Version| v@) =~= vs,
            spec_first_matching(vs, major as int, minor as int) == spec_first_matching(
                vs.skip(i as int),
                major as int,
                minor as int,
            ),
        decreases versions.len() - i,
    {
        proof {
            assert(vs.skip(i as int)[0] == versions@.map_values(|v: Version| v@)[i as int]);
            assert(vs.skip(i as int).drop_first() =~= vs.skip(i as int + 1));
        }
        if versions[i].major == major && versions[i].minor == minor {
            let v = versions[i].duplicate();
            proof {
                assert(vs.skip(i as int)[0] == v@);
                assert(spec_first_matching(vs.skip(i as int), major as int, minor as int)
                    == Some(v@));
            }
            return Ok(v);
        }
        i = i + 1;
    }
    proof {
        assert(vs.skip(versions.len() as int) =~= Seq::<VersionView>::empty());
    }
    proof {
        reveal_strlit(".");
    }
    let mut w = crate::digits::dec_string(major);
    w.append(".");
    crate::digits::push_dec(&mut w, minor);
    proof {
        assert(w@ =~= dec_repr(major as int) + seq!['.'] + dec_repr(minor as int));
    }
    Err(Error::VersionNotFound { version: w })
}

} // verus!
