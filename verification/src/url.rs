//! Building a download target: the remote URL, the downloaded file's name,
//! and the expected top-level directory name inside the archive. The three
//! differ across release eras: the desktop OS token changes case in the
//! directory name for a bounded release range, and changes in both the
//! filename and directory name from a later release on; the `ssl` marker
//! appears in the filename but never in the directory name.

use vstd::prelude::*;

use crate::version::{
    join_idents, push_joined_with, str_eq, version_lt, Version,
    VersionView,
};

verus! {

/// The first release whose archive directory name uses the alternate-cased
/// desktop OS token.
pub open spec fn first_macos_name_version() -> VersionView {
    VersionView { major: 3, minor: 5, patch: 4, pre: Seq::empty(), build: Seq::empty() }
}

/// The first release past the directory-name switch range.
pub open spec fn last_macos_name_version() -> VersionView {
    VersionView { major: 3, minor: 6, patch: 0, pre: Seq::empty(), build: Seq::empty() }
}

/// The first release whose remote filename and directory name both use the
/// new desktop OS token.
pub open spec fn new_macos_url_version() -> VersionView {
    VersionView { major: 4, minor: 1, patch: 1, pre: Seq::empty(), build: Seq::empty() }
}

/// The directory name uses the alternate-cased desktop OS token exactly for
/// releases in the bounded switch range.
pub open spec fn spec_name_uses_macos(v: VersionView) -> bool {
    !version_lt(v, first_macos_name_version()) && version_lt(v, last_macos_name_version())
}

/// The remote filename (and directory name) use the new desktop OS token
/// from the later threshold on.
pub open spec fn spec_url_uses_macos(v: VersionView) -> bool {
    !version_lt(v, new_macos_url_version())
}

/// True when the release falls in the directory-name switch range.
pub fn name_uses_macos(version: &Version) -> (r: bool)
    ensures
        r == spec_name_uses_macos(version@),
{
    let first = Version::new(3, 5, 4);
    let last = Version::new(3, 6, 0);
    proof {
        assert(first@ =~= first_macos_name_version());
        assert(last@ =~= last_macos_name_version());
    }
    !version.precedes(&first) && version.precedes(&last)
}

/// True when the release is at or past the filename-affecting threshold.
pub fn url_uses_macos(version: &Version) -> (r: bool)
    ensures
        r == spec_url_uses_macos(version@),
{
    let new = Version::new(4, 1, 1);
    proof {
        assert(new@ =~= new_macos_url_version());
    }
    !version.precedes(&new)
}

/// A resolved download target.
pub struct Url {
    base: String,
    filename: String,
    dirname: String,
}

/// The mathematical value of a download target.
pub ghost struct UrlView {
    pub base: Seq<char>,
    pub filename: Seq<char>,
    pub dirname: Seq<char>,
}

impl View for Url {
    type V = UrlView;

    closed spec fn view(&self) -> UrlView {
        UrlView { base: self.base@, filename: self.filename@, dirname: self.dirname@ }
    }
}

impl Url {
    /// The name of the downloaded file.
    pub fn filename(&self) -> (r: String)
        ensures
            r@ == self@.filename,
    {
        self.filename.clone()
    }

    /// The expected top-level directory name inside the archive.
    pub fn dirname(&self) -> (r: String)
        ensures
            r@ == self@.dirname,
    {
        self.dirname.clone()
    }

    /// The full URL: the base followed by the filename.
    pub fn url_string(&self) -> (r: String)
        ensures
            r@ == self@.base + seq!['/'] + self@.filename,
    {
        proof {
            reveal_strlit("/");
        }
        let mut out = self.base.clone();
        out.append("/");
        out.append(self.filename.as_str());
        proof {
            assert(out@ =~= self@.base + seq!['/'] + self@.filename);
        }
        out
    }
}

/// The path elements as the filename uses them: at or past the later
/// threshold, a leading `mongodb, osx, ssl` triple is replaced by
/// `mongodb, macos`.
pub open spec fn effective_items(items: Seq<Seq<char>>, macos_url: bool) -> Seq<Seq<char>> {
    if macos_url && items.len() >= 3 && items[1] == "osx"@ && items[2] == "ssl"@ {
        seq!["mongodb"@, "macos"@] + items.skip(3)
    } else {
        items
    }
}

/// The directory-name contribution of one path element: the `ssl` marker is
/// dropped, and the `osx` token is replaced in the switch range.
pub open spec fn dirname_item(item: Seq<char>, macos_name: bool) -> Seq<Seq<char>> {
    if item == "ssl"@ {
        Seq::empty()
    } else if item == "osx"@ && macos_name {
        seq!["macOS"@]
    } else {
        seq![item]
    }
}

/// The path elements as the directory name uses them.
pub open spec fn dirname_items(items: Seq<Seq<char>>, macos_name: bool) -> Seq<Seq<char>>
    decreases items.len(),
{
    if items.len() == 0 {
        Seq::empty()
    } else {
        dirname_item(items[0], macos_name) + dirname_items(items.drop_first(), macos_name)
    }
}

/// Appending one element extends the directory-name elements by that
/// element's contribution.
proof fn lemma_dirname_items_snoc(items: Seq<Seq<char>>, x: Seq<char>, macos_name: bool)
    ensures
        dirname_items(items.push(x), macos_name) == dirname_items(items, macos_name) + dirname_item(
            x,
            macos_name,
        ),
    decreases items.len(),
{
    if items.len() == 0 {
        let p = items.push(x);
        assert(p[0] == x);
        assert(p.drop_first() =~= Seq::<Seq<char>>::empty());
        assert(dirname_items(p.drop_first(), macos_name) =~= Seq::<Seq<char>>::empty());
        assert(dirname_items(p, macos_name) =~= dirname_item(x, macos_name));
        assert(dirname_items(items, macos_name) + dirname_item(x, macos_name) =~= dirname_item(
            x,
            macos_name,
        ));
    } else {
        let p = items.push(x);
        assert(p[0] == items[0]);
        assert(p.drop_first() =~= items.drop_first().push(x));
        lemma_dirname_items_snoc(items.drop_first(), x, macos_name);
        assert(dirname_items(p, macos_name) =~= dirname_items(items, macos_name) + dirname_item(
            x,
            macos_name,
        ));
    }
}

/// The base of every download URL for a given OS token.
pub open spec fn spec_url_base(os: Seq<char>) -> Seq<char> {
    "https"@ + "://"@ + "fastdl.mongodb.org"@ + seq!['/'] + os
}

/// The downloaded file's name: the effective path elements joined with `-`,
/// then a dot and the extension.
pub open spec fn spec_url_filename(items: Seq<Seq<char>>, ext: Seq<char>, v: VersionView) -> Seq<
    char,
> {
    join_idents(effective_items(items, spec_url_uses_macos(v)), '-') + seq!['.'] + ext
}

/// The archive's top-level directory name: the effective path elements,
/// with the `ssl` marker dropped and the desktop OS token mapped through the
/// switch range, joined with `-`.
pub open spec fn spec_url_dirname(items: Seq<Seq<char>>, v: VersionView) -> Seq<char> {
    join_idents(
        dirname_items(effective_items(items, spec_url_uses_macos(v)), spec_name_uses_macos(v)),
        '-',
    )
}

/// Accumulates a download target from its path elements.
pub struct UrlBuilder {
    os: String,
    distro: Vec<String>,
    extension: String,
    version: Version,
}

/// The mathematical value of a builder.
pub ghost struct UrlBuilderView {
    pub os: Seq<char>,
    pub distro: Seq<Seq<char>>,
    pub extension: Seq<char>,
    pub version: VersionView,
}

impl View for UrlBuilder {
    type V = UrlBuilderView;

    closed spec fn view(&self) -> UrlBuilderView {
        UrlBuilderView {
            os: self.os@,
            distro: self.distro.deep_view(),
            extension: self.extension@,
            version: self.version@,
        }
    }
}

impl UrlBuilder {
    /// A builder with no path elements yet.
    pub fn new(os: &str, extension: &str, version: Version) -> (r: UrlBuilder)
        ensures
            r@.os == os@,
            r@.distro == Seq::<Seq<char>>::empty(),
            r@.extension == extension@,
            r@.version == version@,
    {
        let r = UrlBuilder {
            os: os.to_owned(),
            distro: Vec::new(),
            extension: extension.to_owned(),
            version,
        };
        proof {
            assert(r@.distro =~= Seq::<Seq<char>>::empty());
        }
        r
    }

    /// Appends one path element.
    pub fn add_distro_path_item(&mut self, item: String)
        ensures
            final(self)@.distro == old(self)@.distro.push(item@),
            final(self)@.os == old(self)@.os,
            final(self)@.extension == old(self)@.extension,
            final(self)@.version == old(self)@.version,
    {
        self.distro.push(item);
        proof {
            assert(self.distro.deep_view() =~= old(self).distro.deep_view().push(item@));
        }
    }

    /// Produces the download target: base URL, filename, and archive
    /// directory name for the accumulated elements.
    pub fn build(self) -> (r: Url)
        ensures
            r@.base == spec_url_base(self@.os),
            r@.filename == spec_url_filename(self@.distro, self@.extension, self@.version),
            r@.dirname == spec_url_dirname(self@.distro, self@.version),
    {
        let ghost orig = self@.distro;
        let macos_url = url_uses_macos(&self.version);
        let macos_name = name_uses_macos(&self.version);
        let mut items = self.distro;
        if macos_url && items.len() >= 3 && str_eq(items[1].as_str(), "osx") && str_eq(
            items[2].as_str(),
            "ssl",
        ) {
            let mut replacement: Vec<String> = Vec::new();
            replacement.push("mongodb".to_owned());
            replacement.push("macos".to_owned());
            let mut k: usize = 3;
            while k < items.len()
                invariant
                    3 <= k <= items.len(),
                    items.deep_view() == orig,
                    replacement.deep_view() =~= seq!["mongodb"@, "macos"@] + orig.subrange(
                        3,
                        k as int,
                    ),
                decreases items.len() - k,
            {
                let ghost before = replacement.deep_view();
                replacement.push(items[k].clone());
                proof {
                    assert(replacement.deep_view() =~= before.push(orig[k as int]));
                    assert(replacement.deep_view() =~= seq!["mongodb"@, "macos"@] + orig.subrange(
                        3,
                        k as int + 1,
                    ));
                }
                k = k + 1;
            }
            items = replacement;
            proof {
                assert(orig.subrange(3, orig.len() as int) =~= orig.skip(3));
                assert(items.deep_view() =~= effective_items(orig, spec_url_uses_macos(self@.version)));
            }
        } else {
            proof {
                assert(items.deep_view() == effective_items(
                    orig,
                    spec_url_uses_macos(self@.version),
                ));
            }
        }
        let ghost eff = effective_items(orig, spec_url_uses_macos(self@.version));

        // The remote filename: all effective elements, joined with `-`.
        proof {
            reveal_strlit(".");
            reveal_strlit("-");
        }
        let mut filename = String::new();
        if items.len() > 0 {
            push_joined_with(&mut filename, &items, 0, "-");
            proof {
                assert(items.deep_view().skip(0) =~= eff);
            }
        }
        filename.append(".");
        filename.append(self.extension.as_str());
        proof {
            if eff.len() == 0 {
                assert(join_idents(eff, '-') =~= Seq::<char>::empty());
            }
            assert(filename@ =~= spec_url_filename(orig, self@.extension, self@.version));
        }

        // The archive directory name: the `ssl` marker dropped and the
        // desktop OS token mapped, then joined with `-`.
        let mut dir_items: Vec<String> = Vec::new();
        let mut k: usize = 0;
        proof {
            assert(items.deep_view().take(0) =~= Seq::<Seq<char>>::empty());
            assert(dir_items.deep_view() =~= dirname_items(
                items.deep_view().take(0),
                spec_name_uses_macos(self@.version),
            ));
        }
        while k < items.len()
            invariant
                0 <= k <= items.len(),
                items.deep_view() == eff,
                macos_name == spec_name_uses_macos(self@.version),
                dir_items.deep_view() =~= dirname_items(
                    eff.take(k as int),
                    spec_name_uses_macos(self@.version),
                ),
            decreases items.len() - k,
        {
            let ghost before = dir_items.deep_view();
            let item = &items[k];
            if str_eq(item.as_str(), "ssl") {
                // dropped from the directory name
            } else if macos_name && str_eq(item.as_str(), "osx") {
                dir_items.push("macOS".to_owned());
                proof {
                    assert(dir_items.deep_view() =~= before.push("macOS"@));
                }
            } else {
                dir_items.push(item.clone());
                proof {
                    assert(dir_items.deep_view() =~= before.push(eff[k as int]));
                }
            }
            proof {
                assert(eff.take(k as int + 1) =~= eff.take(k as int).push(eff[k as int]));
                lemma_dirname_items_snoc(
                    eff.take(k as int),
                    eff[k as int],
                    spec_name_uses_macos(self@.version),
                );
                assert(dir_items.deep_view() =~= dirname_items(
                    eff.take(k as int + 1),
                    spec_name_uses_macos(self@.version),
                ));
            }
            k = k + 1;
        }
        proof {
            assert(eff.take(eff.len() as int) =~= eff);
        }
        let mut dirname = String::new();
        if dir_items.len() > 0 {
            push_joined_with(&mut dirname, &dir_items, 0, "-");
            proof {
                assert(dir_items.deep_view().skip(0) =~= dir_items.deep_view());
            }
        }
        proof {
            if dirname_items(eff, spec_name_uses_macos(self@.version)).len() == 0 {
                assert(join_idents(
                    dirname_items(eff, spec_name_uses_macos(self@.version)),
                    '-',
                ) =~= Seq::<char>::empty());
            }
            assert(dirname@ =~= spec_url_dirname(orig, self@.version));
        }

        // The URL base for the OS.
        let mut base = String::new();
        base.append("https");
        base.append("://");
        base.append("fastdl.mongodb.org");
        proof {
            reveal_strlit("/");
        }
        base.append("/");
        base.append(self.os.as_str());
        proof {
            assert(base@ =~= spec_url_base(self@.os));
        }

        Url { base, filename, dirname }
    }
}

} // verus!
