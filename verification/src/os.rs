//! The supported operating systems: detection from host metadata, the named
//! OS table, and the download target for a release.

use vstd::prelude::*;

use crate::arch::Architecture;
use crate::digits::{dec_repr, is_digit, lemma_dec_repr_canon};
use crate::error::Error;
use crate::linux::{spec_linux_type, spec_linux_url_path, LinuxType};
use crate::macos::{spec_macos_url_path, MacOsType};
use crate::url::{
    dirname_item, dirname_items, effective_items, spec_name_uses_macos, spec_url_base,
    spec_url_dirname, spec_url_filename, spec_url_uses_macos, Url, UrlBuilder,
};
use crate::util::FileExtension;
use crate::version::{
    join_idents, str_eq, valid_version, version_chars, Version, VersionView,
};
use crate::windows::{spec_windows_url_path, WindowsType};

verus! {

/// A supported operating system family with its build variant.
#[derive(Clone, Copy, Debug, PartialEq, Eq, Structural)]
pub enum OperatingSystem {
    Linux(LinuxType),
    MacOs(MacOsType),
    Windows(WindowsType),
}

/// The view of an optional string.
pub open spec fn opt_str_view(o: Option<&str>) -> Option<Seq<char>> {
    match o {
        Some(s) => Some(s@),
        None => None,
    }
}

/// The OS family token in artifact names and URL paths.
pub open spec fn os_name_chars(os: OperatingSystem) -> Seq<char> {
    match os {
        OperatingSystem::Linux(_) => "linux"@,
        OperatingSystem::MacOs(_) => "osx"@,
        OperatingSystem::Windows(_) => "win32"@,
    }
}

/// The named OS table: the tag each downloadable build goes by.
pub open spec fn spec_os_from_name(s: Seq<char>) -> Option<OperatingSystem> {
    if s == "amazon"@ {
        Some(OperatingSystem::Linux(LinuxType::Amazon))
    } else if s == "debian71"@ {
        Some(OperatingSystem::Linux(LinuxType::Debian7))
    } else if s == "debian81"@ {
        Some(OperatingSystem::Linux(LinuxType::Debian8))
    } else if s == "legacy"@ {
        Some(OperatingSystem::Linux(LinuxType::Legacy))
    } else if s == "osx"@ {
        Some(OperatingSystem::MacOs(MacOsType::Ssl))
    } else if s == "osx-nossl"@ {
        Some(OperatingSystem::MacOs(MacOsType::NonSsl))
    } else if s == "rhel62"@ {
        Some(OperatingSystem::Linux(LinuxType::Rhel6))
    } else if s == "rhel70"@ {
        Some(OperatingSystem::Linux(LinuxType::Rhel7))
    } else if s == "suse11"@ {
        Some(OperatingSystem::Linux(LinuxType::Suse11))
    } else if s == "suse12"@ {
        Some(OperatingSystem::Linux(LinuxType::Suse12))
    } else if s == "ubuntu1204"@ {
        Some(OperatingSystem::Linux(LinuxType::Ubuntu1204))
    } else if s == "ubuntu1404"@ {
        Some(OperatingSystem::Linux(LinuxType::Ubuntu1404))
    } else if s == "ubuntu1604"@ {
        Some(OperatingSystem::Linux(LinuxType::Ubuntu1604(Architecture::X86_64)))
    } else if s == "ubuntu1604-arm"@ {
        Some(OperatingSystem::Linux(LinuxType::Ubuntu1604(Architecture::Arm)))
    } else if s == "ubuntu1804"@ {
        Some(OperatingSystem::Linux(LinuxType::Ubuntu1804))
    } else {
        None
    }
}

/// The full element list of a download target: the fixed product token, the
/// OS family token, and the variant's own path elements.
pub open spec fn spec_download_items(os: OperatingSystem, v: VersionView) -> Seq<Seq<char>> {
    seq!["mongodb"@, os_name_chars(os)] + (match os {
        OperatingSystem::Linux(t) => spec_linux_url_path(t, v),
        OperatingSystem::MacOs(t) => spec_macos_url_path(t, v),
        OperatingSystem::Windows(t) => spec_windows_url_path(t, v),
    })
}

/// The extension of a download artifact for the OS.
pub open spec fn spec_extension(os: OperatingSystem) -> FileExtension {
    match os {
        OperatingSystem::Linux(_) | OperatingSystem::MacOs(_) => FileExtension::Tgz,
        OperatingSystem::Windows(_) => FileExtension::Msi,
    }
}

impl OperatingSystem {
    /// The OS for a download, from the host's OS name, the Linux OS release
    /// fields when on Linux, and the target release. On the desktop OS,
    /// releases before the third major version take the build without the
    /// SSL library link. Windows downloads are not supported.
    pub fn get(
        os_name: &str,
        os_release_id: Option<&str>,
        os_release_version_id: Option<&str>,
        version: &Version,
    ) -> (r: Result<OperatingSystem, Error>)
        ensures
            match r {
                Ok(os) => if os_name@ == "linux"@ {
                    os_release_id matches Some(i) && os == OperatingSystem::Linux(
                        spec_linux_type(i@, opt_str_view(os_release_version_id)),
                    )
                } else {
                    os_name@ == "macos"@ && os == OperatingSystem::MacOs(
                        if version@.major < 3 {
                            MacOsType::NonSsl
                        } else {
                            MacOsType::Ssl
                        },
                    )
                },
                Err(e) => if os_name@ == "linux"@ {
                    os_release_id is None && e matches Error::UnknownOs
                } else {
                    os_name@ != "macos"@ && (e matches Error::UnsupportedOs { os_name: n } && n@
                        == os_name@)
                },
            },
    {
        if str_eq(os_name, "linux") {
            match LinuxType::get(os_release_id, os_release_version_id) {
                Ok(t) => Ok(OperatingSystem::Linux(t)),
                Err(e) => Err(e),
            }
        } else if str_eq(os_name, "macos") {
            let macos_type = if version.major < 3 {
                MacOsType::NonSsl
            } else {
                MacOsType::Ssl
            };
            Ok(OperatingSystem::MacOs(macos_type))
        } else {
            Err(Error::UnsupportedOs { os_name: os_name.to_owned() })
        }
    }

    /// The extension of this OS's download artifact.
    pub fn extension(&self) -> (r: FileExtension)
        ensures
            r == spec_extension(*self),
    {
        match *self {
            OperatingSystem::Linux(_) | OperatingSystem::MacOs(_) => FileExtension::Tgz,
            OperatingSystem::Windows(_) => FileExtension::Msi,
        }
    }

    /// The OS family token.
    pub fn name(&self) -> (r: &'static str)
        ensures
            r@ == os_name_chars(*self),
    {
        match *self {
            OperatingSystem::Linux(_) => "linux",
            OperatingSystem::MacOs(_) => "osx",
            OperatingSystem::Windows(_) => "win32",
        }
    }

    /// Looks an OS up by its tag in the named OS table.
    pub fn from_name(name: &str) -> (r: Option<OperatingSystem>)
        ensures
            r == spec_os_from_name(name@),
    {
        if str_eq(name, "amazon") {
            Some(OperatingSystem::Linux(LinuxType::Amazon))
        } else if str_eq(name, "debian71") {
            Some(OperatingSystem::Linux(LinuxType::Debian7))
        } else if str_eq(name, "debian81") {
            Some(OperatingSystem::Linux(LinuxType::Debian8))
        } else if str_eq(name, "legacy") {
            Some(OperatingSystem::Linux(LinuxType::Legacy))
        } else if str_eq(name, "osx") {
            Some(OperatingSystem::MacOs(MacOsType::Ssl))
        } else if str_eq(name, "osx-nossl") {
            Some(OperatingSystem::MacOs(MacOsType::NonSsl))
        } else if str_eq(name, "rhel62") {
            Some(OperatingSystem::Linux(LinuxType::Rhel6))
        } else if str_eq(name, "rhel70") {
            Some(OperatingSystem::Linux(LinuxType::Rhel7))
        } else if str_eq(name, "suse11") {
            Some(OperatingSystem::Linux(LinuxType::Suse11))
        } else if str_eq(name, "suse12") {
            Some(OperatingSystem::Linux(LinuxType::Suse12))
        } else if str_eq(name, "ubuntu1204") {
            Some(OperatingSystem::Linux(LinuxType::Ubuntu1204))
        } else if str_eq(name, "ubuntu1404") {
            Some(OperatingSystem::Linux(LinuxType::Ubuntu1404))
        } else if str_eq(name, "ubuntu1604") {
            Some(OperatingSystem::Linux(LinuxType::Ubuntu1604(Architecture::X86_64)))
        } else if str_eq(name, "ubuntu1604-arm") {
            Some(OperatingSystem::Linux(LinuxType::Ubuntu1604(Architecture::Arm)))
        } else if str_eq(name, "ubuntu1804") {
            Some(OperatingSystem::Linux(LinuxType::Ubuntu1804))
        } else {
            None
        }
    }

    /// The download target for a release of this OS.
    pub fn download_url(&self, version: &Version) -> (r: Url)
        ensures
            r@.base == spec_url_base(os_name_chars(*self)),
            r@.filename == spec_url_filename(
                spec_download_items(*self, version@),
                match spec_extension(*self) {
                    FileExtension::Msi => "msi"@,
                    FileExtension::Tgz => "tgz"@,
                },
                version@,
            ),
            r@.dirname == spec_url_dirname(spec_download_items(*self, version@), version@),
    {
        let mut builder = UrlBuilder::new(self.name(), self.extension().name(), version.duplicate());
        builder.add_distro_path_item("mongodb".to_owned());
        builder.add_distro_path_item(self.name().to_owned());

        let url_path = match self {
            OperatingSystem::Linux(os_type) => os_type.url_path(version),
            OperatingSystem::MacOs(os_type) => os_type.url_path(version),
            OperatingSystem::Windows(os_type) => os_type.url_path(version),
        };

        let ghost head = seq!["mongodb"@, os_name_chars(*self)];
        proof {
            assert(builder@.distro =~= head);
        }
        let mut i: usize = 0;
        while i < url_path.len()
            invariant
                0 <= i <= url_path.len(),
                url_path.deep_view() == (match *self {
                    OperatingSystem::Linux(t) => spec_linux_url_path(t, version@),
                    OperatingSystem::MacOs(t) => spec_macos_url_path(t, version@),
                    OperatingSystem::Windows(t) => spec_windows_url_path(t, version@),
                }),
                builder@.distro =~= head + url_path.deep_view().take(i as int),
                builder@.os == os_name_chars(*self),
                builder@.extension == (match spec_extension(*self) {
                    FileExtension::Msi => "msi"@,
                    FileExtension::Tgz => "tgz"@,
                }),
                builder@.version == version@,
            decreases url_path.len() - i,
        {
            builder.add_distro_path_item(url_path[i].clone());
            proof {
                assert(url_path.deep_view().take(i as int + 1) =~= url_path.deep_view().take(
                    i as int,
                ).push(url_path.deep_view()[i as int]));
            }
            i = i + 1;
        }
        proof {
            assert(url_path.deep_view().take(url_path.len() as int) =~= url_path.deep_view());
            assert(builder@.distro =~= spec_download_items(*self, version@));
        }
        builder.build()
    }
}

/// The tags of the named OS table, in sorted order.
pub fn os_names() -> (r: Vec<&'static str>)
    ensures
        r.deep_view() =~= seq![
            "amazon"@,
            "debian71"@,
            "debian81"@,
            "legacy"@,
            "osx"@,
            "osx-nossl"@,
            "rhel62"@,
            "rhel70"@,
            "suse11"@,
            "suse12"@,
            "ubuntu1204"@,
            "ubuntu1404"@,
            "ubuntu1604"@,
            "ubuntu1604-arm"@,
            "ubuntu1804"@,
        ],
{
    let mut names: Vec<&'static str> = Vec::new();
    names.push("amazon");
    names.push("debian71");
    names.push("debian81");
    names.push("legacy");
    names.push("osx");
    names.push("osx-nossl");
    names.push("rhel62");
    names.push("rhel70");
    names.push("suse11");
    names.push("suse12");
    names.push("ubuntu1204");
    names.push("ubuntu1404");
    names.push("ubuntu1604");
    names.push("ubuntu1604-arm");
    names.push("ubuntu1804");
    proof {
        assert(names.deep_view() =~= seq![
            "amazon"@,
            "debian71"@,
            "debian81"@,
            "legacy"@,
            "osx"@,
            "osx-nossl"@,
            "rhel62"@,
            "rhel70"@,
            "suse11"@,
            "suse12"@,
            "ubuntu1204"@,
            "ubuntu1404"@,
            "ubuntu1604"@,
            "ubuntu1604-arm"@,
            "ubuntu1804"@,
        ]);
    }
    names
}

/// Law: for the SSL desktop build at any release below the filename-affecting
/// threshold, the archive directory name drops the `ssl` marker and uses the
/// alternate-cased OS token exactly in the directory-name switch range, while
/// the filename keeps the plain token and the marker in every such release.
pub proof fn lemma_desktop_ssl_naming(v: VersionView)
    requires
        valid_version(v),
        !spec_url_uses_macos(v),
    ensures
        spec_url_filename(
            spec_download_items(OperatingSystem::MacOs(MacOsType::Ssl), v),
            "tgz"@,
            v,
        ) == "mongodb"@ + seq!['-'] + "osx"@ + seq!['-'] + "ssl"@ + seq!['-'] + "x86_64"@
            + seq!['-'] + version_chars(v) + seq!['.'] + "tgz"@,
        spec_url_dirname(spec_download_items(OperatingSystem::MacOs(MacOsType::Ssl), v), v)
            == "mongodb"@ + seq!['-'] + (if spec_name_uses_macos(v) {
            "macOS"@
        } else {
            "osx"@
        }) + seq!['-'] + "x86_64"@ + seq!['-'] + version_chars(v),
{
    lemma_ssl_items(v);
    lemma_ssl_filename(v);
    lemma_ssl_dirname(v);
}

/// The element list of the SSL desktop build, spelled out, and the facts
/// that tell the version string from the marker tokens.
proof fn lemma_ssl_items(v: VersionView)
    requires
        valid_version(v),
        !spec_url_uses_macos(v),
    ensures
        spec_download_items(OperatingSystem::MacOs(MacOsType::Ssl), v) =~= seq![
            "mongodb"@,
            "osx"@,
            "ssl"@,
            "x86_64"@,
            version_chars(v),
        ],
        effective_items(spec_download_items(OperatingSystem::MacOs(MacOsType::Ssl), v), false)
            == spec_download_items(OperatingSystem::MacOs(MacOsType::Ssl), v),
        version_chars(v) != "ssl"@,
        version_chars(v) != "osx"@,
        "osx"@ != "ssl"@,
        "mongodb"@ != "ssl"@,
        "mongodb"@ != "osx"@,
        "x86_64"@ != "ssl"@,
        "x86_64"@ != "osx"@,
{
    reveal_strlit("mongodb");
    reveal_strlit("osx");
    reveal_strlit("ssl");
    reveal_strlit("x86_64");
    let os = OperatingSystem::MacOs(MacOsType::Ssl);
    let items = spec_download_items(os, v);
    assert(items =~= seq!["mongodb"@, "osx"@, "ssl"@, "x86_64"@, version_chars(v)]);
    lemma_dec_repr_canon(v.major);
    let vs = version_chars(v);
    assert(vs[0] == dec_repr(v.major)[0]);
    assert(is_digit(vs[0]));
    assert(!is_digit("ssl"@[0]));
    assert(!is_digit("osx"@[0]));
}

/// The joined filename of the SSL desktop build below the later threshold.
proof fn lemma_ssl_filename(v: VersionView)
    requires
        valid_version(v),
        !spec_url_uses_macos(v),
    ensures
        spec_url_filename(
            spec_download_items(OperatingSystem::MacOs(MacOsType::Ssl), v),
            "tgz"@,
            v,
        ) == "mongodb"@ + seq!['-'] + "osx"@ + seq!['-'] + "ssl"@ + seq!['-'] + "x86_64"@
            + seq!['-'] + version_chars(v) + seq!['.'] + "tgz"@,
{
    reveal_with_fuel(join_idents, 7);
    lemma_ssl_items(v);
    let items = spec_download_items(OperatingSystem::MacOs(MacOsType::Ssl), v);
    let vs = version_chars(v);
    let t1 = items.drop_first();
    let t2 = t1.drop_first();
    let t3 = t2.drop_first();
    let t4 = t3.drop_first();
    assert(t1[0] == "osx"@ && t2[0] == "ssl"@ && t3[0] == "x86_64"@ && t4[0] == vs);
    assert(t4.len() == 1);
    assert(join_idents(items, '-') == "mongodb"@ + seq!['-'] + "osx"@ + seq!['-'] + "ssl"@
        + seq!['-'] + "x86_64"@ + seq!['-'] + vs);
}

/// The joined directory name of the SSL desktop build below the later
/// threshold.
proof fn lemma_ssl_dirname(v: VersionView)
    requires
        valid_version(v),
        !spec_url_uses_macos(v),
    ensures
        spec_url_dirname(spec_download_items(OperatingSystem::MacOs(MacOsType::Ssl), v), v)
            == "mongodb"@ + seq!['-'] + (if spec_name_uses_macos(v) {
            "macOS"@
        } else {
            "osx"@
        }) + seq!['-'] + "x86_64"@ + seq!['-'] + version_chars(v),
{
    reveal_with_fuel(join_idents, 7);
    reveal_with_fuel(dirname_items, 7);
    lemma_ssl_items(v);
    let items = spec_download_items(OperatingSystem::MacOs(MacOsType::Ssl), v);
    let vs = version_chars(v);
    let m = spec_name_uses_macos(v);
    let osx_token = if m {
        "macOS"@
    } else {
        "osx"@
    };
    assert(dirname_item("mongodb"@, m) =~= seq!["mongodb"@]);
    assert(dirname_item("osx"@, m) =~= seq![osx_token]);
    assert(dirname_item("ssl"@, m) =~= Seq::<Seq<char>>::empty());
    assert(dirname_item("x86_64"@, m) =~= seq!["x86_64"@]);
    assert(dirname_item(vs, m) =~= seq![vs]);
    let t1 = items.drop_first();
    let t2 = t1.drop_first();
    let t3 = t2.drop_first();
    let t4 = t3.drop_first();
    assert(t4.drop_first() =~= Seq::<Seq<char>>::empty());
    assert(t1[0] == "osx"@ && t2[0] == "ssl"@ && t3[0] == "x86_64"@ && t4[0] == vs);
    let di = dirname_items(items, m);
    assert(di =~= seq!["mongodb"@, osx_token, "x86_64"@, vs]);
    let d1 = di.drop_first();
    let d2 = d1.drop_first();
    let d3 = d2.drop_first();
    assert(d1[0] == osx_token && d2[0] == "x86_64"@ && d3[0] == vs);
    assert(d3.len() == 1);
    assert(join_idents(di, '-') == "mongodb"@ + seq!['-'] + osx_token + seq!['-'] + "x86_64"@
        + seq!['-'] + vs);
}

} // verus!
