//! The version store: the path layout under the store root, the builder that
//! locates it, the local resolution of a specifier against the installed
//! identifiers, and the store operations — lookup, delete, data directories,
//! default arguments, listing, and pruning — over the store model.

use vstd::prelude::*;

use crate::error::Error;
use crate::store::{names_add, names_contain, names_remove, seq_add, seq_remove, StoreModel};
use crate::util::spec_major_minor;
use crate::version::{
    spec_is_plain, spec_parse_version, str_eq, version_chars, Version, VersionView,
};

verus! {

/// The default directory under the user's home that holds the store.
pub const DEFAULT_HOME_DIR: &'static str = ".monger";

/// The default directory under the store root that holds installed versions.
pub const DEFAULT_BIN_DIR: &'static str = "mongodb-versions";

/// The default directory under the store root that holds data directories.
pub const DEFAULT_DB_DIR: &'static str = "db";

/// Two path components joined by a separator.
pub open spec fn path_join(a: Seq<char>, b: Seq<char>) -> Seq<char> {
    a + seq!['/'] + b
}

/// Joins two path components.
pub(crate) fn join_path(a: &str, b: &str) -> (r: String)
    ensures
        r@ == path_join(a@, b@),
{
    proof {
        reveal_strlit("/");
    }
    let mut out = a.to_owned();
    out.append("/");
    out.append(b);
    proof {
        assert(out@ =~= path_join(a@, b@));
    }
    out
}

/// The store's path layout.
pub struct Fs {
    home_dir: String,
    bin_dir: String,
    db_dir: String,
}

/// The mathematical value of the layout.
pub ghost struct FsView {
    pub home_dir: Seq<char>,
    pub bin_dir: Seq<char>,
    pub db_dir: Seq<char>,
}

impl View for Fs {
    type V = FsView;

    closed spec fn view(&self) -> FsView {
        FsView { home_dir: self.home_dir@, bin_dir: self.bin_dir@, db_dir: self.db_dir@ }
    }
}

/// The best installed match for a `major.minor` line: the newest plain
/// version among the identifiers that parse to that line, folded in listing
/// order.
pub open spec fn spec_best_local(
    ids: Seq<Seq<char>>,
    major: int,
    minor: int,
    acc: Option<VersionView>,
) -> Option<VersionView>
    decreases ids.len(),
{
    if ids.len() == 0 {
        acc
    } else {
        let acc2 = match spec_parse_version(ids[0]) {
            Some(v) => if spec_is_plain(v) && v.major == major && v.minor == minor {
                Some(crate::catalog::spec_select_newer(acc, v))
            } else {
                acc
            },
            None => acc,
        };
        spec_best_local(ids.drop_first(), major, minor, acc2)
    }
}

/// The identifier a specifier denotes against the installed identifiers:
/// the system sentinel stands for itself; an installed identifier stands for
/// itself; a `major.minor` shorthand stands for the newest plain installed
/// version of that line; anything else denotes nothing.
pub open spec fn spec_newest_matching(ids: Seq<Seq<char>>, version: Seq<char>) -> Option<Seq<char>> {
    if version == "system"@ {
        Some(version)
    } else if ids.contains(version) {
        Some(version)
    } else {
        match spec_major_minor(version) {
            Some((major, minor)) => match spec_best_local(ids, major, minor, None) {
                Some(v) => Some(version_chars(v)),
                None => None,
            },
            None => None,
        }
    }
}

/// Finds the newest plain installed version of a `major.minor` line.
fn best_local(ids: &Vec<String>, major: u64, minor: u64) -> (r: Option<Version>)
    ensures
        crate::catalog::opt_version_view(r) == spec_best_local(
            ids.deep_view(),
            major as int,
            minor as int,
            None,
        ),
{
    let ghost all = ids.deep_view();
    let mut acc: Option<Version> = None;
    let mut i: usize = 0;
    proof {
        assert(all.skip(0) =~= all);
    }
    while i < ids.len()
        invariant
            0 <= i <= ids.len(),
            all == ids.deep_view(),
            spec_best_local(all, major as int, minor as int, None) == spec_best_local(
                all.skip(i as int),
                major as int,
                minor as int,
                crate::catalog::opt_version_view(acc),
            ),
        decreases ids.len() - i,
    {
        proof {
            assert(all.skip(i as int)[0] == all[i as int]);
            assert(all.skip(i as int).drop_first() =~= all.skip(i as int + 1));
        }
        if let Some(v) = Version::parse(ids[i].as_str()) {
            if v.is_plain() && v.major == major && v.minor == minor {
                let cur = acc;
                acc = Some(crate::version::select_newer_version(cur, v));
            }
        }
        i = i + 1;
    }
    proof {
        assert(all.skip(ids.len() as int).len() == 0);
    }
    acc
}

impl Fs {
    /// A builder for the layout.
    pub fn builder() -> (r: FsBuilder)
        ensures
            r@.home_dir is None,
            r@.bin_dir is None,
            r@.db_dir is None,
    {
        FsBuilder { home_dir: None, bin_dir: None, db_dir: None }
    }

    /// A builder for the layout.
    pub fn new() -> (r: FsBuilder)
        ensures
            r@.home_dir is None,
            r@.bin_dir is None,
            r@.db_dir is None,
    {
        Fs::builder()
    }

    /// A path under the store root.
    pub fn get_file(&self, filename: &str) -> (r: String)
        ensures
            r@ == path_join(self@.home_dir, filename@),
    {
        join_path(self.home_dir.as_str(), filename)
    }

    /// A path under the version directory, relative to the store root.
    pub fn get_bin_file_rel(&self, filename: &str) -> (r: String)
        ensures
            r@ == path_join(self@.bin_dir, filename@),
    {
        join_path(self.bin_dir.as_str(), filename)
    }

    /// An absolute path under the version directory.
    pub fn get_bin_file_abs(&self, filename: &str) -> (r: String)
        ensures
            r@ == path_join(self@.home_dir, path_join(self@.bin_dir, filename@)),
    {
        let rel = self.get_bin_file_rel(filename);
        self.get_file(rel.as_str())
    }

    /// The version directory's absolute path.
    pub fn get_bin_dir(&self) -> (r: String)
        ensures
            r@ == path_join(self@.home_dir, self@.bin_dir),
    {
        self.get_file(self.bin_dir.as_str())
    }

    /// A path under the data directory, relative to the store root.
    pub fn get_db_file_rel(&self, filename: &str) -> (r: String)
        ensures
            r@ == path_join(self@.db_dir, filename@),
    {
        join_path(self.db_dir.as_str(), filename)
    }

    /// The directory of an installed version.
    pub fn get_version_dir(&self, version: &str) -> (r: String)
        ensures
            r@ == path_join(self@.home_dir, path_join(self@.bin_dir, version@)),
    {
        self.get_bin_file_abs(version)
    }

    /// The default-argument file's path.
    pub fn get_default_args_file(&self) -> (r: String)
        ensures
            r@ == path_join(self@.home_dir, "default-args"@),
    {
        self.get_file("default-args")
    }

    /// True when a directory for the identifier exists under the version
    /// root.
    pub fn version_exists(&self, store: &StoreModel, version: &str) -> (r: bool)
        ensures
            r == store@.versions.contains(version@),
    {
        names_contain(&store.versions, version)
    }

    /// The identifier the specifier denotes against the installed
    /// identifiers, resolving a `major.minor` shorthand to the newest plain
    /// installed version of that line; `InvalidVersion` when it denotes
    /// nothing.
    pub fn get_newest_matching_version(&self, store: &StoreModel, version: &str) -> (r: Result<
        String,
        Error,
    >)
        ensures
            match r {
                Ok(s) => spec_newest_matching(store@.versions, version@) == Some(s@),
                Err(e) => spec_newest_matching(store@.versions, version@) is None && (
                e matches Error::InvalidVersion { version: w } && w@ == version@),
            },
    {
        if str_eq(version, "system") {
            return Ok(version.to_owned());
        }
        if self.version_exists(store, version) {
            return Ok(version.to_owned());
        }
        let (major, minor) = match crate::util::parse_major_minor_version(version) {
            Some(pair) => pair,
            None => {
                return Err(Error::InvalidVersion { version: version.to_owned() });
            },
        };
        match best_local(&store.versions, major, minor) {
            Some(v) => Ok(v.version_string()),
            None => Err(Error::InvalidVersion { version: version.to_owned() }),
        }
    }

    /// The `bin` directory of the installed version the specifier denotes.
    pub fn get_version_bin_dir(&self, store: &StoreModel, version: &str) -> (r: Result<
        String,
        Error,
    >)
        ensures
            match r {
                Ok(p) => spec_newest_matching(store@.versions, version@) matches Some(m) && p@
                    == path_join(self@.home_dir, path_join(self@.bin_dir, path_join(m, "bin"@))),
                Err(e) => spec_newest_matching(store@.versions, version@) is None && (
                e matches Error::InvalidVersion { version: w } && w@ == version@),
            },
    {
        let matched = match self.get_newest_matching_version(store, version) {
            Ok(m) => m,
            Err(e) => {
                return Err(e);
            },
        };
        let rel = join_path(matched.as_str(), "bin");
        Ok(self.get_bin_file_abs(rel.as_str()))
    }

    /// Removes the version directory of the identifier; nothing is removed
    /// and nothing fails when it is absent.
    pub fn delete_mongodb_version(&self, store: &mut StoreModel, version: &str) -> (r: bool)
        ensures
            final(store)@.versions == seq_remove(old(store)@.versions, version@),
            final(store)@.archives == old(store)@.archives,
            final(store)@.db_dirs == old(store)@.db_dirs,
            final(store)@.default_args == old(store)@.default_args,
            r == old(store)@.versions.contains(version@),
    {
        names_remove(&mut store.versions, version)
    }

    /// Removes the identifier's data directory, returning whether one was
    /// there.
    pub fn clear_db_dir(&self, store: &mut StoreModel, version: &str) -> (r: bool)
        ensures
            final(store)@.db_dirs == seq_remove(old(store)@.db_dirs, version@),
            final(store)@.versions == old(store)@.versions,
            final(store)@.archives == old(store)@.archives,
            final(store)@.default_args == old(store)@.default_args,
            r == old(store)@.db_dirs.contains(version@),
    {
        names_remove(&mut store.db_dirs, version)
    }

    /// Resolves the specifier as `get_newest_matching_version` does, ensures
    /// the matched identifier's data directory exists, and returns that
    /// directory's path.
    pub fn create_or_get_db_dir(&self, store: &mut StoreModel, version: &str) -> (r: Result<
        String,
        Error,
    >)
        ensures
            match r {
                Ok(p) => spec_newest_matching(old(store)@.versions, version@) matches Some(m)
                    && final(store)@.db_dirs == seq_add(old(store)@.db_dirs, m) && p@ == path_join(
                    self@.home_dir,
                    path_join(self@.db_dir, m),
                ),
                Err(e) => spec_newest_matching(old(store)@.versions, version@) is None && (
                e matches Error::InvalidVersion { version: w } && w@ == version@) && final(store)@
                    == old(store)@,
            },
            final(store)@.versions == old(store)@.versions,
            final(store)@.archives == old(store)@.archives,
            final(store)@.default_args == old(store)@.default_args,
    {
        let matched = match self.get_newest_matching_version(store, version) {
            Ok(m) => m,
            Err(e) => {
                proof {
                    assert(store@ =~= old(store)@);
                }
                return Err(e);
            },
        };
        names_add(&mut store.db_dirs, matched.as_str());
        let rel = self.get_db_file_rel(matched.as_str());
        Ok(self.get_file(rel.as_str()))
    }

    /// The installed identifiers, in listing order.
    pub fn list_versions(&self, store: &StoreModel) -> (r: Vec<String>)
        ensures
            r.deep_view() == store@.versions,
    {
        crate::version::clone_string_vec(&store.versions)
    }

    /// Stores the default arguments.
    pub fn set_default_args(&self, store: &mut StoreModel, default_args: &str)
        ensures
            final(store)@.default_args == Some(default_args@),
            final(store)@.versions == old(store)@.versions,
            final(store)@.archives == old(store)@.archives,
            final(store)@.db_dirs == old(store)@.db_dirs,
    {
        store.default_args = Some(default_args.to_owned());
    }

    /// The stored default arguments, when any are set.
    pub fn get_default_args(&self, store: &StoreModel) -> (r: Option<String>)
        ensures
            match r {
                Some(s) => store@.default_args == Some(s@),
                None => store@.default_args is None,
            },
    {
        match &store.default_args {
            Some(s) => Some(s.clone()),
            None => None,
        }
    }

    /// Removes the default arguments, returning whether any were set.
    pub fn clear_default_args(&self, store: &mut StoreModel) -> (r: bool)
        ensures
            final(store)@.default_args is None,
            r == (old(store)@.default_args is Some),
            final(store)@.versions == old(store)@.versions,
            final(store)@.archives == old(store)@.archives,
            final(store)@.db_dirs == old(store)@.db_dirs,
    {
        let had = store.default_args.is_some();
        store.default_args = None;
        had
    }
}

/// Whether an installed identifier falls to pruning: it parses as a version,
/// its `major.minor` group has a newest plain member, and this identifier is
/// not that member's canonical string.
pub open spec fn spec_pruned(ids: Seq<Seq<char>>, id: Seq<char>) -> bool {
    match spec_parse_version(id) {
        Some(v) => match spec_best_local(ids, v.major, v.minor, None) {
            Some(k) => version_chars(k) != id,
            None => false,
        },
        None => false,
    }
}

/// The identifiers that pruning keeps, in listing order.
pub open spec fn spec_kept(all: Seq<Seq<char>>, ids: Seq<Seq<char>>) -> Seq<Seq<char>>
    decreases ids.len(),
{
    if ids.len() == 0 {
        Seq::empty()
    } else {
        spec_kept(all, ids.drop_last()) + (if spec_pruned(all, ids.last()) {
            Seq::empty()
        } else {
            seq![ids.last()]
        })
    }
}

/// The identifiers that pruning removes, in listing order.
pub open spec fn spec_deleted(all: Seq<Seq<char>>, ids: Seq<Seq<char>>) -> Seq<Seq<char>>
    decreases ids.len(),
{
    if ids.len() == 0 {
        Seq::empty()
    } else {
        spec_deleted(all, ids.drop_last()) + (if spec_pruned(all, ids.last()) {
            seq![ids.last()]
        } else {
            Seq::empty()
        })
    }
}

/// True when pruning removes the identifier.
fn pruned(store: &StoreModel, id: &str) -> (r: bool)
    ensures
        r == spec_pruned(store@.versions, id@),
{
    let v = match Version::parse(id) {
        Some(v) => v,
        None => {
            return false;
        },
    };
    match best_local(&store.versions, v.major, v.minor) {
        Some(k) => !str_eq(k.version_string().as_str(), id),
        None => false,
    }
}

impl Fs {
    /// Prunes the store: within each group of installed identifiers that
    /// parse to the same `major.minor` line, the newest plain version is
    /// kept and every other member of the group is removed. Identifiers that
    /// do not parse as versions are never touched. Returns the removed
    /// identifiers, in listing order.
    pub fn prune(&self, store: &mut StoreModel) -> (deleted: Vec<String>)
        ensures
            final(store)@.versions == spec_kept(old(store)@.versions, old(store)@.versions),
            deleted.deep_view() == spec_deleted(old(store)@.versions, old(store)@.versions),
            final(store)@.archives == old(store)@.archives,
            final(store)@.db_dirs == old(store)@.db_dirs,
            final(store)@.default_args == old(store)@.default_args,
    {
        let ghost all = store@.versions;
        let mut kept: Vec<String> = Vec::new();
        let mut deleted: Vec<String> = Vec::new();
        let mut i: usize = 0;
        proof {
            assert(all.take(0) =~= Seq::<Seq<char>>::empty());
            assert(kept.deep_view() =~= spec_kept(all, all.take(0)));
            assert(deleted.deep_view() =~= spec_deleted(all, all.take(0)));
        }
        while i < store.versions.len()
            invariant
                0 <= i <= store.versions.len(),
                store@ == old(store)@,
                all == store@.versions,
                kept.deep_view() =~= spec_kept(all, all.take(i as int)),
                deleted.deep_view() =~= spec_deleted(all, all.take(i as int)),
            decreases store.versions.len() - i,
        {
            let ghost kbefore = kept.deep_view();
            let ghost dbefore = deleted.deep_view();
            let id = store.versions[i].clone();
            if pruned(store, id.as_str()) {
                deleted.push(id);
                proof {
                    assert(deleted.deep_view() =~= dbefore.push(all[i as int]));
                }
            } else {
                kept.push(id);
                proof {
                    assert(kept.deep_view() =~= kbefore.push(all[i as int]));
                }
            }
            proof {
                assert(all.take(i as int + 1).drop_last() =~= all.take(i as int));
                assert(all.take(i as int + 1).last() == all[i as int]);
                assert(kept.deep_view() =~= spec_kept(all, all.take(i as int + 1)));
                assert(deleted.deep_view() =~= spec_deleted(all, all.take(i as int + 1)));
            }
            i = i + 1;
        }
        proof {
            assert(all.take(store.versions.len() as int) =~= all);
        }
        store.versions = kept;
        deleted
    }
}

/// Accumulates the store layout's directories.
pub struct FsBuilder {
    home_dir: Option<String>,
    bin_dir: Option<String>,
    db_dir: Option<String>,
}

/// The mathematical value of the builder.
pub ghost struct FsBuilderView {
    pub home_dir: Option<Seq<char>>,
    pub bin_dir: Option<Seq<char>>,
    pub db_dir: Option<Seq<char>>,
}

impl View for FsBuilder {
    type V = FsBuilderView;

    closed spec fn view(&self) -> FsBuilderView {
        FsBuilderView {
            home_dir: match self.home_dir {
                Some(ref s) => Some(s@),
                None => None,
            },
            bin_dir: match self.bin_dir {
                Some(ref s) => Some(s@),
                None => None,
            },
            db_dir: match self.db_dir {
                Some(ref s) => Some(s@),
                None => None,
            },
        }
    }
}

/// Relies on dirs::home_dir: the current user's home directory, when the
/// platform knows one. The result depends on the environment, so nothing
/// more is said of it.
#[verifier::external_body]
fn host_home_dir() -> (r: Option<String>) {
    dirs::home_dir().map(|p| p.to_string_lossy().into_owned())
}

impl FsBuilder {
    /// Overrides the store's directory under the user's home.
    pub fn with_home_dir(&mut self, home_dir: &str)
        ensures
            final(self)@.home_dir == Some(home_dir@),
            final(self)@.bin_dir == old(self)@.bin_dir,
            final(self)@.db_dir == old(self)@.db_dir,
    {
        self.home_dir = Some(home_dir.to_owned());
    }

    /// Overrides the directory that holds installed versions.
    pub fn with_bin_dir(&mut self, bin_dir: &str)
        ensures
            final(self)@.bin_dir == Some(bin_dir@),
            final(self)@.home_dir == old(self)@.home_dir,
            final(self)@.db_dir == old(self)@.db_dir,
    {
        self.bin_dir = Some(bin_dir.to_owned());
    }

    /// Overrides the directory that holds data directories.
    pub fn with_db_dir(&mut self, db_dir: &str)
        ensures
            final(self)@.db_dir == Some(db_dir@),
            final(self)@.home_dir == old(self)@.home_dir,
            final(self)@.bin_dir == old(self)@.bin_dir,
    {
        self.db_dir = Some(db_dir.to_owned());
    }

    /// Locates the store under the user's home directory. Fails with
    /// `UnknownHomeDirectory` when the platform reports none; the error
    /// depends on the environment, so the outcome is described for both
    /// cases.
    pub fn build(self) -> (r: Result<Fs, Error>)
        ensures
            match r {
                Ok(fs) => ({
                    let comp = match self@.home_dir {
                        Some(s) => s,
                        None => ".monger"@,
                    };
                    fs@.home_dir.len() > comp.len() && fs@.home_dir.skip(
                        fs@.home_dir.len() - comp.len(),
                    ) == comp && fs@.home_dir[fs@.home_dir.len() - comp.len() - 1] == '/'
                }) && fs@.bin_dir == (match self@.bin_dir {
                    Some(s) => s,
                    None => "mongodb-versions"@,
                }) && fs@.db_dir == (match self@.db_dir {
                    Some(s) => s,
                    None => "db"@,
                }),
                Err(e) => e matches Error::UnknownHomeDirectory,
            },
    {
        let home = match host_home_dir() {
            Some(h) => h,
            None => {
                return Err(Error::UnknownHomeDirectory);
            },
        };
        let home_component = match self.home_dir {
            Some(s) => s,
            None => DEFAULT_HOME_DIR.to_owned(),
        };
        let home_dir = join_path(home.as_str(), home_component.as_str());
        let bin_dir = match self.bin_dir {
            Some(s) => s,
            None => DEFAULT_BIN_DIR.to_owned(),
        };
        let db_dir = match self.db_dir {
            Some(s) => s,
            None => DEFAULT_DB_DIR.to_owned(),
        };
        proof {
            reveal_strlit(".monger");
            reveal_strlit("mongodb-versions");
            reveal_strlit("db");
        }
        Ok(Fs { home_dir, bin_dir, db_dir })
    }
}

} // verus!
