//! An explicit model of the on-disk version store: the directories under the
//! version root, the staged archive files beside them, the per-version data
//! directories, and the default-argument side file. Directory existence is
//! the sole source of truth for whether a version is installed; the caller
//! loads the model from a directory listing and mirrors every change the
//! operations make back to disk, in the same order.

use vstd::prelude::*;

verus! {

/// The contents of the store.
pub struct StoreModel {
    /// The directory names under the version root: the installed identifiers.
    pub versions: Vec<String>,
    /// The file names under the version root: staged downloaded archives.
    pub archives: Vec<String>,
    /// The directory names under the data root.
    pub db_dirs: Vec<String>,
    /// The contents of the default-argument file, when it exists.
    pub default_args: Option<String>,
}

/// The mathematical value of the store.
#[verifier::ext_equal]
pub ghost struct StoreView {
    pub versions: Seq<Seq<char>>,
    pub archives: Seq<Seq<char>>,
    pub db_dirs: Seq<Seq<char>>,
    pub default_args: Option<Seq<char>>,
}

impl View for StoreModel {
    type V = StoreView;

    open spec fn view(&self) -> StoreView {
        StoreView {
            versions: self.versions.deep_view(),
            archives: self.archives.deep_view(),
            db_dirs: self.db_dirs.deep_view(),
            default_args: match self.default_args {
                Some(ref s) => Some(s@),
                None => None,
            },
        }
    }
}

/// A name list with one name taken out entirely.
pub open spec fn seq_remove(names: Seq<Seq<char>>, name: Seq<char>) -> Seq<Seq<char>> {
    names.filter(|n: Seq<char>| n != name)
}

/// A name list extended by a name, unless it is already present.
pub open spec fn seq_add(names: Seq<Seq<char>>, name: Seq<char>) -> Seq<Seq<char>> {
    if names.contains(name) {
        names
    } else {
        names.push(name)
    }
}

/// True when the list holds the name.
pub(crate) fn names_contain(names: &Vec<String>, name: &str) -> (r: bool)
    ensures
        r == names.deep_view().contains(name@),
{
    let mut i: usize = 0;
    while i < names.len()
        invariant
            0 <= i <= names.len(),
            forall|j: int| 0 <= j < i ==> names.deep_view()[j] != name@,
        decreases names.len() - i,
    {
        if crate::version::str_eq(names[i].as_str(), name) {
            proof {
                assert(names.deep_view()[i as int] == name@);
            }
            return true;
        }
        i = i + 1;
    }
    proof {
        if names.deep_view().contains(name@) {
            let j = choose|j: int|
                0 <= j < names.deep_view().len() && names.deep_view()[j] == name@;
            assert(false);
        }
    }
    false
}

/// Takes one name out of a list entirely, returning whether it was present.
pub(crate) fn names_remove(names: &mut Vec<String>, name: &str) -> (r: bool)
    ensures
        final(names).deep_view() == seq_remove(old(names).deep_view(), name@),
        r == old(names).deep_view().contains(name@),
{
    let found = names_contain(names, name);
    let mut out: Vec<String> = Vec::new();
    let mut i: usize = 0;
    proof {
        reveal_with_fuel(Seq::<Seq<char>>::filter, 1);
        assert(old(names).deep_view().take(0) =~= Seq::<Seq<char>>::empty());
        assert(old(names).deep_view().take(0).filter(|n: Seq<char>| n != name@)
            =~= Seq::<Seq<char>>::empty());
        assert(out.deep_view() =~= Seq::<Seq<char>>::empty());
    }
    while i < names.len()
        invariant
            0 <= i <= names.len(),
            names.deep_view() == old(names).deep_view(),
            out.deep_view() =~= old(names).deep_view().take(i as int).filter(
                |n: Seq<char>| n != name@,
            ),
        decreases names.len() - i,
    {
        let ghost before = out.deep_view();
        let ghost pref = old(names).deep_view().take(i as int);
        if !crate::version::str_eq(names[i].as_str(), name) {
            out.push(names[i].clone());
            proof {
                assert(out.deep_view() =~= before.push(old(names).deep_view()[i as int]));
            }
        }
        proof {
            reveal_with_fuel(Seq::<Seq<char>>::filter, 2);
            let x = old(names).deep_view()[i as int];
            assert(old(names).deep_view().take(i as int + 1) =~= pref.push(x));
            assert(pref.push(x).drop_last() =~= pref);
            assert(pref.push(x).last() == x);
            assert(pref.push(x).filter(|n: Seq<char>| n != name@) =~= if x != name@ {
                pref.filter(|n: Seq<char>| n != name@).push(x)
            } else {
                pref.filter(|n: Seq<char>| n != name@)
            });
        }
        i = i + 1;
    }
    proof {
        assert(old(names).deep_view().take(names.len() as int) =~= old(names).deep_view());
    }
    *names = out;
    found
}

/// Adds a name to a list, unless it is already present.
pub(crate) fn names_add(names: &mut Vec<String>, name: &str)
    ensures
        final(names).deep_view() == seq_add(old(names).deep_view(), name@),
{
    let ghost before = names.deep_view();
    if !names_contain(names, name) {
        names.push(name.to_owned());
        proof {
            assert(names.deep_view() =~= before.push(name@));
        }
    }
}

impl StoreModel {
    /// An empty store.
    pub fn new() -> (r: StoreModel)
        ensures
            r@.versions == Seq::<Seq<char>>::empty(),
            r@.archives == Seq::<Seq<char>>::empty(),
            r@.db_dirs == Seq::<Seq<char>>::empty(),
            r@.default_args is None,
    {
        let r = StoreModel {
            versions: Vec::new(),
            archives: Vec::new(),
            db_dirs: Vec::new(),
            default_args: None,
        };
        proof {
            assert(r@.versions =~= Seq::<Seq<char>>::empty());
            assert(r@.archives =~= Seq::<Seq<char>>::empty());
            assert(r@.db_dirs =~= Seq::<Seq<char>>::empty());
        }
        r
    }

    /// A store loaded from directory listings.
    pub fn from_parts(
        versions: Vec<String>,
        db_dirs: Vec<String>,
        default_args: Option<String>,
    ) -> (r: StoreModel)
        ensures
            r@.versions == versions.deep_view(),
            r@.archives == Seq::<Seq<char>>::empty(),
            r@.db_dirs == db_dirs.deep_view(),
            r@.default_args == (match default_args {
                Some(s) => Some(s@),
                None => None::<Seq<char>>,
            }),
    {
        let r = StoreModel { versions, archives: Vec::new(), db_dirs, default_args };
        proof {
            assert(r@.archives =~= Seq::<Seq<char>>::empty());
        }
        r
    }
}

} // verus!
