//! The install lifecycle: stage the downloaded archive beside the version
//! directories, extract it under the archive's own root directory name,
//! rename that directory to the chosen identifier, and remove the staged
//! archive — in exactly that order. A crash between steps therefore never
//! leaves the identifier's directory behind half-made: the identifier
//! appears only at the rename.
//!
//! The driver performs each step's disk work and reports its outcome; the
//! state machine here decides the next step and keeps the store model in
//! step with the disk.

use vstd::prelude::*;

use crate::fs::Fs;
use crate::store::{names_add, names_remove, seq_add, seq_remove, StoreModel, StoreView};

verus! {

/// A point in the install sequence: the step to perform next, or an end.
#[derive(Clone, Copy, Debug, PartialEq, Eq, Structural)]
pub enum InstallStage {
    /// Write the downloaded archive to its staging file.
    WriteArchive,
    /// Extract the staged archive beneath the version root.
    Extract,
    /// Rename the extracted root directory to the identifier.
    Rename,
    /// Remove the staged archive file.
    RemoveArchive,
    /// Every step succeeded.
    Done,
    /// A step failed; the rest were not attempted.
    Failed,
}

/// One install in progress.
pub struct Installer {
    filename: String,
    dirname: String,
    id: String,
    stage: InstallStage,
}

/// The mathematical value of an install in progress.
#[verifier::ext_equal]
pub ghost struct InstallerView {
    pub filename: Seq<char>,
    pub dirname: Seq<char>,
    pub id: Seq<char>,
    pub stage: InstallStage,
}

impl View for Installer {
    type V = InstallerView;

    closed spec fn view(&self) -> InstallerView {
        InstallerView {
            filename: self.filename@,
            dirname: self.dirname@,
            id: self.id@,
            stage: self.stage,
        }
    }
}

/// The stage that follows a step's outcome.
pub open spec fn spec_next_stage(stage: InstallStage, ok: bool) -> InstallStage {
    if !ok {
        InstallStage::Failed
    } else {
        match stage {
            InstallStage::WriteArchive => InstallStage::Extract,
            InstallStage::Extract => InstallStage::Rename,
            InstallStage::Rename => InstallStage::RemoveArchive,
            InstallStage::RemoveArchive => InstallStage::Done,
            InstallStage::Done => InstallStage::Done,
            InstallStage::Failed => InstallStage::Failed,
        }
    }
}

/// What a successful step does to the store: staging adds the archive file;
/// extraction adds a directory under the archive's own name; the rename
/// removes that directory and adds the identifier; cleanup removes the
/// archive file.
pub open spec fn spec_stage_effect(store: StoreView, stage: InstallStage, inst: InstallerView) -> StoreView {
    match stage {
        InstallStage::WriteArchive => StoreView {
            archives: seq_add(store.archives, inst.filename),
            ..store
        },
        InstallStage::Extract => StoreView {
            versions: seq_add(store.versions, inst.dirname),
            ..store
        },
        InstallStage::Rename => StoreView {
            versions: seq_add(seq_remove(store.versions, inst.dirname), inst.id),
            ..store
        },
        InstallStage::RemoveArchive => StoreView {
            archives: seq_remove(store.archives, inst.filename),
            ..store
        },
        InstallStage::Done => store,
        InstallStage::Failed => store,
    }
}

/// The stage performed as step number `k` of a run.
pub open spec fn spec_stage_at(k: int) -> InstallStage {
    if k == 0 {
        InstallStage::WriteArchive
    } else if k == 1 {
        InstallStage::Extract
    } else if k == 2 {
        InstallStage::Rename
    } else {
        InstallStage::RemoveArchive
    }
}

/// The store after the first `completed` steps of an install all succeeded.
pub open spec fn spec_install_run(store: StoreView, inst: InstallerView, completed: int) -> StoreView
    decreases completed,
{
    if completed <= 0 {
        store
    } else {
        spec_stage_effect(spec_install_run(store, inst, completed - 1), spec_stage_at(completed - 1), inst)
    }
}

impl Installer {
    /// An install about to begin: the downloaded file's name, the archive's
    /// top-level directory name, and the identifier to install under.
    pub fn new(filename: &str, dirname: &str, id: &str) -> (r: Installer)
        ensures
            r@.filename == filename@,
            r@.dirname == dirname@,
            r@.id == id@,
            r@.stage == InstallStage::WriteArchive,
    {
        Installer {
            filename: filename.to_owned(),
            dirname: dirname.to_owned(),
            id: id.to_owned(),
            stage: InstallStage::WriteArchive,
        }
    }

    /// The step to perform next, or the end the install reached.
    pub fn current_stage(&self) -> (r: InstallStage)
        ensures
            r == self@.stage,
    {
        self.stage
    }

    /// Records one step's outcome: on success the store model takes the
    /// step's effect and the next step comes up; on failure nothing changes
    /// in the store and the install ends failed.
    pub fn step(&mut self, store: &mut StoreModel, ok: bool)
        requires
            !(old(self)@.stage is Done),
            !(old(self)@.stage is Failed),
        ensures
            final(self)@.stage == spec_next_stage(old(self)@.stage, ok),
            final(self)@.filename == old(self)@.filename,
            final(self)@.dirname == old(self)@.dirname,
            final(self)@.id == old(self)@.id,
            final(store)@ == if ok {
                spec_stage_effect(old(store)@, old(self)@.stage, old(self)@)
            } else {
                old(store)@
            },
    {
        if !ok {
            self.stage = InstallStage::Failed;
            return;
        }
        match self.stage {
            InstallStage::WriteArchive => {
                names_add(&mut store.archives, self.filename.as_str());
                self.stage = InstallStage::Extract;
                proof {
                    assert(store@ =~= spec_stage_effect(old(store)@, InstallStage::WriteArchive, old(self)@));
                }
            },
            InstallStage::Extract => {
                names_add(&mut store.versions, self.dirname.as_str());
                self.stage = InstallStage::Rename;
                proof {
                    assert(store@ =~= spec_stage_effect(old(store)@, InstallStage::Extract, old(self)@));
                }
            },
            InstallStage::Rename => {
                names_remove(&mut store.versions, self.dirname.as_str());
                names_add(&mut store.versions, self.id.as_str());
                self.stage = InstallStage::RemoveArchive;
                proof {
                    assert(store@ =~= spec_stage_effect(old(store)@, InstallStage::Rename, old(self)@));
                }
            },
            InstallStage::RemoveArchive => {
                names_remove(&mut store.archives, self.filename.as_str());
                self.stage = InstallStage::Done;
                proof {
                    assert(store@ =~= spec_stage_effect(old(store)@, InstallStage::RemoveArchive, old(self)@));
                }
            },
            InstallStage::Done => {},
            InstallStage::Failed => {},
        }
    }
}

impl Fs {
    /// Applies the whole install sequence to the store model, as when every
    /// step succeeds: the archive staged, extracted under the archive's own
    /// root name, that directory renamed to the identifier, and the staged
    /// archive removed. The identifier is installed afterwards.
    pub fn write_mongodb_download(
        &self,
        store: &mut StoreModel,
        filename: &str,
        dirname: &str,
        version: &str,
    )
        ensures
            final(store)@ == spec_install_run(
                old(store)@,
                (InstallerView {
                    filename: filename@,
                    dirname: dirname@,
                    id: version@,
                    stage: InstallStage::WriteArchive,
                }),
                4,
            ),
            final(store)@.versions.contains(version@),
    {
        let mut installer = Installer::new(filename, dirname, version);
        installer.step(store, true);
        installer.step(store, true);
        installer.step(store, true);
        installer.step(store, true);
        proof {
            reveal_with_fuel(spec_install_run, 5);
            let inst = InstallerView {
                filename: filename@,
                dirname: dirname@,
                id: version@,
                stage: InstallStage::WriteArchive,
            };
            assert(spec_install_run(old(store)@, inst, 1) == spec_stage_effect(
                old(store)@,
                InstallStage::WriteArchive,
                inst,
            ));
            lemma_install_run_completes(old(store)@, inst);
            assert(store@ =~= spec_install_run(old(store)@, inst, 4));
        }
    }
}

/// A name list extended by a name holds exactly the old names and that name.
proof fn lemma_add_contains(s: Seq<Seq<char>>, x: Seq<char>, y: Seq<char>)
    ensures
        seq_add(s, x).contains(y) == (s.contains(y) || x == y),
{
    if s.contains(x) {
        assert(seq_add(s, x) == s);
    } else {
        let p = s.push(x);
        if p.contains(y) {
            let i = choose|i: int| 0 <= i < p.len() && p[i] == y;
            if i < s.len() {
                assert(s[i] == y);
                assert(s.contains(y));
            } else {
                assert(x == y);
            }
        }
        if s.contains(y) {
            let i = choose|i: int| 0 <= i < s.len() && s[i] == y;
            assert(p[i] == y);
            assert(p.contains(y));
        }
        if x == y {
            assert(p[s.len() as int] == y);
            assert(p.contains(y));
        }
    }
}

/// Law: an install interrupted before the rename leaves the identifier
/// absent: after any number of completed steps short of the rename, a store
/// that did not hold the identifier still does not, provided the archive's
/// root directory name differs from the identifier. A retried install
/// therefore starts from a store without the identifier, exactly as a fresh
/// one does.
pub proof fn lemma_crash_before_rename_leaves_absent(
    store: StoreView,
    inst: InstallerView,
    completed: int,
)
    requires
        0 <= completed <= 2,
        !store.versions.contains(inst.id),
        inst.dirname != inst.id,
    ensures
        !spec_install_run(store, inst, completed).versions.contains(inst.id),
{
    reveal_with_fuel(spec_install_run, 5);
    if completed >= 1 {
        let s1 = spec_install_run(store, inst, 1);
        assert(s1.versions == store.versions);
        if completed == 2 {
            let s2 = spec_install_run(store, inst, 2);
            assert(s2.versions == seq_add(s1.versions, inst.dirname));
            lemma_add_contains(s1.versions, inst.dirname, inst.id);
        }
    }
}

/// Law: a completed install run leaves the identifier installed, whatever
/// the store held before.
pub proof fn lemma_install_run_completes(store: StoreView, inst: InstallerView)
    ensures
        spec_install_run(store, inst, 4).versions.contains(inst.id),
{
    reveal_with_fuel(spec_install_run, 5);
    let s2 = spec_install_run(store, inst, 2);
    let s3 = spec_install_run(store, inst, 3);
    let s4 = spec_install_run(store, inst, 4);
    assert(s3.versions == seq_add(seq_remove(s2.versions, inst.dirname), inst.id));
    lemma_add_contains(seq_remove(s2.versions, inst.dirname), inst.id, inst.id);
    assert(s4.versions == s3.versions);
}

} // verus!
