//! The decisions around launching managed binaries and downloading versions:
//! where a binary is found for a specifier, how the argument list gains a
//! data-directory flag, which identifier a download installs under, and what
//! an existing installation means for a requested download.

use vstd::prelude::*;

use crate::error::Error;
use crate::fs::{path_join, spec_newest_matching, Fs};
use crate::store::StoreModel;
use crate::version::{str_eq, version_chars, Version};

verus! {

/// Where a binary runs from: the caller's search path for the system
/// sentinel, or a path inside an installed version's `bin` directory.
pub enum LaunchTarget {
    SystemPath,
    StoreBinary(String),
}

/// The launch target of a binary for a specifier: the system sentinel runs
/// the binary from the search path; anything else resolves against the
/// installed identifiers and names the binary inside the match's `bin`
/// directory. Fails with `InvalidVersion` when the specifier denotes no
/// installed version.
pub fn launch_target(fs: &Fs, store: &StoreModel, binary_name: &str, version: &str) -> (r: Result<
    LaunchTarget,
    Error,
>)
    ensures
        match r {
            Ok(t) => match t {
                LaunchTarget::SystemPath => version@ == "system"@,
                LaunchTarget::StoreBinary(p) => version@ != "system"@ && (spec_newest_matching(
                    store@.versions,
                    version@,
                ) matches Some(m) && p@ == path_join(
                    fs@.home_dir,
                    path_join(fs@.bin_dir, path_join(m, "bin"@)),
                ) + seq!['/'] + binary_name@),
            },
            Err(e) => version@ != "system"@ && spec_newest_matching(store@.versions, version@)
                is None && (e matches Error::InvalidVersion { version: w } && w@ == version@),
        },
{
    if str_eq(version, "system") {
        return Ok(LaunchTarget::SystemPath);
    }
    let dir = match fs.get_version_bin_dir(store, version) {
        Ok(d) => d,
        Err(e) => {
            return Err(e);
        },
    };
    Ok(LaunchTarget::StoreBinary(crate::fs::join_path(dir.as_str(), binary_name)))
}

/// True when the argument list carries no data-directory flag of its own.
pub fn needs_dbpath(args: &Vec<String>) -> (r: bool)
    ensures
        r == !args.deep_view().contains("--dbpath"@),
{
    !crate::store::names_contain(args, "--dbpath")
}

/// The argument list a managed server starts with: an argument list that
/// already names a data directory passes through untouched; otherwise the
/// given data-directory path is appended behind the flag.
pub open spec fn spec_process_args(args: Seq<Seq<char>>, db_dir: Seq<char>) -> Seq<Seq<char>> {
    if args.contains("--dbpath"@) {
        args
    } else {
        args.push("--dbpath"@).push(db_dir)
    }
}

/// Injects the data-directory flag when the caller supplied none.
pub fn process_args(args: Vec<String>, db_dir: &str) -> (r: Vec<String>)
    ensures
        r.deep_view() == spec_process_args(args.deep_view(), db_dir@),
{
    let ghost before = args.deep_view();
    let mut args = args;
    if needs_dbpath(&args) {
        args.push("--dbpath".to_owned());
        proof {
            assert(args.deep_view() =~= before.push("--dbpath"@));
        }
        args.push(db_dir.to_owned());
        proof {
            assert(args.deep_view() =~= before.push("--dbpath"@).push(db_dir@));
        }
    }
    args
}

/// The outcome of a foreground subprocess: success passes, and a non-zero
/// exit becomes `FailedSubprocess`, carrying the command and the exit code
/// the process reported, if any.
pub fn foreground_outcome(success: bool, exit_code: Option<i32>, command: &str) -> (r: Result<
    (),
    Error,
>)
    ensures
        match r {
            Ok(_) => success,
            Err(e) => !success && (e matches Error::FailedSubprocess { command: c, exit_code: x }
                && c@ == command@ && x == exit_code),
        },
{
    if success {
        Ok(())
    } else {
        Err(Error::FailedSubprocess { command: command.to_owned(), exit_code })
    }
}

/// The identifier a download installs under: the caller's chosen identifier,
/// or the release's canonical string.
pub fn chosen_id(id: Option<&str>, version: &Version) -> (r: String)
    ensures
        r@ == match id {
            Some(s) => s@,
            None => version_chars(version@),
        },
{
    match id {
        Some(s) => s.to_owned(),
        None => version.version_string(),
    }
}

/// What a requested download does, given whether the identifier is already
/// installed and whether the caller forces a replacement.
#[derive(Clone, Copy, Debug, PartialEq, Eq, Structural)]
pub enum DownloadDecision {
    /// The identifier is installed and stays: nothing to do.
    AlreadyInstalled,
    /// The identifier is installed but is replaced: delete, then install.
    ReplaceExisting,
    /// The identifier is not installed: install it.
    Install,
}

/// Decides a requested download against the store.
pub fn plan_download(already_installed: bool, force: bool) -> (r: DownloadDecision)
    ensures
        r == if already_installed {
            if force {
                DownloadDecision::ReplaceExisting
            } else {
                DownloadDecision::AlreadyInstalled
            }
        } else {
            DownloadDecision::Install
        },
{
    if already_installed {
        if force {
            DownloadDecision::ReplaceExisting
        } else {
            DownloadDecision::AlreadyInstalled
        }
    } else {
        DownloadDecision::Install
    }
}

} // verus!
