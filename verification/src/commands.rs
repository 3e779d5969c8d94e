//! The command surface offered to the UI layer.
//!
//! Each operation here is the decision half of one UI command: the host
//! performs the blocking directory dialog, the environment lookup and the
//! actual save, and hands the outcome in as a plain value; the functions
//! below decide what the command returns and which write, if any, the host
//! must perform. User cancellation is a distinct no-op outcome, reported as
//! the empty-string sentinel, never as a failure.

use vstd::prelude::*;
use crate::course::TrainexFile;

verus! {

/// The write a download command asks the host to perform, if any.
#[derive(Clone, PartialEq, Eq, Debug)]
pub enum DownloadAction {
    /// The user dismissed the directory prompt: perform no write at all.
    NoWrite,
    /// Save the one file into the chosen directory.
    SaveFile(TrainexFile, String),
    /// Save the files as one zip archive into the chosen directory.
    SaveFilesZip(Vec<TrainexFile>, String),
}

/// The directory the dialog should open in: the user's download directory
/// when the host found one, a desktop fallback otherwise.
pub fn dialog_start_location(download_dir: Option<String>) -> (location: String)
    ensures
        download_dir is Some ==> location == download_dir.unwrap(),
        download_dir is None ==> location@ == "~/Desktop"@,
{
    match download_dir {
        Option::Some(dir) => dir,
        Option::None => "~/Desktop".to_owned(),
    }
}

/// Download-single-file command: `chosen_dir` is what the directory prompt
/// returned. A dismissed prompt yields the empty-string sentinel and no
/// write; otherwise the chosen path is echoed back and the host must save
/// the file there.
pub fn download_file(file: TrainexFile, chosen_dir: Option<String>) -> (r: (
    String,
    DownloadAction,
))
    ensures
        chosen_dir is None ==> r.0@ == Seq::<char>::empty() && r.1 == DownloadAction::NoWrite,
        chosen_dir is Some ==> r.0 == chosen_dir.unwrap() && r.1 == DownloadAction::SaveFile(
            file,
            chosen_dir.unwrap(),
        ),
{
    match chosen_dir {
        Option::None => (String::new(), DownloadAction::NoWrite),
        Option::Some(path) => {
            let echoed = path.clone();
            (echoed, DownloadAction::SaveFile(file, path))
        },
    }
}

/// Download-multiple-files command: as [`download_file`], but the files go
/// into one zip archive in the chosen directory.
pub fn download_files(files: Vec<TrainexFile>, chosen_dir: Option<String>) -> (r: (
    String,
    DownloadAction,
))
    ensures
        chosen_dir is None ==> r.0@ == Seq::<char>::empty() && r.1 == DownloadAction::NoWrite,
        chosen_dir is Some ==> r.0 == chosen_dir.unwrap() && r.1 == DownloadAction::SaveFilesZip(
            files,
            chosen_dir.unwrap(),
        ),
{
    match chosen_dir {
        Option::None => (String::new(), DownloadAction::NoWrite),
        Option::Some(path) => {
            let echoed = path.clone();
            (echoed, DownloadAction::SaveFilesZip(files, path))
        },
    }
}

/// Get-base-sync-path command: `configured` is the optional default sync
/// destination the host read from the process environment; unset means the
/// empty string.
pub fn get_base_sync_path(configured: Option<String>) -> (path: String)
    ensures
        configured is Some ==> path == configured.unwrap(),
        configured is None ==> path@ == Seq::<char>::empty(),
{
    match configured {
        Option::Some(p) => p,
        Option::None => String::new(),
    }
}

} // verus!
