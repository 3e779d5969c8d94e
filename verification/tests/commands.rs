use betternex::commands::{
    dialog_start_location, download_file, download_files, get_base_sync_path, DownloadAction,
};
use betternex::course::TrainexFile;

fn file(id: u64, name: &str) -> TrainexFile {
    TrainexFile { id, name: name.to_string() }
}

#[test]
fn download_file_cancelled_is_empty_sentinel() {
    let (path, action) = download_file(file(7, "slides.pdf"), None);
    assert_eq!(path, "");
    assert_eq!(action, DownloadAction::NoWrite);
}

#[test]
fn download_file_chosen_directory_is_echoed() {
    let (path, action) = download_file(file(7, "slides.pdf"), Some("/home/u/dl".to_string()));
    assert_eq!(path, "/home/u/dl");
    assert_eq!(
        action,
        DownloadAction::SaveFile(file(7, "slides.pdf"), "/home/u/dl".to_string())
    );
}

#[test]
fn download_files_cancelled_is_empty_sentinel() {
    let files = vec![file(1, "a"), file(2, "b")];
    let (path, action) = download_files(files, None);
    assert_eq!(path, "");
    assert_eq!(action, DownloadAction::NoWrite);
}

#[test]
fn download_files_chosen_directory_saves_zip() {
    let files = vec![file(1, "a"), file(2, "b")];
    let (path, action) = download_files(files.clone(), Some("/data".to_string()));
    assert_eq!(path, "/data");
    assert_eq!(action, DownloadAction::SaveFilesZip(files, "/data".to_string()));
}

#[test]
fn dialog_opens_in_download_directory() {
    let loc = dialog_start_location(Some("/home/u/Downloads".to_string()));
    assert_eq!(loc, "/home/u/Downloads");
}

#[test]
fn dialog_falls_back_to_desktop() {
    let loc = dialog_start_location(None);
    assert_eq!(loc, "~/Desktop");
}

#[test]
fn base_sync_path_unset_is_empty() {
    assert_eq!(get_base_sync_path(None), "");
}

#[test]
fn base_sync_path_configured_is_returned() {
    assert_eq!(get_base_sync_path(Some("/archive".to_string())), "/archive");
}
