use gdrive_api::sync::{sync_step, SyncAction, SyncEvent, SyncState};
use gdrive_api::DriveFile;

fn file(id: &str, name: &str, size: Option<u64>) -> DriveFile {
    DriveFile { id: id.to_string(), name: name.to_string(), size }
}

fn text(a: &SyncAction) -> &str {
    match a {
        SyncAction::ShowText(t) => t,
        _ => panic!("expected text, got {:?}", a),
    }
}

#[test]
fn downloads_sized_missing_files_in_order() {
    let mut s = SyncState::new();
    assert!(matches!(sync_step(&mut s, SyncEvent::Start), SyncAction::ListFiles));
    let files = vec![file("1", "folder", None), file("2", "a.pdf", Some(200)), file("3", "b.epub", Some(10))];
    assert!(matches!(sync_step(&mut s, SyncEvent::Listed(Ok(files))), SyncAction::CreateDir));
    let a = sync_step(&mut s, SyncEvent::DirCreated(Ok(())));
    assert!(matches!(&a, SyncAction::CheckExists { name } if name == "a.pdf"));
    let a = sync_step(&mut s, SyncEvent::Exists(false));
    assert_eq!(text(&a), "Downloading a.pdf...");
    let a = sync_step(&mut s, SyncEvent::Done);
    assert!(matches!(&a, SyncAction::StartDownload { id, name } if id == "2" && name == "a.pdf"));
    assert!(matches!(sync_step(&mut s, SyncEvent::DownloadStarted(Ok(()))), SyncAction::ReadChunk));
    assert!(s.chunk_ok(100));
    let a = sync_step(&mut s, SyncEvent::Chunk(Ok(Some(100))));
    assert_eq!(text(&a), "Downloading a.pdf... (50%)");
    assert!(matches!(sync_step(&mut s, SyncEvent::Done), SyncAction::ReadChunk));
    assert!(matches!(sync_step(&mut s, SyncEvent::Chunk(Ok(Some(101)))), SyncAction::Yield));
    assert!(matches!(sync_step(&mut s, SyncEvent::Done), SyncAction::ReadChunk));
    let a = sync_step(&mut s, SyncEvent::Chunk(Ok(Some(200))));
    assert_eq!(text(&a), "Downloading a.pdf... (100%)");
    assert!(matches!(sync_step(&mut s, SyncEvent::Done), SyncAction::ReadChunk));
    let a = sync_step(&mut s, SyncEvent::Chunk(Ok(None)));
    assert!(matches!(&a, SyncAction::RenameAndCount { name } if name == "a.pdf"));
    assert_eq!(s.count(), 1);
    let a = sync_step(&mut s, SyncEvent::Done);
    assert!(matches!(&a, SyncAction::CheckExists { name } if name == "b.epub"));
    let a = sync_step(&mut s, SyncEvent::Exists(true));
    assert!(matches!(&a, SyncAction::Finish(t) if t == "Downloaded 1 files"));
    assert!(matches!(sync_step(&mut s, SyncEvent::Done), SyncAction::Idle));
}

#[test]
fn small_progress_shows_two_digits() {
    let mut s = SyncState::new();
    sync_step(&mut s, SyncEvent::Start);
    sync_step(&mut s, SyncEvent::Listed(Ok(vec![file("9", "x", Some(1000))])));
    sync_step(&mut s, SyncEvent::DirCreated(Ok(())));
    sync_step(&mut s, SyncEvent::Exists(false));
    sync_step(&mut s, SyncEvent::Done);
    sync_step(&mut s, SyncEvent::DownloadStarted(Ok(())));
    assert!(matches!(sync_step(&mut s, SyncEvent::Chunk(Ok(Some(5)))), SyncAction::Yield));
    sync_step(&mut s, SyncEvent::Done);
    assert_eq!(text(&sync_step(&mut s, SyncEvent::Chunk(Ok(Some(70))))), "Downloading x... (07%)");
}

#[test]
fn nothing_to_download() {
    let mut s = SyncState::new();
    sync_step(&mut s, SyncEvent::Start);
    sync_step(&mut s, SyncEvent::Listed(Ok(vec![file("1", "d", None)])));
    let a = sync_step(&mut s, SyncEvent::DirCreated(Ok(())));
    assert!(matches!(&a, SyncAction::Finish(t) if t == "Downloaded 0 files"));
}

#[test]
fn first_error_stops_with_message() {
    let mut s = SyncState::new();
    sync_step(&mut s, SyncEvent::Start);
    let a = sync_step(&mut s, SyncEvent::Listed(Err("http: boom".to_string())));
    assert!(matches!(&a, SyncAction::Fail { title, message, remove_temp: false } if title == "Failed to list files" && message == "http: boom"));

    let mut s = SyncState::new();
    sync_step(&mut s, SyncEvent::Start);
    sync_step(&mut s, SyncEvent::Listed(Ok(vec![file("1", "a.pdf", Some(5))])));
    let a = sync_step(&mut s, SyncEvent::DirCreated(Err("denied".to_string())));
    assert!(matches!(&a, SyncAction::Fail { title, .. } if title == "Failed to create target dir"));

    let mut s = SyncState::new();
    sync_step(&mut s, SyncEvent::Start);
    sync_step(&mut s, SyncEvent::Listed(Ok(vec![file("1", "a.pdf", Some(5))])));
    sync_step(&mut s, SyncEvent::DirCreated(Ok(())));
    sync_step(&mut s, SyncEvent::Exists(false));
    sync_step(&mut s, SyncEvent::Done);
    let a = sync_step(&mut s, SyncEvent::DownloadStarted(Err("x".to_string())));
    assert!(matches!(&a, SyncAction::Fail { title, remove_temp: true, .. } if title == "Failed to download file"));

    let mut s = SyncState::new();
    sync_step(&mut s, SyncEvent::Start);
    sync_step(&mut s, SyncEvent::Listed(Ok(vec![file("1", "a.pdf", Some(5))])));
    sync_step(&mut s, SyncEvent::DirCreated(Ok(())));
    sync_step(&mut s, SyncEvent::Exists(false));
    sync_step(&mut s, SyncEvent::Done);
    sync_step(&mut s, SyncEvent::DownloadStarted(Ok(())));
    let a = sync_step(&mut s, SyncEvent::Chunk(Err("reset".to_string())));
    assert!(matches!(&a, SyncAction::Fail { title, message, remove_temp: true } if title == "Failed to download next chunk" && message == "reset"));
    assert!(matches!(sync_step(&mut s, SyncEvent::Done), SyncAction::Idle));
}

#[test]
fn chunk_needs_a_size_and_a_small_count() {
    let mut s = SyncState::new();
    sync_step(&mut s, SyncEvent::Start);
    sync_step(&mut s, SyncEvent::Listed(Ok(vec![file("1", "a.pdf", Some(0))])));
    sync_step(&mut s, SyncEvent::DirCreated(Ok(())));
    sync_step(&mut s, SyncEvent::Exists(false));
    sync_step(&mut s, SyncEvent::Done);
    sync_step(&mut s, SyncEvent::DownloadStarted(Ok(())));
    assert!(!s.chunk_ok(1));
    let mut s2 = SyncState::new();
    assert!(s2.chunk_ok(u64::MAX));
    assert!(matches!(sync_step(&mut s2, SyncEvent::Exists(true)), SyncAction::Idle));
}
