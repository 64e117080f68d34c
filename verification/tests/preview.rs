use preview_cache::messages::first_message;
use preview_cache::preview::{
    cmd_get_preview, preview_extension, PreviewCommand, PreviewEvent, PreviewMedia, PreviewMessage,
    PreviewStep, PREVIEW_DIRECTORY,
};
use preview_cache::prune::{prune_preview_cache, DirEntry, FileMetadata};

fn document(name: &str, mime: Option<&str>, size: i64) -> PreviewMedia {
    PreviewMedia::Document { name: name.to_string(), mime_type: mime.map(|m| m.to_string()), size }
}

fn reply(media: PreviewMedia) -> PreviewEvent {
    PreviewEvent::MessagesFetched(Ok(vec![Some(PreviewMessage { media: Some(media) })]))
}

fn connected() -> PreviewCommand {
    cmd_get_preview(42, Some(7))
        .advance(PreviewEvent::CacheLocated(Ok(())))
        .advance(PreviewEvent::DirectoryExists(true))
        .advance(PreviewEvent::CachePruned)
        .advance(PreviewEvent::ClientReady(true))
        .advance(PreviewEvent::PeerResolved(Ok(())))
}

fn located(media: PreviewMedia, exists: bool) -> PreviewCommand {
    connected()
        .advance(reply(media))
        .advance(PreviewEvent::FileLocated { path: "/c/previews/f".to_string(), exists })
}

fn answer(command: &PreviewCommand) -> Result<String, String> {
    match command.step() {
        PreviewStep::Finished { answer } => answer.clone(),
        step => panic!("not answered: {:?}", step),
    }
}

fn nothing_found() -> Result<String, String> {
    Err("File not found or failed to download".to_string())
}

#[test]
fn directory_name() {
    assert_eq!(PREVIEW_DIRECTORY, "previews");
}

#[test]
fn missing_cache_directory_is_an_error() {
    let command = cmd_get_preview(1, None).advance(PreviewEvent::CacheLocated(Err("no dir".to_string())));
    assert_eq!(answer(&command), Err("no dir".to_string()));
}

#[test]
fn missing_preview_directory_is_created() {
    let command = cmd_get_preview(1, None)
        .advance(PreviewEvent::CacheLocated(Ok(())))
        .advance(PreviewEvent::DirectoryExists(false));
    assert!(matches!(command.step(), PreviewStep::CreateDirectory));
    let command = command.advance(PreviewEvent::DirectoryCreated);
    assert!(matches!(command.step(), PreviewStep::PruneCache));
}

#[test]
fn without_connection_the_answer_is_empty() {
    let command = cmd_get_preview(1, None)
        .advance(PreviewEvent::CacheLocated(Ok(())))
        .advance(PreviewEvent::DirectoryExists(true))
        .advance(PreviewEvent::CachePruned)
        .advance(PreviewEvent::ClientReady(false));
    assert_eq!(answer(&command), Ok(String::new()));
}

#[test]
fn peer_and_message_errors_are_answered() {
    let command = cmd_get_preview(1, None)
        .advance(PreviewEvent::CacheLocated(Ok(())))
        .advance(PreviewEvent::DirectoryExists(true))
        .advance(PreviewEvent::CachePruned)
        .advance(PreviewEvent::ClientReady(true))
        .advance(PreviewEvent::PeerResolved(Err("unknown chat".to_string())));
    assert_eq!(answer(&command), Err("unknown chat".to_string()));
    let command = connected().advance(PreviewEvent::MessagesFetched(Err("flood".to_string())));
    assert_eq!(answer(&command), Err("flood".to_string()));
}

#[test]
fn nothing_to_show_is_an_error() {
    let none = connected().advance(PreviewEvent::MessagesFetched(Ok(vec![])));
    assert_eq!(answer(&none), nothing_found());
    let gap = connected().advance(PreviewEvent::MessagesFetched(Ok(vec![None])));
    assert_eq!(answer(&gap), nothing_found());
    let bare = connected().advance(PreviewEvent::MessagesFetched(Ok(vec![Some(PreviewMessage { media: None })])));
    assert_eq!(answer(&bare), nothing_found());
}

#[test]
fn names_the_file_after_chat_message_and_extension() {
    let command = connected().advance(reply(document("clip.mov", Some("video/mp4"), 900)));
    match command.step() {
        PreviewStep::LocateFile { file } => {
            assert_eq!(file.message, 0);
            assert_eq!(file.name, "7_42.mov");
            assert_eq!(file.extension, "mov");
            assert_eq!(file.size, 900);
        }
        step => panic!("{:?}", step),
    }
}

#[test]
fn takes_the_first_message_of_the_reply() {
    let messages = vec![None, Some(PreviewMessage { media: Some(PreviewMedia::Photo) }), None];
    assert_eq!(first_message(&messages), Some(1));
    let command = connected().advance(PreviewEvent::MessagesFetched(Ok(messages)));
    match command.step() {
        PreviewStep::LocateFile { file } => {
            assert_eq!(file.message, 1);
            assert_eq!(file.name, "7_42.jpg");
            assert_eq!(file.size, 1024 * 1024);
        }
        step => panic!("{:?}", step),
    }
}

#[test]
fn sizes_and_extensions_of_media() {
    assert_eq!(preview_extension(&PreviewMedia::Photo), "jpg");
    assert_eq!(preview_extension(&PreviewMedia::Other), "bin");
    assert_eq!(preview_extension(&document("", Some("video/mp4"), 1)), "mp4");
    let command = connected().advance(reply(PreviewMedia::Other));
    assert!(matches!(command.step(), PreviewStep::LocateFile { file } if file.size == 0 && file.name == "7_42.bin"));
    let command = connected().advance(reply(document("a.b", None, -2)));
    assert!(matches!(command.step(), PreviewStep::LocateFile { file } if file.size == (-2i64) as u64));
}

#[test]
fn cached_picture_is_read_without_download() {
    let command = located(document("a.PNG", None, 10), true);
    match command.step() {
        PreviewStep::ReadFile { mime, path } => {
            assert_eq!(mime, "image/png");
            assert_eq!(path, "/c/previews/f");
        }
        step => panic!("{:?}", step),
    }
    let command = command.advance(PreviewEvent::FileRead(Some(b"foobar".to_vec())));
    assert_eq!(answer(&command), Ok("data:image/png;base64,Zm9vYmFy".to_string()));
}

#[test]
fn unreadable_picture_is_named_by_its_path() {
    let command = located(PreviewMedia::Photo, true).advance(PreviewEvent::FileRead(None));
    assert_eq!(answer(&command), Ok("/c/previews/f".to_string()));
}

#[test]
fn other_files_are_named_by_their_path() {
    assert_eq!(answer(&located(document("clip.mp4", None, 10), true)), Ok("/c/previews/f".to_string()));
}

#[test]
fn download_needs_bandwidth() {
    let command = located(PreviewMedia::Photo, false);
    assert!(matches!(command.step(), PreviewStep::CheckTransfer { file, .. } if file.size == 1024 * 1024));
    let refused = command.advance(PreviewEvent::TransferAllowed(false));
    assert_eq!(answer(&refused), nothing_found());
}

#[test]
fn failed_download_is_an_error() {
    let command = located(PreviewMedia::Photo, false)
        .advance(PreviewEvent::TransferAllowed(true))
        .advance(PreviewEvent::Downloaded(false));
    assert_eq!(answer(&command), nothing_found());
}

#[test]
fn complete_download_is_counted_pruned_and_shown() {
    let command = located(PreviewMedia::Photo, false).advance(PreviewEvent::TransferAllowed(true));
    assert!(matches!(command.step(), PreviewStep::Download { path, .. } if path == "/c/previews/f"));
    let command = command.advance(PreviewEvent::Downloaded(true));
    assert!(matches!(command.step(), PreviewStep::RecordTransfer { file, .. } if file.size == 1024 * 1024));
    let command = command.advance(PreviewEvent::TransferRecorded);
    assert!(matches!(command.step(), PreviewStep::PruneAgain { .. }));
    let fresh = command.advance(PreviewEvent::CachePruned).advance(PreviewEvent::FileRead(Some(vec![102])));
    let cached = located(PreviewMedia::Photo, true).advance(PreviewEvent::FileRead(Some(vec![102])));
    assert_eq!(answer(&fresh), Ok("data:image/jpeg;base64,Zg==".to_string()));
    assert_eq!(answer(&fresh), answer(&cached));
}

#[test]
fn other_events_change_nothing() {
    let command = connected().advance(PreviewEvent::CachePruned);
    assert!(matches!(command.step(), PreviewStep::FetchMessages));
    let command = cmd_get_preview(1, None).advance(reply(PreviewMedia::Photo));
    assert!(matches!(command.step(), PreviewStep::LocateCache));
    let done = located(document("clip.mp4", None, 10), true).advance(PreviewEvent::Downloaded(true));
    assert_eq!(answer(&done), Ok("/c/previews/f".to_string()));
}

fn pruned(entries: Vec<DirEntry>) -> Vec<DirEntry> {
    let plan = prune_preview_cache(&entries);
    (0..entries.len()).filter(|i| !plan.contains(i)).map(|i| entries[i]).collect()
}

#[test]
fn answered_preview_leaves_the_cache_within_limits() {
    let file = |modified: i128, len: u64| DirEntry {
        is_file: true,
        metadata: Some(FileMetadata { modified: Some(modified), len }),
    };
    let mut directory: Vec<DirEntry> = (0..35).map(|i| file(i, 1024 * 1024)).collect();
    let mut command = cmd_get_preview(42, Some(7));
    loop {
        let event = match command.step() {
            PreviewStep::LocateCache => PreviewEvent::CacheLocated(Ok(())),
            PreviewStep::CheckDirectory => PreviewEvent::DirectoryExists(true),
            PreviewStep::CreateDirectory => PreviewEvent::DirectoryCreated,
            PreviewStep::PruneCache | PreviewStep::PruneAgain { .. } => {
                directory = pruned(directory);
                PreviewEvent::CachePruned
            }
            PreviewStep::GetClient => PreviewEvent::ClientReady(true),
            PreviewStep::ResolvePeer => PreviewEvent::PeerResolved(Ok(())),
            PreviewStep::FetchMessages => reply(document("clip.mp4", None, 70)),
            PreviewStep::LocateFile { .. } => {
                PreviewEvent::FileLocated { path: "/c/f".to_string(), exists: false }
            }
            PreviewStep::CheckTransfer { .. } => PreviewEvent::TransferAllowed(true),
            PreviewStep::Download { .. } => {
                assert_eq!(directory.len(), 30);
                directory.push(file(99, 70 * 1024 * 1024));
                PreviewEvent::Downloaded(true)
            }
            PreviewStep::RecordTransfer { .. } => PreviewEvent::TransferRecorded,
            PreviewStep::ReadFile { .. } => PreviewEvent::FileRead(None),
            PreviewStep::Finished { .. } => break,
        };
        command = command.advance(event);
    }
    assert_eq!(answer(&command), Ok("/c/f".to_string()));
    assert_eq!(directory.len(), 11);
    let total: u64 = directory.iter().map(|e| e.metadata.unwrap().len).sum();
    assert_eq!(total, 80 * 1024 * 1024);
}

#[test]
fn shown_preview_is_shown_alike_later() {
    for (media, content) in [
        (("a.png", 10), Some(b"foobar".to_vec())),
        (("a.png", 10), None),
        (("clip.mp4", 900), None),
    ] {
        let show = |command: PreviewCommand| match command.step() {
            PreviewStep::ReadFile { .. } => answer(&command.advance(PreviewEvent::FileRead(content.clone()))),
            _ => answer(&command),
        };
        let (name, size) = media;
        let cached = show(located(document(name, None, size), true));
        let downloaded = show(
            located(document(name, None, size), false)
                .advance(PreviewEvent::TransferAllowed(true))
                .advance(PreviewEvent::Downloaded(true))
                .advance(PreviewEvent::TransferRecorded)
                .advance(PreviewEvent::CachePruned),
        );
        let later = show(
            cmd_get_preview(42, Some(7))
                .advance(PreviewEvent::CacheLocated(Ok(())))
                .advance(PreviewEvent::DirectoryExists(false))
                .advance(PreviewEvent::DirectoryCreated)
                .advance(PreviewEvent::CachePruned)
                .advance(PreviewEvent::ClientReady(true))
                .advance(PreviewEvent::PeerResolved(Ok(())))
                .advance(reply(document(name, None, size)))
                .advance(PreviewEvent::FileLocated { path: "/c/previews/f".to_string(), exists: true }),
        );
        assert!(cached.is_ok());
        assert_eq!(downloaded, cached);
        assert_eq!(later, cached);
    }
}
