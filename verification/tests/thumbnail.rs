use preview_cache::photo_sizes::PhotoSize;
use preview_cache::thumbnail::{
    cmd_get_thumbnail, ThumbnailCommand, ThumbnailEvent, ThumbnailMedia, ThumbnailMessage,
    ThumbnailStep, THUMBNAIL_DIRECTORY, THUMBNAIL_DOWNLOADS, THUMBNAIL_TIMEOUT_SECONDS,
};

fn names(list: &[&str]) -> Option<Vec<String>> {
    Some(list.iter().map(|n| n.to_string()).collect())
}

fn listed(names: Option<Vec<String>>) -> ThumbnailCommand {
    cmd_get_thumbnail(42, Some(1))
        .advance(ThumbnailEvent::PermitAcquired(Ok(())))
        .advance(ThumbnailEvent::CacheLocated(Ok(())))
        .advance(ThumbnailEvent::DirectoryExists(true))
        .advance(ThumbnailEvent::CacheListed(names))
}

fn replied(media: Option<ThumbnailMedia>) -> ThumbnailCommand {
    listed(None)
        .advance(ThumbnailEvent::ClientReady(true))
        .advance(ThumbnailEvent::PeerResolved(Ok(())))
        .advance(ThumbnailEvent::MessagesFetched(Ok(vec![Some(ThumbnailMessage { media })])))
}

fn document(mime: Option<&str>, thumbs: Vec<PhotoSize>) -> Option<ThumbnailMedia> {
    Some(ThumbnailMedia::Document { mime_type: mime.map(|m| m.to_string()), thumbs })
}

fn video() -> ThumbnailCommand {
    replied(document(Some("video/mp4"), vec![PhotoSize::Size { size: 1000 }, PhotoSize::Size { size: 9000 }]))
}

fn chunk(bytes: Vec<u8>) -> ThumbnailEvent {
    ThumbnailEvent::ChunkReceived(Ok(Some(bytes)))
}

fn answer(command: &ThumbnailCommand) -> Result<String, String> {
    match command.step() {
        ThumbnailStep::Finished { answer } => answer.clone(),
        step => panic!("not answered: {:?}", step),
    }
}

#[test]
fn settings() {
    assert_eq!(THUMBNAIL_DIRECTORY, "thumbnails");
    assert_eq!(THUMBNAIL_DOWNLOADS, 4);
    assert_eq!(THUMBNAIL_TIMEOUT_SECONDS, 20);
}

#[test]
fn early_errors_are_answered() {
    let command = cmd_get_thumbnail(1, None).advance(ThumbnailEvent::PermitAcquired(Err("closed".to_string())));
    assert_eq!(answer(&command), Err("closed".to_string()));
    let command = cmd_get_thumbnail(1, None)
        .advance(ThumbnailEvent::PermitAcquired(Ok(())))
        .advance(ThumbnailEvent::CacheLocated(Err("no dir".to_string())));
    assert_eq!(answer(&command), Err("no dir".to_string()));
}

#[test]
fn missing_directory_is_created() {
    let command = cmd_get_thumbnail(1, None)
        .advance(ThumbnailEvent::PermitAcquired(Ok(())))
        .advance(ThumbnailEvent::CacheLocated(Ok(())))
        .advance(ThumbnailEvent::DirectoryExists(false));
    assert!(matches!(command.step(), ThumbnailStep::CreateDirectory));
    let command = command.advance(ThumbnailEvent::DirectoryCreated);
    assert!(matches!(command.step(), ThumbnailStep::ListCache));
}

#[test]
fn cached_thumbnail_is_shown() {
    let command = listed(names(&["2_42.jpg", "1_420.jpg", "saved_42.jpg", "1_42.png"]));
    assert!(matches!(command.step(), ThumbnailStep::ReadEntry { index: 3, .. }));
    let command = command.advance(ThumbnailEvent::EntryRead(Some(b"foobar".to_vec())));
    assert_eq!(answer(&command), Ok("data:image/png;base64,Zm9vYmFy".to_string()));
}

#[test]
fn unreadable_entries_are_passed_over() {
    let command = listed(names(&["1_42.jpg", "other", "1_42.gif"]));
    assert!(matches!(command.step(), ThumbnailStep::ReadEntry { index: 0, .. }));
    let command = command.advance(ThumbnailEvent::EntryRead(None));
    assert!(matches!(command.step(), ThumbnailStep::ReadEntry { index: 2, .. }));
    let shown = command.advance(ThumbnailEvent::EntryRead(Some(vec![102])));
    assert_eq!(answer(&shown), Ok("data:image/gif;base64,Zg==".to_string()));
    let command = listed(names(&["1_42.jpg"])).advance(ThumbnailEvent::EntryRead(None));
    assert!(matches!(command.step(), ThumbnailStep::GetClient));
}

#[test]
fn nothing_cached_leads_to_telegram() {
    assert!(matches!(listed(names(&[])).step(), ThumbnailStep::GetClient));
    assert!(matches!(listed(None).step(), ThumbnailStep::GetClient));
    let command = listed(None).advance(ThumbnailEvent::ClientReady(false));
    assert_eq!(answer(&command), Ok(String::new()));
}

#[test]
fn thumbnail_peer_and_message_errors_are_answered() {
    let command = listed(None)
        .advance(ThumbnailEvent::ClientReady(true))
        .advance(ThumbnailEvent::PeerResolved(Err("unknown chat".to_string())));
    assert_eq!(answer(&command), Err("unknown chat".to_string()));
    let command = listed(None)
        .advance(ThumbnailEvent::ClientReady(true))
        .advance(ThumbnailEvent::PeerResolved(Ok(())))
        .advance(ThumbnailEvent::MessagesFetched(Err("flood".to_string())));
    assert_eq!(answer(&command), Err("flood".to_string()));
}

#[test]
fn media_without_picture_keep_their_icon() {
    assert_eq!(answer(&replied(None)), Ok(String::new()));
    assert_eq!(answer(&replied(Some(ThumbnailMedia::Other))), Ok(String::new()));
    assert_eq!(answer(&replied(document(Some("video/mp4"), vec![]))), Ok(String::new()));
    assert_eq!(answer(&replied(document(None, vec![PhotoSize::Empty]))), Ok(String::new()));
    let gap = listed(None)
        .advance(ThumbnailEvent::ClientReady(true))
        .advance(ThumbnailEvent::PeerResolved(Ok(())))
        .advance(ThumbnailEvent::MessagesFetched(Ok(vec![None])));
    assert_eq!(answer(&gap), Ok(String::new()));
}

#[test]
fn pictures_are_downloaded() {
    for (media, name, mime) in [
        (Some(ThumbnailMedia::Photo), "1_42.jpg", "image/jpeg"),
        (document(Some("image/png"), vec![]), "1_42.png", "image/png"),
        (document(Some("image/webp"), vec![]), "1_42.webp", "image/webp"),
        (document(Some("image/heic"), vec![]), "1_42.jpg", "image/jpeg"),
    ] {
        let command = replied(media);
        match command.step() {
            ThumbnailStep::DownloadMedia { message, name: chosen, .. } => {
                assert_eq!(*message, 0);
                assert_eq!(chosen, name);
            }
            step => panic!("{:?}", step),
        }
        let command = command.advance(ThumbnailEvent::Downloaded(true));
        assert!(matches!(command.step(), ThumbnailStep::ReadFile { name: read, .. } if read == name));
        let command = command.advance(ThumbnailEvent::FileRead(Some(b"fo".to_vec())));
        assert_eq!(answer(&command), Ok(format!("data:{};base64,Zm8=", mime)));
    }
}

#[test]
fn failed_pictures_keep_their_icon() {
    let command = replied(Some(ThumbnailMedia::Photo)).advance(ThumbnailEvent::Downloaded(false));
    assert_eq!(answer(&command), Ok(String::new()));
    let command = replied(Some(ThumbnailMedia::Photo))
        .advance(ThumbnailEvent::Downloaded(true))
        .advance(ThumbnailEvent::FileRead(None));
    assert_eq!(answer(&command), Ok(String::new()));
}

#[test]
fn video_is_shown_by_its_best_thumbnail() {
    let command = video();
    assert!(matches!(command.step(), ThumbnailStep::ReceiveChunk { message: 0, thumb: 1, bytes } if bytes.is_empty()));
    let command = command
        .advance(chunk(b"foo".to_vec()))
        .advance(chunk(b"bar".to_vec()))
        .advance(ThumbnailEvent::ChunkReceived(Ok(None)));
    match command.step() {
        ThumbnailStep::StoreThumbnail { name, bytes } => {
            assert_eq!(name, "1_42.jpg");
            assert_eq!(bytes, b"foobar");
        }
        step => panic!("{:?}", step),
    }
    let fresh = command.advance(ThumbnailEvent::ThumbnailStored);
    assert_eq!(answer(&fresh), Ok("data:image/jpeg;base64,Zm9vYmFy".to_string()));
    let again = listed(names(&["1_42.jpg"])).advance(ThumbnailEvent::EntryRead(Some(b"foobar".to_vec())));
    assert_eq!(answer(&again), answer(&fresh));
}

#[test]
fn incomplete_thumbnails_are_not_stored() {
    let failed = video().advance(chunk(vec![1])).advance(ThumbnailEvent::ChunkReceived(Err("lost".to_string())));
    assert_eq!(answer(&failed), Err("lost".to_string()));
    let late = video().advance(chunk(vec![1])).advance(ThumbnailEvent::TimedOut);
    assert_eq!(answer(&late), Err("Thumbnail request timed out".to_string()));
    let empty = video().advance(ThumbnailEvent::ChunkReceived(Ok(None)));
    assert_eq!(answer(&empty), Ok(String::new()));
}

#[test]
fn thumbnails_may_take_the_limit_and_no_more() {
    let full = video().advance(chunk(vec![7; 2 * 1024 * 1024])).advance(chunk(vec![]));
    assert!(matches!(full.step(), ThumbnailStep::ReceiveChunk { bytes, .. } if bytes.len() == 2 * 1024 * 1024));
    let over = full.advance(chunk(vec![7]));
    assert_eq!(answer(&over), Err("Thumbnail exceeds size limit".to_string()));
}

#[test]
fn other_thumbnail_events_change_nothing() {
    let command = video().advance(ThumbnailEvent::Downloaded(true));
    assert!(matches!(command.step(), ThumbnailStep::ReceiveChunk { .. }));
    let done = replied(None).advance(ThumbnailEvent::TimedOut);
    assert_eq!(answer(&done), Ok(String::new()));
}

#[test]
fn failed_commands_leave_the_cache_alone() {
    let endings: Vec<Vec<ThumbnailEvent>> = vec![
        vec![ThumbnailEvent::ChunkReceived(Err("lost".to_string()))],
        vec![chunk(vec![1, 2]), ThumbnailEvent::ChunkReceived(Err("lost".to_string()))],
        vec![chunk(vec![1, 2]), ThumbnailEvent::TimedOut],
        vec![chunk(vec![1]), chunk(vec![0; 6 * 1024 * 1024])],
    ];
    for events in endings {
        let mut command = video();
        for event in events {
            assert!(matches!(command.step(), ThumbnailStep::ReceiveChunk { .. }));
            command = command.advance(event);
        }
        assert!(answer(&command).is_err());
    }
    let written = video().advance(chunk(vec![102])).advance(ThumbnailEvent::ChunkReceived(Ok(None)));
    assert!(matches!(written.step(), ThumbnailStep::StoreThumbnail { .. }));
    assert!(answer(&written.advance(ThumbnailEvent::ThumbnailStored)).is_ok());
    let failed = replied(Some(ThumbnailMedia::Photo)).advance(ThumbnailEvent::Downloaded(false));
    assert!(answer(&failed).is_ok());
}
