use preview_cache::clean::{cmd_clean_cache, CleanEvent, CleanStep, REMUX_DIRECTORY};

fn run(exists: bool, data: bool, streams: bool, cleared: bool) -> (Vec<String>, Result<(), String>) {
    let mut command = cmd_clean_cache();
    let mut done = Vec::new();
    loop {
        let event = match command.step() {
            CleanStep::LocateCache => CleanEvent::CacheLocated(Ok(())),
            CleanStep::CheckPreviews | CleanStep::CheckThumbnails | CleanStep::CheckRemux => {
                CleanEvent::Exists(exists)
            }
            CleanStep::LocateData => CleanEvent::DataLocated(data),
            CleanStep::FindStreamCache => CleanEvent::StreamCacheFound(streams),
            CleanStep::RemovePreviews | CleanStep::RemoveThumbnails | CleanStep::RemoveRemux => {
                done.push(format!("{:?}", command.step()));
                CleanEvent::Removed
            }
            CleanStep::ClearStreams | CleanStep::ClearStreamsSimply => {
                done.push(format!("{:?}", command.step()));
                CleanEvent::StreamsCleared(cleared)
            }
            CleanStep::Finished { answer } => return (done, answer.clone()),
        };
        command = command.advance(event);
    }
}

#[test]
fn remux_directory() {
    assert_eq!(REMUX_DIRECTORY, "nobuf_remux");
}

#[test]
fn empties_all_caches() {
    let (done, answer) = run(true, true, true, true);
    assert_eq!(done, vec!["RemovePreviews", "RemoveThumbnails", "ClearStreams", "RemoveRemux"]);
    assert_eq!(answer, Ok(()));
}

#[test]
fn falls_back_to_the_simple_way() {
    let (done, answer) = run(true, false, true, false);
    assert_eq!(done, vec!["RemovePreviews", "ClearStreams", "ClearStreamsSimply", "RemoveRemux"]);
    assert_eq!(answer, Ok(()));
}

#[test]
fn nothing_there_is_no_error() {
    let (done, answer) = run(false, true, false, true);
    assert!(done.is_empty());
    assert_eq!(answer, Ok(()));
}

#[test]
fn missing_cache_directory_stops_cleaning() {
    let command = cmd_clean_cache().advance(CleanEvent::CacheLocated(Err("no dir".to_string())));
    match command.step() {
        CleanStep::Finished { answer } => assert_eq!(*answer, Err("no dir".to_string())),
        step => panic!("{:?}", step),
    }
}

#[test]
fn other_events_do_not_clean() {
    let command = cmd_clean_cache().advance(CleanEvent::Removed);
    assert!(matches!(command.step(), CleanStep::LocateCache));
}

#[test]
fn simple_clearing_may_fail() {
    for simply in [true, false] {
        let mut command = cmd_clean_cache();
        for event in [
            CleanEvent::CacheLocated(Ok(())),
            CleanEvent::Exists(false),
            CleanEvent::DataLocated(false),
            CleanEvent::StreamCacheFound(true),
            CleanEvent::StreamsCleared(false),
        ] {
            command = command.advance(event);
        }
        assert!(matches!(command.step(), CleanStep::ClearStreamsSimply));
        let command = command.advance(CleanEvent::StreamsCleared(simply));
        assert!(matches!(command.step(), CleanStep::CheckRemux));
        let command = command.advance(CleanEvent::Exists(false));
        assert!(matches!(command.step(), CleanStep::Finished { answer: Ok(()) }));
    }
}
