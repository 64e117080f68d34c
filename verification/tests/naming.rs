use preview_cache::decimal::decimal_text;
use preview_cache::naming::{preview_file_name, thumbnail_cache_prefix};

#[test]
fn separates_same_message_id_in_different_channels_and_saved_messages() {
    assert_ne!(thumbnail_cache_prefix(Some(1), 42), thumbnail_cache_prefix(Some(2), 42));
    assert_ne!(thumbnail_cache_prefix(None, 42), thumbnail_cache_prefix(Some(0), 42));
    assert!(!"1_420.jpg".starts_with(&thumbnail_cache_prefix(Some(1), 42)));
}

#[test]
fn writes_integers_as_the_standard_library_does() {
    for i in [0, 7, 9, 10, 42, 100, 1_234_567_890, i64::MAX, -1, -10, -1_000_000_000_123, i64::MIN] {
        assert_eq!(decimal_text(i), i.to_string());
    }
}

#[test]
fn thumbnail_prefixes() {
    assert_eq!(thumbnail_cache_prefix(Some(-1001234), 42), "-1001234_42.");
    assert_eq!(thumbnail_cache_prefix(None, -7), "saved_-7.");
    assert_eq!(thumbnail_cache_prefix(Some(i64::MIN), i32::MIN), format!("{}_{}.", i64::MIN, i32::MIN));
}

#[test]
fn preview_names() {
    assert_eq!(preview_file_name(Some(5), 42, "mp4"), "5_42.mp4");
    assert_eq!(preview_file_name(None, 42, "jpg"), "home_42.jpg");
    assert_eq!(preview_file_name(None, 0, ""), "home_0.");
}

#[test]
fn thumbnails_match_their_own_message_alone() {
    let messages = [(None, 42), (Some(1), 42), (Some(1), 4), (Some(1), 420), (Some(11), 42), (Some(-1), 42), (Some(1), -42)];
    for owner in messages {
        let name = format!("{}jpg", thumbnail_cache_prefix(owner.0, owner.1));
        for asker in messages {
            let found = name.starts_with(&thumbnail_cache_prefix(asker.0, asker.1));
            assert_eq!(found, owner == asker);
        }
    }
}

#[test]
fn previews_of_different_messages_have_different_names() {
    let names = vec![
        preview_file_name(None, 1, "jpg"),
        preview_file_name(Some(0), 1, "jpg"),
        preview_file_name(Some(0), 1, "png"),
        preview_file_name(Some(0), 11, "jpg"),
        preview_file_name(Some(1), 0, "jpg"),
    ];
    for i in 0..names.len() {
        for j in 0..i {
            assert_ne!(names[i], names[j]);
        }
    }
}
