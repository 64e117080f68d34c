use grammers_client::types::media::Document;
use grammers_client::types::photo_sizes::PhotoSize as ClientPhotoSize;
use grammers_client::types::Downloadable;
use grammers_tl_types as tl;
use grammers_tl_types::{Deserializable, Identifiable, Serializable};
use preview_cache::photo_sizes::{best_document_thumbnail, PhotoSize};

fn from_wire(wire: Vec<u8>) -> tl::enums::PhotoSize {
    tl::enums::PhotoSize::from_bytes(&wire).unwrap()
}

fn begun(id: u32, kind: &str) -> Vec<u8> {
    let mut wire = Vec::new();
    id.serialize(&mut wire);
    String::from(kind).serialize(&mut wire);
    wire
}

fn photo_size_empty(kind: &str) -> tl::enums::PhotoSize {
    from_wire(begun(tl::types::PhotoSizeEmpty::CONSTRUCTOR_ID, kind))
}

fn photo_size(kind: &str, w: i32, h: i32, size: i32) -> tl::enums::PhotoSize {
    let mut wire = begun(tl::types::PhotoSize::CONSTRUCTOR_ID, kind);
    w.serialize(&mut wire);
    h.serialize(&mut wire);
    size.serialize(&mut wire);
    from_wire(wire)
}

fn photo_cached_size(kind: &str, w: i32, h: i32, bytes: Vec<u8>) -> tl::enums::PhotoSize {
    let mut wire = begun(tl::types::PhotoCachedSize::CONSTRUCTOR_ID, kind);
    w.serialize(&mut wire);
    h.serialize(&mut wire);
    bytes.serialize(&mut wire);
    from_wire(wire)
}

fn photo_stripped_size(kind: &str, bytes: Vec<u8>) -> tl::enums::PhotoSize {
    let mut wire = begun(tl::types::PhotoStrippedSize::CONSTRUCTOR_ID, kind);
    bytes.serialize(&mut wire);
    from_wire(wire)
}

fn photo_size_progressive(kind: &str, w: i32, h: i32, sizes: Vec<i32>) -> tl::enums::PhotoSize {
    let mut wire = begun(tl::types::PhotoSizeProgressive::CONSTRUCTOR_ID, kind);
    w.serialize(&mut wire);
    h.serialize(&mut wire);
    sizes.serialize(&mut wire);
    from_wire(wire)
}

fn photo_path_size(kind: &str, bytes: Vec<u8>) -> tl::enums::PhotoSize {
    let mut wire = begun(tl::types::PhotoPathSize::CONSTRUCTOR_ID, kind);
    bytes.serialize(&mut wire);
    from_wire(wire)
}

fn video_thumbs(thumbs: Vec<tl::enums::PhotoSize>) -> Vec<ClientPhotoSize> {
    Document::from_raw_media(tl::types::MessageMediaDocument {
        nopremium: false, spoiler: false, video: true, round: false, voice: false,
        document: Some(tl::types::Document {
            id: 123, access_hash: 456, file_reference: vec![1], date: 0,
            mime_type: "video/mp4".into(), size: 100_000_000,
            thumbs: Some(thumbs), video_thumbs: None, dc_id: 2, attributes: vec![],
        }.into()),
        alt_documents: None, video_cover: None, video_timestamp: None, ttl_seconds: None,
    }).thumbs()
}

fn described(thumb: &ClientPhotoSize) -> PhotoSize {
    match thumb {
        ClientPhotoSize::Empty(_) => PhotoSize::Empty,
        ClientPhotoSize::Size(s) => PhotoSize::Size { size: s.size },
        ClientPhotoSize::Cached(s) => PhotoSize::Cached { bytes: s.bytes.clone() },
        ClientPhotoSize::Stripped(s) => PhotoSize::Stripped { bytes: s.bytes.clone() },
        ClientPhotoSize::Progressive(s) => PhotoSize::Progressive { sizes: s.sizes.clone() },
        ClientPhotoSize::Path(s) => PhotoSize::Path { bytes: s.bytes.clone() },
    }
}

fn best(thumbs: Vec<ClientPhotoSize>) -> Option<ClientPhotoSize> {
    let offered: Vec<PhotoSize> = thumbs.iter().map(described).collect();
    best_document_thumbnail(&offered).map(|i| thumbs[i].clone())
}

#[test]
fn uses_document_thumbnail_location_not_full_video() {
    let thumbs = video_thumbs(vec![
        photo_size("s", 90, 90, 1000),
        photo_size("m", 320, 180, 9000),
    ]);
    let thumb = best(thumbs).unwrap();
    match thumb.to_raw_input_location().unwrap() {
        tl::enums::InputFileLocation::InputDocumentFileLocation(location) => {
            assert_eq!(location.id, 123);
            assert_eq!(location.thumb_size, "m");
        }
        _ => panic!("expected a document thumbnail location"),
    }
}

#[test]
fn skips_missing_vector_and_oversized_thumbnails() {
    assert!(best(video_thumbs(vec![])).is_none());
    let thumbs = video_thumbs(vec![
        photo_size_empty("s"),
        photo_path_size("j", vec![1, 2]),
        photo_size("w", 4000, 4000, 3_000_000),
    ]);
    assert!(best(thumbs).is_none());
}

#[test]
fn supports_inline_thumbnails_without_network_download() {
    let thumb = best(video_thumbs(vec![
        photo_cached_size("s", 90, 90, vec![1, 2, 3]),
    ])).unwrap();
    assert_eq!(thumb.to_data(), Some(vec![1, 2, 3]));
}

#[test]
fn sizes_agree_with_the_client() {
    let sizes: Vec<tl::enums::PhotoSize> = vec![
        photo_size_empty("x"),
        photo_size("x", 1, 1, 0),
        photo_size("x", 1, 1, 77),
        photo_size("x", 1, 1, -1),
        photo_size("x", 1, 1, i32::MIN),
        photo_cached_size("x", 1, 1, vec![]),
        photo_cached_size("x", 1, 1, vec![9; 5]),
        photo_stripped_size("x", vec![1, 2]),
        photo_stripped_size("x", vec![2, 2, 3]),
        photo_stripped_size("x", vec![1, 2, 3, 4]),
        photo_size_progressive("x", 1, 1, vec![]),
        photo_size_progressive("x", 1, 1, vec![-5]),
        photo_size_progressive("x", 1, 1, vec![3, 90, 7]),
        photo_path_size("x", vec![1, 2, 3]),
    ];
    for thumb in video_thumbs(sizes) {
        assert_eq!(described(&thumb).size(), thumb.size());
    }
}

#[test]
fn sizes_of_each_variant() {
    assert_eq!(PhotoSize::Empty.size(), 0);
    assert_eq!(PhotoSize::Size { size: 9000 }.size(), 9000);
    assert_eq!(PhotoSize::Size { size: -1 }.size(), usize::MAX);
    assert_eq!(PhotoSize::Cached { bytes: vec![1, 2, 3] }.size(), 3);
    assert_eq!(PhotoSize::Stripped { bytes: vec![1, 2, 3] }.size(), 625);
    assert_eq!(PhotoSize::Stripped { bytes: vec![0, 2, 3] }.size(), 0);
    assert_eq!(PhotoSize::Progressive { sizes: vec![10, 30, 20] }.size(), 30);
    assert_eq!(PhotoSize::Path { bytes: vec![1, 2] }.size(), 2);
}

#[test]
fn takes_the_last_of_the_largest() {
    let offered = vec![
        PhotoSize::Size { size: 500 },
        PhotoSize::Cached { bytes: vec![0; 700] },
        PhotoSize::Progressive { sizes: vec![100, 700] },
        PhotoSize::Path { bytes: vec![0; 900] },
        PhotoSize::Size { size: 600 },
    ];
    assert_eq!(best_document_thumbnail(&offered), Some(2));
}

#[test]
fn admits_exactly_the_limit() {
    assert_eq!(best_document_thumbnail(&vec![PhotoSize::Size { size: 2 * 1024 * 1024 }]), Some(0));
    assert_eq!(best_document_thumbnail(&vec![PhotoSize::Size { size: 2 * 1024 * 1024 + 1 }]), None);
    assert_eq!(best_document_thumbnail(&vec![PhotoSize::Size { size: 0 }]), None);
    assert_eq!(best_document_thumbnail(&vec![PhotoSize::Size { size: -3 }]), None);
}
