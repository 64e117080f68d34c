use preview_cache::data_url::{data_url, url_of_payload};
use preview_cache::formats::{
    choose_extension, extension_of_document, inline_type, picture_type_of, thumbnail_extension_of,
    thumbnail_type_of,
};
use preview_cache::text::{join, last_piece, same_text, starts_with};

fn some(text: &str) -> Option<String> {
    Some(text.to_string())
}

#[test]
fn encodes_base64() {
    assert_eq!(data_url("image/png", &[]), "data:image/png;base64,");
    assert_eq!(data_url("image/png", b"f"), "data:image/png;base64,Zg==");
    assert_eq!(data_url("image/jpeg", b"fo"), "data:image/jpeg;base64,Zm8=");
    assert_eq!(data_url("image/gif", b"foobar"), "data:image/gif;base64,Zm9vYmFy");
    assert_eq!(data_url("image/webp", &[0xfb, 0xff, 0xbf]), "data:image/webp;base64,+/+/");
}

#[test]
fn frames_a_payload() {
    assert_eq!(url_of_payload("image/bmp", "QUJD"), "data:image/bmp;base64,QUJD");
}

#[test]
fn extension_of_plain_names() {
    assert_eq!(extension_of_document("clip.mp4", &None), "mp4");
    assert_eq!(extension_of_document("archive.tar.gz", &None), "gz");
    assert_eq!(extension_of_document("Photo.JPG", &some("image/png")), "JPG");
    assert_eq!(extension_of_document("..a", &None), "a");
    assert_eq!(extension_of_document("snow.man \u{2603}", &None), "man \u{2603}");
}

#[test]
fn names_without_extension_fall_back_to_the_type() {
    for name in ["", "noext", ".hidden", "..", ".", "trailing.", "..."] {
        assert_eq!(extension_of_document(name, &some("image/jpeg")), "jpg");
    }
    assert_eq!(extension_of_document("x", &some("image/png")), "png");
    assert_eq!(extension_of_document("x", &some("video/mp4")), "mp4");
    assert_eq!(extension_of_document("x", &some("image/gif")), "bin");
    assert_eq!(extension_of_document("x", &some("")), "bin");
    assert_eq!(extension_of_document("x", &None), "bin");
}

#[test]
fn extension_is_that_of_the_last_component() {
    assert_eq!(extension_of_document("a.b/c", &some("image/png")), "png");
    assert_eq!(extension_of_document("a/b.c", &None), "c");
    assert_eq!(extension_of_document("a.b/./", &None), "b");
}

#[test]
fn earlier_components_have_no_say() {
    assert_eq!(extension_of_document("a.b/c\\d", &some("image/png")), "png");
    assert_eq!(extension_of_document("a.b\\c/d", &None), "bin");
    assert_eq!(extension_of_document("a.b/..", &some("video/mp4")), "mp4");
    assert_eq!(extension_of_document("a.b/.c", &None), "bin");
    assert_eq!(extension_of_document("a.b\\x/c.d//./.", &None), "d");
    assert_eq!(extension_of_document("/.", &None), "bin");
    assert_eq!(extension_of_document("./.", &None), "bin");
}

#[test]
fn colons_and_backslashes_leave_the_extension() {
    assert_eq!(extension_of_document("Part 2: end.mkv", &None), "mkv");
    assert_eq!(extension_of_document("C:clip.mov", &Some("video/mp4".to_string())), "mov");
    assert_eq!(extension_of_document("a\\b.c", &None), "c");
}

#[test]
fn data_urls_tell_pictures_apart() {
    let pictures: [&[u8]; 6] = [b"", &[0], &[0, 0], &[0, 0, 0], &[0, 0, 0, 0], &[255, 254, 253]];
    for a in pictures {
        for b in pictures {
            assert_eq!(data_url("image/png", a) == data_url("image/png", b), a == b);
        }
    }
    assert_eq!(data_url("image/png", &[255, 254, 253, 252]), "data:image/png;base64,//79/A==");
}

#[test]
fn chooses_between_name_and_type() {
    assert_eq!(choose_extension(some("heic"), &some("image/jpeg")), "heic");
    assert_eq!(choose_extension(some(""), &some("image/jpeg")), "jpg");
    assert_eq!(choose_extension(None, &some("image/png")), "png");
    assert_eq!(choose_extension(None, &None), "bin");
}

#[test]
fn picture_types() {
    assert_eq!(picture_type_of("jpg"), some("image/jpeg"));
    assert_eq!(picture_type_of("jpeg"), some("image/jpeg"));
    assert_eq!(picture_type_of("png"), some("image/png"));
    assert_eq!(picture_type_of("gif"), some("image/gif"));
    assert_eq!(picture_type_of("webp"), some("image/webp"));
    assert_eq!(picture_type_of("bmp"), some("image/bmp"));
    assert_eq!(picture_type_of("svg"), some("image/svg+xml"));
    assert_eq!(picture_type_of("PNG"), None);
    assert_eq!(picture_type_of("mp4"), None);
    assert_eq!(picture_type_of(""), None);
}

#[test]
fn inline_types_ignore_case() {
    assert_eq!(inline_type("JPG"), some("image/jpeg"));
    assert_eq!(inline_type("WebP"), some("image/webp"));
    assert_eq!(inline_type("pdf"), None);
    assert_eq!(inline_type("G\u{130}F"), None);
}

#[test]
fn thumbnail_types_and_extensions() {
    assert_eq!(thumbnail_type_of("png"), "image/png");
    assert_eq!(thumbnail_type_of("gif"), "image/gif");
    assert_eq!(thumbnail_type_of("webp"), "image/webp");
    assert_eq!(thumbnail_type_of("jpg"), "image/jpeg");
    assert_eq!(thumbnail_type_of("PNG"), "image/jpeg");
    assert_eq!(thumbnail_extension_of("image/png"), "png");
    assert_eq!(thumbnail_extension_of("image/gif"), "gif");
    assert_eq!(thumbnail_extension_of("image/webp"), "webp");
    assert_eq!(thumbnail_extension_of("image/tiff"), "jpg");
}

#[test]
fn thumbnail_types_survive_the_cache() {
    for mime in ["image/png", "image/gif", "image/webp", "image/jpeg"] {
        assert_eq!(thumbnail_type_of(&thumbnail_extension_of(mime)), mime);
    }
    assert_eq!(thumbnail_type_of(&thumbnail_extension_of("image/tiff")), "image/jpeg");
}

#[test]
fn text_operations() {
    assert!(same_text("abc", "abc"));
    assert!(!same_text("abc", "abd"));
    assert!(starts_with("image/png", "image/"));
    assert!(starts_with("x", ""));
    assert!(!starts_with("imag", "image/"));
    assert!(!starts_with("video/mp4", "image/"));
    assert_eq!(join("\u{e4}b", "c"), "\u{e4}bc");
    assert_eq!(last_piece("1_42.png"), "png");
    assert_eq!(last_piece("1_42.tar.gz"), "gz");
    assert_eq!(last_piece("1_42."), "");
    assert_eq!(last_piece("nodot"), "nodot");
    assert_eq!(last_piece(""), "");
}
