//! File extensions and the picture types they stand for.

use crate::text::{
    after_last_dot, law_text_without_dot_is_one_piece, lemma_after_last_dot, same_text,
};
use vstd::prelude::*;
use vstd::utf8::is_ascii_chars;

verus! {

/// The characters of an optional text.
pub open spec fn optional_text(text: Option<String>) -> Option<Seq<char>> {
    match text {
        Some(text) => Some(text@),
        None => None,
    }
}

/// Whether `c` separates the components of a path on some platform.
pub open spec fn is_separator(c: char) -> bool {
    c == '/' || c == '\\'
}

/// Whether no platform reads more than a single component in `name`.
pub open spec fn plain_name(name: Seq<char>) -> bool {
    !name.contains('/') && !name.contains('\\') && !name.contains(':')
}

/// What stands behind the last character of `name` at which some platform may end a component
/// or the letter of a drive.
pub open spec fn last_part(name: Seq<char>) -> Seq<char>
    decreases name.len(),
{
    if name.len() == 0 || is_separator(name.last()) || name.last() == ':' {
        Seq::empty()
    } else {
        last_part(name.drop_last()).push(name.last())
    }
}

/// Whether `name` begins as the name of a network share or a device does on some platform.
pub open spec fn begins_with_share(name: Seq<char>) -> bool {
    name.len() >= 2 && is_separator(name[0]) && is_separator(name[1])
}

/// The extension of a plain file name: what follows its last dot. A name without a dot has
/// none, nor has one whose only dot comes first, nor `..`.
pub open spec fn plain_extension(name: Seq<char>) -> Option<Seq<char>> {
    let piece = after_last_dot(name);
    if piece.len() + 1 >= name.len() || name == ".."@ {
        None
    } else {
        Some(piece)
    }
}

/// Whether `c` separates the components of a path on a platform with the given separators.
pub open spec fn separates(c: char, slash: bool, backslash: bool) -> bool {
    (slash && c == '/') || (backslash && c == '\\')
}

/// `name` without the separators that end it and without the single dots that are its last
/// components, except for one that is all there is.
pub open spec fn trimmed(name: Seq<char>, slash: bool, backslash: bool) -> Seq<char>
    decreases name.len(),
{
    if name.len() == 0 {
        name
    } else if separates(name.last(), slash, backslash) {
        trimmed(name.drop_last(), slash, backslash)
    } else if name.len() >= 2 && name.last() == '.' && separates(
        name[name.len() - 2],
        slash,
        backslash,
    ) {
        trimmed(name.drop_last(), slash, backslash)
    } else {
        name
    }
}

/// What stands behind the last separator of `name`.
pub open spec fn behind_separator(name: Seq<char>, slash: bool, backslash: bool) -> Seq<char>
    decreases name.len(),
{
    if name.len() == 0 || separates(name.last(), slash, backslash) {
        Seq::empty()
    } else {
        behind_separator(name.drop_last(), slash, backslash).push(name.last())
    }
}

/// The extension of the last component of `name` on a platform with the given separators, as
/// far as no prefix of a drive or share comes in.
pub open spec fn component_extension(name: Seq<char>, slash: bool, backslash: bool) -> Option<
    Seq<char>,
> {
    plain_extension(behind_separator(trimmed(name, slash, backslash), slash, backslash))
}

/// Whether `extension` stands in `name` behind the dot at `at`, at the end of its component,
/// with nothing but separators and dots between it and the end of the name.
pub open spec fn behind_dot(name: Seq<char>, extension: Seq<char>, at: int) -> bool {
    let end = at + 1 + extension.len();
    &&& 0 <= at
    &&& end <= name.len()
    &&& name[at] == '.'
    &&& name.subrange(at + 1, end) == extension
    &&& end == name.len() || is_separator(name[end])
    &&& forall|k: int|
        end <= k < name.len() ==> is_separator(#[trigger] name[k]) || name[k] == '.'
}

/// Whether a platform may report `extension` for the path `name`. Platforms differ in what
/// separates the components of a path (`/`, `\` or both) and in what prefixes it may have.
/// They agree on plain names, and wherever the last part of a name has an extension of its
/// own. Where nothing can be a prefix, the extension is that of the last component.
pub open spec fn may_report(name: Seq<char>, extension: Option<Seq<char>>) -> bool {
    &&& plain_name(name) ==> extension == plain_extension(name)
    &&& !begins_with_share(name) && plain_extension(last_part(name)) is Some ==> extension
        == plain_extension(last_part(name))
    &&& !begins_with_share(name) && !name.contains(':') ==> {
        ||| extension == component_extension(name, true, false)
        ||| extension == component_extension(name, false, true)
        ||| extension == component_extension(name, true, true)
    }
    &&& extension matches Some(piece) ==> {
        &&& !piece.contains('.')
        &&& exists|at: int| behind_dot(name, piece, at)
    }
}

/// Calls `std::path::Path::extension`.
///
/// Believed of it: an extension is what follows the final dot of the last component, so it
/// stands in the name behind a dot, holds none itself, and is followed by nothing but
/// separators and components that are a single dot. A name without separators and prefixes
/// of any platform is its own last component, except for `..`, which is not a file name. In
/// any other name the last component ends with what follows the last separator or colon,
/// unless the name begins with two separators, where it may be a prefix as a whole; so an
/// extension there is that of the component. Where there is no colon either, there is no
/// prefix, and the last component is what separators and single dots at the end leave behind
/// the last separator, with `/`, `\` or both as separators. Which of these a platform has,
/// and what it reads as a prefix, is not said.
#[verifier::external_body]
fn path_extension(name: &str) -> (extension: Option<String>)
    ensures
        may_report(name@, optional_text(extension)),
{
    match std::path::Path::new(name).extension() {
        Some(piece) => Some(piece.to_string_lossy().to_string()),
        None => None,
    }
}

/// The extension for a type that Telegram reports of a file whose name has none.
pub open spec fn extension_for_type(mime: Option<Seq<char>>) -> Seq<char> {
    match mime {
        Some(mime) => if mime == "image/jpeg"@ {
            "jpg"@
        } else if mime == "image/png"@ {
            "png"@
        } else if mime == "video/mp4"@ {
            "mp4"@
        } else {
            "bin"@
        },
        None => "bin"@,
    }
}

/// The extension of a document: that of its name, or else the one for its type.
pub open spec fn document_extension(
    reported: Option<Seq<char>>,
    mime: Option<Seq<char>>,
) -> Seq<char> {
    match reported {
        Some(extension) if extension.len() > 0 => extension,
        _ => extension_for_type(mime),
    }
}

/// Picks the extension of a document, given the one that its name has.
pub fn choose_extension(reported: Option<String>, mime: &Option<String>) -> (extension: String)
    ensures
        extension@ == document_extension(optional_text(reported), optional_text(*mime)),
{
    if let Some(extension) = reported {
        if !extension.as_str().is_empty() {
            return extension;
        }
    }
    match mime {
        Some(mime) => if same_text(mime.as_str(), "image/jpeg") {
            "jpg".to_owned()
        } else if same_text(mime.as_str(), "image/png") {
            "png".to_owned()
        } else if same_text(mime.as_str(), "video/mp4") {
            "mp4".to_owned()
        } else {
            "bin".to_owned()
        },
        None => "bin".to_owned(),
    }
}

/// The extension of a document with the given name and type.
pub fn extension_of_document(name: &str, mime: &Option<String>) -> (extension: String)
    ensures
        exists|reported: Option<Seq<char>>| #[trigger]
            may_report(name@, reported) && extension@ == document_extension(
                reported,
                optional_text(*mime),
            ),
        plain_name(name@) ==> extension@ == document_extension(
            plain_extension(name@),
            optional_text(*mime),
        ),
        !begins_with_share(name@) && plain_extension(last_part(name@)) is Some ==> extension@
            == document_extension(plain_extension(last_part(name@)), optional_text(*mime)),
        !begins_with_share(name@) && !name@.contains(':') ==> {
            let mime = optional_text(*mime);
            ||| extension@ == document_extension(component_extension(name@, true, false), mime)
            ||| extension@ == document_extension(component_extension(name@, false, true), mime)
            ||| extension@ == document_extension(component_extension(name@, true, true), mime)
        },
{
    let reported = path_extension(name);
    let ghost seen = optional_text(reported);
    assert(may_report(name@, seen));
    choose_extension(reported, mime)
}

/// What Unicode lower-casing makes of a text.
pub uninterp spec fn lowercase(text: Seq<char>) -> Seq<char>;

/// A letter from `A` to `Z` as its small letter; any other character as it is.
pub open spec fn small_letter(c: char) -> char {
    if 'A' <= c <= 'Z' {
        (c as u32 + 32) as char
    } else {
        c
    }
}

/// Calls `str::to_lowercase`.
///
/// Believed of it: the result depends on the text alone, and of a text in ASCII it changes
/// the letters from `A` to `Z` into their small letters and nothing else.
#[verifier::external_body]
fn lowercase_text(text: &str) -> (lower: String)
    ensures
        lower@ == lowercase(text@),
        is_ascii_chars(text@) ==> lower@ == text@.map_values(|c: char| small_letter(c)),
{
    text.to_lowercase()
}

/// The picture type of an extension in small letters, where it is one that is shown inline.
pub open spec fn picture_type(lower: Seq<char>) -> Option<Seq<char>> {
    if lower == "jpg"@ || lower == "jpeg"@ {
        Some("image/jpeg"@)
    } else if lower == "png"@ {
        Some("image/png"@)
    } else if lower == "gif"@ {
        Some("image/gif"@)
    } else if lower == "webp"@ {
        Some("image/webp"@)
    } else if lower == "bmp"@ {
        Some("image/bmp"@)
    } else if lower == "svg"@ {
        Some("image/svg+xml"@)
    } else {
        None
    }
}

/// Looks up the picture type of an extension in small letters.
pub fn picture_type_of(lower: &str) -> (mime: Option<String>)
    ensures
        optional_text(mime) == picture_type(lower@),
        match mime {
            Some(mime) => {
                ||| (lower@ == "jpg"@ || lower@ == "jpeg"@) && mime@ == "image/jpeg"@
                ||| lower@ == "png"@ && mime@ == "image/png"@
                ||| lower@ == "gif"@ && mime@ == "image/gif"@
                ||| lower@ == "webp"@ && mime@ == "image/webp"@
                ||| lower@ == "bmp"@ && mime@ == "image/bmp"@
                ||| lower@ == "svg"@ && mime@ == "image/svg+xml"@
            },
            None => {
                &&& lower@ != "jpg"@ && lower@ != "jpeg"@ && lower@ != "png"@ && lower@ != "gif"@
                &&& lower@ != "webp"@ && lower@ != "bmp"@ && lower@ != "svg"@
            },
        },
{
    if same_text(lower, "jpg") || same_text(lower, "jpeg") {
        Some("image/jpeg".to_owned())
    } else if same_text(lower, "png") {
        Some("image/png".to_owned())
    } else if same_text(lower, "gif") {
        Some("image/gif".to_owned())
    } else if same_text(lower, "webp") {
        Some("image/webp".to_owned())
    } else if same_text(lower, "bmp") {
        Some("image/bmp".to_owned())
    } else if same_text(lower, "svg") {
        Some("image/svg+xml".to_owned())
    } else {
        None
    }
}

/// The type under which a preview with this extension is shown inline, in whatever case the
/// extension is written; `None` where the file is only named by its path.
pub fn inline_type(extension: &str) -> (mime: Option<String>)
    ensures
        optional_text(mime) == picture_type(lowercase(extension@)),
        is_ascii_chars(extension@) ==> optional_text(mime) == picture_type(
            extension@.map_values(|c: char| small_letter(c)),
        ),
        is_ascii_chars(extension@) ==> {
            let small = extension@.map_values(|c: char| small_letter(c));
            match mime {
                Some(mime) => {
                    ||| (small == "jpg"@ || small == "jpeg"@) && mime@ == "image/jpeg"@
                    ||| small == "png"@ && mime@ == "image/png"@
                    ||| small == "gif"@ && mime@ == "image/gif"@
                    ||| small == "webp"@ && mime@ == "image/webp"@
                    ||| small == "bmp"@ && mime@ == "image/bmp"@
                    ||| small == "svg"@ && mime@ == "image/svg+xml"@
                },
                None => {
                    &&& small != "jpg"@ && small != "jpeg"@ && small != "png"@ && small != "gif"@
                    &&& small != "webp"@ && small != "bmp"@ && small != "svg"@
                },
            }
        },
{
    let lower = lowercase_text(extension);
    picture_type_of(lower.as_str())
}

/// The picture type of a thumbnail with the given extension.
pub open spec fn thumbnail_type(extension: Seq<char>) -> Seq<char> {
    if extension == "png"@ {
        "image/png"@
    } else if extension == "gif"@ {
        "image/gif"@
    } else if extension == "webp"@ {
        "image/webp"@
    } else {
        "image/jpeg"@
    }
}

/// Looks up the picture type of a thumbnail with the given extension.
pub fn thumbnail_type_of(extension: &str) -> (mime: String)
    ensures
        mime@ == thumbnail_type(extension@),
{
    if same_text(extension, "png") {
        "image/png".to_owned()
    } else if same_text(extension, "gif") {
        "image/gif".to_owned()
    } else if same_text(extension, "webp") {
        "image/webp".to_owned()
    } else {
        "image/jpeg".to_owned()
    }
}

/// The extension under which a picture of the given type enters the thumbnail cache.
pub open spec fn thumbnail_extension(mime: Seq<char>) -> Seq<char> {
    if mime == "image/png"@ {
        "png"@
    } else if mime == "image/gif"@ {
        "gif"@
    } else if mime == "image/webp"@ {
        "webp"@
    } else {
        "jpg"@
    }
}

/// Picks the extension under which a picture of the given type is kept as a thumbnail.
pub fn thumbnail_extension_of(mime: &str) -> (extension: String)
    ensures
        extension@ == thumbnail_extension(mime@),
{
    if same_text(mime, "image/png") {
        "png".to_owned()
    } else if same_text(mime, "image/gif") {
        "gif".to_owned()
    } else if same_text(mime, "image/webp") {
        "webp".to_owned()
    } else {
        "jpg".to_owned()
    }
}

/// A thumbnail of a known type keeps it through the cache: the extension chosen for the type
/// stands for that type again.
pub proof fn law_thumbnail_types_survive(mime: Seq<char>)
    ensures
        thumbnail_type(thumbnail_extension(mime)) == (if mime == "image/png"@ || mime
            == "image/gif"@ || mime == "image/webp"@ {
            mime
        } else {
            "image/jpeg"@
        }),
{
    reveal_strlit("jpg");
    reveal_strlit("png");
    reveal_strlit("gif");
    reveal_strlit("webp");
    assert("jpg"@[0] == 'j' && "png"@[0] == 'p' && "gif"@[0] == 'g' && "webp"@[0] == 'w');
}

/// Seven extensions in small letters stand for a picture, each of one type, and no other
/// extension does.
pub proof fn law_seven_extensions_are_pictures(lower: Seq<char>)
    ensures
        match picture_type(lower) {
            Some(mime) => {
                ||| (lower == "jpg"@ || lower == "jpeg"@) && mime == "image/jpeg"@
                ||| lower == "png"@ && mime == "image/png"@
                ||| lower == "gif"@ && mime == "image/gif"@
                ||| lower == "webp"@ && mime == "image/webp"@
                ||| lower == "bmp"@ && mime == "image/bmp"@
                ||| lower == "svg"@ && mime == "image/svg+xml"@
            },
            None => {
                &&& lower != "jpg"@ && lower != "jpeg"@ && lower != "png"@ && lower != "gif"@
                &&& lower != "webp"@ && lower != "bmp"@ && lower != "svg"@
            },
        },
{
}

/// Small letters are 32 places behind their capital letters, and all other characters stay.
pub proof fn law_small_letters(c: char)
    ensures
        'A' <= c <= 'Z' ==> small_letter(c) as int == c as int + 32,
        !('A' <= c <= 'Z') ==> small_letter(c) == c,
{
}

/// A document goes by the extension of its name wherever that is not empty; otherwise JPEG
/// and PNG pictures and MP4 videos have one by their type, and all others are `bin`.
pub proof fn law_extension_by_name_or_type(reported: Option<Seq<char>>, mime: Option<Seq<char>>)
    ensures
        ({
            let extension = document_extension(reported, mime);
            match reported {
                Some(name) if name.len() > 0 => extension == name,
                _ => {
                    ||| mime == Some("image/jpeg"@) && extension == "jpg"@
                    ||| mime == Some("image/png"@) && extension == "png"@
                    ||| mime == Some("video/mp4"@) && extension == "mp4"@
                    ||| mime != Some("image/jpeg"@) && mime != Some("image/png"@) && mime != Some(
                        "video/mp4"@,
                    ) && extension == "bin"@
                },
            }
        }),
{
}

/// A thumbnail is shown as PNG, GIF or WebP where its extension says so to the letter, and as
/// JPEG in all other cases.
pub proof fn law_thumbnail_is_shown_by_its_extension(extension: Seq<char>)
    ensures
        ({
            let mime = thumbnail_type(extension);
            ||| extension == "png"@ && mime == "image/png"@
            ||| extension == "gif"@ && mime == "image/gif"@
            ||| extension == "webp"@ && mime == "image/webp"@
            ||| extension != "png"@ && extension != "gif"@ && extension != "webp"@ && mime
                == "image/jpeg"@
        }),
{
}

/// A picture is kept as PNG, GIF or WebP where that is its type to the letter, and as JPEG in
/// all other cases.
pub proof fn law_thumbnail_is_kept_by_its_type(mime: Seq<char>)
    ensures
        ({
            let extension = thumbnail_extension(mime);
            ||| mime == "image/png"@ && extension == "png"@
            ||| mime == "image/gif"@ && extension == "gif"@
            ||| mime == "image/webp"@ && extension == "webp"@
            ||| mime != "image/png"@ && mime != "image/gif"@ && mime != "image/webp"@ && extension
                == "jpg"@
        }),
{
}

/// Behind a separator the last part begins anew.
proof fn lemma_last_part_behind(directory: Seq<char>, separator: char, base: Seq<char>)
    requires
        separator == '/' || separator == '\\' || separator == ':',
        !base.contains('/'),
        !base.contains('\\'),
        !base.contains(':'),
    ensures
        last_part(directory.push(separator) + base) == base,
    decreases base.len(),
{
    let name = directory.push(separator) + base;
    if base.len() > 0 {
        let shorter = base.drop_last();
        assert(base.contains(base.last()));
        assert forall|i: int| 0 <= i < shorter.len() implies base.contains(
            #[trigger] shorter[i],
        ) by {
            assert(shorter[i] == base[i]);
        }
        lemma_last_part_behind(directory, separator, shorter);
        assert(name.drop_last() == directory.push(separator) + shorter);
        assert(shorter.push(base.last()) == base);
    } else {
        assert(name.last() == separator);
        assert(base == Seq::<char>::empty());
    }
}

proof fn lemma_plain_extension(head: Seq<char>, tail: Seq<char>)
    requires
        !tail.contains('.'),
    ensures
        head.len() > 0 && (tail.len() > 0 || head != seq!['.']) ==> plain_extension(
            head.push('.') + tail,
        ) == Some(tail),
        head.len() == 0 ==> plain_extension(head.push('.') + tail) is None,
        plain_extension(tail) is None,
{
    let name = head.push('.') + tail;
    reveal_strlit("..");
    lemma_after_last_dot(head, tail);
    law_text_without_dot_is_one_piece(tail);
    if name == ".."@ {
        assert(name.len() == head.len() + 1 + tail.len());
        assert(name[0] == '.' && name[1] == '.');
        if tail.len() > 0 {
            assert(name[1] == tail[0]);
            assert(tail.contains(tail[0]));
        } else {
            assert(head == seq![name[0]]);
        }
    }
}

/// Whatever the platform, the extension of a plain file name is what follows its last dot. A
/// name without a dot has none, nor has one whose only dot comes first. What stands before
/// the last separator or colon does not matter to a name that has an extension.
pub proof fn law_extension_is_what_follows_the_last_dot(
    directory: Seq<char>,
    head: Seq<char>,
    tail: Seq<char>,
    reported: Option<Seq<char>>,
)
    requires
        !tail.contains('.'),
        !(head + tail).contains('/'),
        !(head + tail).contains('\\'),
        !(head + tail).contains(':'),
    ensures
        head.len() > 0 && (tail.len() > 0 || head != seq!['.']) && may_report(
            head.push('.') + tail,
            reported,
        ) ==> reported == Some(tail),
        head.len() == 0 && may_report(head.push('.') + tail, reported) ==> reported is None,
        head.len() == 0 && may_report(tail, reported) ==> reported is None,
        head.len() > 0 && (tail.len() > 0 || head != seq!['.']) && directory.len() > 1
            && directory[0] != '/' && directory[0] != '\\' && (directory.last() == '/'
            || directory.last() == '\\' || directory.last() == ':') && may_report(
            directory + head.push('.') + tail,
            reported,
        ) ==> reported == Some(tail),
{
    let name = head.push('.') + tail;
    lemma_plain_extension(head, tail);
    assert forall|c: char| #[trigger] name.contains(c) && c != '.' implies (head + tail).contains(
        c,
    ) by {
        let i = choose|i: int| 0 <= i < name.len() && name[i] == c;
        if i < head.len() {
            assert((head + tail)[i] == c);
        } else {
            assert((head + tail)[i - 1] == c);
        }
    }
    assert(plain_name(name));
    if head.len() == 0 {
        assert(head + tail == tail);
        assert(plain_name(tail));
    }
    if directory.len() > 1 && (directory.last() == '/' || directory.last() == '\\'
        || directory.last() == ':') {
        let all = directory + head.push('.') + tail;
        lemma_last_part_behind(directory.drop_last(), directory.last(), name);
        assert(directory.drop_last().push(directory.last()) == directory);
        assert(all == directory + name);
        assert(all[0] == directory[0]);
    }
}

/// A name without a dot has no extension, whatever separators and colons it holds.
pub proof fn law_name_without_dot_has_no_extension(name: Seq<char>, reported: Option<Seq<char>>)
    requires
        may_report(name, reported),
        !name.contains('.'),
    ensures
        reported is None,
{
    if let Some(piece) = reported {
        let at = choose|at: int| behind_dot(name, piece, at);
        assert(name[at] == '.');
    }
}

proof fn lemma_behind_separator(
    before: Seq<char>,
    separator: char,
    base: Seq<char>,
    slash: bool,
    backslash: bool,
)
    requires
        separates(separator, slash, backslash),
        forall|k: int|
            0 <= k < base.len() ==> !separates(#[trigger] base[k], slash, backslash),
    ensures
        behind_separator(before.push(separator) + base, slash, backslash) == base,
    decreases base.len(),
{
    let name = before.push(separator) + base;
    if base.len() > 0 {
        let shorter = base.drop_last();
        assert forall|k: int| 0 <= k < shorter.len() implies !separates(
            #[trigger] shorter[k],
            slash,
            backslash,
        ) by {
            assert(shorter[k] == base[k]);
        }
        lemma_behind_separator(before, separator, shorter, slash, backslash);
        assert(name.drop_last() == before.push(separator) + shorter);
        assert(name.last() == base[base.len() - 1]);
        assert(shorter.push(base.last()) == base);
    } else {
        assert(name.last() == separator);
        assert(base == Seq::<char>::empty());
    }
}

/// Dots before the last component have no say: a name that ends in two undotted components,
/// behind a slash and a backslash in either order, has no extension on any platform, whatever
/// comes before them, as long as nothing in it can be a prefix.
pub proof fn law_earlier_components_have_no_say(
    directory: Seq<char>,
    middle: Seq<char>,
    base: Seq<char>,
    slash_first: bool,
    reported: Option<Seq<char>>,
)
    requires
        ({
            let (first, second) = if slash_first {
                ('/', '\\')
            } else {
                ('\\', '/')
            };
            let name = directory.push(first) + middle.push(second) + base;
            &&& may_report(name, reported)
            &&& !name.contains(':')
        }),
        directory.len() > 0,
        directory[0] != '/',
        directory[0] != '\\',
        base.len() > 0,
        !(middle + base).contains('.'),
        !(middle + base).contains('/'),
        !(middle + base).contains('\\'),
    ensures
        reported is None,
{
    let (first, second) = if slash_first {
        ('/', '\\')
    } else {
        ('\\', '/')
    };
    let name = directory.push(first) + middle.push(second) + base;
    let ending = middle.push(second) + base;
    assert forall|k: int| 0 <= k < base.len() implies base[k] != '.' && base[k] != '/' && base[k]
        != '\\' by {
        assert((middle + base)[middle.len() + k] == base[k]);
        assert((middle + base).contains(base[k]));
    }
    assert forall|k: int| 0 <= k < middle.len() implies middle[k] != '.' && middle[k] != '/'
        && middle[k] != '\\' by {
        assert((middle + base)[k] == middle[k]);
        assert((middle + base).contains(middle[k]));
    }
    assert(name[0] == directory[0]);
    assert(name.last() == base[base.len() - 1]);
    assert(name == directory.push(first) + ending);
    assert(name == (directory.push(first) + middle).push(second) + base);
    assert forall|k: int| 0 <= k < ending.len() implies ending[k] != '.' by {
        if k < middle.len() {
            assert(ending[k] == middle[k]);
        } else if k > middle.len() {
            assert(ending[k] == base[k - middle.len() - 1]);
        }
    }
    lemma_behind_separator(directory.push(first) + middle, second, base, true, true);
    lemma_behind_separator(
        directory.push(first) + middle,
        second,
        base,
        second == '/',
        second == '\\',
    );
    assert forall|k: int| 0 <= k < ending.len() implies !separates(
        #[trigger] ending[k],
        first == '/',
        first == '\\',
    ) by {
        if k < middle.len() {
            assert(ending[k] == middle[k]);
        } else if k > middle.len() {
            assert(ending[k] == base[k - middle.len() - 1]);
        }
    }
    lemma_behind_separator(directory, first, ending, first == '/', first == '\\');
    lemma_plain_extension(Seq::empty(), base);
    lemma_plain_extension(Seq::empty(), ending);
}

} // verus!
