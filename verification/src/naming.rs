//! Names of cache entries.
//!
//! An entry is named after the chat that holds the message, the message itself and the
//! format of the file: `<chat>_<message>.<extension>`.

use crate::decimal::{decimal, decimal_text, lemma_decimal_characters, lemma_decimal_injective};
use crate::text::join;
use vstd::prelude::*;

verus! {

/// How the thumbnail cache names a chat; `None` is the user's saved messages.
pub open spec fn thumbnail_peer(folder_id: Option<i64>) -> Seq<char> {
    match folder_id {
        Some(id) => decimal(id as int),
        None => "saved"@,
    }
}

/// How the preview cache names a chat; `None` is the home folder.
pub open spec fn preview_folder(folder_id: Option<i64>) -> Seq<char> {
    match folder_id {
        Some(id) => decimal(id as int),
        None => "home"@,
    }
}

/// What the names of all entries for one message of one chat begin with.
pub open spec fn entry_prefix(chat: Seq<char>, message_id: i32) -> Seq<char> {
    chat + "_"@ + decimal(message_id as int) + "."@
}

/// What the names of the thumbnails of a message begin with.
pub open spec fn thumbnail_prefix(folder_id: Option<i64>, message_id: i32) -> Seq<char> {
    entry_prefix(thumbnail_peer(folder_id), message_id)
}

/// The name of the preview of a message whose file has the given extension.
pub open spec fn preview_name(
    folder_id: Option<i64>,
    message_id: i32,
    extension: Seq<char>,
) -> Seq<char> {
    entry_prefix(preview_folder(folder_id), message_id) + extension
}

fn entry_prefix_text(chat: &str, message_id: i32) -> (prefix: String)
    ensures
        prefix@ == entry_prefix(chat@, message_id),
{
    let text = join(chat, "_");
    let text = join(text.as_str(), decimal_text(message_id as i64).as_str());
    join(text.as_str(), ".")
}

/// What the names of the thumbnails of a message begin with.
pub fn thumbnail_cache_prefix(folder_id: Option<i64>, message_id: i32) -> (prefix: String)
    ensures
        prefix@ == thumbnail_prefix(folder_id, message_id),
{
    let peer = match folder_id {
        Some(id) => decimal_text(id),
        None => "saved".to_owned(),
    };
    entry_prefix_text(peer.as_str(), message_id)
}

/// The name under which the preview of a message is kept.
pub fn preview_file_name(folder_id: Option<i64>, message_id: i32, extension: &str) -> (name: String)
    ensures
        name@ == preview_name(folder_id, message_id, extension@),
{
    let folder_key = match folder_id {
        Some(id) => decimal_text(id),
        None => "home".to_owned(),
    };
    let prefix = entry_prefix_text(folder_key.as_str(), message_id);
    join(prefix.as_str(), extension)
}

/// Where the text up to the first mark agrees and neither part before it holds the mark,
/// the parts are the same, and so is what follows.
proof fn lemma_split_at_mark(a: Seq<char>, b: Seq<char>, x: Seq<char>, y: Seq<char>, mark: char)
    requires
        !a.contains(mark),
        !b.contains(mark),
        (a.push(mark) + x).is_prefix_of(b.push(mark) + y),
    ensures
        a == b,
        x.is_prefix_of(y),
{
    let left = a.push(mark) + x;
    let right = b.push(mark) + y;
    assert(left == right.take(left.len() as int));
    assert(left[a.len() as int] == mark);
    if a.len() < b.len() {
        assert(right[a.len() as int] == b[a.len() as int]);
        assert(b.contains(b[a.len() as int]));
    }
    if b.len() < a.len() {
        assert(right[b.len() as int] == mark);
        assert(left[b.len() as int] == a[b.len() as int]);
        assert(a.contains(a[b.len() as int]));
    }
    assert(a == b) by {
        assert forall|i: int| 0 <= i < a.len() implies a[i] == b[i] by {
            assert(left[i] == a[i] && right[i] == b[i]);
        }
    }
    assert(x == y.take(x.len() as int)) by {
        assert forall|i: int| 0 <= i < x.len() implies x[i] == y[i] by {
            assert(left[a.len() + 1 + i] == x[i] && right[a.len() + 1 + i] == y[i]);
        }
    }
}

/// An entry of one message begins with the prefix of another only where chat and message
/// are the same.
proof fn lemma_prefix_separates(
    chat1: Seq<char>,
    message1: i32,
    chat2: Seq<char>,
    message2: i32,
    rest: Seq<char>,
)
    requires
        !chat1.contains('_'),
        !chat2.contains('_'),
        entry_prefix(chat1, message1).is_prefix_of(entry_prefix(chat2, message2) + rest),
    ensures
        chat1 == chat2,
        message1 == message2,
{
    reveal_strlit("_");
    reveal_strlit(".");
    let m1 = decimal(message1 as int);
    let m2 = decimal(message2 as int);
    let empty = Seq::<char>::empty();
    assert(entry_prefix(chat1, message1) == chat1.push('_') + (m1.push('.') + empty));
    assert(entry_prefix(chat2, message2) + rest == chat2.push('_') + (m2.push('.') + rest));
    lemma_split_at_mark(chat1, chat2, m1.push('.') + empty, m2.push('.') + rest, '_');
    lemma_decimal_characters(message1 as int);
    lemma_decimal_characters(message2 as int);
    lemma_split_at_mark(m1, m2, empty, rest, '.');
    lemma_decimal_injective(message1 as int, message2 as int);
}

proof fn lemma_chat_names(folder1: Option<i64>, folder2: Option<i64>)
    ensures
        !thumbnail_peer(folder1).contains('_'),
        !preview_folder(folder1).contains('_'),
        thumbnail_peer(folder1) == thumbnail_peer(folder2) ==> folder1 == folder2,
        preview_folder(folder1) == preview_folder(folder2) ==> folder1 == folder2,
{
    reveal_strlit("saved");
    reveal_strlit("home");
    if let Some(id) = folder1 {
        lemma_decimal_characters(id as int);
        if let Some(other) = folder2 {
            if decimal(id as int) == decimal(other as int) {
                lemma_decimal_injective(id as int, other as int);
            }
        } else {
            assert(decimal(id as int)[0] != 's' && decimal(id as int)[0] != 'h');
        }
    } else if let Some(other) = folder2 {
        lemma_decimal_characters(other as int);
        assert(decimal(other as int)[0] != 's' && decimal(other as int)[0] != 'h');
    }
}

/// A cached thumbnail is found for the message it was stored for and for no other,
/// whatever its format: the same message number in another chat, in the saved messages,
/// or a number that merely begins alike does not match.
pub proof fn law_thumbnails_are_separated(
    folder1: Option<i64>,
    message1: i32,
    folder2: Option<i64>,
    message2: i32,
    extension: Seq<char>,
)
    ensures
        thumbnail_prefix(folder1, message1).is_prefix_of(
            thumbnail_prefix(folder2, message2) + extension,
        ) <==> (folder1 == folder2 && message1 == message2),
{
    let prefix = thumbnail_prefix(folder1, message1);
    let name = thumbnail_prefix(folder2, message2) + extension;
    lemma_chat_names(folder1, folder2);
    lemma_chat_names(folder2, folder1);
    if prefix.is_prefix_of(name) {
        lemma_prefix_separates(
            thumbnail_peer(folder1),
            message1,
            thumbnail_peer(folder2),
            message2,
            extension,
        );
    }
    if folder1 == folder2 && message1 == message2 {
        assert(name.take(prefix.len() as int) == prefix);
    }
}

/// Two messages never share a preview file, and neither do two formats of one message.
pub proof fn law_preview_names_are_distinct(
    folder1: Option<i64>,
    message1: i32,
    extension1: Seq<char>,
    folder2: Option<i64>,
    message2: i32,
    extension2: Seq<char>,
)
    requires
        preview_name(folder1, message1, extension1) == preview_name(folder2, message2, extension2),
    ensures
        folder1 == folder2,
        message1 == message2,
        extension1 == extension2,
{
    let prefix = entry_prefix(preview_folder(folder1), message1);
    let name = preview_name(folder1, message1, extension1);
    lemma_chat_names(folder1, folder2);
    lemma_chat_names(folder2, folder1);
    assert(name.take(prefix.len() as int) == prefix);
    lemma_prefix_separates(
        preview_folder(folder1),
        message1,
        preview_folder(folder2),
        message2,
        extension2,
    );
    assert(name.skip(prefix.len() as int) == extension1);
    assert(name.skip(prefix.len() as int) == extension2);
}

/// The names of cache entries are spelled `<chat>_<message>.<extension>`, with the numbers in
/// decimal; without a chat the preview cache says `home` and the thumbnail cache `saved`.
pub proof fn law_names_are_spelled_out(
    folder_id: Option<i64>,
    message_id: i32,
    extension: Seq<char>,
)
    ensures
        ({
            let message = decimal(message_id as int);
            let preview = preview_name(folder_id, message_id, extension);
            let thumbnail = thumbnail_prefix(folder_id, message_id);
            match folder_id {
                Some(id) => {
                    &&& preview == decimal(id as int) + seq!['_'] + message + seq!['.'] + extension
                    &&& thumbnail == decimal(id as int) + seq!['_'] + message + seq!['.']
                },
                None => {
                    &&& preview == seq!['h', 'o', 'm', 'e', '_'] + message + seq!['.'] + extension
                    &&& thumbnail == seq!['s', 'a', 'v', 'e', 'd', '_'] + message + seq!['.']
                },
            }
        }),
{
    reveal_strlit("_");
    reveal_strlit(".");
    reveal_strlit("home");
    reveal_strlit("saved");
    let message = decimal(message_id as int);
    assert("_"@ == seq!['_'] && "."@ == seq!['.']);
    if folder_id is None {
        assert("home"@ + "_"@ == seq!['h', 'o', 'm', 'e', '_']);
        assert("saved"@ + "_"@ == seq!['s', 'a', 'v', 'e', 'd', '_']);
    }
}

} // verus!
