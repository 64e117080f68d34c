//! What holds of the preview command as a whole.

use crate::data_url::{base64_standard, data_url_text};
use crate::decimal::decimal;
use crate::formats::{
    law_extension_is_what_follows_the_last_dot, law_name_without_dot_has_no_extension, lowercase,
    picture_type,
};
use crate::messages::{law_first_message_comes_first, law_gaps_hold_no_message};
use crate::naming::law_names_are_spelled_out;
use crate::preview::{
    consistent, found_media, media_extension, preview_next, PreviewEvent, PreviewFileView,
    PreviewMedia, PreviewMessage, PreviewStepView, PreviewView,
};
use crate::prune::{fits, is_prune_plan, lemma_survivors_are_kept, survivors, DirEntry};
use vstd::prelude::*;

verus! {

/// What the outside operations give back in the course of one command.
pub struct PreviewWorld {
    pub cache: Result<(), String>,
    pub directory_exists: bool,
    pub client_ready: bool,
    pub peer: Result<(), String>,
    pub messages: Result<Vec<Option<PreviewMessage>>, String>,
    /// The extension that the platform reports for the name of the document.
    pub reported: Option<Seq<char>>,
    pub path: String,
    pub file_exists: bool,
    pub transfer_allowed: bool,
    pub download_complete: bool,
    pub content: Option<Vec<u8>>,
}

impl PreviewWorld {
    /// The event that answers a step.
    pub open spec fn respond(self, step: PreviewStepView) -> PreviewEvent {
        match step {
            PreviewStepView::LocateCache => PreviewEvent::CacheLocated(self.cache),
            PreviewStepView::CheckDirectory => PreviewEvent::DirectoryExists(self.directory_exists),
            PreviewStepView::CreateDirectory => PreviewEvent::DirectoryCreated,
            PreviewStepView::PruneCache => PreviewEvent::CachePruned,
            PreviewStepView::GetClient => PreviewEvent::ClientReady(self.client_ready),
            PreviewStepView::ResolvePeer => PreviewEvent::PeerResolved(self.peer),
            PreviewStepView::FetchMessages => PreviewEvent::MessagesFetched(self.messages),
            PreviewStepView::LocateFile { .. } => PreviewEvent::FileLocated {
                path: self.path,
                exists: self.file_exists,
            },
            PreviewStepView::CheckTransfer { .. } => PreviewEvent::TransferAllowed(
                self.transfer_allowed,
            ),
            PreviewStepView::Download { .. } => PreviewEvent::Downloaded(self.download_complete),
            PreviewStepView::RecordTransfer { .. } => PreviewEvent::TransferRecorded,
            PreviewStepView::PruneAgain { .. } => PreviewEvent::CachePruned,
            PreviewStepView::ReadFile { .. } => PreviewEvent::FileRead(self.content),
            PreviewStepView::Finished { .. } => PreviewEvent::CachePruned,
        }
    }

    /// The command after `n` more steps.
    pub open spec fn run(self, command: PreviewView, n: nat) -> PreviewView
        decreases n,
    {
        if n == 0 {
            command
        } else {
            let event = self.respond(command.step);
            let step = preview_next(command, event, self.reported);
            self.run(PreviewView { step, ..command }, (n - 1) as nat)
        }
    }

    /// The answer where the file is there.
    pub open spec fn shown(self, extension: Seq<char>) -> Result<Seq<char>, Seq<char>> {
        match (picture_type(lowercase(extension)), self.content) {
            (Some(mime), Some(bytes)) => Ok(data_url_text(mime, bytes@)),
            _ => Ok(self.path@),
        }
    }

    /// The answer that the command owes.
    pub open spec fn answer(self) -> Result<Seq<char>, Seq<char>> {
        if self.cache is Err {
            Err(self.cache->Err_0@)
        } else if !self.client_ready {
            Ok(""@)
        } else if self.peer is Err {
            Err(self.peer->Err_0@)
        } else {
            match self.messages {
                Err(error) => Err(error@),
                Ok(messages) => match found_media(messages@) {
                    Some((_, media)) if self.file_exists || (self.transfer_allowed
                        && self.download_complete) => self.shown(
                        media_extension(media, self.reported),
                    ),
                    _ => Err("File not found or failed to download"@),
                },
            }
        }
    }
}

/// How far a step is.
pub open spec fn preview_phase(step: PreviewStepView) -> nat {
    match step {
        PreviewStepView::LocateCache => 0,
        PreviewStepView::CheckDirectory => 1,
        PreviewStepView::CreateDirectory => 2,
        PreviewStepView::PruneCache => 3,
        PreviewStepView::GetClient => 4,
        PreviewStepView::ResolvePeer => 5,
        PreviewStepView::FetchMessages => 6,
        PreviewStepView::LocateFile { .. } => 7,
        PreviewStepView::CheckTransfer { .. } => 8,
        PreviewStepView::Download { .. } => 9,
        PreviewStepView::RecordTransfer { .. } => 10,
        PreviewStepView::PruneAgain { .. } => 11,
        PreviewStepView::ReadFile { .. } => 12,
        PreviewStepView::Finished { .. } => 13,
    }
}

/// The phase that an answered command has reached.
pub open spec fn last_phase() -> nat {
    13
}

/// An event leads to a later step or to none: no step is done twice.
pub proof fn law_preview_goes_forward(
    command: PreviewView,
    event: PreviewEvent,
    reported: Option<Seq<char>>,
)
    ensures
        ({
            let next = preview_next(command, event, reported);
            next == command.step || preview_phase(next) > preview_phase(command.step)
        }),
{
}

/// Whatever the outside operations give back, the command is answered after at most
/// thirteen of them, and the answer is the one it owes: the error of the operation that
/// failed; the empty text without a connection; the data URL of a picture that is there or
/// could be downloaded; the path of another file, or of a picture that cannot be read; and
/// the report that nothing was found in all other cases.
pub proof fn law_preview_is_answered(
    world: PreviewWorld,
    message_id: i32,
    folder_id: Option<i64>,
)
    ensures
        ({
            let start = PreviewView { message_id, folder_id, step: PreviewStepView::LocateCache };
            let end = world.run(start, last_phase());
            end.step == (PreviewStepView::Finished { answer: world.answer() })
        }),
{
    reveal_with_fuel(PreviewWorld::run, 14);
}

/// A download begins only when the bandwidth limit was asked about this file and admitted
/// it.
pub proof fn law_download_is_admitted(
    command: PreviewView,
    event: PreviewEvent,
    reported: Option<Seq<char>>,
    file: PreviewFileView,
    path: Seq<char>,
)
    requires
        preview_next(command, event, reported) == (PreviewStepView::Download { file, path }),
        !(command.step is Download),
    ensures
        command.step == (PreviewStepView::CheckTransfer { file, path }),
        event == PreviewEvent::TransferAllowed(true),
{
}

/// The bandwidth is counted when, and only when, the download of the same file is complete.
pub proof fn law_complete_download_is_counted(
    command: PreviewView,
    event: PreviewEvent,
    reported: Option<Seq<char>>,
    file: PreviewFileView,
    path: Seq<char>,
)
    requires
        !(command.step is RecordTransfer),
    ensures
        preview_next(command, event, reported) == (PreviewStepView::RecordTransfer { file, path })
            <==> command.step == (PreviewStepView::Download { file, path }) && event
            == PreviewEvent::Downloaded(true),
{
}

/// What was downloaded is counted, and the cache is pruned, before it is shown.
pub proof fn law_download_is_pruned_before_it_is_shown(
    command: PreviewView,
    event: PreviewEvent,
    reported: Option<Seq<char>>,
)
    requires
        command.step is Download || command.step is RecordTransfer,
    ensures
        ({
            let next = preview_next(command, event, reported);
            &&& !(next is ReadFile)
            &&& next matches PreviewStepView::Finished { answer } ==> answer is Err
            &&& next is PruneAgain ==> command.step is RecordTransfer
        }),
{
}

/// Whether the command neither downloads nor has downloaded.
pub open spec fn without_download(step: PreviewStepView) -> bool {
    !(step is CheckTransfer) && !(step is Download) && !(step is RecordTransfer) && !(
    step is PruneAgain)
}

/// A preview that is in the cache is shown without a download, and costs no bandwidth.
pub proof fn law_cached_preview_is_not_downloaded(
    world: PreviewWorld,
    command: PreviewView,
    n: nat,
)
    requires
        world.file_exists,
        without_download(command.step),
    ensures
        without_download(world.run(command, n).step),
    decreases n,
{
    if n > 0 {
        let event = world.respond(command.step);
        let step = preview_next(command, event, world.reported);
        law_cached_preview_is_not_downloaded(world, PreviewView { step, ..command }, (n - 1) as nat);
    }
}

/// A preview that was shown is shown again alike from the cache: the same file of the same
/// message, read with the same result, gives the same answer, however it was obtained at
/// first.
pub proof fn law_cached_preview_is_shown_alike(first: PreviewWorld, later: PreviewWorld)
    requires
        first.answer() is Ok,
        first.answer() != Ok::<Seq<char>, Seq<char>>(""@),
        later.messages == first.messages,
        later.reported == first.reported,
        later.path == first.path,
        later.content == first.content,
        later.file_exists,
        later.cache is Ok,
        later.client_ready,
        later.peer is Ok,
    ensures
        later.answer() == first.answer(),
{
}

/// What the preview directory holds in the course of one command, and what is pruned from it.
pub struct PreviewDirectory {
    /// What is there when the cache is first pruned.
    pub before: Seq<DirEntry>,
    /// What is removed then.
    pub plan: Seq<usize>,
    /// What is there after a download, complete or not.
    pub after_download: Seq<DirEntry>,
    /// What is removed from that.
    pub plan_again: Seq<usize>,
}

impl PreviewDirectory {
    /// Whether what is removed is what pruning names.
    pub open spec fn pruned(self) -> bool {
        is_prune_plan(self.before, self.plan) && is_prune_plan(self.after_download, self.plan_again)
    }

    /// What the directory holds once a step is done, where it held `entries` before. Only
    /// pruning and downloading change it.
    pub open spec fn once(self, step: PreviewStepView, entries: Seq<DirEntry>) -> Seq<DirEntry> {
        match step {
            PreviewStepView::PruneCache => survivors(self.before, self.plan),
            PreviewStepView::Download { .. } => self.after_download,
            PreviewStepView::PruneAgain { .. } => survivors(self.after_download, self.plan_again),
            _ => entries,
        }
    }

    /// What the directory holds after `n` more steps of a command.
    pub open spec fn run(
        self,
        world: PreviewWorld,
        command: PreviewView,
        entries: Seq<DirEntry>,
        n: nat,
    ) -> Seq<DirEntry>
        decreases n,
    {
        if n == 0 {
            entries
        } else {
            let event = world.respond(command.step);
            let step = preview_next(command, event, world.reported);
            self.run(
                world,
                PreviewView { step, ..command },
                self.once(command.step, entries),
                (n - 1) as nat,
            )
        }
    }
}

impl PreviewWorld {
    /// Whether the command begins a download that fails, which may leave part of a file.
    pub open spec fn download_fails(self) -> bool {
        &&& self.client_ready
        &&& self.peer is Ok
        &&& self.messages matches Ok(messages) && found_media(messages@) is Some
        &&& !self.file_exists
        &&& self.transfer_allowed
        &&& !self.download_complete
    }
}

/// A command that found its cache directory leaves the preview cache within both limits, with
/// or without a download, unless the download fails; where the answer is not an error, it
/// always does.
pub proof fn law_preview_leaves_the_cache_within_limits(
    world: PreviewWorld,
    directory: PreviewDirectory,
    message_id: i32,
    folder_id: Option<i64>,
)
    requires
        directory.pruned(),
    ensures
        ({
            let start = PreviewView { message_id, folder_id, step: PreviewStepView::LocateCache };
            let left = directory.run(world, start, directory.before, last_phase());
            &&& world.cache is Ok && !world.download_fails() ==> fits(left, Seq::empty())
            &&& world.answer() is Ok ==> fits(left, Seq::empty())
        }),
{
    lemma_survivors_are_kept(directory.before, directory.plan);
    lemma_survivors_are_kept(directory.after_download, directory.plan_again);
    reveal_with_fuel(PreviewDirectory::run, 14);
}

/// The first message of a reply decides upon the file: its name is made of the chat, the
/// message and the extension; a document counts its own size against the bandwidth limit
/// (cast where it is negative), a photo 1 MiB and anything else nothing. A document has the
/// extension that is reported for its name, or else the one for its type.
pub proof fn law_reply_decides_upon_the_file(
    command: PreviewView,
    messages: Vec<Option<PreviewMessage>>,
    i: int,
    media: PreviewMedia,
    reported: Option<Seq<char>>,
)
    requires
        command.step is FetchMessages,
        0 <= i < messages@.len(),
        messages@[i] == Some(PreviewMessage { media: Some(media) }),
        forall|j: int| 0 <= j < i ==> #[trigger] messages@[j] is None,
    ensures
        ({
            let next = preview_next(command, PreviewEvent::MessagesFetched(Ok(messages)), reported);
            let file = next->LocateFile_file;
            let message = decimal(command.message_id as int);
            &&& next is LocateFile
            &&& file.message == i
            &&& match command.folder_id {
                Some(id) => file.name == decimal(id as int) + seq!['_'] + message + seq!['.']
                    + file.extension,
                None => file.name == seq!['h', 'o', 'm', 'e', '_'] + message + seq!['.']
                    + file.extension,
            }
            &&& match media {
                PreviewMedia::Photo => file.size == 1024 * 1024 && file.extension == "jpg"@,
                PreviewMedia::Document { mime_type, size, .. } => {
                    &&& size >= 0 ==> file.size == size
                    &&& size < 0 ==> file.size == size + 0x1_0000_0000_0000_0000
                    &&& match (reported, mime_type) {
                        (Some(extension), _) if extension.len() > 0 => file.extension == extension,
                        (_, Some(mime)) => {
                            ||| mime@ == "image/jpeg"@ && file.extension == "jpg"@
                            ||| mime@ == "image/png"@ && file.extension == "png"@
                            ||| mime@ == "video/mp4"@ && file.extension == "mp4"@
                            ||| mime@ != "image/jpeg"@ && mime@ != "image/png"@ && mime@
                                != "video/mp4"@ && file.extension == "bin"@
                        },
                        _ => file.extension == "bin"@,
                    }
                },
                PreviewMedia::Other => file.size == 0 && file.extension == "bin"@,
            }
        }),
{
    law_first_message_comes_first(messages@, i);
    let next = preview_next(command, PreviewEvent::MessagesFetched(Ok(messages)), reported);
    law_names_are_spelled_out(
        command.folder_id,
        command.message_id,
        next->LocateFile_file.extension,
    );
}

/// Where no message of a reply exists, or the first one holds no media, nothing is found.
pub proof fn law_reply_without_media_finds_nothing(
    command: PreviewView,
    messages: Vec<Option<PreviewMessage>>,
    i: int,
    reported: Option<Seq<char>>,
)
    requires
        command.step is FetchMessages,
        0 <= i <= messages@.len(),
        i < messages@.len() ==> messages@[i] == Some(PreviewMessage { media: None }),
        forall|j: int| 0 <= j < i ==> #[trigger] messages@[j] is None,
    ensures
        preview_next(command, PreviewEvent::MessagesFetched(Ok(messages)), reported) == (
        PreviewStepView::Finished { answer: Err("File not found or failed to download"@) }),
{
    if i < messages@.len() {
        law_first_message_comes_first(messages@, i);
    } else {
        law_gaps_hold_no_message(messages@);
    }
}

/// A document keeps the extension of its name, whatever the platform and whatever its type:
/// what follows the last dot, as long as the last part of the name does not begin with it.
/// What stands before the last separator or colon does not matter.
pub proof fn law_document_keeps_its_extension(
    command: PreviewView,
    messages: Vec<Option<PreviewMessage>>,
    i: int,
    name: String,
    mime_type: Option<String>,
    size: i64,
    reported: Option<Seq<char>>,
    directory: Seq<char>,
    head: Seq<char>,
    tail: Seq<char>,
)
    requires
        command.step is FetchMessages,
        0 <= i < messages@.len(),
        messages@[i] == Some(
            PreviewMessage { media: Some(PreviewMedia::Document { name, mime_type, size }) },
        ),
        forall|j: int| 0 <= j < i ==> #[trigger] messages@[j] is None,
        consistent(command, PreviewEvent::MessagesFetched(Ok(messages)), reported),
        name@ == directory + head.push('.') + tail,
        directory.len() == 0 || (directory.len() > 1 && directory[0] != '/' && directory[0] != '\\'
            && (directory.last() == '/' || directory.last() == '\\' || directory.last() == ':')),
        head.len() > 0,
        tail.len() > 0,
        !tail.contains('.'),
        !(head + tail).contains('/'),
        !(head + tail).contains('\\'),
        !(head + tail).contains(':'),
    ensures
        preview_next(
            command,
            PreviewEvent::MessagesFetched(Ok(messages)),
            reported,
        )->LocateFile_file.extension == tail,
{
    law_first_message_comes_first(messages@, i);
    law_extension_is_what_follows_the_last_dot(directory, head, tail, reported);
    if directory.len() == 0 {
        assert(name@ == head.push('.') + tail);
    }
}

/// A document whose name holds no dot, or is plain and has none but the first character, goes
/// by its type.
pub proof fn law_document_without_extension_goes_by_its_type(
    command: PreviewView,
    messages: Vec<Option<PreviewMessage>>,
    i: int,
    name: String,
    mime_type: Option<String>,
    size: i64,
    reported: Option<Seq<char>>,
    tail: Seq<char>,
)
    requires
        command.step is FetchMessages,
        0 <= i < messages@.len(),
        messages@[i] == Some(
            PreviewMessage { media: Some(PreviewMedia::Document { name, mime_type, size }) },
        ),
        forall|j: int| 0 <= j < i ==> #[trigger] messages@[j] is None,
        consistent(command, PreviewEvent::MessagesFetched(Ok(messages)), reported),
        !tail.contains('.'),
        name@ == tail || (name@ == seq!['.'] + tail && !tail.contains('/') && !tail.contains('\\')
            && !tail.contains(':')),
    ensures
        ({
            let extension = preview_next(
                command,
                PreviewEvent::MessagesFetched(Ok(messages)),
                reported,
            )->LocateFile_file.extension;
            match mime_type {
                Some(mime) => {
                    ||| mime@ == "image/jpeg"@ && extension == "jpg"@
                    ||| mime@ == "image/png"@ && extension == "png"@
                    ||| mime@ == "video/mp4"@ && extension == "mp4"@
                    ||| mime@ != "image/jpeg"@ && mime@ != "image/png"@ && mime@ != "video/mp4"@
                        && extension == "bin"@
                },
                None => extension == "bin"@,
            }
        }),
{
    law_first_message_comes_first(messages@, i);
    if name@ == tail {
        law_name_without_dot_has_no_extension(name@, reported);
    } else {
        let none = Seq::<char>::empty();
        assert(none + tail == tail);
        assert(name@ == none.push('.') + tail);
        law_extension_is_what_follows_the_last_dot(none, none, tail, reported);
    }
}

/// Only the seven kinds of pictures are shown inline, each under its own type; every other
/// file is named by its path. So it is with a file that was there and with one that was
/// downloaded.
pub proof fn law_only_pictures_are_shown_inline(
    command: PreviewView,
    event: PreviewEvent,
    reported: Option<Seq<char>>,
    file: PreviewFileView,
    path: String,
)
    requires
        (command.step == (PreviewStepView::LocateFile { file }) && event == (
        PreviewEvent::FileLocated { path, exists: true })) || (command.step == (
        PreviewStepView::PruneAgain { file, path: path@ }) && event == PreviewEvent::CachePruned),
    ensures
        ({
            let lower = lowercase(file.extension);
            match preview_next(command, event, reported) {
                PreviewStepView::ReadFile { mime, path: read } => {
                    &&& read == path@
                    &&& {
                        ||| (lower == "jpg"@ || lower == "jpeg"@) && mime == "image/jpeg"@
                        ||| lower == "png"@ && mime == "image/png"@
                        ||| lower == "gif"@ && mime == "image/gif"@
                        ||| lower == "webp"@ && mime == "image/webp"@
                        ||| lower == "bmp"@ && mime == "image/bmp"@
                        ||| lower == "svg"@ && mime == "image/svg+xml"@
                    }
                },
                PreviewStepView::Finished { answer } => {
                    &&& answer == Ok::<Seq<char>, Seq<char>>(path@)
                    &&& lower != "jpg"@ && lower != "jpeg"@ && lower != "png"@ && lower != "gif"@
                    &&& lower != "webp"@ && lower != "bmp"@ && lower != "svg"@
                },
                _ => false,
            }
        }),
{
}

/// A picture that was read is answered as `data:<type>;base64,<bytes>`, of the type under
/// which it was read; one that cannot be read is named by its path.
pub proof fn law_read_picture_is_answered(
    command: PreviewView,
    reported: Option<Seq<char>>,
    mime: Seq<char>,
    path: Seq<char>,
    content: Option<Vec<u8>>,
)
    requires
        command.step == (PreviewStepView::ReadFile { mime, path }),
    ensures
        preview_next(command, PreviewEvent::FileRead(content), reported) == (
        PreviewStepView::Finished {
            answer: Ok(
                match content {
                    Some(bytes) => "data:"@ + mime + ";base64,"@ + base64_standard(bytes@),
                    None => path,
                },
            ),
        }),
{
}

/// The error of the operation that failed is the answer, to the letter; without a connection
/// the answer is empty.
pub proof fn law_preview_passes_errors_on(
    world: PreviewWorld,
    message_id: i32,
    folder_id: Option<i64>,
    error: String,
)
    ensures
        ({
            let start = PreviewView { message_id, folder_id, step: PreviewStepView::LocateCache };
            let end = world.run(start, 13).step;
            let failed = PreviewStepView::Finished { answer: Err(error@) };
            &&& world.cache == Err::<(), String>(error) ==> end == failed
            &&& world.cache is Ok && !world.client_ready ==> end == (PreviewStepView::Finished {
                answer: Ok(Seq::empty()),
            })
            &&& world.cache is Ok && world.client_ready && world.peer == Err::<(), String>(error)
                ==> end == failed
            &&& world.cache is Ok && world.client_ready && world.peer is Ok && world.messages
                == Err::<Vec<Option<PreviewMessage>>, String>(error) ==> end == failed
        }),
{
    reveal_with_fuel(PreviewWorld::run, 14);
    reveal_strlit("");
    assert(""@ == Seq::<char>::empty());
}

/// Where the message holds media, its file is looked for, and where it is not there the
/// bandwidth limit is asked about the size of the media: that of a document itself. What was
/// asked about is what is downloaded and what is counted. A refusal or a failed download is
/// reported, and nothing is counted then.
pub proof fn law_download_is_asked_for_and_counted_at_its_size(
    world: PreviewWorld,
    message_id: i32,
    folder_id: Option<i64>,
    messages: Vec<Option<PreviewMessage>>,
    i: int,
    media: PreviewMedia,
)
    requires
        world.cache is Ok,
        world.client_ready,
        world.peer is Ok,
        world.messages == Ok::<Vec<Option<PreviewMessage>>, String>(messages),
        0 <= i < messages@.len(),
        messages@[i] == Some(PreviewMessage { media: Some(media) }),
        forall|j: int| 0 <= j < i ==> #[trigger] messages@[j] is None,
        !world.file_exists,
    ensures
        ({
            let start = PreviewView { message_id, folder_id, step: PreviewStepView::LocateCache };
            let k: nat = if world.directory_exists {
                7
            } else {
                8
            };
            let asked = world.run(start, k).step;
            let file = asked->CheckTransfer_file;
            let path = world.path@;
            let nothing = PreviewStepView::Finished {
                answer: Err("File not found or failed to download"@),
            };
            &&& asked == (PreviewStepView::CheckTransfer { file, path })
            &&& file.message == i
            &&& match media {
                PreviewMedia::Photo => file.size == 1024 * 1024,
                PreviewMedia::Document { size, .. } => size >= 0 ==> file.size == size,
                PreviewMedia::Other => file.size == 0,
            }
            &&& world.run(start, k + 1).step == (if world.transfer_allowed {
                PreviewStepView::Download { file, path }
            } else {
                nothing
            })
            &&& world.transfer_allowed ==> world.run(start, k + 2).step == (
            if world.download_complete {
                PreviewStepView::RecordTransfer { file, path }
            } else {
                nothing
            })
        }),
{
    law_first_message_comes_first(messages@, i);
    reveal_with_fuel(PreviewWorld::run, 12);
}

/// What is asked of the bandwidth limit, downloaded or counted in the course of a command is
/// never another size than that of the document.
pub proof fn law_no_other_size_is_transferred(
    world: PreviewWorld,
    command: PreviewView,
    messages: Vec<Option<PreviewMessage>>,
    i: int,
    name: String,
    mime_type: Option<String>,
    size: i64,
    n: nat,
)
    requires
        world.messages == Ok::<Vec<Option<PreviewMessage>>, String>(messages),
        0 <= i < messages@.len(),
        messages@[i] == Some(
            PreviewMessage { media: Some(PreviewMedia::Document { name, mime_type, size }) },
        ),
        forall|j: int| 0 <= j < i ==> #[trigger] messages@[j] is None,
        size >= 0,
        command.step is LocateCache || command.step is CheckDirectory || command.step
            is CreateDirectory || command.step is PruneCache || command.step is GetClient
            || command.step is ResolvePeer || command.step is FetchMessages,
    ensures
        match world.run(command, n).step {
            PreviewStepView::LocateFile { file } => file.size == size,
            PreviewStepView::CheckTransfer { file, .. } => file.size == size,
            PreviewStepView::Download { file, .. } => file.size == size,
            PreviewStepView::RecordTransfer { file, .. } => file.size == size,
            PreviewStepView::PruneAgain { file, .. } => file.size == size,
            _ => true,
        },
    decreases n,
{
    law_first_message_comes_first(messages@, i);
    if n > 0 {
        let event = world.respond(command.step);
        let step = preview_next(command, event, world.reported);
        let next = PreviewView { step, ..command };
        if step is LocateFile {
            lemma_size_stays(world, next, size as int, (n - 1) as nat);
        } else if !(step is Finished) {
            law_no_other_size_is_transferred(
                world,
                next,
                messages,
                i,
                name,
                mime_type,
                size,
                (n - 1) as nat,
            );
        } else {
            lemma_preview_answer_stands(world, next, (n - 1) as nat);
        }
    }
}

proof fn lemma_size_stays(world: PreviewWorld, command: PreviewView, size: int, n: nat)
    requires
        match command.step {
            PreviewStepView::LocateFile { file } => file.size == size,
            PreviewStepView::CheckTransfer { file, .. } => file.size == size,
            PreviewStepView::Download { file, .. } => file.size == size,
            PreviewStepView::RecordTransfer { file, .. } => file.size == size,
            PreviewStepView::PruneAgain { file, .. } => file.size == size,
            PreviewStepView::ReadFile { .. } => true,
            PreviewStepView::Finished { .. } => true,
            _ => false,
        },
    ensures
        match world.run(command, n).step {
            PreviewStepView::LocateFile { file } => file.size == size,
            PreviewStepView::CheckTransfer { file, .. } => file.size == size,
            PreviewStepView::Download { file, .. } => file.size == size,
            PreviewStepView::RecordTransfer { file, .. } => file.size == size,
            PreviewStepView::PruneAgain { file, .. } => file.size == size,
            _ => true,
        },
    decreases n,
{
    if n > 0 {
        let event = world.respond(command.step);
        let step = preview_next(command, event, world.reported);
        lemma_size_stays(world, PreviewView { step, ..command }, size, (n - 1) as nat);
    }
}

proof fn lemma_preview_answer_stands(world: PreviewWorld, command: PreviewView, n: nat)
    requires
        command.step is Finished,
    ensures
        world.run(command, n) == command,
    decreases n,
{
    if n > 0 {
        lemma_preview_answer_stands(world, command, (n - 1) as nat);
    }
}

/// Where the file of the media is there, or can be downloaded, the whole command answers with
/// it: with the bytes of a picture of one of the seven kinds that can be read, as
/// `data:<type>;base64,<bytes>`, and with the path otherwise.
pub proof fn law_preview_answers_with_the_file(
    world: PreviewWorld,
    message_id: i32,
    folder_id: Option<i64>,
    messages: Vec<Option<PreviewMessage>>,
    i: int,
    media: PreviewMedia,
)
    requires
        world.cache is Ok,
        world.client_ready,
        world.peer is Ok,
        world.messages == Ok::<Vec<Option<PreviewMessage>>, String>(messages),
        0 <= i < messages@.len(),
        messages@[i] == Some(PreviewMessage { media: Some(media) }),
        forall|j: int| 0 <= j < i ==> #[trigger] messages@[j] is None,
        world.file_exists || (world.transfer_allowed && world.download_complete),
    ensures
        ({
            let start = PreviewView { message_id, folder_id, step: PreviewStepView::LocateCache };
            let k: nat = if world.directory_exists {
                6
            } else {
                7
            };
            let found = world.run(start, k).step;
            let lower = lowercase(found->LocateFile_file.extension);
            let end = world.run(start, 13).step;
            let answer = end->answer;
            &&& found is LocateFile
            &&& end is Finished
            &&& match world.content {
                Some(bytes) => {
                    let text = base64_standard(bytes@);
                    ||| (lower == "jpg"@ || lower == "jpeg"@) && answer
                        == Ok::<Seq<char>, Seq<char>>(
                        "data:"@ + "image/jpeg"@ + ";base64,"@ + text,
                    )
                    ||| lower == "png"@ && answer == Ok::<Seq<char>, Seq<char>>(
                        "data:"@ + "image/png"@ + ";base64,"@ + text,
                    )
                    ||| lower == "gif"@ && answer == Ok::<Seq<char>, Seq<char>>(
                        "data:"@ + "image/gif"@ + ";base64,"@ + text,
                    )
                    ||| lower == "webp"@ && answer == Ok::<Seq<char>, Seq<char>>(
                        "data:"@ + "image/webp"@ + ";base64,"@ + text,
                    )
                    ||| lower == "bmp"@ && answer == Ok::<Seq<char>, Seq<char>>(
                        "data:"@ + "image/bmp"@ + ";base64,"@ + text,
                    )
                    ||| lower == "svg"@ && answer == Ok::<Seq<char>, Seq<char>>(
                        "data:"@ + "image/svg+xml"@ + ";base64,"@ + text,
                    )
                    ||| lower != "jpg"@ && lower != "jpeg"@ && lower != "png"@ && lower != "gif"@
                        && lower != "webp"@ && lower != "bmp"@ && lower != "svg"@ && answer
                        == Ok::<Seq<char>, Seq<char>>(world.path@)
                },
                None => answer == Ok::<Seq<char>, Seq<char>>(world.path@),
            }
        }),
{
    law_first_message_comes_first(messages@, i);
    reveal_with_fuel(PreviewWorld::run, 14);
}

/// An answer stands, whatever happens afterwards.
pub proof fn law_preview_answer_stands(
    command: PreviewView,
    event: PreviewEvent,
    reported: Option<Seq<char>>,
)
    requires
        command.step is Finished,
    ensures
        preview_next(command, event, reported) == command.step,
{
}

} // verus!
