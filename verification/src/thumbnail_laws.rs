//! What holds of the thumbnail command as a whole.

use crate::data_url::{base64_standard, data_url_text};
use crate::decimal::decimal;
use crate::formats::{thumbnail_extension, thumbnail_type};
use crate::messages::{first_present, law_first_message_comes_first, law_gaps_hold_no_message};
use crate::naming::{law_names_are_spelled_out, thumbnail_peer, thumbnail_prefix};
use crate::photo_sizes::{
    best_thumbnail, law_best_thumbnail_is_the_largest_that_fits, PhotoSize, THUMBNAIL_MAX_BYTES,
};
use crate::text::{after_last_dot, lemma_after_last_dot};
use crate::thumbnail::{
    is_picture, law_look_up_stops_at_the_first_match, listing, look_up, thumbnail_next,
    ThumbnailEvent, ThumbnailMedia, ThumbnailMessage, ThumbnailStepView, ThumbnailView,
};
use vstd::prelude::*;

verus! {

/// How the stream of a thumbnail's chunks ends.
pub enum StreamEnd {
    Complete,
    Failed(String),
    TimedOut,
}

/// What the outside operations give back in the course of one command.
pub struct ThumbnailWorld {
    pub permit: Result<(), String>,
    pub cache: Result<(), String>,
    pub directory_exists: bool,
    pub listed: Option<Vec<String>>,
    /// What reading the entry at a place of the listing gives.
    pub contents: Seq<Option<Vec<u8>>>,
    pub client_ready: bool,
    pub peer: Result<(), String>,
    pub messages: Result<Vec<Option<ThumbnailMessage>>, String>,
    pub chunks: Seq<Vec<u8>>,
    pub end: StreamEnd,
    pub download_complete: bool,
    pub file: Option<Vec<u8>>,
}

/// A command at work, with the number of chunks that it was given.
pub struct ThumbnailRun {
    pub command: ThumbnailView,
    pub received: nat,
}

/// The chunks, one behind the other.
pub open spec fn joined(chunks: Seq<Vec<u8>>) -> Seq<u8>
    decreases chunks.len(),
{
    if chunks.len() == 0 {
        Seq::empty()
    } else {
        joined(chunks.drop_last()) + chunks.last()@
    }
}

impl ThumbnailWorld {
    /// The event that answers the step of a command that was given `received` chunks.
    pub open spec fn respond(self, step: ThumbnailStepView, received: nat) -> ThumbnailEvent {
        match step {
            ThumbnailStepView::AcquirePermit => ThumbnailEvent::PermitAcquired(self.permit),
            ThumbnailStepView::LocateCache => ThumbnailEvent::CacheLocated(self.cache),
            ThumbnailStepView::CheckDirectory => ThumbnailEvent::DirectoryExists(
                self.directory_exists,
            ),
            ThumbnailStepView::CreateDirectory => ThumbnailEvent::DirectoryCreated,
            ThumbnailStepView::ListCache => ThumbnailEvent::CacheListed(self.listed),
            ThumbnailStepView::ReadEntry { index, .. } => ThumbnailEvent::EntryRead(
                self.contents[index],
            ),
            ThumbnailStepView::GetClient => ThumbnailEvent::ClientReady(self.client_ready),
            ThumbnailStepView::ResolvePeer => ThumbnailEvent::PeerResolved(self.peer),
            ThumbnailStepView::FetchMessages => ThumbnailEvent::MessagesFetched(self.messages),
            ThumbnailStepView::ReceiveChunk { .. } => if received < self.chunks.len() {
                ThumbnailEvent::ChunkReceived(Ok(Some(self.chunks[received as int])))
            } else {
                match self.end {
                    StreamEnd::Complete => ThumbnailEvent::ChunkReceived(Ok(None)),
                    StreamEnd::Failed(error) => ThumbnailEvent::ChunkReceived(Err(error)),
                    StreamEnd::TimedOut => ThumbnailEvent::TimedOut,
                }
            },
            ThumbnailStepView::StoreThumbnail { .. } => ThumbnailEvent::ThumbnailStored,
            ThumbnailStepView::DownloadMedia { .. } => ThumbnailEvent::Downloaded(
                self.download_complete,
            ),
            ThumbnailStepView::ReadFile { .. } => ThumbnailEvent::FileRead(self.file),
            ThumbnailStepView::Finished { .. } => ThumbnailEvent::TimedOut,
        }
    }

    /// The command after its present step.
    pub open spec fn once(self, run: ThumbnailRun) -> ThumbnailRun {
        let event = self.respond(run.command.step, run.received);
        ThumbnailRun {
            command: ThumbnailView { step: thumbnail_next(run.command, event), ..run.command },
            received: if run.command.step is ReceiveChunk {
                run.received + 1
            } else {
                run.received
            },
        }
    }

    /// The command after `n` more steps.
    pub open spec fn run(self, run: ThumbnailRun, n: nat) -> ThumbnailRun
        decreases n,
    {
        if n == 0 {
            run
        } else {
            self.run(self.once(run), (n - 1) as nat)
        }
    }

    /// The data URL of the first entry of the message, from the place `from` of the listing
    /// on, that can be read.
    pub open spec fn cached(self, names: Seq<Seq<char>>, prefix: Seq<char>, from: int) -> Option<
        Seq<char>,
    >
        decreases names.len() - from,
    {
        if from < 0 || from >= names.len() {
            None
        } else if prefix.is_prefix_of(names[from]) && self.contents[from] is Some {
            Some(
                data_url_text(
                    thumbnail_type(after_last_dot(names[from])),
                    self.contents[from]->0@,
                ),
            )
        } else {
            self.cached(names, prefix, from + 1)
        }
    }

    /// The answer where the thumbnail comes in chunks.
    pub open spec fn streamed(self) -> Result<Seq<char>, Seq<char>> {
        let bytes = joined(self.chunks);
        if bytes.len() > THUMBNAIL_MAX_BYTES {
            Err("Thumbnail exceeds size limit"@)
        } else {
            match self.end {
                StreamEnd::Complete => if bytes.len() == 0 {
                    Ok(""@)
                } else {
                    Ok(data_url_text("image/jpeg"@, bytes))
                },
                StreamEnd::Failed(error) => Err(error@),
                StreamEnd::TimedOut => Err("Thumbnail request timed out"@),
            }
        }
    }

    /// The answer where the media itself is downloaded.
    pub open spec fn downloaded(self, extension: Seq<char>) -> Result<Seq<char>, Seq<char>> {
        if self.download_complete && self.file is Some {
            Ok(data_url_text(thumbnail_type(extension), self.file->0@))
        } else {
            Ok(""@)
        }
    }

    /// The answer that Telegram's reply leads to.
    pub open spec fn fetched(self, messages: Seq<Option<ThumbnailMessage>>) -> Result<
        Seq<char>,
        Seq<char>,
    > {
        match first_present(messages) {
            Some(i) => match messages[i]->0.media {
                Some(ThumbnailMedia::Photo) => self.downloaded("jpg"@),
                Some(ThumbnailMedia::Document { mime_type, thumbs }) => if is_picture(mime_type) {
                    self.downloaded(thumbnail_extension(mime_type->0@))
                } else if best_thumbnail(thumbs@) is Some {
                    self.streamed()
                } else {
                    Ok(""@)
                },
                _ => Ok(""@),
            },
            None => Ok(""@),
        }
    }

    /// The answer that the command owes when the cache holds nothing.
    pub open spec fn fresh(self) -> Result<Seq<char>, Seq<char>> {
        if !self.client_ready {
            Ok(""@)
        } else if self.peer is Err {
            Err(self.peer->Err_0@)
        } else {
            match self.messages {
                Ok(messages) => self.fetched(messages@),
                Err(error) => Err(error@),
            }
        }
    }

    /// The answer that the command owes.
    pub open spec fn answer(self, message_id: i32, folder_id: Option<i64>) -> Result<
        Seq<char>,
        Seq<char>,
    > {
        if self.permit is Err {
            Err(self.permit->Err_0@)
        } else if self.cache is Err {
            Err(self.cache->Err_0@)
        } else {
            match self.listed {
                Some(names) => match self.cached(
                    listing(names@),
                    thumbnail_prefix(folder_id, message_id),
                    0,
                ) {
                    Some(url) => Ok(url),
                    None => self.fresh(),
                },
                None => self.fresh(),
            }
        }
    }
}

proof fn lemma_run_on(world: ThumbnailWorld, run: ThumbnailRun, m: nat, n: nat)
    ensures
        world.run(world.run(run, m), n) == world.run(run, m + n),
    decreases m,
{
    if m > 0 {
        lemma_run_on(world, world.once(run), (m - 1) as nat, n);
    }
}

/// From the look-up of cached entries a command comes to the answer or to Telegram.
proof fn lemma_scan(world: ThumbnailWorld, run: ThumbnailRun, names: Seq<Seq<char>>, from: int) -> (n:
    nat)
    requires
        0 <= from,
        run.command.step == look_up(
            names,
            thumbnail_prefix(run.command.folder_id, run.command.message_id),
            from,
        ),
    ensures
        world.run(run, n) == (ThumbnailRun {
            command: ThumbnailView {
                step: match world.cached(
                    names,
                    thumbnail_prefix(run.command.folder_id, run.command.message_id),
                    from,
                ) {
                    Some(url) => ThumbnailStepView::Finished { answer: Ok(url) },
                    None => ThumbnailStepView::GetClient,
                },
                ..run.command
            },
            received: run.received,
        }),
    decreases names.len() - from,
{
    let prefix = thumbnail_prefix(run.command.folder_id, run.command.message_id);
    if from >= names.len() {
        0
    } else if !prefix.is_prefix_of(names[from]) {
        lemma_scan(world, run, names, from + 1)
    } else {
        let next = world.once(run);
        if world.contents[from] is Some {
            assert(world.run(next, 0) == next);
            1
        } else {
            let n = lemma_scan(world, next, names, from + 1);
            n + 1
        }
    }
}

proof fn lemma_joined_grows(chunks: Seq<Vec<u8>>, n: int)
    requires
        0 <= n <= chunks.len(),
    ensures
        joined(chunks.take(n)).len() <= joined(chunks).len(),
    decreases chunks.len() - n,
{
    if n < chunks.len() {
        lemma_joined_grows(chunks, n + 1);
        assert(chunks.take(n + 1).drop_last() == chunks.take(n));
    } else {
        assert(chunks.take(n) == chunks);
    }
}

/// Chunk by chunk a command comes to the answer.
proof fn lemma_stream(world: ThumbnailWorld, run: ThumbnailRun, message: int, thumb: int) -> (n: nat)
    requires
        run.received <= world.chunks.len(),
        joined(world.chunks.take(run.received as int)).len() <= THUMBNAIL_MAX_BYTES,
        run.command.step == (ThumbnailStepView::ReceiveChunk {
            message,
            thumb,
            bytes: joined(world.chunks.take(run.received as int)),
        }),
    ensures
        world.run(run, n).command == (ThumbnailView {
            step: ThumbnailStepView::Finished { answer: world.streamed() },
            ..run.command
        }),
    decreases world.chunks.len() - run.received,
{
    let k = run.received as int;
    let bytes = joined(world.chunks.take(k));
    let next = world.once(run);
    assert(world.run(next, 0) == next);
    if k < world.chunks.len() {
        assert(world.chunks.take(k + 1).drop_last() == world.chunks.take(k));
        assert(joined(world.chunks.take(k + 1)) == bytes + world.chunks[k]@);
        if bytes.len() + world.chunks[k]@.len() > THUMBNAIL_MAX_BYTES {
            lemma_joined_grows(world.chunks, k + 1);
            1
        } else {
            let n = lemma_stream(world, next, message, thumb);
            n + 1
        }
    } else {
        assert(world.chunks.take(k) == world.chunks);
        if world.end is Complete && bytes.len() > 0 {
            let last = world.once(next);
            assert(world.run(last, 0) == last);
            assert(world.run(next, 1) == last);
            2
        } else {
            1
        }
    }
}

/// Without a cached entry a command comes to the answer by way of Telegram.
proof fn lemma_fetch(world: ThumbnailWorld, run: ThumbnailRun) -> (n: nat)
    requires
        run.received == 0,
        run.command.step is GetClient,
    ensures
        world.run(run, n).command == (ThumbnailView {
            step: ThumbnailStepView::Finished { answer: world.fresh() },
            ..run.command
        }),
{
    reveal_with_fuel(ThumbnailWorld::run, 6);
    let reply = world.run(run, 3);
    if !world.client_ready {
        1
    } else if world.peer is Err {
        2
    } else if reply.command.step is ReceiveChunk {
        assert(world.chunks.take(0) == Seq::<Vec<u8>>::empty());
        let step = reply.command.step;
        let n = lemma_stream(world, reply, step->ReceiveChunk_message, step->thumb);
        lemma_run_on(world, run, 3, n);
        n + 3
    } else if reply.command.step is Finished {
        3
    } else if !world.download_complete {
        4
    } else {
        5
    }
}

/// Whatever the outside operations give back, the command is answered, and the answer is the
/// one it owes: the error of the operation that failed; the data URL of the first cached
/// entry of the message that can be read; or else what Telegram gives. That is the data URL
/// of a photo or picture that could be downloaded, or of the best thumbnail of another
/// document once all of its chunks have come; an error where the thumbnail takes too much,
/// too long or fails; and the empty text in all other cases. The result is the number of
/// steps that it takes.
pub proof fn law_thumbnail_is_answered(
    world: ThumbnailWorld,
    message_id: i32,
    folder_id: Option<i64>,
) -> (n: nat)
    ensures
        ({
            let command = ThumbnailView {
                message_id,
                folder_id,
                step: ThumbnailStepView::AcquirePermit,
            };
            let start = ThumbnailRun { command, received: 0 };
            world.run(start, n).command.step == (ThumbnailStepView::Finished {
                answer: world.answer(message_id, folder_id),
            })
        }),
{
    reveal_with_fuel(ThumbnailWorld::run, 6);
    let command = ThumbnailView { message_id, folder_id, step: ThumbnailStepView::AcquirePermit };
    let start = ThumbnailRun { command, received: 0 };
    if world.permit is Err {
        1
    } else if world.cache is Err {
        2
    } else {
        let m: nat = if world.directory_exists {
            4
        } else {
            5
        };
        let listed = world.run(start, m);
        match world.listed {
            Some(names) => {
                let prefix = thumbnail_prefix(folder_id, message_id);
                let s = lemma_scan(world, listed, listing(names@), 0);
                lemma_run_on(world, start, m, s);
                let scanned = world.run(start, m + s);
                if world.cached(listing(names@), prefix, 0) is Some {
                    m + s
                } else {
                    let n = lemma_fetch(world, scanned);
                    lemma_run_on(world, start, m + s, n);
                    m + s + n
                }
            },
            None => {
                let n = lemma_fetch(world, listed);
                lemma_run_on(world, start, m, n);
                m + n
            },
        }
    }
}

/// The media of a message is downloaded only where it is a photo or a picture: a video, or
/// any other document, is never fetched whole.
pub proof fn law_only_pictures_are_downloaded(command: ThumbnailView, event: ThumbnailEvent)
    requires
        thumbnail_next(command, event) is DownloadMedia,
        !(command.step is DownloadMedia),
    ensures
        event matches ThumbnailEvent::MessagesFetched(Ok(messages)) && {
            let message = thumbnail_next(command, event)->DownloadMedia_message;
            &&& first_present(messages@) == Some(message)
            &&& match messages@[message]->0.media {
                Some(ThumbnailMedia::Photo) => true,
                Some(ThumbnailMedia::Document { mime_type, .. }) => is_picture(mime_type),
                _ => false,
            }
        },
{
}

/// A document that is not a picture is shown by the best of the thumbnails on offer for it,
/// and keeps its file icon where none will do.
pub proof fn law_other_documents_show_their_best_thumbnail(
    command: ThumbnailView,
    messages: Vec<Option<ThumbnailMessage>>,
    message: int,
    mime_type: Option<String>,
    thumbs: Vec<PhotoSize>,
)
    requires
        command.step is FetchMessages,
        first_present(messages@) == Some(message),
        messages@[message]->0.media == Some(ThumbnailMedia::Document { mime_type, thumbs }),
        !is_picture(mime_type),
    ensures
        ({
            let event = ThumbnailEvent::MessagesFetched(Ok(messages));
            match best_thumbnail(thumbs@) {
                Some(thumb) => thumbnail_next(command, event) == (ThumbnailStepView::ReceiveChunk {
                    message,
                    thumb,
                    bytes: Seq::empty(),
                }),
                None => thumbnail_next(command, event) == (ThumbnailStepView::Finished {
                    answer: Ok(""@),
                }),
            }
        }),
{
}

/// A thumbnail enters the cache only when its last chunk has come, and then with all that
/// was received; one that failed, took too long or took too much does not.
pub proof fn law_only_complete_thumbnails_are_stored(
    command: ThumbnailView,
    event: ThumbnailEvent,
    name: Seq<char>,
    bytes: Seq<u8>,
)
    requires
        !(command.step is StoreThumbnail),
    ensures
        thumbnail_next(command, event) == (ThumbnailStepView::StoreThumbnail { name, bytes }) <==> {
            &&& event == ThumbnailEvent::ChunkReceived(Ok(None))
            &&& command.step matches ThumbnailStepView::ReceiveChunk { bytes: collected, .. }
            &&& collected == bytes
            &&& bytes.len() > 0
            &&& name == thumbnail_prefix(command.folder_id, command.message_id) + "jpg"@
        },
{
}

/// Whether the step is one that writes into the cache, or one that may follow upon it.
pub open spec fn may_have_written(step: ThumbnailStepView) -> bool {
    match step {
        ThumbnailStepView::StoreThumbnail { .. } => true,
        ThumbnailStepView::DownloadMedia { .. } => true,
        ThumbnailStepView::ReadFile { .. } => true,
        ThumbnailStepView::Finished { answer } => answer is Ok,
        _ => false,
    }
}

/// A command that has written into the cache is not answered with an error any more.
proof fn lemma_writing_is_answered_well(world: ThumbnailWorld, run: ThumbnailRun, n: nat)
    requires
        may_have_written(run.command.step),
    ensures
        may_have_written(world.run(run, n).command.step),
    decreases n,
{
    if n > 0 {
        lemma_writing_is_answered_well(world, world.once(run), (n - 1) as nat);
    }
}

/// A command that is answered with an error has not written into the cache: none of its steps
/// was to store a thumbnail or to download media.
pub proof fn law_failed_command_leaves_the_cache_alone(
    world: ThumbnailWorld,
    run: ThumbnailRun,
    m: nat,
    n: nat,
)
    requires
        m <= n,
        world.run(run, n).command.step matches ThumbnailStepView::Finished { answer }
            && answer is Err,
    ensures
        !(world.run(run, m).command.step is StoreThumbnail),
        !(world.run(run, m).command.step is DownloadMedia),
{
    let rest = (n - m) as nat;
    lemma_run_on(world, run, m, rest);
    if may_have_written(world.run(run, m).command.step) {
        lemma_writing_is_answered_well(world, world.run(run, m), rest);
    }
}

/// Whether thumbnails enter the cache under this extension.
pub open spec fn storable(extension: Seq<char>) -> bool {
    extension == "jpg"@ || extension == "png"@ || extension == "gif"@ || extension == "webp"@
}

/// Every thumbnail enters the cache under the prefix of its message, with an extension that
/// stands for the type under which it is shown.
pub proof fn law_thumbnails_enter_under_their_prefix(command: ThumbnailView, event: ThumbnailEvent)
    requires
        !(command.step is DownloadMedia),
        !(command.step is StoreThumbnail),
    ensures
        ({
            let prefix = thumbnail_prefix(command.folder_id, command.message_id);
            match thumbnail_next(command, event) {
                ThumbnailStepView::DownloadMedia { name, extension, .. } => storable(extension)
                    && name == prefix + extension,
                ThumbnailStepView::StoreThumbnail { name, .. } => name == prefix + "jpg"@
                    && thumbnail_type("jpg"@) == "image/jpeg"@,
                _ => true,
            }
        }),
{
    reveal_strlit("jpg");
    reveal_strlit("png");
    reveal_strlit("gif");
    reveal_strlit("webp");
    assert("jpg"@[0] == 'j' && "png"@[0] == 'p' && "gif"@[0] == 'g' && "webp"@[0] == 'w');
}

/// A thumbnail that was stored is shown again as it was shown first: where the listing holds
/// it, its bytes can be read, and no entry before it is a readable one of the same message,
/// the answer is the data URL of those bytes with the type that its extension stands for.
pub proof fn law_stored_thumbnail_is_shown_again(
    world: ThumbnailWorld,
    message_id: i32,
    folder_id: Option<i64>,
    extension: Seq<char>,
    bytes: Vec<u8>,
    names: Vec<String>,
    place: int,
)
    requires
        world.permit is Ok,
        world.cache is Ok,
        world.listed == Some(names),
        storable(extension),
        0 <= place < names@.len(),
        names@[place]@ == thumbnail_prefix(folder_id, message_id) + extension,
        world.contents[place] == Some(bytes),
        forall|j: int|
            0 <= j < place ==> !thumbnail_prefix(folder_id, message_id).is_prefix_of(
                #[trigger] names@[j]@,
            ) || world.contents[j] is None,
    ensures
        world.answer(message_id, folder_id) == Ok::<Seq<char>, Seq<char>>(
            data_url_text(thumbnail_type(extension), bytes@),
        ),
{
    let prefix = thumbnail_prefix(folder_id, message_id);
    let head = thumbnail_peer(folder_id) + "_"@ + decimal(message_id as int);
    reveal_strlit("jpg");
    reveal_strlit("png");
    reveal_strlit("gif");
    reveal_strlit("webp");
    reveal_strlit(".");
    assert(prefix == head.push('.'));
    lemma_after_last_dot(head, extension);
    assert((prefix + extension).take(prefix.len() as int) == prefix);
    lemma_cached_at(world, listing(names@), prefix, 0, place);
}

proof fn lemma_cached_at(
    world: ThumbnailWorld,
    names: Seq<Seq<char>>,
    prefix: Seq<char>,
    from: int,
    place: int,
)
    requires
        0 <= from <= place < names.len(),
        prefix.is_prefix_of(names[place]),
        world.contents[place] is Some,
        forall|j: int|
            from <= j < place ==> !prefix.is_prefix_of(#[trigger] names[j]) || world.contents[j]
                is None,
    ensures
        world.cached(names, prefix, from) == Some(
            data_url_text(
                thumbnail_type(after_last_dot(names[place])),
                world.contents[place]->0@,
            ),
        ),
    decreases place - from,
{
    if from < place {
        lemma_cached_at(world, names, prefix, from + 1, place);
    }
}

/// The media of a document is downloaded where its type begins with the characters `image/`,
/// and only there: no video, nor any other document, is ever fetched whole. A picture is kept
/// under the names of its chat and message, as PNG, GIF or WebP where that is its type to the
/// letter and as JPEG otherwise.
pub proof fn law_documents_are_downloaded_by_their_type(
    command: ThumbnailView,
    messages: Vec<Option<ThumbnailMessage>>,
    i: int,
    mime_type: Option<String>,
    thumbs: Vec<PhotoSize>,
)
    requires
        command.step is FetchMessages,
        0 <= i < messages@.len(),
        messages@[i] == Some(
            ThumbnailMessage { media: Some(ThumbnailMedia::Document { mime_type, thumbs }) },
        ),
        forall|j: int| 0 <= j < i ==> #[trigger] messages@[j] is None,
    ensures
        ({
            let next = thumbnail_next(command, ThumbnailEvent::MessagesFetched(Ok(messages)));
            let prefix = match command.folder_id {
                Some(id) => decimal(id as int) + seq!['_'] + decimal(command.message_id as int)
                    + seq!['.'],
                None => seq!['s', 'a', 'v', 'e', 'd', '_'] + decimal(command.message_id as int)
                    + seq!['.'],
            };
            &&& next is DownloadMedia <==> {
                &&& mime_type matches Some(mime)
                &&& mime@.len() >= 6
                &&& mime@[0] == 'i'
                &&& mime@[1] == 'm'
                &&& mime@[2] == 'a'
                &&& mime@[3] == 'g'
                &&& mime@[4] == 'e'
                &&& mime@[5] == '/'
            }
            &&& next matches ThumbnailStepView::DownloadMedia { message, name, extension } ==> {
                let mime = mime_type->0@;
                &&& message == i
                &&& name == prefix + extension
                &&& {
                    ||| mime == "image/png"@ && extension == "png"@
                    ||| mime == "image/gif"@ && extension == "gif"@
                    ||| mime == "image/webp"@ && extension == "webp"@
                    ||| mime != "image/png"@ && mime != "image/gif"@ && mime != "image/webp"@
                        && extension == "jpg"@
                }
            }
        }),
{
    law_first_message_comes_first(messages@, i);
    law_names_are_spelled_out(command.folder_id, command.message_id, Seq::empty());
    reveal_strlit("image/");
    let start = "image/"@;
    assert(start == seq!['i', 'm', 'a', 'g', 'e', '/']);
    if let Some(mime) = mime_type {
        if mime@.len() >= 6 {
            let taken = mime@.take(6);
            assert(start.is_prefix_of(mime@) == (start == taken)) by {
                assert(mime@.subrange(0, 6) == taken);
            }
            if mime@[0] == 'i' && mime@[1] == 'm' && mime@[2] == 'a' && mime@[3] == 'g' && mime@[4]
                == 'e' && mime@[5] == '/' {
                assert(taken == start);
            }
            if taken == start {
                assert(taken[0] == 'i' && taken[1] == 'm' && taken[2] == 'a' && taken[3] == 'g'
                    && taken[4] == 'e' && taken[5] == '/');
            }
        }
    }
}

/// A document that is not downloaded is shown by one of its thumbnails, of which nothing is
/// received yet: a picture of 1 to 2097152 bytes that is neither empty nor an outline. No
/// other such thumbnail takes more, and none behind it as much. Where there is no such
/// thumbnail, the card keeps its icon.
pub proof fn law_other_documents_are_shown_by_the_largest_thumbnail(
    command: ThumbnailView,
    messages: Vec<Option<ThumbnailMessage>>,
    i: int,
    mime_type: Option<String>,
    thumbs: Vec<PhotoSize>,
    j: int,
)
    requires
        command.step is FetchMessages,
        0 <= i < messages@.len(),
        messages@[i] == Some(
            ThumbnailMessage { media: Some(ThumbnailMedia::Document { mime_type, thumbs }) },
        ),
        forall|m: int| 0 <= m < i ==> #[trigger] messages@[m] is None,
        0 <= j <= thumbs@.len(),
    ensures
        ({
            let fits = j < thumbs@.len() && !(thumbs@[j] is Empty) && !(thumbs@[j] is Path) && 0
                < thumbs@[j].spec_size() <= 2097152;
            match thumbnail_next(command, ThumbnailEvent::MessagesFetched(Ok(messages))) {
                ThumbnailStepView::DownloadMedia { .. } => true,
                ThumbnailStepView::ReceiveChunk { message, thumb, bytes } => {
                    &&& message == i
                    &&& bytes.len() == 0
                    &&& 0 <= thumb < thumbs@.len()
                    &&& !(thumbs@[thumb] is Empty)
                    &&& !(thumbs@[thumb] is Path)
                    &&& 0 < thumbs@[thumb].spec_size() <= 2097152
                    &&& fits ==> thumbs@[j].spec_size() <= thumbs@[thumb].spec_size()
                    &&& fits && thumb < j ==> thumbs@[j].spec_size() < thumbs@[thumb].spec_size()
                },
                ThumbnailStepView::Finished { answer } => {
                    &&& answer == Ok::<Seq<char>, Seq<char>>(Seq::empty())
                    &&& !fits
                },
                _ => false,
            }
        }),
{
    law_first_message_comes_first(messages@, i);
    reveal_strlit("");
    assert(""@ == Seq::<char>::empty());
    if j < thumbs@.len() {
        law_best_thumbnail_is_the_largest_that_fits(thumbs@, j);
    } else if thumbs@.len() > 0 {
        law_best_thumbnail_is_the_largest_that_fits(thumbs@, 0);
    }
}

/// A photo is downloaded as JPEG; other media, a message without media and a reply without a
/// message leave the card its icon.
pub proof fn law_other_replies(
    command: ThumbnailView,
    messages: Vec<Option<ThumbnailMessage>>,
    i: int,
)
    requires
        command.step is FetchMessages,
        0 <= i <= messages@.len(),
        i < messages@.len() ==> messages@[i] is Some,
        forall|j: int| 0 <= j < i ==> #[trigger] messages@[j] is None,
    ensures
        ({
            let next = thumbnail_next(command, ThumbnailEvent::MessagesFetched(Ok(messages)));
            let nothing = ThumbnailStepView::Finished { answer: Ok(Seq::empty()) };
            let prefix = match command.folder_id {
                Some(id) => decimal(id as int) + seq!['_'] + decimal(command.message_id as int)
                    + seq!['.'],
                None => seq!['s', 'a', 'v', 'e', 'd', '_'] + decimal(command.message_id as int)
                    + seq!['.'],
            };
            if i == messages@.len() {
                next == nothing
            } else {
                match messages@[i]->0.media {
                    Some(ThumbnailMedia::Photo) => next == (ThumbnailStepView::DownloadMedia {
                        message: i,
                        name: prefix + seq!['j', 'p', 'g'],
                        extension: seq!['j', 'p', 'g'],
                    }),
                    Some(ThumbnailMedia::Document { .. }) => true,
                    Some(ThumbnailMedia::Other) => next == nothing,
                    None => next == nothing,
                }
            }
        }),
{
    if i < messages@.len() {
        law_first_message_comes_first(messages@, i);
    } else {
        law_gaps_hold_no_message(messages@);
    }
    law_names_are_spelled_out(command.folder_id, command.message_id, Seq::empty());
    reveal_strlit("");
    reveal_strlit("jpg");
    assert(""@ == Seq::<char>::empty());
    assert("jpg"@ == seq!['j', 'p', 'g']);
}

/// Of the cached entries the first one whose name begins with chat, message and dot is read,
/// and the next such one where that fails; Telegram is asked only where none is left.
pub proof fn law_first_cached_entry_is_read(
    command: ThumbnailView,
    names: Vec<String>,
    from: int,
    j: int,
)
    requires
        0 <= from <= j < names@.len(),
        (from == 0 && command.step is ListCache) || (from > 0 && command.step == (
        ThumbnailStepView::ReadEntry {
            names: names@.map_values(|name: String| name@),
            index: from - 1,
        })),
    ensures
        ({
            let event = if from == 0 {
                ThumbnailEvent::CacheListed(Some(names))
            } else {
                ThumbnailEvent::EntryRead(None)
            };
            let prefix = match command.folder_id {
                Some(id) => decimal(id as int) + seq!['_'] + decimal(command.message_id as int)
                    + seq!['.'],
                None => seq!['s', 'a', 'v', 'e', 'd', '_'] + decimal(command.message_id as int)
                    + seq!['.'],
            };
            match thumbnail_next(command, event) {
                ThumbnailStepView::ReadEntry { names: listed, index } => {
                    &&& listed.len() == names@.len()
                    &&& listed[j] == names@[j]@
                    &&& from <= index < names@.len()
                    &&& prefix.is_prefix_of(names@[index]@)
                    &&& j < index ==> !prefix.is_prefix_of(names@[j]@)
                },
                ThumbnailStepView::GetClient => !prefix.is_prefix_of(names@[j]@),
                _ => false,
            }
        }),
{
    let prefix = thumbnail_prefix(command.folder_id, command.message_id);
    law_names_are_spelled_out(command.folder_id, command.message_id, Seq::empty());
    law_look_up_stops_at_the_first_match(listing(names@), prefix, from, j);
    assert(listing(names@) == names@.map_values(|name: String| name@));
}

/// Where the cache cannot be listed, is empty, or its last entry could not be read, Telegram
/// is asked.
pub proof fn law_exhausted_cache_leads_to_telegram(command: ThumbnailView, names: Vec<String>)
    ensures
        command.step is ListCache ==> thumbnail_next(command, ThumbnailEvent::CacheListed(None))
            is GetClient,
        command.step is ListCache && names@.len() == 0 ==> thumbnail_next(
            command,
            ThumbnailEvent::CacheListed(Some(names)),
        ) is GetClient,
        command.step matches ThumbnailStepView::ReadEntry { names: listed, index } && index + 1
            >= listed.len() ==> thumbnail_next(command, ThumbnailEvent::EntryRead(None))
            is GetClient,
{
}

/// A cached entry that can be read is answered as `data:<type>;base64,<bytes>`: as PNG, GIF
/// or WebP where that is what follows the last dot of its name, and as JPEG otherwise.
pub proof fn law_cached_entry_is_answered(
    command: ThumbnailView,
    names: Seq<Seq<char>>,
    index: int,
    head: Seq<char>,
    tail: Seq<char>,
    bytes: Vec<u8>,
)
    requires
        command.step == (ThumbnailStepView::ReadEntry { names, index }),
        names[index] == head.push('.') + tail,
        !tail.contains('.'),
    ensures
        ({
            let answer = thumbnail_next(command, ThumbnailEvent::EntryRead(Some(bytes)))->answer;
            let text = base64_standard(bytes@);
            &&& thumbnail_next(command, ThumbnailEvent::EntryRead(Some(bytes))) is Finished
            &&& {
                ||| tail == "png"@ && answer == Ok::<Seq<char>, Seq<char>>(
                    "data:"@ + "image/png"@ + ";base64,"@ + text,
                )
                ||| tail == "gif"@ && answer == Ok::<Seq<char>, Seq<char>>(
                    "data:"@ + "image/gif"@ + ";base64,"@ + text,
                )
                ||| tail == "webp"@ && answer == Ok::<Seq<char>, Seq<char>>(
                    "data:"@ + "image/webp"@ + ";base64,"@ + text,
                )
                ||| tail != "png"@ && tail != "gif"@ && tail != "webp"@ && answer
                    == Ok::<Seq<char>, Seq<char>>("data:"@ + "image/jpeg"@ + ";base64,"@ + text)
            }
        }),
{
    lemma_after_last_dot(head, tail);
}

/// Each chunk goes behind what was received before it, as long as that is at most 2097152
/// bytes together; otherwise the command fails. At the end all that was received is stored as
/// JPEG under the names of chat and message, and then answered; nothing received is nothing
/// to show. A failure is answered to the letter.
pub proof fn law_chunks_are_collected(
    command: ThumbnailView,
    message: int,
    thumb: int,
    bytes: Seq<u8>,
    chunk: Vec<u8>,
    error: String,
)
    requires
        command.step == (ThumbnailStepView::ReceiveChunk { message, thumb, bytes }),
    ensures
        ({
            let more = thumbnail_next(command, ThumbnailEvent::ChunkReceived(Ok(Some(chunk))));
            let end = thumbnail_next(command, ThumbnailEvent::ChunkReceived(Ok(None)));
            let prefix = match command.folder_id {
                Some(id) => decimal(id as int) + seq!['_'] + decimal(command.message_id as int)
                    + seq!['.'],
                None => seq!['s', 'a', 'v', 'e', 'd', '_'] + decimal(command.message_id as int)
                    + seq!['.'],
            };
            &&& bytes.len() + chunk@.len() <= 2097152 ==> more == (
            ThumbnailStepView::ReceiveChunk { message, thumb, bytes: bytes + chunk@ })
            &&& bytes.len() + chunk@.len() > 2097152 ==> more == (ThumbnailStepView::Finished {
                answer: Err("Thumbnail exceeds size limit"@),
            })
            &&& bytes.len() == 0 ==> end == (ThumbnailStepView::Finished {
                answer: Ok(Seq::empty()),
            })
            &&& bytes.len() > 0 ==> {
                &&& end == (ThumbnailStepView::StoreThumbnail {
                    name: prefix + seq!['j', 'p', 'g'],
                    bytes,
                })
                &&& thumbnail_next(
                    ThumbnailView { step: end, ..command },
                    ThumbnailEvent::ThumbnailStored,
                ) == (ThumbnailStepView::Finished {
                    answer: Ok("data:"@ + "image/jpeg"@ + ";base64,"@ + base64_standard(bytes)),
                })
            }
            &&& thumbnail_next(command, ThumbnailEvent::ChunkReceived(Err(error))) == (
            ThumbnailStepView::Finished { answer: Err(error@) })
            &&& thumbnail_next(command, ThumbnailEvent::TimedOut) == (ThumbnailStepView::Finished {
                answer: Err("Thumbnail request timed out"@),
            })
        }),
{
    law_names_are_spelled_out(command.folder_id, command.message_id, Seq::empty());
    reveal_strlit("");
    reveal_strlit("jpg");
    assert(""@ == Seq::<char>::empty());
    assert("jpg"@ == seq!['j', 'p', 'g']);
}

/// A picture that was downloaded is read under the name under which it was downloaded, and
/// answered under the type that its extension stands for; where either fails the card keeps
/// its icon.
pub proof fn law_downloaded_picture_is_answered(
    command: ThumbnailView,
    message: int,
    name: Seq<char>,
    extension: Seq<char>,
    bytes: Vec<u8>,
)
    requires
        command.step == (ThumbnailStepView::DownloadMedia { message, name, extension }),
    ensures
        ({
            let nothing = ThumbnailStepView::Finished { answer: Ok(Seq::empty()) };
            let read = thumbnail_next(command, ThumbnailEvent::Downloaded(true));
            let reading = ThumbnailView { step: read, ..command };
            let shown = thumbnail_next(reading, ThumbnailEvent::FileRead(Some(bytes)));
            let text = base64_standard(bytes@);
            &&& thumbnail_next(command, ThumbnailEvent::Downloaded(false)) == nothing
            &&& read == (ThumbnailStepView::ReadFile { name, extension })
            &&& thumbnail_next(reading, ThumbnailEvent::FileRead(None)) == nothing
            &&& shown is Finished
            &&& {
                ||| extension == "png"@ && shown->answer == Ok::<Seq<char>, Seq<char>>(
                    "data:"@ + "image/png"@ + ";base64,"@ + text,
                )
                ||| extension == "gif"@ && shown->answer == Ok::<Seq<char>, Seq<char>>(
                    "data:"@ + "image/gif"@ + ";base64,"@ + text,
                )
                ||| extension == "webp"@ && shown->answer == Ok::<Seq<char>, Seq<char>>(
                    "data:"@ + "image/webp"@ + ";base64,"@ + text,
                )
                ||| extension != "png"@ && extension != "gif"@ && extension != "webp"@
                    && shown->answer == Ok::<Seq<char>, Seq<char>>(
                    "data:"@ + "image/jpeg"@ + ";base64,"@ + text,
                )
            }
        }),
{
    reveal_strlit("");
    assert(""@ == Seq::<char>::empty());
}

/// The error of an operation that failed is the answer, to the letter; without a connection
/// the answer is empty. Otherwise the command goes on, and the thumbnail directory is created
/// where it does not exist.
pub proof fn law_thumbnail_passes_errors_on(command: ThumbnailView, error: String)
    ensures
        ({
            let failed = ThumbnailStepView::Finished { answer: Err(error@) };
            match command.step {
                ThumbnailStepView::AcquirePermit => {
                    &&& thumbnail_next(command, ThumbnailEvent::PermitAcquired(Err(error)))
                        == failed
                    &&& thumbnail_next(command, ThumbnailEvent::PermitAcquired(Ok(())))
                        is LocateCache
                },
                ThumbnailStepView::LocateCache => {
                    &&& thumbnail_next(command, ThumbnailEvent::CacheLocated(Err(error))) == failed
                    &&& thumbnail_next(command, ThumbnailEvent::CacheLocated(Ok(())))
                        is CheckDirectory
                },
                ThumbnailStepView::CheckDirectory => {
                    &&& thumbnail_next(command, ThumbnailEvent::DirectoryExists(false))
                        is CreateDirectory
                    &&& thumbnail_next(command, ThumbnailEvent::DirectoryExists(true)) is ListCache
                },
                ThumbnailStepView::CreateDirectory => thumbnail_next(
                    command,
                    ThumbnailEvent::DirectoryCreated,
                ) is ListCache,
                ThumbnailStepView::GetClient => {
                    &&& thumbnail_next(command, ThumbnailEvent::ClientReady(false)) == (
                    ThumbnailStepView::Finished { answer: Ok(Seq::empty()) })
                    &&& thumbnail_next(command, ThumbnailEvent::ClientReady(true)) is ResolvePeer
                },
                ThumbnailStepView::ResolvePeer => {
                    &&& thumbnail_next(command, ThumbnailEvent::PeerResolved(Err(error))) == failed
                    &&& thumbnail_next(command, ThumbnailEvent::PeerResolved(Ok(())))
                        is FetchMessages
                },
                ThumbnailStepView::FetchMessages => thumbnail_next(
                    command,
                    ThumbnailEvent::MessagesFetched(Err(error)),
                ) == failed,
                _ => true,
            }
        }),
{
    reveal_strlit("");
    assert(""@ == Seq::<char>::empty());
}

/// Only a thumbnail that is being received can time out, and an answer stands whatever
/// happens afterwards.
pub proof fn law_answer_stands_and_only_streams_time_out(
    command: ThumbnailView,
    event: ThumbnailEvent,
)
    ensures
        command.step is Finished ==> thumbnail_next(command, event) == command.step,
        event is TimedOut && !(command.step is ReceiveChunk) ==> thumbnail_next(command, event)
            == command.step,
{
}

/// In the course of a whole command for a document whose type does not begin with `image/`
/// the media is never downloaded: a video is never fetched whole.
pub proof fn law_full_video_is_never_fetched(
    world: ThumbnailWorld,
    run: ThumbnailRun,
    messages: Vec<Option<ThumbnailMessage>>,
    i: int,
    mime_type: Option<String>,
    thumbs: Vec<PhotoSize>,
    n: nat,
)
    requires
        world.messages == Ok::<Vec<Option<ThumbnailMessage>>, String>(messages),
        0 <= i < messages@.len(),
        messages@[i] == Some(
            ThumbnailMessage { media: Some(ThumbnailMedia::Document { mime_type, thumbs }) },
        ),
        forall|j: int| 0 <= j < i ==> #[trigger] messages@[j] is None,
        mime_type matches Some(mime) ==> mime@.len() < 6 || mime@[0] != 'i' || mime@[1] != 'm'
            || mime@[2] != 'a' || mime@[3] != 'g' || mime@[4] != 'e' || mime@[5] != '/',
        !(run.command.step is DownloadMedia),
    ensures
        !(world.run(run, n).command.step is DownloadMedia),
    decreases n,
{
    if n > 0 {
        if run.command.step is FetchMessages {
            law_documents_are_downloaded_by_their_type(
                run.command,
                messages,
                i,
                mime_type,
                thumbs,
            );
        }
        law_full_video_is_never_fetched(
            world,
            world.once(run),
            messages,
            i,
            mime_type,
            thumbs,
            (n - 1) as nat,
        );
    }
}

} // verus!
