//! The command that shows the thumbnail of a message on its file card.
//!
//! Like the preview command it is a sequence of steps, each of which asks for one outside
//! operation and is answered by an event. An event that does not answer the present step
//! leaves it as it is.

use crate::data_url::{data_url, data_url_text, encodable};
use crate::formats::{
    thumbnail_extension, thumbnail_extension_of, thumbnail_type, thumbnail_type_of,
};
use crate::messages::{first_message, first_present};
use crate::naming::{thumbnail_cache_prefix, thumbnail_prefix};
use crate::photo_sizes::{best_document_thumbnail, best_thumbnail, PhotoSize, THUMBNAIL_MAX_BYTES};
use crate::preview::answer_text;
use crate::text::{after_last_dot, join, last_piece, starts_with};
use vstd::prelude::*;

verus! {

/// The directory of the thumbnails, below the data directory of the application.
pub const THUMBNAIL_DIRECTORY: &'static str = "thumbnails";

/// How many thumbnail commands may be at work at the same time.
pub const THUMBNAIL_DOWNLOADS: usize = 4;

/// How long the download of a document's thumbnail may take, in seconds.
pub const THUMBNAIL_TIMEOUT_SECONDS: u64 = 20;

/// What is attached to a message, as far as a thumbnail depends on it.
#[derive(Debug)]
pub enum ThumbnailMedia {
    Photo,
    Document { mime_type: Option<String>, thumbs: Vec<PhotoSize> },
    Other,
}

/// A message, as far as a thumbnail depends on it.
#[derive(Debug)]
pub struct ThumbnailMessage {
    pub media: Option<ThumbnailMedia>,
}

/// What is to be done next.
#[derive(Debug)]
pub enum ThumbnailStep {
    /// Wait until fewer than the allowed number of commands are at work.
    AcquirePermit,
    /// Find the data directory of the application.
    LocateCache,
    /// See whether the thumbnail directory exists.
    CheckDirectory,
    /// Create the thumbnail directory.
    CreateDirectory,
    /// List the names in the thumbnail directory.
    ListCache,
    /// Read the entry at `index` of the listing.
    ReadEntry { names: Vec<String>, index: usize },
    /// See whether there is a connection to Telegram.
    GetClient,
    /// Find the chat.
    ResolvePeer,
    /// Fetch the message.
    FetchMessages,
    /// Receive the next chunk of a thumbnail of a message's document.
    ReceiveChunk { message: usize, thumb: usize, bytes: Vec<u8> },
    /// Write the thumbnail into the thumbnail directory.
    StoreThumbnail { name: String, bytes: Vec<u8> },
    /// Download the media of a message into the thumbnail directory.
    DownloadMedia { message: usize, name: String, extension: String },
    /// Read the file that was downloaded into the thumbnail directory.
    ReadFile { name: String, extension: String },
    /// Answer the command.
    Finished { answer: Result<String, String> },
}

/// What an outside operation gave back.
#[derive(Debug)]
pub enum ThumbnailEvent {
    PermitAcquired(Result<(), String>),
    CacheLocated(Result<(), String>),
    DirectoryExists(bool),
    DirectoryCreated,
    CacheListed(Option<Vec<String>>),
    EntryRead(Option<Vec<u8>>),
    ClientReady(bool),
    PeerResolved(Result<(), String>),
    MessagesFetched(Result<Vec<Option<ThumbnailMessage>>, String>),
    ChunkReceived(Result<Option<Vec<u8>>, String>),
    TimedOut,
    ThumbnailStored,
    Downloaded(bool),
    FileRead(Option<Vec<u8>>),
}

/// A step, with its texts as characters.
pub enum ThumbnailStepView {
    AcquirePermit,
    LocateCache,
    CheckDirectory,
    CreateDirectory,
    ListCache,
    ReadEntry { names: Seq<Seq<char>>, index: int },
    GetClient,
    ResolvePeer,
    FetchMessages,
    ReceiveChunk { message: int, thumb: int, bytes: Seq<u8> },
    StoreThumbnail { name: Seq<char>, bytes: Seq<u8> },
    DownloadMedia { message: int, name: Seq<char>, extension: Seq<char> },
    ReadFile { name: Seq<char>, extension: Seq<char> },
    Finished { answer: Result<Seq<char>, Seq<char>> },
}

/// A thumbnail command, with its texts as characters.
pub struct ThumbnailView {
    pub message_id: i32,
    pub folder_id: Option<i64>,
    pub step: ThumbnailStepView,
}

/// The characters of each name of a listing.
pub open spec fn listing(names: Seq<String>) -> Seq<Seq<char>> {
    names.map_values(|name: String| name@)
}

impl View for ThumbnailStep {
    type V = ThumbnailStepView;

    open spec fn view(&self) -> ThumbnailStepView {
        match *self {
            ThumbnailStep::AcquirePermit => ThumbnailStepView::AcquirePermit,
            ThumbnailStep::LocateCache => ThumbnailStepView::LocateCache,
            ThumbnailStep::CheckDirectory => ThumbnailStepView::CheckDirectory,
            ThumbnailStep::CreateDirectory => ThumbnailStepView::CreateDirectory,
            ThumbnailStep::ListCache => ThumbnailStepView::ListCache,
            ThumbnailStep::ReadEntry { names, index } => ThumbnailStepView::ReadEntry {
                names: listing(names@),
                index: index as int,
            },
            ThumbnailStep::GetClient => ThumbnailStepView::GetClient,
            ThumbnailStep::ResolvePeer => ThumbnailStepView::ResolvePeer,
            ThumbnailStep::FetchMessages => ThumbnailStepView::FetchMessages,
            ThumbnailStep::ReceiveChunk { message, thumb, bytes } => {
                ThumbnailStepView::ReceiveChunk {
                    message: message as int,
                    thumb: thumb as int,
                    bytes: bytes@,
                }
            },
            ThumbnailStep::StoreThumbnail { name, bytes } => ThumbnailStepView::StoreThumbnail {
                name: name@,
                bytes: bytes@,
            },
            ThumbnailStep::DownloadMedia { message, name, extension } => {
                ThumbnailStepView::DownloadMedia {
                    message: message as int,
                    name: name@,
                    extension: extension@,
                }
            },
            ThumbnailStep::ReadFile { name, extension } => ThumbnailStepView::ReadFile {
                name: name@,
                extension: extension@,
            },
            ThumbnailStep::Finished { answer } => ThumbnailStepView::Finished {
                answer: answer_text(answer),
            },
        }
    }
}

/// The answer that shows no thumbnail: the card keeps its file icon.
pub open spec fn no_thumbnail() -> ThumbnailStepView {
    ThumbnailStepView::Finished { answer: Ok(""@) }
}

/// The answer that shows `bytes` as a picture with the given extension.
pub open spec fn shown(extension: Seq<char>, bytes: Seq<u8>) -> ThumbnailStepView {
    ThumbnailStepView::Finished { answer: Ok(data_url_text(thumbnail_type(extension), bytes)) }
}

/// The first place from `from` on whose name begins with `prefix`.
pub open spec fn next_match(names: Seq<Seq<char>>, prefix: Seq<char>, from: int) -> Option<int>
    decreases names.len() - from,
{
    if from < 0 || from >= names.len() {
        None
    } else if prefix.is_prefix_of(names[from]) {
        Some(from)
    } else {
        next_match(names, prefix, from + 1)
    }
}

/// The step that looks for a cached thumbnail from the place `from` of the listing on.
pub open spec fn look_up(names: Seq<Seq<char>>, prefix: Seq<char>, from: int) -> ThumbnailStepView {
    match next_match(names, prefix, from) {
        Some(index) => ThumbnailStepView::ReadEntry { names, index },
        None => ThumbnailStepView::GetClient,
    }
}

/// Whether the document is itself a picture.
pub open spec fn is_picture(mime_type: Option<String>) -> bool {
    mime_type matches Some(mime) && "image/"@.is_prefix_of(mime@)
}

/// The step for the media of a message. A photo or a picture is downloaded; any other
/// document is shown by the best thumbnail that Telegram offers for it, if any.
pub open spec fn obtain(prefix: Seq<char>, message: int, media: ThumbnailMedia) -> ThumbnailStepView {
    match media {
        ThumbnailMedia::Photo => ThumbnailStepView::DownloadMedia {
            message,
            name: prefix + "jpg"@,
            extension: "jpg"@,
        },
        ThumbnailMedia::Document { mime_type, thumbs } => if is_picture(mime_type) {
            let extension = thumbnail_extension(mime_type->0@);
            ThumbnailStepView::DownloadMedia { message, name: prefix + extension, extension }
        } else {
            match best_thumbnail(thumbs@) {
                Some(thumb) => ThumbnailStepView::ReceiveChunk {
                    message,
                    thumb,
                    bytes: Seq::empty(),
                },
                None => no_thumbnail(),
            }
        },
        ThumbnailMedia::Other => no_thumbnail(),
    }
}

/// The step upon a reply of Telegram.
pub open spec fn receive(
    prefix: Seq<char>,
    messages: Seq<Option<ThumbnailMessage>>,
) -> ThumbnailStepView {
    match first_present(messages) {
        Some(message) => match messages[message]->0.media {
            Some(media) => obtain(prefix, message, media),
            None => no_thumbnail(),
        },
        None => no_thumbnail(),
    }
}

/// The step that follows `command.step` upon `event`.
pub open spec fn thumbnail_next(command: ThumbnailView, event: ThumbnailEvent) -> ThumbnailStepView {
    let prefix = thumbnail_prefix(command.folder_id, command.message_id);
    match (command.step, event) {
        (ThumbnailStepView::AcquirePermit, ThumbnailEvent::PermitAcquired(acquired)) => {
            match acquired {
                Ok(_) => ThumbnailStepView::LocateCache,
                Err(error) => ThumbnailStepView::Finished { answer: Err(error@) },
            }
        },
        (ThumbnailStepView::LocateCache, ThumbnailEvent::CacheLocated(located)) => match located {
            Ok(_) => ThumbnailStepView::CheckDirectory,
            Err(error) => ThumbnailStepView::Finished { answer: Err(error@) },
        },
        (ThumbnailStepView::CheckDirectory, ThumbnailEvent::DirectoryExists(exists)) => if exists {
            ThumbnailStepView::ListCache
        } else {
            ThumbnailStepView::CreateDirectory
        },
        (ThumbnailStepView::CreateDirectory, ThumbnailEvent::DirectoryCreated) => {
            ThumbnailStepView::ListCache
        },
        (ThumbnailStepView::ListCache, ThumbnailEvent::CacheListed(listed)) => match listed {
            Some(names) => look_up(listing(names@), prefix, 0),
            None => ThumbnailStepView::GetClient,
        },
        (ThumbnailStepView::ReadEntry { names, index }, ThumbnailEvent::EntryRead(content)) => {
            match content {
                Some(bytes) => shown(after_last_dot(names[index]), bytes@),
                None => look_up(names, prefix, index + 1),
            }
        },
        (ThumbnailStepView::GetClient, ThumbnailEvent::ClientReady(ready)) => if ready {
            ThumbnailStepView::ResolvePeer
        } else {
            no_thumbnail()
        },
        (ThumbnailStepView::ResolvePeer, ThumbnailEvent::PeerResolved(resolved)) => match resolved {
            Ok(_) => ThumbnailStepView::FetchMessages,
            Err(error) => ThumbnailStepView::Finished { answer: Err(error@) },
        },
        (ThumbnailStepView::FetchMessages, ThumbnailEvent::MessagesFetched(fetched)) => {
            match fetched {
                Ok(messages) => receive(prefix, messages@),
                Err(error) => ThumbnailStepView::Finished { answer: Err(error@) },
            }
        },
        (
            ThumbnailStepView::ReceiveChunk { message, thumb, bytes },
            ThumbnailEvent::ChunkReceived(received),
        ) => match received {
            Ok(Some(chunk)) => if bytes.len() + chunk@.len() > THUMBNAIL_MAX_BYTES {
                ThumbnailStepView::Finished { answer: Err("Thumbnail exceeds size limit"@) }
            } else {
                ThumbnailStepView::ReceiveChunk { message, thumb, bytes: bytes + chunk@ }
            },
            Ok(None) => if bytes.len() == 0 {
                no_thumbnail()
            } else {
                ThumbnailStepView::StoreThumbnail { name: prefix + "jpg"@, bytes }
            },
            Err(error) => ThumbnailStepView::Finished { answer: Err(error@) },
        },
        (ThumbnailStepView::ReceiveChunk { .. }, ThumbnailEvent::TimedOut) => {
            ThumbnailStepView::Finished { answer: Err("Thumbnail request timed out"@) }
        },
        (ThumbnailStepView::StoreThumbnail { bytes, .. }, ThumbnailEvent::ThumbnailStored) => {
            ThumbnailStepView::Finished { answer: Ok(data_url_text("image/jpeg"@, bytes)) }
        },
        (
            ThumbnailStepView::DownloadMedia { name, extension, .. },
            ThumbnailEvent::Downloaded(complete),
        ) => if complete {
            ThumbnailStepView::ReadFile { name, extension }
        } else {
            no_thumbnail()
        },
        (ThumbnailStepView::ReadFile { extension, .. }, ThumbnailEvent::FileRead(content)) => {
            match content {
                Some(bytes) => shown(extension, bytes@),
                None => no_thumbnail(),
            }
        },
        _ => command.step,
    }
}

/// What holds of every step that a command reaches: the entry to be read belongs to the
/// message, and what was received of a thumbnail is within the limit.
pub open spec fn in_bounds(command: ThumbnailView) -> bool {
    match command.step {
        ThumbnailStepView::ReadEntry { names, index } => {
            &&& 0 <= index < names.len()
            &&& thumbnail_prefix(command.folder_id, command.message_id).is_prefix_of(names[index])
        },
        ThumbnailStepView::ReceiveChunk { bytes, .. } => bytes.len() <= THUMBNAIL_MAX_BYTES,
        ThumbnailStepView::StoreThumbnail { bytes, .. } => 0 < bytes.len() <= THUMBNAIL_MAX_BYTES,
        _ => true,
    }
}

/// Whether the content that the event carries can be written as base64 text at all.
pub open spec fn content_fits(event: ThumbnailEvent) -> bool {
    match event {
        ThumbnailEvent::EntryRead(Some(bytes)) => encodable(bytes@.len()),
        ThumbnailEvent::FileRead(Some(bytes)) => encodable(bytes@.len()),
        _ => true,
    }
}

proof fn lemma_next_match(names: Seq<Seq<char>>, prefix: Seq<char>, from: int)
    ensures
        next_match(names, prefix, from) matches Some(index) ==> {
            &&& 0 <= from <= index < names.len()
            &&& prefix.is_prefix_of(names[index])
        },
    decreases names.len() - from,
{
    if 0 <= from < names.len() && !prefix.is_prefix_of(names[from]) {
        lemma_next_match(names, prefix, from + 1);
    }
}

/// The command that answers with the thumbnail of a message as a data URL, or with the empty
/// text where there is none.
#[derive(Debug)]
pub struct ThumbnailCommand {
    message_id: i32,
    folder_id: Option<i64>,
    step: ThumbnailStep,
}

impl View for ThumbnailCommand {
    type V = ThumbnailView;

    closed spec fn view(&self) -> ThumbnailView {
        ThumbnailView {
            message_id: self.message_id,
            folder_id: self.folder_id,
            step: self.step@,
        }
    }
}

/// Begins the command for one message of a chat; `None` is the user's saved messages.
pub fn cmd_get_thumbnail(message_id: i32, folder_id: Option<i64>) -> (command: ThumbnailCommand)
    ensures
        command@ == (ThumbnailView { message_id, folder_id, step: ThumbnailStepView::AcquirePermit }),
{
    ThumbnailCommand { message_id, folder_id, step: ThumbnailStep::AcquirePermit }
}

fn no_thumbnail_step() -> (step: ThumbnailStep)
    ensures
        step@ == no_thumbnail(),
{
    ThumbnailStep::Finished { answer: Ok("".to_owned()) }
}

fn shown_step(extension: &str, bytes: &Vec<u8>) -> (step: ThumbnailStep)
    requires
        encodable(bytes@.len()),
    ensures
        step@ == shown(extension@, bytes@),
{
    let mime = thumbnail_type_of(extension);
    ThumbnailStep::Finished { answer: Ok(data_url(mime.as_str(), bytes.as_slice())) }
}

/// The step that looks for a cached thumbnail from the place `from` of the listing on.
fn look_up_step(names: Vec<String>, prefix: &str, from: usize) -> (step: ThumbnailStep)
    requires
        from <= names@.len(),
    ensures
        step@ == look_up(listing(names@), prefix@, from as int),
{
    let mut i: usize = from;
    while i < names.len()
        invariant
            from <= i <= names@.len(),
            next_match(listing(names@), prefix@, from as int) == next_match(
                listing(names@),
                prefix@,
                i as int,
            ),
        decreases names@.len() - i,
    {
        if starts_with(names[i].as_str(), prefix) {
            return ThumbnailStep::ReadEntry { names, index: i };
        }
        i = i + 1;
    }
    ThumbnailStep::GetClient
}

fn obtain_step(prefix: &str, message: usize, media: &ThumbnailMedia) -> (step: ThumbnailStep)
    ensures
        step@ == obtain(prefix@, message as int, *media),
{
    match media {
        ThumbnailMedia::Photo => ThumbnailStep::DownloadMedia {
            message,
            name: join(prefix, "jpg"),
            extension: "jpg".to_owned(),
        },
        ThumbnailMedia::Document { mime_type, thumbs } => {
            if let Some(mime) = mime_type {
                if starts_with(mime.as_str(), "image/") {
                    let extension = thumbnail_extension_of(mime.as_str());
                    let name = join(prefix, extension.as_str());
                    return ThumbnailStep::DownloadMedia { message, name, extension };
                }
            }
            match best_document_thumbnail(thumbs) {
                Some(thumb) => ThumbnailStep::ReceiveChunk { message, thumb, bytes: Vec::new() },
                None => no_thumbnail_step(),
            }
        },
        ThumbnailMedia::Other => no_thumbnail_step(),
    }
}

fn receive_step(prefix: &str, messages: &Vec<Option<ThumbnailMessage>>) -> (step: ThumbnailStep)
    ensures
        step@ == receive(prefix@, messages@),
{
    if let Some(i) = first_message(messages) {
        if let Some(message) = &messages[i] {
            if let Some(media) = &message.media {
                return obtain_step(prefix, i, media);
            }
        }
    }
    no_thumbnail_step()
}

impl ThumbnailCommand {
    #[verifier::type_invariant]
    spec fn well_formed(self) -> bool {
        in_bounds(self@)
    }

    /// What is to be done next.
    pub fn step(&self) -> (step: &ThumbnailStep)
        ensures
            step@ == self@.step,
            in_bounds(self@),
    {
        proof {
            use_type_invariant(self);
        }
        &self.step
    }

    /// Goes on with what the outside operation gave back.
    pub fn advance(self, event: ThumbnailEvent) -> (next: ThumbnailCommand)
        requires
            content_fits(event),
        ensures
            next@ == (ThumbnailView { step: thumbnail_next(self@, event), ..self@ }),
            in_bounds(next@),
    {
        proof {
            use_type_invariant(&self);
            law_thumbnail_stays_in_bounds(self@, event);
        }
        let ThumbnailCommand { message_id, folder_id, step } = self;
        let prefix = thumbnail_cache_prefix(folder_id, message_id);
        let step = match (step, event) {
            (ThumbnailStep::AcquirePermit, ThumbnailEvent::PermitAcquired(acquired)) => {
                match acquired {
                    Ok(_) => ThumbnailStep::LocateCache,
                    Err(error) => ThumbnailStep::Finished { answer: Err(error) },
                }
            },
            (ThumbnailStep::LocateCache, ThumbnailEvent::CacheLocated(located)) => match located {
                Ok(_) => ThumbnailStep::CheckDirectory,
                Err(error) => ThumbnailStep::Finished { answer: Err(error) },
            },
            (ThumbnailStep::CheckDirectory, ThumbnailEvent::DirectoryExists(exists)) => if exists {
                ThumbnailStep::ListCache
            } else {
                ThumbnailStep::CreateDirectory
            },
            (ThumbnailStep::CreateDirectory, ThumbnailEvent::DirectoryCreated) => {
                ThumbnailStep::ListCache
            },
            (ThumbnailStep::ListCache, ThumbnailEvent::CacheListed(listed)) => match listed {
                Some(names) => look_up_step(names, prefix.as_str(), 0),
                None => ThumbnailStep::GetClient,
            },
            (ThumbnailStep::ReadEntry { names, index }, ThumbnailEvent::EntryRead(content)) => {
                match content {
                    Some(bytes) => {
                        let extension = last_piece(names[index].as_str());
                        shown_step(extension.as_str(), &bytes)
                    },
                    None => {
                        assert(index < names.len());
                        look_up_step(names, prefix.as_str(), index + 1)
                    },
                }
            },
            (ThumbnailStep::GetClient, ThumbnailEvent::ClientReady(ready)) => if ready {
                ThumbnailStep::ResolvePeer
            } else {
                no_thumbnail_step()
            },
            (ThumbnailStep::ResolvePeer, ThumbnailEvent::PeerResolved(resolved)) => match resolved {
                Ok(_) => ThumbnailStep::FetchMessages,
                Err(error) => ThumbnailStep::Finished { answer: Err(error) },
            },
            (ThumbnailStep::FetchMessages, ThumbnailEvent::MessagesFetched(fetched)) => {
                match fetched {
                    Ok(messages) => receive_step(prefix.as_str(), &messages),
                    Err(error) => ThumbnailStep::Finished { answer: Err(error) },
                }
            },
            (
                ThumbnailStep::ReceiveChunk { message, thumb, bytes },
                ThumbnailEvent::ChunkReceived(received),
            ) => match received {
                Ok(Some(chunk)) => if chunk.len() > THUMBNAIL_MAX_BYTES - bytes.len() {
                    ThumbnailStep::Finished {
                        answer: Err("Thumbnail exceeds size limit".to_owned()),
                    }
                } else {
                    let mut bytes = bytes;
                    let mut chunk = chunk;
                    bytes.append(&mut chunk);
                    ThumbnailStep::ReceiveChunk { message, thumb, bytes }
                },
                Ok(None) => if bytes.len() == 0 {
                    no_thumbnail_step()
                } else {
                    ThumbnailStep::StoreThumbnail { name: join(prefix.as_str(), "jpg"), bytes }
                },
                Err(error) => ThumbnailStep::Finished { answer: Err(error) },
            },
            (ThumbnailStep::ReceiveChunk { .. }, ThumbnailEvent::TimedOut) => {
                ThumbnailStep::Finished { answer: Err("Thumbnail request timed out".to_owned()) }
            },
            (ThumbnailStep::StoreThumbnail { bytes, .. }, ThumbnailEvent::ThumbnailStored) => {
                ThumbnailStep::Finished { answer: Ok(data_url("image/jpeg", bytes.as_slice())) }
            },
            (
                ThumbnailStep::DownloadMedia { name, extension, .. },
                ThumbnailEvent::Downloaded(complete),
            ) => if complete {
                ThumbnailStep::ReadFile { name, extension }
            } else {
                no_thumbnail_step()
            },
            (ThumbnailStep::ReadFile { extension, .. }, ThumbnailEvent::FileRead(content)) => {
                match content {
                    Some(bytes) => shown_step(extension.as_str(), &bytes),
                    None => no_thumbnail_step(),
                }
            },
            (step, _) => step,
        };
        ThumbnailCommand { message_id, folder_id, step }
    }
}

/// No event takes a command out of its bounds: only entries of the message are read, and no
/// more than the limit is received.
pub proof fn law_thumbnail_stays_in_bounds(command: ThumbnailView, event: ThumbnailEvent)
    requires
        in_bounds(command),
    ensures
        in_bounds(ThumbnailView { step: thumbnail_next(command, event), ..command }),
{
    let prefix = thumbnail_prefix(command.folder_id, command.message_id);
    match (command.step, event) {
        (ThumbnailStepView::ListCache, ThumbnailEvent::CacheListed(Some(names))) => {
            lemma_next_match(listing(names@), prefix, 0);
        },
        (ThumbnailStepView::ReadEntry { names, index }, ThumbnailEvent::EntryRead(None)) => {
            lemma_next_match(names, prefix, index + 1);
        },
        _ => {},
    }
}

/// The steps that hold names or bytes are seen as they are: nothing of it is lost or changed.
pub proof fn law_thumbnail_steps_are_seen_as_they_are(step: ThumbnailStep)
    ensures
        match step {
            ThumbnailStep::ReadEntry { names, index } => {
                &&& step@ is ReadEntry
                &&& step@->index == index
                &&& step@->names.len() == names@.len()
                &&& forall|j: int|
                    0 <= j < names@.len() ==> #[trigger] step@->names[j] == names@[j]@
            },
            ThumbnailStep::ReceiveChunk { message, thumb, bytes } => step@ == (
            ThumbnailStepView::ReceiveChunk {
                message: message as int,
                thumb: thumb as int,
                bytes: bytes@,
            }),
            ThumbnailStep::StoreThumbnail { name, bytes } => step@ == (
            ThumbnailStepView::StoreThumbnail { name: name@, bytes: bytes@ }),
            ThumbnailStep::DownloadMedia { message, name, extension } => step@ == (
            ThumbnailStepView::DownloadMedia {
                message: message as int,
                name: name@,
                extension: extension@,
            }),
            ThumbnailStep::ReadFile { name, extension } => step@ == (ThumbnailStepView::ReadFile {
                name: name@,
                extension: extension@,
            }),
            ThumbnailStep::Finished { answer } => match answer {
                Ok(text) => step@ == (ThumbnailStepView::Finished { answer: Ok(text@) }),
                Err(text) => step@ == (ThumbnailStepView::Finished { answer: Err(text@) }),
            },
            _ => true,
        },
{
}

/// The look-up stops at the first place from `from` on whose name begins with the prefix, and
/// goes to Telegram where there is none.
pub proof fn law_look_up_stops_at_the_first_match(
    names: Seq<Seq<char>>,
    prefix: Seq<char>,
    from: int,
    j: int,
)
    requires
        0 <= from <= j < names.len(),
    ensures
        match look_up(names, prefix, from) {
            ThumbnailStepView::ReadEntry { names: listed, index } => {
                &&& listed == names
                &&& from <= index < names.len()
                &&& prefix.is_prefix_of(names[index])
                &&& j < index ==> !prefix.is_prefix_of(names[j])
            },
            ThumbnailStepView::GetClient => !prefix.is_prefix_of(names[j]),
            _ => false,
        },
    decreases names.len() - from,
{
    lemma_next_match(names, prefix, from);
    if !prefix.is_prefix_of(names[from]) && from < j {
        law_look_up_stops_at_the_first_match(names, prefix, from + 1, j);
    }
}

} // verus!
