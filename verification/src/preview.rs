//! The command that shows the preview of a message.
//!
//! The command is a sequence of steps, each of which asks for one outside operation. What
//! the operation gave back is handed to the command as an event, which leads to the next
//! step. An event that does not answer the present step leaves it as it is.

use crate::data_url::{data_url, data_url_text, encodable};
use crate::formats::{
    document_extension, extension_of_document, inline_type, lowercase, may_report, optional_text,
    picture_type, small_letter,
};
use crate::messages::{first_message, first_present};
use crate::naming::{preview_file_name, preview_name};
use vstd::prelude::*;
use vstd::utf8::is_ascii_chars;

verus! {

/// The directory of the previews, below the cache directory of the application.
pub const PREVIEW_DIRECTORY: &'static str = "previews";

/// What a photo counts against the bandwidth limit; its true size is not known beforehand.
pub const PHOTO_TRANSFER_BYTES: u64 = 1024 * 1024;

/// What is attached to a message, as far as a preview depends on it.
#[derive(Debug)]
pub enum PreviewMedia {
    Photo,
    Document { name: String, mime_type: Option<String>, size: i64 },
    Other,
}

/// A message, as far as a preview depends on it.
#[derive(Debug)]
pub struct PreviewMessage {
    pub media: Option<PreviewMedia>,
}

/// A preview file that the command works on.
#[derive(Debug)]
pub struct PreviewFile {
    /// The place of the message in the reply.
    pub message: usize,
    /// The name of the file in the preview directory.
    pub name: String,
    pub extension: String,
    /// What its download counts against the bandwidth limit.
    pub size: u64,
}

/// What is to be done next.
#[derive(Debug)]
pub enum PreviewStep {
    /// Find the cache directory of the application.
    LocateCache,
    /// See whether the preview directory exists.
    CheckDirectory,
    /// Create the preview directory.
    CreateDirectory,
    /// Prune the preview cache.
    PruneCache,
    /// See whether there is a connection to Telegram.
    GetClient,
    /// Find the chat.
    ResolvePeer,
    /// Fetch the message.
    FetchMessages,
    /// Say the path of the file, and see whether it exists.
    LocateFile { file: PreviewFile },
    /// See whether the bandwidth limit admits the download.
    CheckTransfer { file: PreviewFile, path: String },
    /// Download the media of the message to the path.
    Download { file: PreviewFile, path: String },
    /// Count the download against the bandwidth limit.
    RecordTransfer { file: PreviewFile, path: String },
    /// Prune the preview cache after the download.
    PruneAgain { file: PreviewFile, path: String },
    /// Read the file, a picture of the given type.
    ReadFile { mime: String, path: String },
    /// Answer the command.
    Finished { answer: Result<String, String> },
}

/// What an outside operation gave back.
#[derive(Debug)]
pub enum PreviewEvent {
    CacheLocated(Result<(), String>),
    DirectoryExists(bool),
    DirectoryCreated,
    CachePruned,
    ClientReady(bool),
    PeerResolved(Result<(), String>),
    MessagesFetched(Result<Vec<Option<PreviewMessage>>, String>),
    FileLocated { path: String, exists: bool },
    TransferAllowed(bool),
    Downloaded(bool),
    TransferRecorded,
    FileRead(Option<Vec<u8>>),
}

/// A preview file, with its texts as characters.
pub struct PreviewFileView {
    pub message: int,
    pub name: Seq<char>,
    pub extension: Seq<char>,
    pub size: int,
}

/// A step, with its texts as characters.
pub enum PreviewStepView {
    LocateCache,
    CheckDirectory,
    CreateDirectory,
    PruneCache,
    GetClient,
    ResolvePeer,
    FetchMessages,
    LocateFile { file: PreviewFileView },
    CheckTransfer { file: PreviewFileView, path: Seq<char> },
    Download { file: PreviewFileView, path: Seq<char> },
    RecordTransfer { file: PreviewFileView, path: Seq<char> },
    PruneAgain { file: PreviewFileView, path: Seq<char> },
    ReadFile { mime: Seq<char>, path: Seq<char> },
    Finished { answer: Result<Seq<char>, Seq<char>> },
}

/// A preview command, with its texts as characters.
pub struct PreviewView {
    pub message_id: i32,
    pub folder_id: Option<i64>,
    pub step: PreviewStepView,
}

/// An answer, with its texts as characters.
pub open spec fn answer_text(answer: Result<String, String>) -> Result<Seq<char>, Seq<char>> {
    match answer {
        Ok(text) => Ok(text@),
        Err(text) => Err(text@),
    }
}

impl View for PreviewFile {
    type V = PreviewFileView;

    open spec fn view(&self) -> PreviewFileView {
        PreviewFileView {
            message: self.message as int,
            name: self.name@,
            extension: self.extension@,
            size: self.size as int,
        }
    }
}

impl View for PreviewStep {
    type V = PreviewStepView;

    open spec fn view(&self) -> PreviewStepView {
        match *self {
            PreviewStep::LocateCache => PreviewStepView::LocateCache,
            PreviewStep::CheckDirectory => PreviewStepView::CheckDirectory,
            PreviewStep::CreateDirectory => PreviewStepView::CreateDirectory,
            PreviewStep::PruneCache => PreviewStepView::PruneCache,
            PreviewStep::GetClient => PreviewStepView::GetClient,
            PreviewStep::ResolvePeer => PreviewStepView::ResolvePeer,
            PreviewStep::FetchMessages => PreviewStepView::FetchMessages,
            PreviewStep::LocateFile { file } => PreviewStepView::LocateFile { file: file@ },
            PreviewStep::CheckTransfer { file, path } => PreviewStepView::CheckTransfer {
                file: file@,
                path: path@,
            },
            PreviewStep::Download { file, path } => PreviewStepView::Download {
                file: file@,
                path: path@,
            },
            PreviewStep::RecordTransfer { file, path } => PreviewStepView::RecordTransfer {
                file: file@,
                path: path@,
            },
            PreviewStep::PruneAgain { file, path } => PreviewStepView::PruneAgain {
                file: file@,
                path: path@,
            },
            PreviewStep::ReadFile { mime, path } => PreviewStepView::ReadFile {
                mime: mime@,
                path: path@,
            },
            PreviewStep::Finished { answer } => PreviewStepView::Finished {
                answer: answer_text(answer),
            },
        }
    }
}

/// What a download of the media counts against the bandwidth limit. A negative size wraps.
pub open spec fn transfer_bytes(media: PreviewMedia) -> int {
    match media {
        PreviewMedia::Photo => PHOTO_TRANSFER_BYTES as int,
        PreviewMedia::Document { size, .. } => if size >= 0 {
            size as int
        } else {
            size + u64::MAX + 1
        },
        PreviewMedia::Other => 0,
    }
}

/// The extension of the preview of the media, where the platform reports `reported` as the
/// extension of a document's name.
pub open spec fn media_extension(media: PreviewMedia, reported: Option<Seq<char>>) -> Seq<char> {
    match media {
        PreviewMedia::Photo => "jpg"@,
        PreviewMedia::Document { mime_type, .. } => document_extension(
            reported,
            optional_text(mime_type),
        ),
        PreviewMedia::Other => "bin"@,
    }
}

/// Whether a platform may report `reported` as the extension of the media's name.
pub open spec fn may_report_for(media: PreviewMedia, reported: Option<Seq<char>>) -> bool {
    match media {
        PreviewMedia::Document { name, .. } => may_report(name@, reported),
        _ => true,
    }
}

/// The answer where there is nothing to show.
pub open spec fn not_found() -> PreviewStepView {
    PreviewStepView::Finished { answer: Err("File not found or failed to download"@) }
}

/// The media that the first message of a reply holds, with the place of the message.
pub open spec fn found_media(messages: Seq<Option<PreviewMessage>>) -> Option<(int, PreviewMedia)> {
    match first_present(messages) {
        Some(i) => match messages[i]->0.media {
            Some(media) => Some((i, media)),
            None => None,
        },
        None => None,
    }
}

/// The step for a file that is there: a picture is read, anything else is named by its path.
pub open spec fn show(extension: Seq<char>, path: Seq<char>) -> PreviewStepView {
    match picture_type(lowercase(extension)) {
        Some(mime) => PreviewStepView::ReadFile { mime, path },
        None => PreviewStepView::Finished { answer: Ok(path) },
    }
}

/// Whether `step` shows the file at `path` as the letters of its extension demand, given
/// that these are ASCII: one of seven pictures is read, anything else is named by its path.
pub open spec fn shown_by_letters(
    extension: Seq<char>,
    path: Seq<char>,
    step: PreviewStepView,
) -> bool {
    let small = extension.map_values(|c: char| small_letter(c));
    is_ascii_chars(extension) ==> match step {
        PreviewStepView::ReadFile { mime, path: read } => {
            &&& read == path
            &&& {
                ||| (small == "jpg"@ || small == "jpeg"@) && mime == "image/jpeg"@
                ||| small == "png"@ && mime == "image/png"@
                ||| small == "gif"@ && mime == "image/gif"@
                ||| small == "webp"@ && mime == "image/webp"@
                ||| small == "bmp"@ && mime == "image/bmp"@
                ||| small == "svg"@ && mime == "image/svg+xml"@
            }
        },
        PreviewStepView::Finished { answer } => {
            &&& answer == Ok::<Seq<char>, Seq<char>>(path)
            &&& small != "jpg"@ && small != "jpeg"@ && small != "png"@ && small != "gif"@
            &&& small != "webp"@ && small != "bmp"@ && small != "svg"@
        },
        _ => false,
    }
}

/// The step that follows `command.step` upon `event`, where the platform reports `reported`
/// as the extension of the document's name.
pub open spec fn preview_next(
    command: PreviewView,
    event: PreviewEvent,
    reported: Option<Seq<char>>,
) -> PreviewStepView {
    match (command.step, event) {
        (PreviewStepView::LocateCache, PreviewEvent::CacheLocated(located)) => match located {
            Ok(_) => PreviewStepView::CheckDirectory,
            Err(error) => PreviewStepView::Finished { answer: Err(error@) },
        },
        (PreviewStepView::CheckDirectory, PreviewEvent::DirectoryExists(exists)) => if exists {
            PreviewStepView::PruneCache
        } else {
            PreviewStepView::CreateDirectory
        },
        (PreviewStepView::CreateDirectory, PreviewEvent::DirectoryCreated) => {
            PreviewStepView::PruneCache
        },
        (PreviewStepView::PruneCache, PreviewEvent::CachePruned) => PreviewStepView::GetClient,
        (PreviewStepView::GetClient, PreviewEvent::ClientReady(ready)) => if ready {
            PreviewStepView::ResolvePeer
        } else {
            PreviewStepView::Finished { answer: Ok(""@) }
        },
        (PreviewStepView::ResolvePeer, PreviewEvent::PeerResolved(resolved)) => match resolved {
            Ok(_) => PreviewStepView::FetchMessages,
            Err(error) => PreviewStepView::Finished { answer: Err(error@) },
        },
        (PreviewStepView::FetchMessages, PreviewEvent::MessagesFetched(fetched)) => match fetched {
            Ok(messages) => match found_media(messages@) {
                Some((message, media)) => {
                    let extension = media_extension(media, reported);
                    PreviewStepView::LocateFile {
                        file: PreviewFileView {
                            message,
                            name: preview_name(command.folder_id, command.message_id, extension),
                            extension,
                            size: transfer_bytes(media),
                        },
                    }
                },
                None => not_found(),
            },
            Err(error) => PreviewStepView::Finished { answer: Err(error@) },
        },
        (PreviewStepView::LocateFile { file }, PreviewEvent::FileLocated { path, exists }) => {
            if exists {
                show(file.extension, path@)
            } else {
                PreviewStepView::CheckTransfer { file, path: path@ }
            }
        },
        (
            PreviewStepView::CheckTransfer { file, path },
            PreviewEvent::TransferAllowed(allowed),
        ) => if allowed {
            PreviewStepView::Download { file, path }
        } else {
            not_found()
        },
        (PreviewStepView::Download { file, path }, PreviewEvent::Downloaded(complete)) => {
            if complete {
                PreviewStepView::RecordTransfer { file, path }
            } else {
                not_found()
            }
        },
        (PreviewStepView::RecordTransfer { file, path }, PreviewEvent::TransferRecorded) => {
            PreviewStepView::PruneAgain { file, path }
        },
        (PreviewStepView::PruneAgain { file, path }, PreviewEvent::CachePruned) => show(
            file.extension,
            path,
        ),
        (PreviewStepView::ReadFile { mime, path }, PreviewEvent::FileRead(content)) => {
            match content {
                Some(bytes) => PreviewStepView::Finished { answer: Ok(data_url_text(mime, bytes@)) },
                None => PreviewStepView::Finished { answer: Ok(path) },
            }
        },
        _ => command.step,
    }
}

/// The media that the command learns of by the event.
pub open spec fn told_media(command: PreviewView, event: PreviewEvent) -> Option<PreviewMedia> {
    match (command.step, event) {
        (PreviewStepView::FetchMessages, PreviewEvent::MessagesFetched(Ok(messages))) => {
            match found_media(messages@) {
                Some((_, media)) => Some(media),
                None => None,
            }
        },
        _ => None,
    }
}

/// Whether a platform may report `reported` for the document that the command learns of.
pub open spec fn consistent(
    command: PreviewView,
    event: PreviewEvent,
    reported: Option<Seq<char>>,
) -> bool {
    match told_media(command, event) {
        Some(media) => may_report_for(media, reported),
        None => true,
    }
}

/// Whether the content that the event carries can be written as base64 text at all.
pub open spec fn content_fits(event: PreviewEvent) -> bool {
    match event {
        PreviewEvent::FileRead(Some(bytes)) => encodable(bytes@.len()),
        _ => true,
    }
}

/// The command that answers with the preview of a message: a data URL of a picture, or the
/// path of any other file.
#[derive(Debug)]
pub struct PreviewCommand {
    message_id: i32,
    folder_id: Option<i64>,
    step: PreviewStep,
}

impl View for PreviewCommand {
    type V = PreviewView;

    closed spec fn view(&self) -> PreviewView {
        PreviewView {
            message_id: self.message_id,
            folder_id: self.folder_id,
            step: self.step@,
        }
    }
}

/// Begins the command for one message of a chat; `None` is the home folder.
pub fn cmd_get_preview(message_id: i32, folder_id: Option<i64>) -> (command: PreviewCommand)
    ensures
        command@ == (PreviewView { message_id, folder_id, step: PreviewStepView::LocateCache }),
{
    PreviewCommand { message_id, folder_id, step: PreviewStep::LocateCache }
}

fn not_found_step() -> (step: PreviewStep)
    ensures
        step@ == not_found(),
{
    PreviewStep::Finished { answer: Err("File not found or failed to download".to_owned()) }
}

fn transfer_size(media: &PreviewMedia) -> (size: u64)
    ensures
        size == transfer_bytes(*media),
{
    match media {
        PreviewMedia::Photo => PHOTO_TRANSFER_BYTES,
        PreviewMedia::Document { size, .. } => if *size >= 0 {
            *size as u64
        } else {
            u64::MAX - ((-1 - *size) as u64)
        },
        PreviewMedia::Other => 0,
    }
}

/// The extension of the preview of the media.
pub fn preview_extension(media: &PreviewMedia) -> (extension: String)
    ensures
        exists|reported: Option<Seq<char>>| #[trigger]
            may_report_for(*media, reported) && extension@ == media_extension(*media, reported),
{
    match media {
        PreviewMedia::Document { name, mime_type, .. } => {
            let extension = extension_of_document(name.as_str(), mime_type);
            proof {
                let reported = choose|reported: Option<Seq<char>>| #[trigger]
                    may_report(name@, reported) && extension@ == document_extension(
                        reported,
                        optional_text(*mime_type),
                    );
                assert(may_report_for(*media, reported));
            }
            extension
        },
        PreviewMedia::Photo => {
            assert(may_report_for(*media, None));
            "jpg".to_owned()
        },
        PreviewMedia::Other => {
            assert(may_report_for(*media, None));
            "bin".to_owned()
        },
    }
}

/// The step for a file that is there.
fn show_step(extension: &str, path: String) -> (step: PreviewStep)
    ensures
        step@ == show(extension@, path@),
        shown_by_letters(extension@, path@, step@),
{
    match inline_type(extension) {
        Some(mime) => PreviewStep::ReadFile { mime, path },
        None => PreviewStep::Finished { answer: Ok(path) },
    }
}

impl PreviewCommand {
    /// What is to be done next.
    pub fn step(&self) -> (step: &PreviewStep)
        ensures
            step@ == self@.step,
    {
        &self.step
    }

    /// The step upon a reply, for a file whose extension is given.
    fn locate(&self, message: usize, media: &PreviewMedia, extension: String) -> (step: PreviewStep)
        ensures
            step@ == (PreviewStepView::LocateFile {
                file: PreviewFileView {
                    message: message as int,
                    name: preview_name(self@.folder_id, self@.message_id, extension@),
                    extension: extension@,
                    size: transfer_bytes(*media),
                },
            }),
    {
        let name = preview_file_name(self.folder_id, self.message_id, extension.as_str());
        let size: u64 = transfer_size(media);
        PreviewStep::LocateFile { file: PreviewFile { message, name, extension, size } }
    }

    /// The step upon the reply of Telegram.
    fn receive(&self, messages: &Vec<Option<PreviewMessage>>) -> (step: PreviewStep)
        ensures
            match found_media(messages@) {
                Some((message, media)) => exists|reported: Option<Seq<char>>| #[trigger]
                    may_report_for(media, reported) && step@ == (PreviewStepView::LocateFile {
                        file: PreviewFileView {
                            message,
                            name: preview_name(
                                self@.folder_id,
                                self@.message_id,
                                media_extension(media, reported),
                            ),
                            extension: media_extension(media, reported),
                            size: transfer_bytes(media),
                        },
                    }),
                None => step@ == not_found(),
            },
    {
        if let Some(i) = first_message(messages) {
            if let Some(message) = &messages[i] {
                if let Some(media) = &message.media {
                    let extension = preview_extension(media);
                    return self.locate(i, media, extension);
                }
            }
        }
        not_found_step()
    }

    /// Goes on with what the outside operation gave back.
    pub fn advance(self, event: PreviewEvent) -> (next: PreviewCommand)
        requires
            content_fits(event),
        ensures
            next@.message_id == self@.message_id,
            next@.folder_id == self@.folder_id,
            exists|reported: Option<Seq<char>>| #[trigger]
                consistent(self@, event, reported) && next@.step == preview_next(
                    self@,
                    event,
                    reported,
                ),
            match (self@.step, event) {
                (PreviewStepView::LocateFile { file }, PreviewEvent::FileLocated { path, exists }) => {
                    exists ==> shown_by_letters(file.extension, path@, next@.step)
                },
                (PreviewStepView::PruneAgain { file, path }, PreviewEvent::CachePruned) => {
                    shown_by_letters(file.extension, path, next@.step)
                },
                _ => true,
            },
    {
        let ghost before = self@;
        let ghost none: Option<Seq<char>> = None;
        assert(!(before.step is FetchMessages && event is MessagesFetched) ==> consistent(
            before,
            event,
            none,
        ));
        if let PreviewStep::FetchMessages = self.step {
            return match event {
                PreviewEvent::MessagesFetched(fetched) => {
                    let step = match fetched {
                        Ok(messages) => self.receive(&messages),
                        Err(error) => PreviewStep::Finished { answer: Err(error) },
                    };
                    proof {
                        let reported = match told_media(before, event) {
                            Some(media) => choose|reported: Option<Seq<char>>| #[trigger]
                                may_report_for(media, reported) && step@ == preview_next(
                                    before,
                                    event,
                                    reported,
                                ),
                            None => none,
                        };
                        assert(consistent(before, event, reported));
                    }
                    PreviewCommand { step, ..self }
                },
                _ => self,
            };
        }
        let PreviewCommand { message_id, folder_id, step } = self;
        let step = match (step, event) {
            (PreviewStep::LocateCache, PreviewEvent::CacheLocated(located)) => match located {
                Ok(_) => PreviewStep::CheckDirectory,
                Err(error) => PreviewStep::Finished { answer: Err(error) },
            },
            (PreviewStep::CheckDirectory, PreviewEvent::DirectoryExists(exists)) => if exists {
                PreviewStep::PruneCache
            } else {
                PreviewStep::CreateDirectory
            },
            (PreviewStep::CreateDirectory, PreviewEvent::DirectoryCreated) => {
                PreviewStep::PruneCache
            },
            (PreviewStep::PruneCache, PreviewEvent::CachePruned) => PreviewStep::GetClient,
            (PreviewStep::GetClient, PreviewEvent::ClientReady(ready)) => if ready {
                PreviewStep::ResolvePeer
            } else {
                PreviewStep::Finished { answer: Ok("".to_owned()) }
            },
            (PreviewStep::ResolvePeer, PreviewEvent::PeerResolved(resolved)) => match resolved {
                Ok(_) => PreviewStep::FetchMessages,
                Err(error) => PreviewStep::Finished { answer: Err(error) },
            },
            (PreviewStep::LocateFile { file }, PreviewEvent::FileLocated { path, exists }) => {
                if exists {
                    show_step(file.extension.as_str(), path)
                } else {
                    PreviewStep::CheckTransfer { file, path }
                }
            },
            (PreviewStep::CheckTransfer { file, path }, PreviewEvent::TransferAllowed(allowed)) => {
                if allowed {
                    PreviewStep::Download { file, path }
                } else {
                    not_found_step()
                }
            },
            (PreviewStep::Download { file, path }, PreviewEvent::Downloaded(complete)) => {
                if complete {
                    PreviewStep::RecordTransfer { file, path }
                } else {
                    not_found_step()
                }
            },
            (PreviewStep::RecordTransfer { file, path }, PreviewEvent::TransferRecorded) => {
                PreviewStep::PruneAgain { file, path }
            },
            (PreviewStep::PruneAgain { file, path }, PreviewEvent::CachePruned) => show_step(
                file.extension.as_str(),
                path,
            ),
            (PreviewStep::ReadFile { mime, path }, PreviewEvent::FileRead(content)) => {
                match content {
                    Some(bytes) => PreviewStep::Finished {
                        answer: Ok(data_url(mime.as_str(), bytes.as_slice())),
                    },
                    None => PreviewStep::Finished { answer: Ok(path) },
                }
            },
            (step, _) => step,
        };
        PreviewCommand { message_id, folder_id, step }
    }
}

/// A preview file and the steps on it are seen as they are: nothing of what they hold is lost
/// or changed.
pub proof fn law_preview_steps_are_seen_as_they_are(step: PreviewStep)
    ensures
        match step {
            PreviewStep::LocateFile { file } => {
                &&& step@ is LocateFile
                &&& step@->LocateFile_file.message == file.message
                &&& step@->LocateFile_file.name == file.name@
                &&& step@->LocateFile_file.extension == file.extension@
                &&& step@->LocateFile_file.size == file.size
            },
            PreviewStep::CheckTransfer { file, path } => step@ == (PreviewStepView::CheckTransfer {
                file: (PreviewStep::LocateFile { file })@->LocateFile_file,
                path: path@,
            }),
            PreviewStep::Download { file, path } => step@ == (PreviewStepView::Download {
                file: (PreviewStep::LocateFile { file })@->LocateFile_file,
                path: path@,
            }),
            PreviewStep::RecordTransfer { file, path } => step@ == (
            PreviewStepView::RecordTransfer {
                file: (PreviewStep::LocateFile { file })@->LocateFile_file,
                path: path@,
            }),
            PreviewStep::ReadFile { mime, path } => step@ == (PreviewStepView::ReadFile {
                mime: mime@,
                path: path@,
            }),
            PreviewStep::Finished { answer } => match answer {
                Ok(text) => step@ == (PreviewStepView::Finished { answer: Ok(text@) }),
                Err(text) => step@ == (PreviewStepView::Finished { answer: Err(text@) }),
            },
            _ => true,
        },
{
}

} // verus!
