//! Decisions behind the preview and thumbnail caches of a Telegram file browser.
//!
//! * [`preview`], [`thumbnail`] and [`clean`] hold the commands of the browser, as sequences
//!   of steps whose outside operations are left to the caller; [`preview_laws`] and
//!   [`thumbnail_laws`] state what a whole command answers.
//! * [`prune`] picks the files that leave the preview cache.
//! * [`photo_sizes`] picks the thumbnail of a document, [`messages`] the message of a reply.
//! * [`naming`] and [`formats`] give cache entries their names and types, [`data_url`] shows
//!   pictures, and [`text`] and [`decimal`] serve them.

pub mod clean;
pub mod data_url;
pub mod decimal;
pub mod formats;
pub mod messages;
pub mod naming;
pub mod photo_sizes;
pub mod preview;
pub mod preview_laws;
pub mod prune;
pub mod text;
pub mod thumbnail;
pub mod thumbnail_laws;
