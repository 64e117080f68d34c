//! The command that empties the caches.

use vstd::prelude::*;

verus! {

/// The directory of abandoned conversions, below the directory for temporary files.
pub const REMUX_DIRECTORY: &'static str = "nobuf_remux";

/// What is to be done next.
#[derive(Debug)]
pub enum CleanStep {
    /// Find the cache directory of the application.
    LocateCache,
    /// See whether the preview directory exists.
    CheckPreviews,
    /// Remove the preview directory.
    RemovePreviews,
    /// Find the data directory of the application.
    LocateData,
    /// See whether the thumbnail directory exists.
    CheckThumbnails,
    /// Remove the thumbnail directory.
    RemoveThumbnails,
    /// See whether the application has a stream cache.
    FindStreamCache,
    /// Clear the stream cache, whatever state its files are in.
    ClearStreams,
    /// Clear the stream cache in the simple way.
    ClearStreamsSimply,
    /// See whether there is a directory of abandoned conversions.
    CheckRemux,
    /// Remove the directory of abandoned conversions.
    RemoveRemux,
    /// Answer the command.
    Finished { answer: Result<(), String> },
}

/// What an outside operation gave back.
#[derive(Debug)]
pub enum CleanEvent {
    CacheLocated(Result<(), String>),
    DataLocated(bool),
    Exists(bool),
    Removed,
    StreamCacheFound(bool),
    StreamsCleared(bool),
}

/// A step, with its texts as characters.
pub enum CleanStepView {
    LocateCache,
    CheckPreviews,
    RemovePreviews,
    LocateData,
    CheckThumbnails,
    RemoveThumbnails,
    FindStreamCache,
    ClearStreams,
    ClearStreamsSimply,
    CheckRemux,
    RemoveRemux,
    Finished { answer: Result<(), Seq<char>> },
}

impl View for CleanStep {
    type V = CleanStepView;

    open spec fn view(&self) -> CleanStepView {
        match *self {
            CleanStep::LocateCache => CleanStepView::LocateCache,
            CleanStep::CheckPreviews => CleanStepView::CheckPreviews,
            CleanStep::RemovePreviews => CleanStepView::RemovePreviews,
            CleanStep::LocateData => CleanStepView::LocateData,
            CleanStep::CheckThumbnails => CleanStepView::CheckThumbnails,
            CleanStep::RemoveThumbnails => CleanStepView::RemoveThumbnails,
            CleanStep::FindStreamCache => CleanStepView::FindStreamCache,
            CleanStep::ClearStreams => CleanStepView::ClearStreams,
            CleanStep::ClearStreamsSimply => CleanStepView::ClearStreamsSimply,
            CleanStep::CheckRemux => CleanStepView::CheckRemux,
            CleanStep::RemoveRemux => CleanStepView::RemoveRemux,
            CleanStep::Finished { answer } => CleanStepView::Finished {
                answer: match answer {
                    Ok(_) => Ok(()),
                    Err(error) => Err(error@),
                },
            },
        }
    }
}

/// The step that follows `step` upon `event`. An event that does not answer the step leaves
/// it as it is.
pub open spec fn clean_next(step: CleanStepView, event: CleanEvent) -> CleanStepView {
    match (step, event) {
        (CleanStepView::LocateCache, CleanEvent::CacheLocated(located)) => match located {
            Ok(_) => CleanStepView::CheckPreviews,
            Err(error) => CleanStepView::Finished { answer: Err(error@) },
        },
        (CleanStepView::CheckPreviews, CleanEvent::Exists(exists)) => if exists {
            CleanStepView::RemovePreviews
        } else {
            CleanStepView::LocateData
        },
        (CleanStepView::RemovePreviews, CleanEvent::Removed) => CleanStepView::LocateData,
        (CleanStepView::LocateData, CleanEvent::DataLocated(located)) => if located {
            CleanStepView::CheckThumbnails
        } else {
            CleanStepView::FindStreamCache
        },
        (CleanStepView::CheckThumbnails, CleanEvent::Exists(exists)) => if exists {
            CleanStepView::RemoveThumbnails
        } else {
            CleanStepView::FindStreamCache
        },
        (CleanStepView::RemoveThumbnails, CleanEvent::Removed) => CleanStepView::FindStreamCache,
        (CleanStepView::FindStreamCache, CleanEvent::StreamCacheFound(found)) => if found {
            CleanStepView::ClearStreams
        } else {
            CleanStepView::CheckRemux
        },
        (CleanStepView::ClearStreams, CleanEvent::StreamsCleared(cleared)) => if cleared {
            CleanStepView::CheckRemux
        } else {
            CleanStepView::ClearStreamsSimply
        },
        (CleanStepView::ClearStreamsSimply, CleanEvent::StreamsCleared(_)) => {
            CleanStepView::CheckRemux
        },
        (CleanStepView::CheckRemux, CleanEvent::Exists(exists)) => if exists {
            CleanStepView::RemoveRemux
        } else {
            CleanStepView::Finished { answer: Ok(()) }
        },
        (CleanStepView::RemoveRemux, CleanEvent::Removed) => CleanStepView::Finished {
            answer: Ok(()),
        },
        _ => step,
    }
}

/// The command that empties the caches.
#[derive(Debug)]
pub struct CleanCommand {
    step: CleanStep,
}

impl View for CleanCommand {
    type V = CleanStepView;

    closed spec fn view(&self) -> CleanStepView {
        self.step@
    }
}

/// Begins the command.
pub fn cmd_clean_cache() -> (command: CleanCommand)
    ensures
        command@ == CleanStepView::LocateCache,
{
    CleanCommand { step: CleanStep::LocateCache }
}

impl CleanCommand {
    /// What is to be done next.
    pub fn step(&self) -> (step: &CleanStep)
        ensures
            step@ == self@,
    {
        &self.step
    }

    /// Goes on with what the outside operation gave back.
    pub fn advance(self, event: CleanEvent) -> (next: CleanCommand)
        ensures
            next@ == clean_next(self@, event),
    {
        let step = match (self.step, event) {
            (CleanStep::LocateCache, CleanEvent::CacheLocated(located)) => match located {
                Ok(_) => CleanStep::CheckPreviews,
                Err(error) => CleanStep::Finished { answer: Err(error) },
            },
            (CleanStep::CheckPreviews, CleanEvent::Exists(exists)) => if exists {
                CleanStep::RemovePreviews
            } else {
                CleanStep::LocateData
            },
            (CleanStep::RemovePreviews, CleanEvent::Removed) => CleanStep::LocateData,
            (CleanStep::LocateData, CleanEvent::DataLocated(located)) => if located {
                CleanStep::CheckThumbnails
            } else {
                CleanStep::FindStreamCache
            },
            (CleanStep::CheckThumbnails, CleanEvent::Exists(exists)) => if exists {
                CleanStep::RemoveThumbnails
            } else {
                CleanStep::FindStreamCache
            },
            (CleanStep::RemoveThumbnails, CleanEvent::Removed) => CleanStep::FindStreamCache,
            (CleanStep::FindStreamCache, CleanEvent::StreamCacheFound(found)) => if found {
                CleanStep::ClearStreams
            } else {
                CleanStep::CheckRemux
            },
            (CleanStep::ClearStreams, CleanEvent::StreamsCleared(cleared)) => if cleared {
                CleanStep::CheckRemux
            } else {
                CleanStep::ClearStreamsSimply
            },
            (CleanStep::ClearStreamsSimply, CleanEvent::StreamsCleared(_)) => CleanStep::CheckRemux,
            (CleanStep::CheckRemux, CleanEvent::Exists(exists)) => if exists {
                CleanStep::RemoveRemux
            } else {
                CleanStep::Finished { answer: Ok(()) }
            },
            (CleanStep::RemoveRemux, CleanEvent::Removed) => CleanStep::Finished { answer: Ok(()) },
            (step, _) => step,
        };
        CleanCommand { step }
    }
}

/// What the outside operations give back in the course of one command.
pub struct CleanWorld {
    pub cache: Result<(), String>,
    pub previews_exist: bool,
    pub data_located: bool,
    pub thumbnails_exist: bool,
    pub stream_cache_found: bool,
    pub streams_cleared: bool,
    pub streams_cleared_simply: bool,
    pub remux_exists: bool,
}

impl CleanWorld {
    /// The event that answers a step.
    pub open spec fn respond(self, step: CleanStepView) -> CleanEvent {
        match step {
            CleanStepView::LocateCache => CleanEvent::CacheLocated(self.cache),
            CleanStepView::CheckPreviews => CleanEvent::Exists(self.previews_exist),
            CleanStepView::LocateData => CleanEvent::DataLocated(self.data_located),
            CleanStepView::CheckThumbnails => CleanEvent::Exists(self.thumbnails_exist),
            CleanStepView::FindStreamCache => CleanEvent::StreamCacheFound(self.stream_cache_found),
            CleanStepView::ClearStreams => CleanEvent::StreamsCleared(self.streams_cleared),
            CleanStepView::ClearStreamsSimply => CleanEvent::StreamsCleared(
                self.streams_cleared_simply,
            ),
            CleanStepView::CheckRemux => CleanEvent::Exists(self.remux_exists),
            _ => CleanEvent::Removed,
        }
    }

    /// The step after `n` more steps.
    pub open spec fn run(self, step: CleanStepView, n: nat) -> CleanStepView
        decreases n,
    {
        if n == 0 {
            step
        } else {
            self.run(clean_next(step, self.respond(step)), (n - 1) as nat)
        }
    }

    /// The steps that are done, of the next `n`.
    pub open spec fn done(self, step: CleanStepView, n: nat) -> Set<CleanStepView>
        decreases n,
    {
        if n == 0 {
            Set::empty()
        } else {
            self.done(clean_next(step, self.respond(step)), (n - 1) as nat).insert(step)
        }
    }
}

/// Whether the simple way of clearing the stream cache worked makes no difference.
pub proof fn law_simple_clearing_may_fail(cleared: bool)
    ensures
        clean_next(CleanStepView::ClearStreamsSimply, CleanEvent::StreamsCleared(cleared))
            == CleanStepView::CheckRemux,
{
}

/// The command fails where the cache directory cannot be found, and then removes nothing.
/// In all other cases it succeeds, whatever the removals and the clearing give: each directory
/// that exists is removed, the stream cache is cleared where there is one, and cleared in the
/// simple way where, and only where, that failed.
pub proof fn law_caches_are_emptied(world: CleanWorld)
    ensures
        ({
            let start = CleanStepView::LocateCache;
            let done = world.done(start, 11);
            let located = world.cache is Ok;
            &&& world.run(start, 11) == (CleanStepView::Finished {
                answer: match world.cache {
                    Ok(_) => Ok(()),
                    Err(error) => Err(error@),
                },
            })
            &&& done.contains(CleanStepView::RemovePreviews) == (located && world.previews_exist)
            &&& done.contains(CleanStepView::RemoveThumbnails) == (located && world.data_located
                && world.thumbnails_exist)
            &&& done.contains(CleanStepView::ClearStreams) == (located && world.stream_cache_found)
            &&& done.contains(CleanStepView::ClearStreamsSimply) == (located
                && world.stream_cache_found && !world.streams_cleared)
            &&& done.contains(CleanStepView::RemoveRemux) == (located && world.remux_exists)
        }),
{
    reveal_with_fuel(CleanWorld::run, 12);
    reveal_with_fuel(CleanWorld::done, 12);
}

/// An answer stands, whatever happens afterwards, and its error is seen to the letter.
pub proof fn law_clean_answer_stands(step: CleanStep, event: CleanEvent)
    requires
        step is Finished,
    ensures
        clean_next(step@, event) == step@,
        step@ == (CleanStepView::Finished {
            answer: match step->answer {
                Ok(_) => Ok(()),
                Err(error) => Err(error@),
            },
        }),
{
}

} // verus!
