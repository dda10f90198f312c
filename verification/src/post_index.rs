//! What the post-index pipeline (link, then rank) does when a phase fails.
use vstd::prelude::*;

verus! {

/// Failure policy for the post-writer pipeline: `FailFast` for one-shot
/// indexing, `Resilient` for the long-running watcher.
#[derive(Debug, Clone, Copy, PartialEq, Eq)]
pub enum PostIndexMode {
    FailFast,
    Resilient,
}

/// The phases of the pipeline that can fail.
#[derive(Debug, Clone, Copy, PartialEq, Eq)]
pub enum PostIndexPhase {
    OpenDatabase,
    OpenConnection,
    Link,
    Rank,
}

/// What the pipeline does about a failure.
#[derive(Debug, Clone, Copy, PartialEq, Eq)]
pub enum FailureAction {
    /// Report the error and return it.
    Propagate,
    /// Report a warning and go on.
    Warn,
    /// Stop quietly and report success.
    Skip,
}

/// What a failure in `phase` leads to under `mode`: a database that cannot
/// be opened propagates under `FailFast` and is skipped silently under
/// `Resilient`; a linker failure propagates under `FailFast` and is a
/// warning under `Resilient`; a ranking failure is a warning under both.
pub open spec fn failure_action(mode: PostIndexMode, phase: PostIndexPhase) -> FailureAction {
    match phase {
        PostIndexPhase::OpenDatabase | PostIndexPhase::OpenConnection => match mode {
            PostIndexMode::FailFast => FailureAction::Propagate,
            PostIndexMode::Resilient => FailureAction::Skip,
        },
        PostIndexPhase::Link => match mode {
            PostIndexMode::FailFast => FailureAction::Propagate,
            PostIndexMode::Resilient => FailureAction::Warn,
        },
        PostIndexPhase::Rank => FailureAction::Warn,
    }
}

/// What a failure in `phase` leads to under `mode`.
pub fn on_failure(mode: PostIndexMode, phase: PostIndexPhase) -> (r: FailureAction)
    ensures
        r == failure_action(mode, phase),
{
    match phase {
        PostIndexPhase::OpenDatabase | PostIndexPhase::OpenConnection => match mode {
            PostIndexMode::FailFast => FailureAction::Propagate,
            PostIndexMode::Resilient => FailureAction::Skip,
        },
        PostIndexPhase::Link => match mode {
            PostIndexMode::FailFast => FailureAction::Propagate,
            PostIndexMode::Resilient => FailureAction::Warn,
        },
        PostIndexPhase::Rank => FailureAction::Warn,
    }
}

} // verus!
