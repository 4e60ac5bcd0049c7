//! Fetching the shader sources, step by step.
//!
//! Each step is some work outside: running a program, or looking at the disk.
//! What comes next depends on how it went.

use vstd::prelude::*;

verus! {

/// A step of fetching the sources.
#[derive(Debug, Clone, Copy, PartialEq, Eq, Structural)]
pub enum SdkStep {
    /// See whether the download program can be run.
    ProbeDownloader,
    /// Download the archive.
    Download,
    /// See whether the archive is there.
    FindArchive,
    /// See whether sources were extracted before.
    FindOldSources,
    /// Remove them.
    RemoveOldSources,
    /// See whether the extraction program can be run.
    ProbeExtractor,
    /// Extract the archive.
    Extract,
    /// See whether the sources are there.
    FindSources,
    /// See whether the archive is still there.
    FindLeftover,
    /// Remove it.
    RemoveLeftover,
    /// Nothing is left to do.
    Done,
}

/// How a step went.
#[derive(Debug, Clone, Copy, PartialEq, Eq, Structural)]
pub enum SdkOutcome {
    /// What was looked for is there, or the work was done.
    Yes,
    /// What was looked for is not there, or the program reported a failure.
    No,
    /// The program could not be run.
    NotRun,
}

/// Why fetching the sources failed.
#[derive(Debug, Clone, Copy, PartialEq, Eq, Structural)]
pub enum SdkError {
    /// The download program is not available.
    DownloaderMissing,
    /// The download program could not be run.
    DownloaderNotRun,
    /// The download failed.
    DownloadFailed,
    /// The download appeared to succeed, but there is no archive.
    ArchiveMissing,
    /// Old sources could not be removed.
    OldSourcesNotRemoved,
    /// The extraction program is not available.
    ExtractorMissing,
    /// The extraction program could not be run.
    ExtractorNotRun,
    /// The extraction failed.
    ExtractionFailed,
    /// The extraction appeared to succeed, but there are no sources.
    SourcesMissing,
    /// The archive could not be removed.
    LeftoverNotRemoved,
}

/// What follows a step.
pub open spec fn step_after(step: SdkStep, outcome: SdkOutcome) -> Result<SdkStep, SdkError> {
    match (step, outcome) {
        (SdkStep::ProbeDownloader, SdkOutcome::NotRun) => Err(SdkError::DownloaderMissing),
        (SdkStep::ProbeDownloader, _) => Ok(SdkStep::Download),
        (SdkStep::Download, SdkOutcome::Yes) => Ok(SdkStep::FindArchive),
        (SdkStep::Download, SdkOutcome::No) => Err(SdkError::DownloadFailed),
        (SdkStep::Download, SdkOutcome::NotRun) => Err(SdkError::DownloaderNotRun),
        (SdkStep::FindArchive, SdkOutcome::Yes) => Ok(SdkStep::FindOldSources),
        (SdkStep::FindArchive, _) => Err(SdkError::ArchiveMissing),
        (SdkStep::FindOldSources, SdkOutcome::Yes) => Ok(SdkStep::RemoveOldSources),
        (SdkStep::FindOldSources, _) => Ok(SdkStep::ProbeExtractor),
        (SdkStep::RemoveOldSources, SdkOutcome::Yes) => Ok(SdkStep::ProbeExtractor),
        (SdkStep::RemoveOldSources, _) => Err(SdkError::OldSourcesNotRemoved),
        (SdkStep::ProbeExtractor, SdkOutcome::NotRun) => Err(SdkError::ExtractorMissing),
        (SdkStep::ProbeExtractor, _) => Ok(SdkStep::Extract),
        (SdkStep::Extract, SdkOutcome::Yes) => Ok(SdkStep::FindSources),
        (SdkStep::Extract, SdkOutcome::No) => Err(SdkError::ExtractionFailed),
        (SdkStep::Extract, SdkOutcome::NotRun) => Err(SdkError::ExtractorNotRun),
        (SdkStep::FindSources, SdkOutcome::Yes) => Ok(SdkStep::FindLeftover),
        (SdkStep::FindSources, _) => Err(SdkError::SourcesMissing),
        (SdkStep::FindLeftover, SdkOutcome::Yes) => Ok(SdkStep::RemoveLeftover),
        (SdkStep::FindLeftover, _) => Ok(SdkStep::Done),
        (SdkStep::RemoveLeftover, SdkOutcome::Yes) => Ok(SdkStep::Done),
        (SdkStep::RemoveLeftover, _) => Err(SdkError::LeftoverNotRemoved),
        (SdkStep::Done, _) => Ok(SdkStep::Done),
    }
}

/// Where fetching the sources starts.
pub fn first_step() -> (result: SdkStep)
    ensures
        result == SdkStep::ProbeDownloader,
{
    SdkStep::ProbeDownloader
}

/// What follows a step.
pub fn next_step(step: SdkStep, outcome: SdkOutcome) -> (result: Result<SdkStep, SdkError>)
    ensures
        result == step_after(step, outcome),
{
    match step {
        SdkStep::ProbeDownloader => match outcome {
            SdkOutcome::NotRun => Err(SdkError::DownloaderMissing),
            _ => Ok(SdkStep::Download),
        },
        SdkStep::Download => match outcome {
            SdkOutcome::Yes => Ok(SdkStep::FindArchive),
            SdkOutcome::No => Err(SdkError::DownloadFailed),
            SdkOutcome::NotRun => Err(SdkError::DownloaderNotRun),
        },
        SdkStep::FindArchive => match outcome {
            SdkOutcome::Yes => Ok(SdkStep::FindOldSources),
            _ => Err(SdkError::ArchiveMissing),
        },
        SdkStep::FindOldSources => match outcome {
            SdkOutcome::Yes => Ok(SdkStep::RemoveOldSources),
            _ => Ok(SdkStep::ProbeExtractor),
        },
        SdkStep::RemoveOldSources => match outcome {
            SdkOutcome::Yes => Ok(SdkStep::ProbeExtractor),
            _ => Err(SdkError::OldSourcesNotRemoved),
        },
        SdkStep::ProbeExtractor => match outcome {
            SdkOutcome::NotRun => Err(SdkError::ExtractorMissing),
            _ => Ok(SdkStep::Extract),
        },
        SdkStep::Extract => match outcome {
            SdkOutcome::Yes => Ok(SdkStep::FindSources),
            SdkOutcome::No => Err(SdkError::ExtractionFailed),
            SdkOutcome::NotRun => Err(SdkError::ExtractorNotRun),
        },
        SdkStep::FindSources => match outcome {
            SdkOutcome::Yes => Ok(SdkStep::FindLeftover),
            _ => Err(SdkError::SourcesMissing),
        },
        SdkStep::FindLeftover => match outcome {
            SdkOutcome::Yes => Ok(SdkStep::RemoveLeftover),
            _ => Ok(SdkStep::Done),
        },
        SdkStep::RemoveLeftover => match outcome {
            SdkOutcome::Yes => Ok(SdkStep::Done),
            _ => Err(SdkError::LeftoverNotRemoved),
        },
        SdkStep::Done => Ok(SdkStep::Done),
    }
}

/// How many steps are left at most.
pub open spec fn steps_left(step: SdkStep) -> nat {
    match step {
        SdkStep::ProbeDownloader => 10,
        SdkStep::Download => 9,
        SdkStep::FindArchive => 8,
        SdkStep::FindOldSources => 7,
        SdkStep::RemoveOldSources => 6,
        SdkStep::ProbeExtractor => 5,
        SdkStep::Extract => 4,
        SdkStep::FindSources => 3,
        SdkStep::FindLeftover => 2,
        SdkStep::RemoveLeftover => 1,
        SdkStep::Done => 0,
    }
}

/// Fetching ends: every step but the last brings the end closer.
pub proof fn law_fetching_ends(step: SdkStep, outcome: SdkOutcome)
    requires
        step != SdkStep::Done,
    ensures
        step_after(step, outcome) matches Ok(next) ==> steps_left(next) < steps_left(step),
{
}

/// Sources are extracted only after the archive was downloaded and found: no step skips another
/// but the removal of what is not there.
pub proof fn law_no_step_skipped(step: SdkStep, outcome: SdkOutcome)
    requires
        step != SdkStep::Done,
    ensures
        step_after(step, outcome) matches Ok(next) ==> steps_left(next) == steps_left(step) - 1 || (
        step == SdkStep::FindOldSources && next == SdkStep::ProbeExtractor) || (step
            == SdkStep::FindLeftover && next == SdkStep::Done),
{
}

/// Why fetching fails: each error comes from one step, and says whether its program could not be
/// run or its work was not done.
pub proof fn law_errors_name_their_step(step: SdkStep, outcome: SdkOutcome)
    ensures
        match step_after(step, outcome) {
            Err(SdkError::DownloaderMissing) => step == SdkStep::ProbeDownloader && outcome
                == SdkOutcome::NotRun,
            Err(SdkError::DownloaderNotRun) => step == SdkStep::Download && outcome
                == SdkOutcome::NotRun,
            Err(SdkError::DownloadFailed) => step == SdkStep::Download && outcome == SdkOutcome::No,
            Err(SdkError::ArchiveMissing) => step == SdkStep::FindArchive && outcome
                != SdkOutcome::Yes,
            Err(SdkError::OldSourcesNotRemoved) => step == SdkStep::RemoveOldSources && outcome
                != SdkOutcome::Yes,
            Err(SdkError::ExtractorMissing) => step == SdkStep::ProbeExtractor && outcome
                == SdkOutcome::NotRun,
            Err(SdkError::ExtractorNotRun) => step == SdkStep::Extract && outcome
                == SdkOutcome::NotRun,
            Err(SdkError::ExtractionFailed) => step == SdkStep::Extract && outcome
                == SdkOutcome::No,
            Err(SdkError::SourcesMissing) => step == SdkStep::FindSources && outcome
                != SdkOutcome::Yes,
            Err(SdkError::LeftoverNotRemoved) => step == SdkStep::RemoveLeftover && outcome
                != SdkOutcome::Yes,
            // Probing only fails where the program cannot be run, and nothing has to be there to
            // be removed
            Ok(_) => outcome == SdkOutcome::Yes || step == SdkStep::Done || step
                == SdkStep::FindOldSources || step == SdkStep::FindLeftover || outcome
                == SdkOutcome::No && (step == SdkStep::ProbeDownloader || step
                == SdkStep::ProbeExtractor),
        },
{
}

/// Where every step goes well, each is followed by the next; and what is not there is not removed.
pub proof fn law_all_goes_well(step: SdkStep, outcome: SdkOutcome)
    ensures
        step_after(SdkStep::ProbeDownloader, SdkOutcome::Yes) == Ok::<SdkStep, SdkError>(
            SdkStep::Download,
        ),
        step_after(SdkStep::Download, SdkOutcome::Yes) == Ok::<SdkStep, SdkError>(
            SdkStep::FindArchive,
        ),
        outcome == SdkOutcome::Yes && step != SdkStep::Done ==> step_after(step, outcome) is Ok
            && steps_left(step_after(step, outcome)->Ok_0) == steps_left(step) - 1,
        outcome != SdkOutcome::Yes ==> step_after(SdkStep::FindOldSources, outcome) == Ok::<
            SdkStep,
            SdkError,
        >(SdkStep::ProbeExtractor),
        outcome != SdkOutcome::Yes ==> step_after(SdkStep::FindLeftover, outcome) == Ok::<
            SdkStep,
            SdkError,
        >(SdkStep::Done),
        step_after(SdkStep::Done, outcome) == Ok::<SdkStep, SdkError>(SdkStep::Done),
{
}

} // verus!
