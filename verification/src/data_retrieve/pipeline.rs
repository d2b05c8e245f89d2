//! The run of the pipeline as a state machine. The caller performs each
//! action that the machine orders and reports what came of it as an event;
//! the machine decides what follows.

use vstd::prelude::*;
use crate::data_retrieve::checks::{
    data_location,
    data_present,
    dataset_complete,
    optional_listing,
    COMPLETE_MARKER,
    DATA_FOLDER,
};
use crate::data_retrieve::download::{
    init_download_dir,
    length_agrees,
    metadata_of,
    url_path_segments,
    verify_length,
    RemoteArchiveMetadata,
    DOWNLOAD_FOLDER,
    TAR_URL,
};
use crate::data_retrieve::outcome::{PipelineError, PrepareOutcome};
use crate::data_retrieve::paths::{join, joined};
use crate::data_retrieve::unarchive::{
    decompress,
    extracted_view,
    names_view,
    unpacked,
    ExtractedEntry,
    ExtractedView,
};
use vstd::slice::slice_to_vec;

verus! {

/// Seconds allowed for reaching the remote side, unless configured.
pub const CONNECT_TIMEOUT_SECS: u64 = 30;

/// Seconds allowed for the transfer of the whole archive, unless configured.
pub const TRANSFER_TIMEOUT_SECS: u64 = 3600;

/// The settings of one run.
#[derive(Clone, Debug, PartialEq, Eq)]
pub struct PipelineConfig {
    /// The address of the archive.
    pub source_url: String,
    /// The download directory, where it is not the one below the scratch
    /// directory.
    pub download_dir_override: Option<String>,
    /// The dataset directory, where it is not the one below the working
    /// directory.
    pub dataset_dir_override: Option<String>,
    /// Whether the caller wants to be told of every step.
    pub verbose: bool,
    /// Seconds allowed for reaching the remote side.
    pub connect_timeout_secs: u64,
    /// Seconds allowed for the transfer of the whole archive.
    pub transfer_timeout_secs: u64,
}

/// The settings of one run as plain values.
pub ghost struct ConfigView {
    pub source_url: Seq<char>,
    pub download_dir_override: Option<Seq<char>>,
    pub dataset_dir_override: Option<Seq<char>>,
    pub verbose: bool,
    pub connect_timeout_secs: u64,
    pub transfer_timeout_secs: u64,
}

/// The characters of a text that may be missing.
pub open spec fn optional_text(text: Option<String>) -> Option<Seq<char>> {
    match text {
        None => None,
        Some(found) => Some(found@),
    }
}

/// The bytes of a field that may be missing.
pub open spec fn optional_field(field: Option<Vec<u8>>) -> Option<Seq<u8>> {
    match field {
        None => None,
        Some(found) => Some(found@),
    }
}

impl View for PipelineConfig {
    type V = ConfigView;

    open spec fn view(&self) -> ConfigView {
        ConfigView {
            source_url: self.source_url@,
            download_dir_override: optional_text(self.download_dir_override),
            dataset_dir_override: optional_text(self.dataset_dir_override),
            verbose: self.verbose,
            connect_timeout_secs: self.connect_timeout_secs,
            transfer_timeout_secs: self.transfer_timeout_secs,
        }
    }
}

impl PipelineConfig {
    /// The settings for the pre-built archive, with no directory overridden
    /// and the standard time limits.
    pub fn standard(verbose: bool) -> (config: PipelineConfig)
        ensures
            config@ == (ConfigView {
                source_url: TAR_URL@,
                download_dir_override: None,
                dataset_dir_override: None,
                verbose,
                connect_timeout_secs: CONNECT_TIMEOUT_SECS,
                transfer_timeout_secs: TRANSFER_TIMEOUT_SECS,
            }),
    {
        PipelineConfig {
            source_url: TAR_URL.to_owned(),
            download_dir_override: None,
            dataset_dir_override: None,
            verbose,
            connect_timeout_secs: CONNECT_TIMEOUT_SECS,
            transfer_timeout_secs: TRANSFER_TIMEOUT_SECS,
        }
    }
}

/// Where a run stands.
#[derive(Clone, Copy, Debug, PartialEq, Eq, Structural)]
pub enum Stage {
    /// The listing of the dataset directory is awaited.
    CheckPresence,
    /// The creation of the two directories is awaited.
    ResolveLocations,
    /// The head of the remote answer is awaited.
    Fetch,
    /// The end of the transfer into the archive file is awaited.
    Store,
    /// The bytes of the stored archive are awaited.
    Load,
    /// The writing of the entries is awaited.
    Extract,
    /// The writing of the completion marker is awaited.
    Seal,
    /// The removal of what a failed run has left behind is awaited.
    CleanUp(PipelineError),
    /// The run has ended: the dataset was there already.
    AlreadyPresent,
    /// The run has ended: the dataset has been materialized.
    Done,
    /// The run has ended with an error.
    Failed(PipelineError),
}

/// What the caller reports to the machine.
#[derive(Clone, Debug, PartialEq, Eq)]
pub enum Event {
    /// The names found in the dataset directory; `None` if there is no
    /// such directory.
    Listed(Option<Vec<String>>),
    /// The download and the dataset directory exist.
    DirectoriesReady,
    /// The remote side has answered: the address that answered, the status
    /// code, and the value of the content-length field if there is one.
    Responded { url: String, status: u16, content_length: Option<Vec<u8>> },
    /// The transfer has ended and the file is flushed; so many bytes were
    /// written.
    Stored { written: u64 },
    /// The bytes of the stored archive.
    Loaded(Vec<u8>),
    /// All entries have been written.
    EntriesWritten,
    /// The completion marker has been written.
    Sealed,
    /// What was to be removed is gone.
    CleanedUp,
    /// The action could not be performed.
    Failed(PipelineError),
}

/// An event as plain values.
pub ghost enum EventView {
    Listed(Option<Seq<Seq<char>>>),
    DirectoriesReady,
    Responded { url: Seq<char>, status: u16, content_length: Option<Seq<u8>> },
    Stored { written: u64 },
    Loaded(Seq<u8>),
    EntriesWritten,
    Sealed,
    CleanedUp,
    Failed(PipelineError),
}

impl View for Event {
    type V = EventView;

    open spec fn view(&self) -> EventView {
        match *self {
            Event::Listed(listing) => EventView::Listed(optional_listing(listing)),
            Event::DirectoriesReady => EventView::DirectoriesReady,
            Event::Responded { url, status, content_length } => EventView::Responded {
                url: url@,
                status,
                content_length: optional_field(content_length),
            },
            Event::Stored { written } => EventView::Stored { written },
            Event::Loaded(bytes) => EventView::Loaded(bytes@),
            Event::EntriesWritten => EventView::EntriesWritten,
            Event::Sealed => EventView::Sealed,
            Event::CleanedUp => EventView::CleanedUp,
            Event::Failed(error) => EventView::Failed(error),
        }
    }
}

/// What the machine orders the caller to do.
#[derive(Debug, PartialEq, Eq)]
pub enum Action {
    /// List the names in the dataset directory.
    ListDataset { dir: String },
    /// Create the two directories, unless they exist.
    CreateDirectories { download_dir: String, dataset_dir: String },
    /// Send one GET request, within the two time limits.
    Fetch { url: String, connect_timeout_secs: u64, transfer_timeout_secs: u64 },
    /// Create or truncate the file, copy the whole body of the answer into
    /// it, and flush it.
    Store { destination: String },
    /// Read the stored archive.
    LoadArchive { path: String },
    /// Write the entries below the target directory, in this order.
    WriteEntries { target_dir: String, entries: Vec<ExtractedEntry> },
    /// Write the completion marker.
    WriteMarker { path: String },
    /// Remove the archive file, the completion marker, and below the
    /// target directory whatever the listed names lead to.
    CleanUp { archive: String, marker: String, target_dir: String, extracted: Vec<Vec<u8>> },
    /// Nothing: the event was not the awaited one.
    Wait,
    /// The run has ended, and this is how.
    Finish(Result<PrepareOutcome, PipelineError>),
}

/// An action as plain values.
pub ghost enum ActionView {
    ListDataset { dir: Seq<char> },
    CreateDirectories { download_dir: Seq<char>, dataset_dir: Seq<char> },
    Fetch { url: Seq<char>, connect_timeout_secs: u64, transfer_timeout_secs: u64 },
    Store { destination: Seq<char> },
    LoadArchive { path: Seq<char> },
    WriteEntries { target_dir: Seq<char>, entries: Seq<ExtractedView> },
    WriteMarker { path: Seq<char> },
    CleanUp {
        archive: Seq<char>,
        marker: Seq<char>,
        target_dir: Seq<char>,
        extracted: Seq<Seq<u8>>,
    },
    Wait,
    Finish(Result<PrepareOutcome, PipelineError>),
}

impl View for Action {
    type V = ActionView;

    open spec fn view(&self) -> ActionView {
        match *self {
            Action::ListDataset { dir } => ActionView::ListDataset { dir: dir@ },
            Action::CreateDirectories { download_dir, dataset_dir } => {
                ActionView::CreateDirectories {
                    download_dir: download_dir@,
                    dataset_dir: dataset_dir@,
                }
            },
            Action::Fetch { url, connect_timeout_secs, transfer_timeout_secs } => {
                ActionView::Fetch { url: url@, connect_timeout_secs, transfer_timeout_secs }
            },
            Action::Store { destination } => ActionView::Store { destination: destination@ },
            Action::LoadArchive { path } => ActionView::LoadArchive { path: path@ },
            Action::WriteEntries { target_dir, entries } => ActionView::WriteEntries {
                target_dir: target_dir@,
                entries: extracted_view(entries@),
            },
            Action::WriteMarker { path } => ActionView::WriteMarker { path: path@ },
            Action::CleanUp { archive, marker, target_dir, extracted } => ActionView::CleanUp {
                archive: archive@,
                marker: marker@,
                target_dir: target_dir@,
                extracted: names_view(extracted@),
            },
            Action::Wait => ActionView::Wait,
            Action::Finish(outcome) => ActionView::Finish(outcome),
        }
    }
}

/// What the caller may tell whoever follows the run.
#[derive(Clone, Copy, Debug, PartialEq, Eq, Structural)]
pub enum ProgressEvent {
    /// The request is about to be sent.
    FetchStarted,
    /// The archive is stored, with so many bytes.
    FetchCompleted { bytes: u64 },
    /// The archive is accepted and its entries are about to be written.
    ExtractStarted,
    /// All entries and the completion marker are written.
    ExtractCompleted,
}

/// The answer of the machine to one event.
#[derive(Debug, PartialEq, Eq)]
pub struct Step {
    /// What to do next.
    pub action: Action,
    /// What to report, if anything.
    pub progress: Option<ProgressEvent>,
}

/// An answer of the machine as plain values.
pub ghost struct StepView {
    pub action: ActionView,
    pub progress: Option<ProgressEvent>,
}

impl View for Step {
    type V = StepView;

    open spec fn view(&self) -> StepView {
        StepView { action: self.action@, progress: self.progress }
    }
}

/// The state of a run as plain values.
pub ghost struct PipelineView {
    /// Where the run stands.
    pub stage: Stage,
    /// The address of the archive.
    pub source_url: Seq<char>,
    /// Seconds allowed for reaching the remote side.
    pub connect_timeout_secs: u64,
    /// Seconds allowed for the transfer.
    pub transfer_timeout_secs: u64,
    /// The directory that the entries are written to.
    pub dataset_dir: Seq<char>,
    /// The directory that the archive is stored in.
    pub download_dir: Seq<char>,
    /// The file that the archive is stored in; empty until it is known.
    pub archive_path: Seq<char>,
    /// The announced length of the archive, if known.
    pub expected_length: Option<u64>,
    /// The first name of the place of each entry that was ordered written.
    pub top_level: Seq<Seq<u8>>,
}

/// The first name of the place of each entry of a plan.
pub open spec fn top_names(plan: Seq<ExtractedView>) -> Seq<Seq<u8>> {
    plan.map_values(
        |entry: ExtractedView|
            if entry.components.len() > 0 {
                entry.components[0]
            } else {
                Seq::<u8>::empty()
            },
    )
}

/// The state in which a run begins.
pub open spec fn initial(config: ConfigView, current_dir: Seq<char>, temp_dir: Seq<char>)
    -> PipelineView {
    PipelineView {
        stage: Stage::CheckPresence,
        source_url: config.source_url,
        connect_timeout_secs: config.connect_timeout_secs,
        transfer_timeout_secs: config.transfer_timeout_secs,
        dataset_dir: match config.dataset_dir_override {
            Some(dir) => dir,
            None => joined(current_dir, DATA_FOLDER@),
        },
        download_dir: match config.download_dir_override {
            Some(dir) => dir,
            None => joined(temp_dir, DOWNLOAD_FOLDER@),
        },
        archive_path: Seq::<char>::empty(),
        expected_length: None,
        top_level: Seq::<Seq<u8>>::empty(),
    }
}

/// The first answer of the machine: the presence of the dataset is checked
/// before anything else.
pub open spec fn first_step(state: PipelineView) -> StepView {
    StepView { action: ActionView::ListDataset { dir: state.dataset_dir }, progress: None }
}

/// The answer to an event that is not the awaited one: nothing changes.
pub open spec fn ignored(state: PipelineView) -> (PipelineView, StepView) {
    (state, StepView { action: ActionView::Wait, progress: None })
}

/// A failure before anything was written: the run ends with the error.
pub open spec fn failed(state: PipelineView, error: PipelineError) -> (PipelineView, StepView) {
    (
        PipelineView { stage: Stage::Failed(error), ..state },
        StepView { action: ActionView::Finish(Err(error)), progress: None },
    )
}

/// A failure after something may have been written: what the run has left
/// behind is removed first, and the error is kept.
pub open spec fn cleaned(state: PipelineView, error: PipelineError) -> (PipelineView, StepView) {
    (
        PipelineView { stage: Stage::CleanUp(error), ..state },
        StepView {
            action: ActionView::CleanUp {
                archive: state.archive_path,
                marker: joined(state.dataset_dir, COMPLETE_MARKER@),
                target_dir: state.dataset_dir,
                extracted: state.top_level,
            },
            progress: None,
        },
    )
}

/// How a run that has ended has ended.
pub open spec fn final_outcome(stage: Stage) -> Option<Result<PrepareOutcome, PipelineError>> {
    match stage {
        Stage::AlreadyPresent => Some(Ok(PrepareOutcome::AlreadyPresent)),
        Stage::Done => Some(Ok(PrepareOutcome::Materialized)),
        Stage::Failed(error) => Some(Err(error)),
        _ => None,
    }
}

/// The transition of the machine: the state that follows `state` on
/// `event`, and the answer to the event.
pub open spec fn next(state: PipelineView, event: EventView) -> (PipelineView, StepView) {
    match state.stage {
        Stage::CheckPresence => match event {
            EventView::Listed(listing) => if dataset_complete(listing) {
                (
                    PipelineView { stage: Stage::AlreadyPresent, ..state },
                    StepView {
                        action: ActionView::Finish(Ok(PrepareOutcome::AlreadyPresent)),
                        progress: None,
                    },
                )
            } else {
                (
                    PipelineView { stage: Stage::ResolveLocations, ..state },
                    StepView {
                        action: ActionView::CreateDirectories {
                            download_dir: state.download_dir,
                            dataset_dir: state.dataset_dir,
                        },
                        progress: None,
                    },
                )
            },
            EventView::Failed(error) => failed(state, error),
            _ => ignored(state),
        },
        Stage::ResolveLocations => match event {
            EventView::DirectoriesReady => (
                PipelineView { stage: Stage::Fetch, ..state },
                StepView {
                    action: ActionView::Fetch {
                        url: state.source_url,
                        connect_timeout_secs: state.connect_timeout_secs,
                        transfer_timeout_secs: state.transfer_timeout_secs,
                    },
                    progress: Some(ProgressEvent::FetchStarted),
                },
            ),
            EventView::Failed(error) => failed(state, error),
            _ => ignored(state),
        },
        Stage::Fetch => match event {
            EventView::Responded { url, status, content_length } => match metadata_of(
                url,
                url_path_segments(url),
                status,
                content_length,
            ) {
                Err(error) => failed(state, error),
                Ok(metadata) => (
                    PipelineView {
                        stage: Stage::Store,
                        archive_path: joined(state.download_dir, metadata.1),
                        expected_length: metadata.2,
                        ..state
                    },
                    StepView {
                        action: ActionView::Store {
                            destination: joined(state.download_dir, metadata.1),
                        },
                        progress: None,
                    },
                ),
            },
            EventView::Failed(error) => failed(state, error),
            _ => ignored(state),
        },
        Stage::Store => match event {
            EventView::Stored { written } => if length_agrees(state.expected_length, written) {
                (
                    PipelineView { stage: Stage::Load, ..state },
                    StepView {
                        action: ActionView::LoadArchive { path: state.archive_path },
                        progress: Some(ProgressEvent::FetchCompleted { bytes: written }),
                    },
                )
            } else {
                cleaned(state, PipelineError::IntegrityError)
            },
            EventView::Failed(error) => cleaned(state, error),
            _ => ignored(state),
        },
        Stage::Load => match event {
            EventView::Loaded(bytes) => match unpacked(bytes) {
                Err(error) => cleaned(state, error),
                Ok(plan) => (
                    PipelineView { stage: Stage::Extract, top_level: top_names(plan), ..state },
                    StepView {
                        action: ActionView::WriteEntries {
                            target_dir: state.dataset_dir,
                            entries: plan,
                        },
                        progress: Some(ProgressEvent::ExtractStarted),
                    },
                ),
            },
            EventView::Failed(error) => cleaned(state, error),
            _ => ignored(state),
        },
        Stage::Extract => match event {
            EventView::EntriesWritten => (
                PipelineView { stage: Stage::Seal, ..state },
                StepView {
                    action: ActionView::WriteMarker {
                        path: joined(state.dataset_dir, COMPLETE_MARKER@),
                    },
                    progress: None,
                },
            ),
            EventView::Failed(error) => cleaned(state, error),
            _ => ignored(state),
        },
        Stage::Seal => match event {
            EventView::Sealed => (
                PipelineView { stage: Stage::Done, ..state },
                StepView {
                    action: ActionView::Finish(Ok(PrepareOutcome::Materialized)),
                    progress: Some(ProgressEvent::ExtractCompleted),
                },
            ),
            EventView::Failed(error) => cleaned(state, error),
            _ => ignored(state),
        },
        Stage::CleanUp(error) => match event {
            EventView::CleanedUp => failed(state, error),
            EventView::Failed(_) => failed(state, error),
            _ => ignored(state),
        },
        Stage::AlreadyPresent => (
            state,
            StepView {
                action: ActionView::Finish(Ok(PrepareOutcome::AlreadyPresent)),
                progress: None,
            },
        ),
        Stage::Done => (
            state,
            StepView {
                action: ActionView::Finish(Ok(PrepareOutcome::Materialized)),
                progress: None,
            },
        ),
        Stage::Failed(error) => (
            state,
            StepView { action: ActionView::Finish(Err(error)), progress: None },
        ),
    }
}

/// One run of the pipeline.
pub struct Pipeline {
    stage: Stage,
    source_url: String,
    connect_timeout_secs: u64,
    transfer_timeout_secs: u64,
    dataset_dir: String,
    download_dir: String,
    archive_path: String,
    expected_length: Option<u64>,
    top_level: Vec<Vec<u8>>,
}

impl View for Pipeline {
    type V = PipelineView;

    closed spec fn view(&self) -> PipelineView {
        PipelineView {
            stage: self.stage,
            source_url: self.source_url@,
            connect_timeout_secs: self.connect_timeout_secs,
            transfer_timeout_secs: self.transfer_timeout_secs,
            dataset_dir: self.dataset_dir@,
            download_dir: self.download_dir@,
            archive_path: self.archive_path@,
            expected_length: self.expected_length,
            top_level: names_view(self.top_level@),
        }
    }
}

/// Copies a list of names.
fn copy_names(names: &Vec<Vec<u8>>) -> (copy: Vec<Vec<u8>>)
    ensures
        names_view(copy@) == names_view(names@),
{
    let mut copy: Vec<Vec<u8>> = Vec::new();
    let mut i: usize = 0;
    while i < names.len()
        invariant
            i <= names.len(),
            names_view(copy@) == names_view(names@).take(i as int),
        decreases names.len() - i,
    {
        let ghost before = copy@;
        copy.push(slice_to_vec(names[i].as_slice()));
        assert(names_view(copy@) =~= names_view(before).push(names@[i as int]@));
        assert(names_view(names@).take(i + 1) =~= names_view(names@).take(i as int).push(
            names@[i as int]@,
        ));
        i += 1;
    }
    assert(names_view(names@).take(i as int) =~= names_view(names@));
    copy
}

/// Collects the first name of the place of each entry of a plan.
fn first_names(plan: &Vec<ExtractedEntry>) -> (names: Vec<Vec<u8>>)
    ensures
        names_view(names@) == top_names(extracted_view(plan@)),
{
    let mut names: Vec<Vec<u8>> = Vec::new();
    let mut i: usize = 0;
    while i < plan.len()
        invariant
            i <= plan.len(),
            names_view(names@) == top_names(extracted_view(plan@)).take(i as int),
        decreases plan.len() - i,
    {
        let ghost before = names@;
        let entry: &ExtractedEntry = &plan[i];
        let name: Vec<u8> = if entry.components.len() > 0 {
            slice_to_vec(entry.components[0].as_slice())
        } else {
            Vec::new()
        };
        proof {
            let wanted = top_names(extracted_view(plan@));
            assert(wanted[i as int] == name@);
            assert(names_view(before.push(name)) =~= names_view(before).push(name@));
            assert(wanted.take(i + 1) =~= wanted.take(i as int).push(name@));
        }
        names.push(name);
        i += 1;
    }
    assert(top_names(extracted_view(plan@)).take(i as int) =~= top_names(extracted_view(plan@)));
    names
}

impl Pipeline {
    /// Begins a run: resolves the two directories from the settings, the
    /// working directory and the scratch directory, and orders the presence
    /// check.
    pub fn begin(config: PipelineConfig, current_dir: &str, temp_dir: &str) -> (started: (
        Pipeline,
        Step,
    ))
        ensures
            started.0@ == initial(config@, current_dir@, temp_dir@),
            started.1@ == first_step(started.0@),
    {
        let dataset_dir: String = match config.dataset_dir_override {
            Some(dir) => dir,
            None => data_location(current_dir),
        };
        let download_dir: String = match config.download_dir_override {
            Some(dir) => dir,
            None => init_download_dir(temp_dir),
        };
        let step = Step { action: Action::ListDataset { dir: dataset_dir.clone() }, progress: None };
        let pipeline = Pipeline {
            stage: Stage::CheckPresence,
            source_url: config.source_url,
            connect_timeout_secs: config.connect_timeout_secs,
            transfer_timeout_secs: config.transfer_timeout_secs,
            dataset_dir,
            download_dir,
            archive_path: String::new(),
            expected_length: None,
            top_level: Vec::new(),
        };
        proof {
            assert(names_view(pipeline.top_level@) =~= Seq::<Seq<u8>>::empty());
        }
        (pipeline, step)
    }

    /// Where the run stands.
    pub fn stage(&self) -> (stage: Stage)
        ensures
            stage == self@.stage,
    {
        self.stage
    }

    /// How the run has ended, if it has.
    pub fn outcome(&self) -> (outcome: Option<Result<PrepareOutcome, PipelineError>>)
        ensures
            outcome == final_outcome(self@.stage),
    {
        match self.stage {
            Stage::AlreadyPresent => Some(Ok(PrepareOutcome::AlreadyPresent)),
            Stage::Done => Some(Ok(PrepareOutcome::Materialized)),
            Stage::Failed(error) => Some(Err(error)),
            _ => None,
        }
    }

    fn ignore(&self) -> (step: Step)
        ensures
            (self@, step@) == ignored(self@),
    {
        Step { action: Action::Wait, progress: None }
    }

    fn fail(&mut self, error: PipelineError) -> (step: Step)
        ensures
            (final(self)@, step@) == failed(old(self)@, error),
    {
        self.stage = Stage::Failed(error);
        Step { action: Action::Finish(Err(error)), progress: None }
    }

    fn clean_up(&mut self, error: PipelineError) -> (step: Step)
        ensures
            (final(self)@, step@) == cleaned(old(self)@, error),
    {
        self.stage = Stage::CleanUp(error);
        Step {
            action: Action::CleanUp {
                archive: self.archive_path.clone(),
                marker: join(self.dataset_dir.as_str(), COMPLETE_MARKER),
                target_dir: self.dataset_dir.clone(),
                extracted: copy_names(&self.top_level),
            },
            progress: None,
        }
    }

    /// Takes the report of what came of the last action, and answers with
    /// what to do next.
    pub fn step(&mut self, event: Event) -> (step: Step)
        ensures
            (final(self)@, step@) == next(old(self)@, event@),
    {
        match self.stage {
            Stage::CheckPresence => match event {
                Event::Listed(listing) => {
                    if data_present(&listing) {
                        self.stage = Stage::AlreadyPresent;
                        Step {
                            action: Action::Finish(Ok(PrepareOutcome::AlreadyPresent)),
                            progress: None,
                        }
                    } else {
                        self.stage = Stage::ResolveLocations;
                        Step {
                            action: Action::CreateDirectories {
                                download_dir: self.download_dir.clone(),
                                dataset_dir: self.dataset_dir.clone(),
                            },
                            progress: None,
                        }
                    }
                },
                Event::Failed(error) => self.fail(error),
                _ => self.ignore(),
            },
            Stage::ResolveLocations => match event {
                Event::DirectoriesReady => {
                    self.stage = Stage::Fetch;
                    Step {
                        action: Action::Fetch {
                            url: self.source_url.clone(),
                            connect_timeout_secs: self.connect_timeout_secs,
                            transfer_timeout_secs: self.transfer_timeout_secs,
                        },
                        progress: Some(ProgressEvent::FetchStarted),
                    }
                },
                Event::Failed(error) => self.fail(error),
                _ => self.ignore(),
            },
            Stage::Fetch => match event {
                Event::Responded { url, status, content_length } => {
                    let field: Option<&[u8]> = match &content_length {
                        None => None,
                        Some(text) => Some(text.as_slice()),
                    };
                    match RemoteArchiveMetadata::from_response(url.as_str(), status, field) {
                        Err(error) => self.fail(error),
                        Ok(metadata) => {
                            let destination = join(
                                self.download_dir.as_str(),
                                metadata.filename.as_str(),
                            );
                            self.stage = Stage::Store;
                            self.archive_path = destination.clone();
                            self.expected_length = metadata.content_length;
                            Step { action: Action::Store { destination }, progress: None }
                        },
                    }
                },
                Event::Failed(error) => self.fail(error),
                _ => self.ignore(),
            },
            Stage::Store => match event {
                Event::Stored { written } => match verify_length(self.expected_length, written) {
                    Ok(_) => {
                        self.stage = Stage::Load;
                        Step {
                            action: Action::LoadArchive { path: self.archive_path.clone() },
                            progress: Some(ProgressEvent::FetchCompleted { bytes: written }),
                        }
                    },
                    Err(error) => self.clean_up(error),
                },
                Event::Failed(error) => self.clean_up(error),
                _ => self.ignore(),
            },
            Stage::Load => match event {
                Event::Loaded(bytes) => match decompress(bytes.as_slice()) {
                    Err(error) => self.clean_up(error),
                    Ok(entries) => {
                        self.stage = Stage::Extract;
                        self.top_level = first_names(&entries);
                        Step {
                            action: Action::WriteEntries {
                                target_dir: self.dataset_dir.clone(),
                                entries,
                            },
                            progress: Some(ProgressEvent::ExtractStarted),
                        }
                    },
                },
                Event::Failed(error) => self.clean_up(error),
                _ => self.ignore(),
            },
            Stage::Extract => match event {
                Event::EntriesWritten => {
                    self.stage = Stage::Seal;
                    Step {
                        action: Action::WriteMarker {
                            path: join(self.dataset_dir.as_str(), COMPLETE_MARKER),
                        },
                        progress: None,
                    }
                },
                Event::Failed(error) => self.clean_up(error),
                _ => self.ignore(),
            },
            Stage::Seal => match event {
                Event::Sealed => {
                    self.stage = Stage::Done;
                    Step {
                        action: Action::Finish(Ok(PrepareOutcome::Materialized)),
                        progress: Some(ProgressEvent::ExtractCompleted),
                    }
                },
                Event::Failed(error) => self.clean_up(error),
                _ => self.ignore(),
            },
            Stage::CleanUp(error) => match event {
                Event::CleanedUp => self.fail(error),
                Event::Failed(_) => self.fail(error),
                _ => self.ignore(),
            },
            Stage::AlreadyPresent => Step {
                action: Action::Finish(Ok(PrepareOutcome::AlreadyPresent)),
                progress: None,
            },
            Stage::Done => Step {
                action: Action::Finish(Ok(PrepareOutcome::Materialized)),
                progress: None,
            },
            Stage::Failed(error) => Step { action: Action::Finish(Err(error)), progress: None },
        }
    }
}

} // verus!
