//! What holds of every run of the pipeline, whatever the caller reports.

use vstd::prelude::*;
use crate::data_retrieve::checks::dataset_complete;
use crate::data_retrieve::download::length_agrees;
use crate::data_retrieve::outcome::{PipelineError, PrepareOutcome};
use crate::data_retrieve::unarchive::{lands_inside, law_unpacked_stays_inside, unpacked};
use crate::data_retrieve::pipeline::{
    cleaned,
    next,
    ActionView,
    EventView,
    PipelineView,
    Stage,
    StepView,
};

verus! {

/// The state that a run is in after the events `events`, reported in this
/// order to a machine in the state `start`.
pub open spec fn state_after(start: PipelineView, events: Seq<EventView>) -> PipelineView
    decreases events.len(),
{
    if events.len() == 0 {
        start
    } else {
        next(state_after(start, events.drop_last()), events.last()).0
    }
}

/// The state in which the event number `i` of `events` finds the machine.
pub open spec fn state_before(start: PipelineView, events: Seq<EventView>, i: int)
    -> PipelineView {
    state_after(start, events.take(i))
}

/// The answer of the machine to the event number `i` of `events`.
pub open spec fn answer_at(start: PipelineView, events: Seq<EventView>, i: int) -> StepView {
    next(state_before(start, events, i), events[i]).1
}

/// How far a run has come: the stages in the order in which a run passes
/// through them, the failed and the ended ones last.
pub open spec fn rank(stage: Stage) -> int {
    match stage {
        Stage::CheckPresence => 0,
        Stage::ResolveLocations => 1,
        Stage::Fetch => 2,
        Stage::Store => 3,
        Stage::Load => 4,
        Stage::Extract => 5,
        Stage::Seal => 6,
        Stage::CleanUp(_) => 7,
        Stage::AlreadyPresent => 8,
        Stage::Done => 8,
        Stage::Failed(_) => 8,
    }
}

/// Whether a run in this stage has failed with `error`.
pub open spec fn failed_with(stage: Stage, error: PipelineError) -> bool {
    stage == Stage::CleanUp(error) || stage == Stage::Failed(error)
}

/// The state after one more event is the successor of the state before it.
pub proof fn lemma_state_after_one_more(start: PipelineView, events: Seq<EventView>, i: int)
    requires
        0 <= i < events.len(),
    ensures
        state_before(start, events, i + 1) == next(state_before(start, events, i), events[i]).0,
{
    assert(events.take(i + 1).drop_last() =~= events.take(i));
    assert(events.take(i + 1).last() == events[i]);
}

/// A run never goes back to an earlier stage.
pub proof fn lemma_stage_never_goes_back(
    start: PipelineView,
    events: Seq<EventView>,
    earlier: int,
    later: int,
)
    requires
        0 <= earlier <= later <= events.len(),
    ensures
        rank(state_before(start, events, earlier).stage) <= rank(
            state_before(start, events, later).stage,
        ),
    decreases later - earlier,
{
    if earlier < later {
        lemma_stage_never_goes_back(start, events, earlier, later - 1);
        lemma_state_after_one_more(start, events, later - 1);
    }
}

/// Error propagation. Once a run has failed, it stays failed with the same
/// error: the error that a stage has raised reaches the end of the run
/// unchanged.
pub proof fn law_error_is_kept(
    start: PipelineView,
    events: Seq<EventView>,
    earlier: int,
    later: int,
    error: PipelineError,
)
    requires
        0 <= earlier <= later <= events.len(),
        failed_with(state_before(start, events, earlier).stage, error),
    ensures
        failed_with(state_before(start, events, later).stage, error),
    decreases later - earlier,
{
    if earlier < later {
        law_error_is_kept(start, events, earlier, later - 1, error);
        lemma_state_after_one_more(start, events, later - 1);
    }
}

/// After a failure nothing is fetched, stored or written any more: every
/// later answer is to wait for the removal or the end of the run with the
/// error that was raised.
pub proof fn law_nothing_follows_a_failure(
    start: PipelineView,
    events: Seq<EventView>,
    earlier: int,
    later: int,
    error: PipelineError,
)
    requires
        0 <= earlier <= later < events.len(),
        failed_with(state_before(start, events, earlier).stage, error),
    ensures
        answer_at(start, events, later).action == ActionView::Wait || answer_at(
            start,
            events,
            later,
        ).action == ActionView::Finish(Err(error)),
{
    law_error_is_kept(start, events, earlier, later, error);
}

/// Idempotency. When the first report says that the dataset is complete,
/// the run ends as `AlreadyPresent`, and every answer of the machine says
/// so: in particular no request is ever ordered.
pub proof fn law_present_dataset_is_not_fetched(
    start: PipelineView,
    events: Seq<EventView>,
    listing: Option<Seq<Seq<char>>>,
    i: int,
)
    requires
        start.stage == Stage::CheckPresence,
        0 <= i < events.len(),
        events[0] == EventView::Listed(listing),
        dataset_complete(listing),
    ensures
        answer_at(start, events, i).action == ActionView::Finish(
            Ok(PrepareOutcome::AlreadyPresent),
        ),
        state_after(start, events).stage == Stage::AlreadyPresent,
{
    assert(events.take(0) =~= Seq::<EventView>::empty());
    lemma_state_after_one_more(start, events, 0);
    lemma_already_present_stays(start, events, 1, i);
    lemma_already_present_stays(start, events, 1, events.len() as int);
    assert(events.take(events.len() as int) =~= events);
}

/// A run that has ended as `AlreadyPresent` stays so.
proof fn lemma_already_present_stays(
    start: PipelineView,
    events: Seq<EventView>,
    earlier: int,
    later: int,
)
    requires
        0 <= earlier <= events.len(),
        0 <= later <= events.len(),
        state_before(start, events, earlier).stage == Stage::AlreadyPresent,
    ensures
        earlier <= later ==> state_before(start, events, later).stage == Stage::AlreadyPresent,
    decreases later,
{
    if earlier < later {
        lemma_already_present_stays(start, events, earlier, later - 1);
        lemma_state_after_one_more(start, events, later - 1);
    }
}

/// Whether an event reports a dataset directory that lacks the dataset.
pub open spec fn reports_absence(event: EventView) -> bool {
    match event {
        EventView::Listed(listing) => !dataset_complete(listing),
        _ => false,
    }
}

/// Whether an event reports a finished transfer whose byte count agrees
/// with `expected`.
pub open spec fn reports_verified_store(event: EventView, expected: Option<u64>) -> bool {
    match event {
        EventView::Stored { written } => length_agrees(expected, written),
        _ => false,
    }
}

/// Whether, among the first `upto` events, one reports a dataset directory
/// that lacks the dataset.
pub open spec fn absence_reported(events: Seq<EventView>, upto: int) -> bool {
    exists|k: int| 0 <= k < upto && reports_absence(#[trigger] events[k])
}

/// Whether, among the first `upto` events, one reports that the
/// directories exist.
pub open spec fn directories_reported(events: Seq<EventView>, upto: int) -> bool {
    exists|k: int| 0 <= k < upto && #[trigger] events[k] == EventView::DirectoriesReady
}

/// Whether, among the first `upto` events, one reports a finished transfer
/// whose byte count agrees with `expected`.
pub open spec fn verified_store_reported(
    events: Seq<EventView>,
    upto: int,
    expected: Option<u64>,
) -> bool {
    exists|k: int| 0 <= k < upto && reports_verified_store(#[trigger] events[k], expected)
}

/// Whether, among the first `upto` events, one reports that the entries
/// are written.
pub open spec fn entries_reported(events: Seq<EventView>, upto: int) -> bool {
    exists|k: int| 0 <= k < upto && #[trigger] events[k] == EventView::EntriesWritten
}

/// What the stage of a run tells about the reports that led to it.
pub open spec fn history_matches(state: PipelineView, events: Seq<EventView>, upto: int) -> bool {
    let reached = rank(state.stage);
    &&& 1 <= reached <= 6 ==> absence_reported(events, upto)
    &&& 2 <= reached <= 6 ==> directories_reported(events, upto)
    &&& 4 <= reached <= 6 ==> verified_store_reported(events, upto, state.expected_length)
    &&& reached == 6 ==> entries_reported(events, upto)
}

/// The stage of a run is never ahead of the reports: each stage is reached
/// only through the reports that the stages before it await.
pub proof fn lemma_history(start: PipelineView, events: Seq<EventView>, upto: int)
    requires
        start.stage == Stage::CheckPresence,
        0 <= upto <= events.len(),
    ensures
        history_matches(state_before(start, events, upto), events, upto),
    decreases upto,
{
    if upto == 0 {
        assert(events.take(0) =~= Seq::<EventView>::empty());
    } else {
        lemma_history(start, events, upto - 1);
        lemma_state_after_one_more(start, events, upto - 1);
        let before = state_before(start, events, upto - 1);
        let after = state_before(start, events, upto);
        let event = events[upto - 1];
        let reached = rank(after.stage);
        if 1 <= reached <= 6 {
            if rank(before.stage) == 0 {
                assert(reports_absence(event));
            } else {
                let k = choose|k: int| 0 <= k < upto - 1 && reports_absence(#[trigger] events[k]);
                assert(0 <= k < upto);
            }
            assert(absence_reported(events, upto));
        }
        if 2 <= reached <= 6 {
            if rank(before.stage) == 1 {
                assert(event == EventView::DirectoriesReady);
            } else {
                let k = choose|k: int|
                    0 <= k < upto - 1 && #[trigger] events[k] == EventView::DirectoriesReady;
                assert(0 <= k < upto);
            }
            assert(directories_reported(events, upto));
        }
        if 4 <= reached <= 6 {
            if rank(before.stage) == 3 {
                assert(reports_verified_store(event, before.expected_length));
            } else {
                let k = choose|k: int|
                    0 <= k < upto - 1 && reports_verified_store(
                        #[trigger] events[k],
                        before.expected_length,
                    );
                assert(0 <= k < upto);
            }
            assert(verified_store_reported(events, upto, after.expected_length));
        }
        if reached == 6 {
            if rank(before.stage) == 5 {
                assert(event == EventView::EntriesWritten);
            } else {
                let k = choose|k: int|
                    0 <= k < upto - 1 && #[trigger] events[k] == EventView::EntriesWritten;
                assert(0 <= k < upto);
            }
            assert(entries_reported(events, upto));
        }
    }
}

/// The presence check comes first. A request is ordered only after a
/// report that the dataset directory lacks the dataset.
pub proof fn law_fetch_follows_presence_check(
    start: PipelineView,
    events: Seq<EventView>,
    i: int,
)
    requires
        start.stage == Stage::CheckPresence,
        0 <= i < events.len(),
        answer_at(start, events, i).action is Fetch,
    ensures
        absence_reported(events, i),
{
    lemma_history(start, events, i);
}

/// No write before the directory exists. The archive file is ordered
/// written only after a report that the directories exist.
pub proof fn law_store_follows_directories(start: PipelineView, events: Seq<EventView>, i: int)
    requires
        start.stage == Stage::CheckPresence,
        0 <= i < events.len(),
        answer_at(start, events, i).action is Store,
    ensures
        directories_reported(events, i),
{
    lemma_history(start, events, i);
}

/// No extraction before a verified write. The entries of the archive are
/// ordered written only after a report of a finished transfer whose byte
/// count agrees with the announced length.
pub proof fn law_extract_follows_verified_store(
    start: PipelineView,
    events: Seq<EventView>,
    i: int,
)
    requires
        start.stage == Stage::CheckPresence,
        0 <= i < events.len(),
        answer_at(start, events, i).action is WriteEntries,
    ensures
        verified_store_reported(events, i, state_before(start, events, i).expected_length),
{
    lemma_history(start, events, i);
}

/// The marker comes last. The completion marker is ordered written only
/// after a report that the entries are written, and only after such a
/// report does a run end as `Materialized`.
pub proof fn law_marker_follows_entries(start: PipelineView, events: Seq<EventView>, i: int)
    requires
        start.stage == Stage::CheckPresence,
        0 <= i < events.len(),
        answer_at(start, events, i).action is WriteMarker || answer_at(start, events, i).action
            == ActionView::Finish(Ok(PrepareOutcome::Materialized)),
    ensures
        entries_reported(events, i + 1),
{
    lemma_history(start, events, i);
    let before = state_before(start, events, i);
    if answer_at(start, events, i).action is WriteMarker {
        assert(events[i] == EventView::EntriesWritten);
    } else if before.stage == Stage::Seal {
        let k = choose|k: int| 0 <= k < i && #[trigger] events[k] == EventView::EntriesWritten;
        assert(0 <= k < i + 1);
    } else {
        assert(before.stage == Stage::Done);
        lemma_done_was_sealed(start, events, i);
    }
}

/// A run that has ended as done got a report that the entries are written.
proof fn lemma_done_was_sealed(start: PipelineView, events: Seq<EventView>, upto: int)
    requires
        start.stage == Stage::CheckPresence,
        0 <= upto <= events.len(),
        state_before(start, events, upto).stage == Stage::Done,
    ensures
        entries_reported(events, upto),
    decreases upto,
{
    if upto == 0 {
        assert(events.take(0) =~= Seq::<EventView>::empty());
    } else {
        lemma_state_after_one_more(start, events, upto - 1);
        let before = state_before(start, events, upto - 1);
        if before.stage == Stage::Done {
            lemma_done_was_sealed(start, events, upto - 1);
            let k = choose|k: int|
                0 <= k < upto - 1 && #[trigger] events[k] == EventView::EntriesWritten;
            assert(0 <= k < upto);
        } else {
            assert(before.stage == Stage::Seal);
            lemma_history(start, events, upto - 1);
            let k = choose|k: int|
                0 <= k < upto - 1 && #[trigger] events[k] == EventView::EntriesWritten;
            assert(0 <= k < upto);
        }
    }
}

/// Partial-write cleanup. When a transfer ends with another byte count
/// than the announced one, the machine orders the archive file removed and
/// keeps `IntegrityError`; the run ends with that error, and at no point of
/// the run are the entries or the completion marker ordered written, so
/// that the dataset directory is left as not present.
pub proof fn law_short_transfer_is_cleaned_up(
    start: PipelineView,
    events: Seq<EventView>,
    i: int,
    announced: u64,
    written: u64,
    j: int,
)
    requires
        0 <= i < events.len(),
        0 <= j < events.len(),
        state_before(start, events, i).stage == Stage::Store,
        state_before(start, events, i).expected_length == Some(announced),
        events[i] == (EventView::Stored { written }),
        written != announced,
    ensures
        answer_at(start, events, i) == cleaned(
            state_before(start, events, i),
            PipelineError::IntegrityError,
        ).1,
        answer_at(start, events, i).action matches ActionView::CleanUp { archive, .. }
            && archive == state_before(start, events, i).archive_path,
        failed_with(state_after(start, events).stage, PipelineError::IntegrityError),
        !(answer_at(start, events, j).action is WriteEntries),
        !(answer_at(start, events, j).action is WriteMarker),
        j > i ==> answer_at(start, events, j).action == ActionView::Wait || answer_at(
            start,
            events,
            j,
        ).action == ActionView::Finish(Err(PipelineError::IntegrityError)),
{
    lemma_state_after_one_more(start, events, i);
    law_error_is_kept(start, events, i + 1, events.len() as int, PipelineError::IntegrityError);
    assert(events.take(events.len() as int) =~= events);
    if j <= i {
        lemma_stage_never_goes_back(start, events, j, i);
    } else {
        law_nothing_follows_a_failure(start, events, i + 1, j, PipelineError::IntegrityError);
    }
}

/// A failure before the extraction leaves the dataset directory alone. When
/// a run fails while it checks, resolves, fetches, stores or loads, at no
/// point of the run are the entries or the completion marker ordered
/// written.
pub proof fn law_early_failure_writes_nothing(
    start: PipelineView,
    events: Seq<EventView>,
    i: int,
    error: PipelineError,
    j: int,
)
    requires
        0 <= i < events.len(),
        0 <= j < events.len(),
        rank(state_before(start, events, i).stage) <= 4,
        failed_with(state_before(start, events, i + 1).stage, error),
    ensures
        !(answer_at(start, events, j).action is WriteEntries),
        !(answer_at(start, events, j).action is WriteMarker),
        failed_with(state_after(start, events).stage, error),
{
    lemma_state_after_one_more(start, events, i);
    law_error_is_kept(start, events, i + 1, events.len() as int, error);
    assert(events.take(events.len() as int) =~= events);
    if j < i {
        lemma_state_after_one_more(start, events, j);
        lemma_stage_never_goes_back(start, events, j + 1, i);
    } else if j > i {
        law_nothing_follows_a_failure(start, events, i + 1, j, error);
    }
}

/// An archive that is not accepted is never unpacked. When the stored
/// archive is corrupt, or the path of one of its entries leads out of the
/// target directory, the machine orders the archive file removed and keeps
/// the error; no entry of the archive is ordered written, the safe ones
/// included.
pub proof fn law_rejected_archive_is_never_unpacked(
    start: PipelineView,
    events: Seq<EventView>,
    i: int,
    bytes: Seq<u8>,
    j: int,
)
    requires
        0 <= i < events.len(),
        0 <= j < events.len(),
        state_before(start, events, i).stage == Stage::Load,
        events[i] == EventView::Loaded(bytes),
        unpacked(bytes) is Err,
    ensures
        answer_at(start, events, i) == cleaned(
            state_before(start, events, i),
            unpacked(bytes)->Err_0,
        ).1,
        !(answer_at(start, events, j).action is WriteEntries),
        !(answer_at(start, events, j).action is WriteMarker),
        failed_with(state_after(start, events).stage, unpacked(bytes)->Err_0),
{
    lemma_state_after_one_more(start, events, i);
    law_early_failure_writes_nothing(start, events, i, unpacked(bytes)->Err_0, j);
}

/// Only what lands inside is written. Whatever the machine orders written
/// below the target directory is an entry whose place is reached from
/// there by ordinary names.
pub proof fn law_written_entries_land_inside(state: PipelineView, event: EventView)
    ensures
        next(state, event).1.action matches ActionView::WriteEntries { entries, .. }
            ==> forall|k: int| 0 <= k < entries.len() ==> lands_inside(#[trigger] entries[k]),
{
    if let EventView::Loaded(bytes) = event {
        law_unpacked_stays_inside(bytes);
    }
}

/// One request. In one run the machine orders at most one request.
pub proof fn law_one_request(start: PipelineView, events: Seq<EventView>, i: int, j: int)
    requires
        0 <= i < j < events.len(),
        answer_at(start, events, i).action is Fetch,
    ensures
        !(answer_at(start, events, j).action is Fetch),
{
    lemma_state_after_one_more(start, events, i);
    lemma_stage_never_goes_back(start, events, i + 1, j);
}

} // verus!
