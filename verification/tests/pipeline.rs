use std::io::Write;

use deepmath::data_retrieve::checks::COMPLETE_MARKER;
use deepmath::data_retrieve::download::TAR_URL;
use deepmath::data_retrieve::outcome::{PipelineError, PrepareOutcome};
use deepmath::data_retrieve::pipeline::{
    Action, Event, Pipeline, PipelineConfig, ProgressEvent, Stage, Step, CONNECT_TIMEOUT_SECS,
    TRANSFER_TIMEOUT_SECS,
};
use deepmath::data_retrieve::unarchive::ExtractedEntry;

const URL: &str = "https://example.test/data/prim_fwd.tar.gz";

fn config() -> PipelineConfig {
    PipelineConfig {
        source_url: URL.to_string(),
        download_dir_override: None,
        dataset_dir_override: None,
        verbose: false,
        connect_timeout_secs: 10,
        transfer_timeout_secs: 600,
    }
}

fn begin() -> Pipeline {
    let (pipeline, first) = Pipeline::begin(config(), "/work", "/tmp");
    assert_eq!(
        first,
        Step { action: Action::ListDataset { dir: "/work/deepmath_data".to_string() }, progress: None }
    );
    pipeline
}

fn names(list: &[&str]) -> Vec<Vec<u8>> {
    list.iter().map(|name| name.as_bytes().to_vec()).collect()
}

fn tarball(entries: &[(&[u8], &[u8])]) -> Vec<u8> {
    let mut builder = tar::Builder::new(Vec::new());
    for (path, contents) in entries {
        let mut header = tar::Header::new_gnu();
        header.as_old_mut().name[..path.len()].copy_from_slice(path);
        header.set_size(contents.len() as u64);
        header.set_mode(0o644);
        header.set_entry_type(tar::EntryType::Regular);
        header.set_cksum();
        builder.append(&header, *contents).unwrap();
    }
    builder.into_inner().unwrap()
}

fn gzip_with_comment(bytes: &[u8], comment_len: usize) -> Vec<u8> {
    let comment = "c".repeat(comment_len);
    let mut encoder = flate2::GzBuilder::new()
        .comment(comment)
        .write(Vec::new(), flate2::Compression::default());
    encoder.write_all(bytes).unwrap();
    encoder.finish().unwrap()
}

/// A valid gzipped tarball of exactly `len` bytes that holds the one file
/// `prim_fwd/train.txt`.
fn archive_of(len: usize) -> Vec<u8> {
    let tar = tarball(&[(b"prim_fwd/train.txt", b"x**2\t2*x\n")]);
    let smallest = gzip_with_comment(&tar, 0).len();
    assert!(smallest <= len);
    let archive = gzip_with_comment(&tar, len - smallest);
    assert_eq!(archive.len(), len);
    archive
}

fn responded(status: u16, length: Option<&str>) -> Event {
    Event::Responded {
        url: URL.to_string(),
        status,
        content_length: length.map(|text| text.as_bytes().to_vec()),
    }
}

fn clean_up(extracted: Vec<Vec<u8>>) -> Action {
    Action::CleanUp {
        archive: "/tmp/deepmath_data/prim_fwd.tar.gz".to_string(),
        marker: format!("/work/deepmath_data/{}", COMPLETE_MARKER),
        target_dir: "/work/deepmath_data".to_string(),
        extracted,
    }
}

/// Drives a run up to the point where the archive is being stored.
fn up_to_store(length: Option<&str>) -> Pipeline {
    let mut pipeline = begin();
    let step = pipeline.step(Event::Listed(Some(vec!["prim_fwd.tar.gz".to_string()])));
    assert_eq!(
        step.action,
        Action::CreateDirectories {
            download_dir: "/tmp/deepmath_data".to_string(),
            dataset_dir: "/work/deepmath_data".to_string(),
        }
    );
    let step = pipeline.step(Event::DirectoriesReady);
    assert_eq!(
        step,
        Step {
            action: Action::Fetch {
                url: URL.to_string(),
                connect_timeout_secs: 10,
                transfer_timeout_secs: 600,
            },
            progress: Some(ProgressEvent::FetchStarted),
        }
    );
    let step = pipeline.step(responded(200, length));
    assert_eq!(
        step,
        Step {
            action: Action::Store { destination: "/tmp/deepmath_data/prim_fwd.tar.gz".to_string() },
            progress: None,
        }
    );
    assert_eq!(pipeline.stage(), Stage::Store);
    pipeline
}

#[test]
fn standard_settings_name_the_prebuilt_archive() {
    let standard = PipelineConfig::standard(true);
    assert_eq!(standard.source_url, TAR_URL);
    assert_eq!(standard.download_dir_override, None);
    assert_eq!(standard.dataset_dir_override, None);
    assert!(standard.verbose);
    assert_eq!(standard.connect_timeout_secs, CONNECT_TIMEOUT_SECS);
    assert_eq!(standard.transfer_timeout_secs, TRANSFER_TIMEOUT_SECS);
    assert!(standard.transfer_timeout_secs > 0);
    assert!(standard.connect_timeout_secs > 0);
}

#[test]
fn overrides_replace_the_resolved_directories() {
    let mut settings = config();
    settings.download_dir_override = Some("/elsewhere/down".to_string());
    settings.dataset_dir_override = Some("/elsewhere/data".to_string());
    let (mut pipeline, first) = Pipeline::begin(settings, "/work", "/tmp");
    assert_eq!(first.action, Action::ListDataset { dir: "/elsewhere/data".to_string() });
    let step = pipeline.step(Event::Listed(None));
    assert_eq!(
        step.action,
        Action::CreateDirectories {
            download_dir: "/elsewhere/down".to_string(),
            dataset_dir: "/elsewhere/data".to_string(),
        }
    );
}

#[test]
fn present_dataset_is_not_fetched() {
    let mut pipeline = begin();
    assert_eq!(pipeline.stage(), Stage::CheckPresence);
    assert_eq!(pipeline.outcome(), None);
    let listing = vec!["prim_fwd".to_string(), COMPLETE_MARKER.to_string()];
    let step = pipeline.step(Event::Listed(Some(listing)));
    assert_eq!(
        step,
        Step { action: Action::Finish(Ok(PrepareOutcome::AlreadyPresent)), progress: None }
    );
    assert_eq!(pipeline.stage(), Stage::AlreadyPresent);
    assert_eq!(pipeline.outcome(), Some(Ok(PrepareOutcome::AlreadyPresent)));
    for event in [
        Event::DirectoriesReady,
        responded(200, Some("1700")),
        Event::Stored { written: 1700 },
        Event::Loaded(archive_of(1700)),
        Event::EntriesWritten,
        Event::Sealed,
        Event::Failed(PipelineError::NetworkError),
    ] {
        let step = pipeline.step(event);
        assert_eq!(step.action, Action::Finish(Ok(PrepareOutcome::AlreadyPresent)));
        assert_eq!(pipeline.stage(), Stage::AlreadyPresent);
    }
}

#[test]
fn scenario_complete_transfer_is_materialized() {
    let archive = archive_of(1700);
    let mut pipeline = up_to_store(Some("1700"));
    let step = pipeline.step(Event::Stored { written: archive.len() as u64 });
    assert_eq!(
        step,
        Step {
            action: Action::LoadArchive { path: "/tmp/deepmath_data/prim_fwd.tar.gz".to_string() },
            progress: Some(ProgressEvent::FetchCompleted { bytes: 1700 }),
        }
    );
    let step = pipeline.step(Event::Loaded(archive));
    assert_eq!(
        step,
        Step {
            action: Action::WriteEntries {
                target_dir: "/work/deepmath_data".to_string(),
                entries: vec![ExtractedEntry {
                    components: names(&["prim_fwd", "train.txt"]),
                    is_dir: false,
                    contents: b"x**2\t2*x\n".to_vec(),
                }],
            },
            progress: Some(ProgressEvent::ExtractStarted),
        }
    );
    let step = pipeline.step(Event::EntriesWritten);
    assert_eq!(
        step,
        Step {
            action: Action::WriteMarker {
                path: format!("/work/deepmath_data/{}", COMPLETE_MARKER),
            },
            progress: None,
        }
    );
    assert_eq!(pipeline.outcome(), None);
    let step = pipeline.step(Event::Sealed);
    assert_eq!(
        step,
        Step {
            action: Action::Finish(Ok(PrepareOutcome::Materialized)),
            progress: Some(ProgressEvent::ExtractCompleted),
        }
    );
    assert_eq!(pipeline.stage(), Stage::Done);
    assert_eq!(pipeline.outcome(), Some(Ok(PrepareOutcome::Materialized)));
    let step = pipeline.step(Event::Sealed);
    assert_eq!(step, Step { action: Action::Finish(Ok(PrepareOutcome::Materialized)), progress: None });
}

#[test]
fn scenario_short_transfer_is_an_integrity_error() {
    let mut pipeline = up_to_store(Some("1700"));
    let step = pipeline.step(Event::Stored { written: 1200 });
    assert_eq!(step, Step { action: clean_up(vec![]), progress: None });
    assert_eq!(pipeline.stage(), Stage::CleanUp(PipelineError::IntegrityError));
    assert_eq!(pipeline.outcome(), None);
    // Nothing is unpacked, whatever is reported meanwhile.
    let step = pipeline.step(Event::Loaded(archive_of(1700)));
    assert_eq!(step.action, Action::Wait);
    let step = pipeline.step(Event::EntriesWritten);
    assert_eq!(step.action, Action::Wait);
    let step = pipeline.step(Event::CleanedUp);
    assert_eq!(
        step,
        Step { action: Action::Finish(Err(PipelineError::IntegrityError)), progress: None }
    );
    assert_eq!(pipeline.stage(), Stage::Failed(PipelineError::IntegrityError));
    assert_eq!(pipeline.outcome(), Some(Err(PipelineError::IntegrityError)));
}

#[test]
fn unknown_length_accepts_any_transfer() {
    let archive = archive_of(900);
    let mut pipeline = up_to_store(None);
    let step = pipeline.step(Event::Stored { written: 900 });
    assert_eq!(step.progress, Some(ProgressEvent::FetchCompleted { bytes: 900 }));
    assert_eq!(pipeline.stage(), Stage::Load);
    let step = pipeline.step(Event::Loaded(archive));
    assert!(matches!(step.action, Action::WriteEntries { .. }));
}

#[test]
fn unreadable_length_counts_as_unknown() {
    let mut pipeline = up_to_store(Some("many"));
    pipeline.step(Event::Stored { written: 5 });
    assert_eq!(pipeline.stage(), Stage::Load);
}

#[test]
fn refused_request_is_a_protocol_error() {
    let mut pipeline = begin();
    pipeline.step(Event::Listed(None));
    pipeline.step(Event::DirectoriesReady);
    let step = pipeline.step(responded(404, Some("1700")));
    assert_eq!(step.action, Action::Finish(Err(PipelineError::ProtocolError)));
    assert_eq!(pipeline.stage(), Stage::Failed(PipelineError::ProtocolError));
}

#[test]
fn answer_from_an_address_without_segments_is_a_protocol_error() {
    let mut pipeline = begin();
    pipeline.step(Event::Listed(None));
    pipeline.step(Event::DirectoriesReady);
    let step = pipeline.step(Event::Responded {
        url: "data:text/plain,Hello".to_string(),
        status: 200,
        content_length: None,
    });
    assert_eq!(step.action, Action::Finish(Err(PipelineError::ProtocolError)));
}

#[test]
fn failures_before_the_store_end_the_run_at_once() {
    for error in [PipelineError::IOError, PipelineError::NetworkError, PipelineError::TimeoutError] {
        let mut pipeline = begin();
        let step = pipeline.step(Event::Failed(error));
        assert_eq!(step.action, Action::Finish(Err(error)));

        let mut pipeline = begin();
        pipeline.step(Event::Listed(None));
        let step = pipeline.step(Event::Failed(error));
        assert_eq!(step.action, Action::Finish(Err(error)));

        let mut pipeline = begin();
        pipeline.step(Event::Listed(None));
        pipeline.step(Event::DirectoriesReady);
        let step = pipeline.step(Event::Failed(error));
        assert_eq!(step.action, Action::Finish(Err(error)));
        assert_eq!(pipeline.outcome(), Some(Err(error)));
    }
}

#[test]
fn failure_while_storing_removes_the_partial_file() {
    for error in [PipelineError::IOError, PipelineError::NetworkError, PipelineError::TimeoutError] {
        let mut pipeline = up_to_store(Some("1700"));
        let step = pipeline.step(Event::Failed(error));
        assert_eq!(step.action, clean_up(vec![]));
        let step = pipeline.step(Event::CleanedUp);
        assert_eq!(step.action, Action::Finish(Err(error)));
    }
}

#[test]
fn failed_cleanup_keeps_the_first_error() {
    let mut pipeline = up_to_store(Some("1700"));
    pipeline.step(Event::Stored { written: 1 });
    let step = pipeline.step(Event::Failed(PipelineError::IOError));
    assert_eq!(step.action, Action::Finish(Err(PipelineError::IntegrityError)));
    assert_eq!(pipeline.outcome(), Some(Err(PipelineError::IntegrityError)));
}

#[test]
fn corrupt_archive_is_cleaned_up() {
    let mut pipeline = up_to_store(None);
    pipeline.step(Event::Stored { written: 20 });
    let step = pipeline.step(Event::Loaded(b"this is not a gzip".to_vec()));
    assert_eq!(step, Step { action: clean_up(vec![]), progress: None });
    let step = pipeline.step(Event::CleanedUp);
    assert_eq!(step.action, Action::Finish(Err(PipelineError::CorruptArchiveError)));
}

#[test]
fn escaping_entry_is_rejected_before_anything_is_written() {
    let tar = tarball(&[(b"fine.txt", b"1"), (b"../../etc/evil", b"2")]);
    let archive = gzip_with_comment(&tar, 0);
    let mut pipeline = up_to_store(None);
    pipeline.step(Event::Stored { written: archive.len() as u64 });
    let step = pipeline.step(Event::Loaded(archive));
    assert_eq!(step, Step { action: clean_up(vec![]), progress: None });
    assert_eq!(pipeline.stage(), Stage::CleanUp(PipelineError::PathTraversalError));
    let step = pipeline.step(Event::CleanedUp);
    assert_eq!(step.action, Action::Finish(Err(PipelineError::PathTraversalError)));
}

#[test]
fn failure_while_extracting_removes_what_was_written() {
    let tar = tarball(&[(b"prim_fwd/train.txt", b"1"), (b"prim_fwd/test.txt", b"2"), (b"notes", b"3")]);
    let archive = gzip_with_comment(&tar, 0);
    let mut pipeline = up_to_store(None);
    pipeline.step(Event::Stored { written: archive.len() as u64 });
    let step = pipeline.step(Event::Loaded(archive));
    assert!(matches!(step.action, Action::WriteEntries { .. }));
    let step = pipeline.step(Event::Failed(PipelineError::IOError));
    assert_eq!(step.action, clean_up(names(&["prim_fwd", "prim_fwd", "notes"])));
    let step = pipeline.step(Event::CleanedUp);
    assert_eq!(step.action, Action::Finish(Err(PipelineError::IOError)));
}

#[test]
fn failure_while_sealing_removes_what_was_written() {
    let mut pipeline = up_to_store(None);
    pipeline.step(Event::Stored { written: 1700 });
    pipeline.step(Event::Loaded(archive_of(1700)));
    pipeline.step(Event::EntriesWritten);
    assert_eq!(pipeline.stage(), Stage::Seal);
    let step = pipeline.step(Event::Failed(PipelineError::IOError));
    assert_eq!(step.action, clean_up(names(&["prim_fwd"])));
    assert_eq!(pipeline.outcome(), None);
    pipeline.step(Event::CleanedUp);
    assert_eq!(pipeline.outcome(), Some(Err(PipelineError::IOError)));
}

#[test]
fn failure_while_loading_is_cleaned_up() {
    let mut pipeline = up_to_store(None);
    pipeline.step(Event::Stored { written: 1700 });
    let step = pipeline.step(Event::Failed(PipelineError::IOError));
    assert_eq!(step.action, clean_up(vec![]));
}

#[test]
fn unexpected_events_change_nothing() {
    let mut pipeline = begin();
    for event in [
        Event::DirectoriesReady,
        responded(200, None),
        Event::Stored { written: 3 },
        Event::Loaded(vec![]),
        Event::EntriesWritten,
        Event::Sealed,
        Event::CleanedUp,
    ] {
        let step = pipeline.step(event);
        assert_eq!(step, Step { action: Action::Wait, progress: None });
        assert_eq!(pipeline.stage(), Stage::CheckPresence);
    }
    pipeline.step(Event::Listed(Some(vec![])));
    assert_eq!(pipeline.stage(), Stage::ResolveLocations);
    let step = pipeline.step(Event::Listed(Some(vec![COMPLETE_MARKER.to_string()])));
    assert_eq!(step.action, Action::Wait);
    assert_eq!(pipeline.stage(), Stage::ResolveLocations);
    let step = pipeline.step(Event::Stored { written: 3 });
    assert_eq!(step.action, Action::Wait);
}

#[test]
fn extraction_never_starts_without_a_stored_archive() {
    let mut pipeline = begin();
    pipeline.step(Event::Listed(None));
    pipeline.step(Event::DirectoriesReady);
    let step = pipeline.step(Event::Loaded(archive_of(1700)));
    assert_eq!(step.action, Action::Wait);
    pipeline.step(responded(200, Some("1700")));
    let step = pipeline.step(Event::Loaded(archive_of(1700)));
    assert_eq!(step.action, Action::Wait);
    assert_eq!(pipeline.stage(), Stage::Store);
}

#[test]
fn request_is_ordered_once() {
    let mut pipeline = begin();
    pipeline.step(Event::Listed(None));
    let step = pipeline.step(Event::DirectoriesReady);
    assert!(matches!(step.action, Action::Fetch { .. }));
    let step = pipeline.step(Event::DirectoriesReady);
    assert_eq!(step.action, Action::Wait);
    pipeline.step(responded(200, None));
    let step = pipeline.step(Event::DirectoriesReady);
    assert_eq!(step.action, Action::Wait);
    assert_eq!(pipeline.stage(), Stage::Store);
}

#[test]
fn every_written_entry_lands_inside() {
    let tar = tarball(&[(b"/abs/file", b"1"), (b"a/./b/../c", b"2"), (b"./", b"")]);
    let archive = gzip_with_comment(&tar, 0);
    let mut pipeline = up_to_store(None);
    pipeline.step(Event::Stored { written: archive.len() as u64 });
    match pipeline.step(Event::Loaded(archive)).action {
        Action::WriteEntries { target_dir, entries } => {
            assert_eq!(target_dir, "/work/deepmath_data");
            assert_eq!(entries.len(), 2);
            assert_eq!(entries[0].components, names(&["abs", "file"]));
            assert_eq!(entries[1].components, names(&["a", "c"]));
        }
        other => panic!("{:?}", other),
    }
}
