use deepmath::data_retrieve::outcome::{PipelineError, PrepareOutcome};

#[test]
fn error_kinds_are_distinct() {
    let kinds = [
        PipelineError::NetworkError,
        PipelineError::ProtocolError,
        PipelineError::TimeoutError,
        PipelineError::IOError,
        PipelineError::IntegrityError,
        PipelineError::CorruptArchiveError,
        PipelineError::PathTraversalError,
    ];
    for (i, a) in kinds.iter().enumerate() {
        for (j, b) in kinds.iter().enumerate() {
            assert_eq!(a == b, i == j);
        }
    }
}

#[test]
fn outcomes_are_distinct() {
    assert_ne!(PrepareOutcome::AlreadyPresent, PrepareOutcome::Materialized);
}
