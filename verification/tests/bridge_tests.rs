use txkv::bridge::commit_outcome;
use txkv::bridge::count_to_has;
use txkv::bridge::rollback_completed_early;
use txkv::bridge::rollback_outcome;
use txkv::bridge::CompletionSignal;
use txkv::bridge::OutcomeCell;
use txkv::bridge::WriteState;
use txkv::kv::StoreError;

#[test]
fn outcome_cell_resolves_once() {
    let mut cell = OutcomeCell::new();
    assert_eq!(WriteState::Open, cell.state());
    assert!(cell.resolve(WriteState::Committed));
    assert_eq!(WriteState::Committed, cell.state());
    assert!(!cell.resolve(WriteState::Aborted));
    assert_eq!(WriteState::Committed, cell.state());
    assert!(!cell.resolve(WriteState::Errored));
    assert_eq!(WriteState::Committed, cell.state());
}

#[test]
fn completion_signal_single_use() {
    let mut signal = CompletionSignal::new();
    assert!(signal.fulfill());
    assert!(!signal.fulfill());
    assert!(!signal.fulfill());
}

#[test]
fn commit_succeeds_only_on_clean_commit() {
    assert!(commit_outcome(WriteState::Committed, None).is_ok());

    let r = commit_outcome(WriteState::Aborted, None);
    let StoreError::Str(m) = r.unwrap_err();
    assert_eq!("Transaction aborted", m.as_str());

    let r = commit_outcome(WriteState::Errored, None);
    let StoreError::Str(m) = r.unwrap_err();
    assert_eq!("Transaction aborted", m.as_str());
}

#[test]
fn commit_surfaces_backend_error() {
    let r = commit_outcome(WriteState::Committed, Some("engine failure".to_string()));
    let StoreError::Str(m) = r.unwrap_err();
    assert_eq!("engine failure", m.as_str());

    let r = commit_outcome(WriteState::Errored, Some("engine failure".to_string()));
    let StoreError::Str(m) = r.unwrap_err();
    assert_eq!("engine failure", m.as_str());
}

#[test]
fn rollback_early_exit_on_autonomous_outcome() {
    assert!(rollback_completed_early(WriteState::Committed));
    assert!(rollback_completed_early(WriteState::Aborted));
    assert!(!rollback_completed_early(WriteState::Open));
    assert!(!rollback_completed_early(WriteState::Errored));
}

#[test]
fn rollback_succeeds_only_on_abort() {
    assert!(rollback_outcome(WriteState::Aborted, None).is_ok());

    let r = rollback_outcome(WriteState::Committed, None);
    let StoreError::Str(m) = r.unwrap_err();
    assert_eq!("Transaction abort failed", m.as_str());

    let r = rollback_outcome(WriteState::Errored, Some("torn down".to_string()));
    let StoreError::Str(m) = r.unwrap_err();
    assert_eq!("torn down", m.as_str());
}

#[test]
fn count_reply_reads_as_presence() {
    assert!(!count_to_has(0));
    assert!(count_to_has(1));
    assert!(count_to_has(2));
    assert!(count_to_has(u64::MAX));
}

#[test]
fn store_error_wraps_diagnostic_string() {
    let e = StoreError::from("oneshot cancelled".to_string());
    assert_eq!("oneshot cancelled", e.message().as_str());
}
