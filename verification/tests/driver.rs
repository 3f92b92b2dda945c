use bbchain_test::account::{AccountData, AccountError, FundedAccount};
use bbchain_test::emitter::{
    EmissionJobHandle, EmissionWorker, JobState, StopReason, SubmitOutcome, WorkerVerdict,
};
use bbchain_test::instance::setup_instances;
use bbchain_test::modules::{
    order_modules, validate_order, ModulePublishPipeline, ModuleSpec, PublishError,
};
use bbchain_test::orchestrator::{
    log_level, waypoint_report, ClusterTestRunner, LedgerRecord, SetupError, WaypointReport,
};

fn s(x: &str) -> String {
    x.to_string()
}

fn module(path: &str, deps: &[&str]) -> ModuleSpec {
    ModuleSpec {
        source_path: s(path),
        dependency_paths: deps.iter().map(|d| s(d)).collect(),
    }
}

fn account_with_sequence(n: u64) -> AccountData {
    AccountData {
        address: vec![1u8; 16],
        signing_key: vec![2u8; 32],
        sequence_number: n,
    }
}

fn abc_modules() -> (Vec<String>, ModuleSpec, ModuleSpec, ModuleSpec) {
    let libs = vec![s("stdlib/modules")];
    let a = module("move/Proofs.move", &["stdlib/modules"]);
    let b = module("move/EarmarkedProofs.move", &["stdlib/modules", "move/Proofs.move"]);
    let c = module(
        "move/Issuer.move",
        &["stdlib/modules", "move/Proofs.move", "move/EarmarkedProofs.move"],
    );
    (libs, a, b, c)
}

#[test]
fn setup_instances_yields_single_local_node() {
    let fleet = setup_instances();
    assert_eq!(fleet.len(), 1);
    assert_eq!(fleet[0].name, "bbchain1");
    assert_eq!(fleet[0].host, "localhost");
    assert_eq!(fleet[0].port, 8080);
}

#[test]
fn ordered_batch_publishes_in_order_and_increments_sequence() {
    let (libs, a, b, c) = abc_modules();
    let mut pipeline = ModulePublishPipeline::new(libs, vec![a, b, c], 0);
    let mut account = account_with_sequence(10);
    for expected in 0..3usize {
        let released = pipeline.begin_compile().expect("dependencies are ordered");
        assert_eq!(released, expected);
        pipeline.published(&mut account);
        assert_eq!(account.sequence_number, 11 + expected as u64);
    }
    assert_eq!(account.sequence_number, 13);
}

#[test]
fn misordered_batch_fails_fast_without_publishing() {
    let (libs, a, b, c) = abc_modules();
    let mut pipeline = ModulePublishPipeline::new(libs, vec![b, a, c], 0);
    let err = pipeline.begin_compile().expect_err("B's dependency on A is unpublished");
    assert_eq!(
        err,
        PublishError::DependencyUnresolved { module_index: 0, dependency_index: 1 }
    );
    assert!(pipeline.halted);
}

#[test]
fn validate_order_accepts_dependency_respecting_batches() {
    let (libs, a, b, c) = abc_modules();
    assert!(validate_order(&libs, &vec![a, b, c]).is_ok());
}

#[test]
fn validate_order_rejects_misordered_batches() {
    let (libs, a, b, c) = abc_modules();
    let err = validate_order(&libs, &vec![b, a, c]).expect_err("B stands before A");
    assert_eq!(
        err,
        PublishError::DependencyUnresolved { module_index: 0, dependency_index: 1 }
    );
}

#[test]
fn validate_order_rejects_cycles_in_any_order() {
    let libs = vec![s("stdlib/modules")];
    let x = module("x.move", &["y.move"]);
    let y = module("y.move", &["x.move"]);
    assert!(validate_order(&libs, &vec![x.clone(), y.clone()]).is_err());
    assert!(validate_order(&libs, &vec![y, x]).is_err());
}

#[test]
fn validate_order_accepts_empty_batch() {
    let libs: Vec<String> = Vec::new();
    let mods: Vec<ModuleSpec> = Vec::new();
    assert!(validate_order(&libs, &mods).is_ok());
}

#[test]
fn order_modules_brings_misordered_batch_into_dependency_order() {
    let (libs, a, b, c) = abc_modules();
    let ordered = order_modules(&libs, vec![b, a, c]).expect("an order exists");
    let paths: Vec<&str> = ordered.iter().map(|m| m.source_path.as_str()).collect();
    assert_eq!(
        paths,
        vec!["move/Proofs.move", "move/EarmarkedProofs.move", "move/Issuer.move"]
    );
    assert!(validate_order(&libs, &ordered).is_ok());
}

#[test]
fn order_modules_rejects_cyclic_batches() {
    let libs = vec![s("stdlib/modules")];
    let x = module("x.move", &["y.move"]);
    let y = module("y.move", &["x.move"]);
    let z = module("z.move", &["stdlib/modules"]);
    let failure = order_modules(&libs, vec![x, y, z]).expect_err("x and y form a cycle");
    assert_eq!(failure.ordered.len(), 1);
    assert_eq!(failure.ordered[0].source_path, "z.move");
    let mut left: Vec<&str> = failure.remaining.iter().map(|m| m.source_path.as_str()).collect();
    left.sort();
    assert_eq!(left, vec!["x.move", "y.move"]);
}

#[test]
fn order_modules_reports_missing_paths() {
    let libs = vec![s("stdlib/modules")];
    let lone = module("move/Issuer.move", &["move/Missing.move"]);
    let failure = order_modules(&libs, vec![lone]).expect_err("the path is never published");
    assert_eq!(failure.ordered.len(), 0);
    assert_eq!(failure.remaining.len(), 1);
}

#[test]
fn unknown_dependency_is_reported_with_its_index() {
    let libs = vec![s("stdlib/modules")];
    let lone = module("move/Issuer.move", &["stdlib/modules", "move/Missing.move"]);
    let mut pipeline = ModulePublishPipeline::new(libs, vec![lone], 0);
    let err = pipeline.begin_compile().expect_err("the dependency was never published");
    assert_eq!(
        err,
        PublishError::DependencyUnresolved { module_index: 0, dependency_index: 1 }
    );
}

#[test]
fn compile_failure_halts_the_batch() {
    let (libs, a, b, c) = abc_modules();
    let mut pipeline = ModulePublishPipeline::new(libs, vec![a, b, c], 0);
    let released = pipeline.begin_compile().expect("A has only library dependencies");
    assert_eq!(released, 0);
    let err = pipeline.compile_failed();
    assert_eq!(err, PublishError::CompileFailed { module_index: 0 });
    assert!(pipeline.halted);
}

#[test]
fn publish_failure_leaves_sequence_number_and_bounds_retries() {
    let (libs, a, _, _) = abc_modules();
    let mut pipeline = ModulePublishPipeline::new(libs, vec![a], 1);
    let account = account_with_sequence(7);
    let released = pipeline.begin_compile().expect("A has only library dependencies");
    assert_eq!(released, 0);
    // one transient retry is allowed, then the batch halts
    assert!(pipeline.publish_failed(true));
    assert!(!pipeline.halted);
    assert!(!pipeline.publish_failed(true));
    assert!(pipeline.halted);
    assert_eq!(
        pipeline.publish_rejected_error(0),
        PublishError::PublishRejected { module_index: 0 }
    );
    // the failed publish never touched the account
    assert_eq!(account.sequence_number, 7);
}

#[test]
fn non_transient_publish_rejection_halts_at_once() {
    let (libs, a, _, _) = abc_modules();
    let mut pipeline = ModulePublishPipeline::new(libs, vec![a], 5);
    pipeline.begin_compile().expect("A has only library dependencies");
    assert!(!pipeline.publish_failed(false));
    assert!(pipeline.halted);
}

#[test]
fn load_or_create_fails_without_funded_account() {
    let r = AccountData::load_or_create(None);
    assert_eq!(r.expect_err("no funded account"), AccountError::NoFundedAccount);
}

#[test]
fn load_or_create_adopts_the_queried_account() {
    let found = FundedAccount {
        address: vec![9u8; 16],
        signing_key: vec![3u8; 32],
        sequence_number: 11,
    };
    let a = AccountData::load_or_create(Some(found)).expect("a funded account was found");
    assert_eq!(a.address, vec![9u8; 16]);
    assert_eq!(a.signing_key, vec![3u8; 32]);
    assert_eq!(a.sequence_number, 11);
}

#[test]
fn account_counter_moves_only_on_acceptance_or_resync() {
    let mut a = account_with_sequence(5);
    assert_eq!(a.next_sequence(), 5);
    a.record_accepted();
    assert_eq!(a.sequence_number, 6);
    a.resync(42);
    assert_eq!(a.sequence_number, 42);
}

#[test]
fn three_confirmed_submissions_use_five_six_seven() {
    let mut worker = EmissionWorker::new(account_with_sequence(5), 3);
    let mut used = Vec::new();
    for _ in 0..3 {
        used.push(worker.next_submission());
        let verdict = worker.on_outcome(SubmitOutcome::Confirmed);
        assert_eq!(verdict, WorkerVerdict::Accepted);
    }
    assert_eq!(used, vec![5, 6, 7]);
    assert_eq!(worker.account.sequence_number, 8);
}

#[test]
fn permanent_failure_does_not_advance_the_counter() {
    let mut worker = EmissionWorker::new(account_with_sequence(5), 0);
    assert_eq!(worker.next_submission(), 5);
    assert_eq!(worker.on_outcome(SubmitOutcome::Confirmed), WorkerVerdict::Accepted);
    assert_eq!(worker.next_submission(), 6);
    assert_eq!(worker.on_outcome(SubmitOutcome::Rejected), WorkerVerdict::PermanentFailure);
    // the failed transaction did not consume its number
    assert_eq!(worker.next_submission(), 6);
    assert_eq!(worker.account.sequence_number, 6);
}

#[test]
fn transient_failures_retry_same_number_up_to_the_bound() {
    let mut worker = EmissionWorker::new(account_with_sequence(9), 2);
    assert_eq!(worker.next_submission(), 9);
    assert_eq!(worker.on_outcome(SubmitOutcome::Timeout), WorkerVerdict::RetrySame);
    assert_eq!(worker.next_submission(), 9);
    assert_eq!(worker.on_outcome(SubmitOutcome::ConnectionError), WorkerVerdict::RetrySame);
    assert_eq!(worker.next_submission(), 9);
    assert_eq!(worker.on_outcome(SubmitOutcome::Timeout), WorkerVerdict::PermanentFailure);
    assert_eq!(worker.account.sequence_number, 9);
}

#[test]
fn mismatch_resyncs_exactly_once_with_the_ledger_value() {
    let mut worker = EmissionWorker::new(account_with_sequence(5), 3);
    assert_eq!(worker.next_submission(), 5);
    // the ledger knows sequence 42: the stale submission is rejected
    assert_eq!(worker.on_outcome(SubmitOutcome::SequenceMismatch), WorkerVerdict::NeedResync);
    let corrected = worker.apply_resync(42);
    assert_eq!(corrected, 42);
    assert_eq!(worker.next_submission(), 42);
    // a second mismatch after the resync is a permanent failure, not a resync
    assert_eq!(
        worker.on_outcome(SubmitOutcome::SequenceMismatch),
        WorkerVerdict::PermanentFailure
    );
    assert_eq!(worker.account.sequence_number, 42);
}

#[test]
fn resynced_then_confirmed_uses_the_corrected_number() {
    let mut worker = EmissionWorker::new(account_with_sequence(5), 3);
    assert_eq!(worker.on_outcome(SubmitOutcome::SequenceMismatch), WorkerVerdict::NeedResync);
    assert_eq!(worker.apply_resync(8), 8);
    assert_eq!(worker.on_outcome(SubmitOutcome::Confirmed), WorkerVerdict::Accepted);
    assert_eq!(worker.account.sequence_number, 9);
}

#[test]
fn accepted_sequence_numbers_stay_unique_across_resync() {
    let mut worker = EmissionWorker::new(account_with_sequence(5), 1);
    let mut used = Vec::new();
    // the first transaction confirms with the starting number
    used.push(worker.next_submission());
    assert_eq!(worker.on_outcome(SubmitOutcome::Confirmed), WorkerVerdict::Accepted);
    // the second is rejected as stale; the ledger is ahead, at 9
    assert_eq!(worker.next_submission(), 6);
    assert_eq!(worker.on_outcome(SubmitOutcome::SequenceMismatch), WorkerVerdict::NeedResync);
    used.push(worker.apply_resync(9));
    assert_eq!(worker.on_outcome(SubmitOutcome::Confirmed), WorkerVerdict::Accepted);
    // the third confirms with the corrected counter's successor
    used.push(worker.next_submission());
    assert_eq!(worker.on_outcome(SubmitOutcome::Confirmed), WorkerVerdict::Accepted);
    assert_eq!(used, vec![5, 9, 10]);
    for a in 0..used.len() {
        for b in a + 1..used.len() {
            assert_ne!(used[a], used[b]);
        }
    }
}

#[test]
fn job_counts_every_submission_exactly_once() {
    let mut job = EmissionJobHandle::new();
    assert_eq!(job.state, JobState::Idle);
    job.start();
    assert_eq!(job.state, JobState::Running);
    job.begin_submission();
    job.begin_submission();
    job.begin_submission();
    // stop with three submissions in flight: they still report their outcome
    job.request_stop(StopReason::Cancelled);
    assert_eq!(job.state, JobState::Stopping);
    job.submission_done(true);
    job.submission_done(false);
    job.submission_done(true);
    assert_eq!(job.in_flight, 0);
    job.finish();
    assert_eq!(job.state, JobState::Stopped);
    let report = job.report();
    assert_eq!(report.submitted, 3);
    assert_eq!(report.confirmed, 2);
    assert_eq!(report.failed, 1);
    assert_eq!(report.submitted, report.confirmed + report.failed);
}

#[test]
fn job_stops_on_elapsed_duration() {
    let mut job = EmissionJobHandle::new();
    job.start();
    job.begin_submission();
    job.submission_done(true);
    job.request_stop(StopReason::DurationElapsed);
    assert_eq!(job.stop_reason, Some(StopReason::DurationElapsed));
    job.finish();
    let report = job.report();
    assert_eq!(report.submitted, 1);
    assert_eq!(report.confirmed, 1);
    assert_eq!(report.failed, 0);
}

#[test]
fn setup_fails_without_reachable_instance() {
    let r = ClusterTestRunner::setup(Vec::new(), None, true);
    assert_eq!(r.err().expect("empty fleet"), SetupError::NoReachableInstance);
}

#[test]
fn setup_fails_without_funded_account() {
    let r = ClusterTestRunner::setup(setup_instances(), None, true);
    assert_eq!(r.err().expect("no funding"), SetupError::NoFundedAccount);
}

#[test]
fn setup_fails_without_trust_waypoint() {
    let funding = FundedAccount {
        address: vec![0u8; 16],
        signing_key: vec![0u8; 32],
        sequence_number: 0,
    };
    let r = ClusterTestRunner::setup(setup_instances(), Some(funding), false);
    assert_eq!(r.err().expect("no waypoint"), SetupError::TrustEstablishmentFailed);
}

#[test]
fn runner_drives_job_from_idle_to_report() {
    let funding = FundedAccount {
        address: vec![4u8; 16],
        signing_key: vec![5u8; 32],
        sequence_number: 3,
    };
    let mut runner =
        ClusterTestRunner::setup(setup_instances(), Some(funding), true).expect("setup succeeds");
    assert_eq!(runner.account.sequence_number, 3);
    runner.start_job();
    runner.job.begin_submission();
    runner.job.submission_done(true);
    runner.stop_job(StopReason::Cancelled);
    runner.job.finish();
    let report = runner.job_report();
    assert_eq!(report.submitted, 1);
    assert_eq!(report.confirmed, 1);
    assert_eq!(report.failed, 0);
}

#[test]
fn waypoint_report_reflects_the_query_results() {
    let record = LedgerRecord { epoch: 3, timestamp_usecs: 1_700_000_000_000_000 };
    assert_eq!(
        waypoint_report(false, Some(record), true),
        WaypointReport::ConnectionFailed
    );
    assert_eq!(waypoint_report(true, None, true), WaypointReport::NoEpochChangeRecord);
    assert_eq!(
        waypoint_report(true, Some(record), false),
        WaypointReport::DerivationFailed
    );
    assert_eq!(
        waypoint_report(true, Some(record), true),
        WaypointReport::Derived { epoch: 3, timestamp_usecs: 1_700_000_000_000_000 }
    );
}

#[test]
fn log_level_defaults_to_info() {
    assert_eq!(log_level(None), "info");
    assert_eq!(log_level(Some("debug".to_string())), "debug");
}
