use record_store::migrations::{apply_pending, run_migrations, MigrationError, Progress};

fn versions(list: &[&str]) -> Vec<String> {
    list.iter().map(|version| version.to_string()).collect()
}

/// Drives a run in which the step with the version `failing` fails, if it is
/// reached, and every other step succeeds. Answers the versions that were
/// applied, in order, and how the run ended.
fn drive(
    steps: &Vec<String>,
    applied: &Vec<String>,
    failing: Option<&str>,
) -> (Vec<String>, Result<usize, MigrationError>) {
    let mut done = Vec::new();
    let mut progress = apply_pending(steps, applied);
    loop {
        match progress {
            Progress::Finished(outcome) => return (done, outcome),
            Progress::Run(run) => {
                assert_eq!(run.applied_count(), done.len());
                let version = run.version().clone();
                let succeeded = failing != Some(version.as_str());
                if succeeded {
                    done.push(version);
                }
                progress = run.on_result(succeeded);
            }
        }
    }
}

#[test]
fn the_first_run_applies_every_step_in_embedded_order() {
    let steps = versions(&["00000000000000", "20210101000000", "20210301120000"]);
    let (done, outcome) = drive(&steps, &Vec::new(), None);
    assert_eq!(done, steps);
    assert_eq!(outcome, Ok(3));
}

#[test]
fn a_second_run_applies_nothing_and_does_not_fail() {
    let steps = versions(&["00000000000000", "20210101000000", "20210301120000"]);
    let mut record = Vec::new();
    let (done, first) = drive(&steps, &record, None);
    assert_eq!(first, Ok(3));
    record.extend(done);
    let (again, second) = drive(&steps, &record, None);
    assert_eq!(again, Vec::<String>::new());
    assert_eq!(second, Ok(0));
    assert!(matches!(apply_pending(&steps, &record), Progress::Finished(Ok(0))));
}

#[test]
fn recorded_steps_are_skipped() {
    let steps = versions(&["1", "2", "3", "4"]);
    let (done, outcome) = drive(&steps, &versions(&["3", "1"]), None);
    assert_eq!(done, versions(&["2", "4"]));
    assert_eq!(outcome, Ok(2));
}

#[test]
fn recorded_versions_that_are_not_embedded_are_ignored() {
    let steps = versions(&["1", "2"]);
    let (done, outcome) = drive(&steps, &versions(&["9", "2", "7"]), None);
    assert_eq!(done, versions(&["1"]));
    assert_eq!(outcome, Ok(1));
}

#[test]
fn a_failing_step_ends_the_run_and_no_later_step_is_tried() {
    let steps = versions(&["1", "2", "3", "4"]);
    let (done, outcome) = drive(&steps, &versions(&["1"]), Some("3"));
    assert_eq!(done, versions(&["2"]));
    assert_eq!(outcome, Err(MigrationError::StepFailed { applied: 1 }));
}

#[test]
fn a_failing_first_step_applies_nothing() {
    let steps = versions(&["1", "2"]);
    let (done, outcome) = drive(&steps, &Vec::new(), Some("1"));
    assert_eq!(done, Vec::<String>::new());
    assert_eq!(outcome, Err(MigrationError::StepFailed { applied: 0 }));
}

#[test]
fn a_run_after_a_failed_run_takes_up_where_it_stopped() {
    let steps = versions(&["1", "2", "3"]);
    let mut record = Vec::new();
    let (done, outcome) = drive(&steps, &record, Some("2"));
    assert_eq!(outcome, Err(MigrationError::StepFailed { applied: 1 }));
    record.extend(done);
    let (rest, outcome) = drive(&steps, &record, None);
    assert_eq!(rest, versions(&["2", "3"]));
    assert_eq!(outcome, Ok(2));
}

#[test]
fn a_version_that_is_embedded_twice_is_refused() {
    let steps = versions(&["1", "2", "1"]);
    let (done, outcome) = drive(&steps, &Vec::new(), None);
    assert_eq!(done, Vec::<String>::new());
    assert_eq!(outcome, Err(MigrationError::DuplicateVersion));
    let (_, even_if_recorded) = drive(&steps, &versions(&["1", "2"]), None);
    assert_eq!(even_if_recorded, Err(MigrationError::DuplicateVersion));
}

#[test]
fn no_embedded_steps_means_nothing_to_do() {
    let (done, outcome) = drive(&Vec::new(), &versions(&["1"]), None);
    assert_eq!(done, Vec::<String>::new());
    assert_eq!(outcome, Ok(0));
}

#[test]
fn a_pending_run_names_its_next_step_and_counts_the_applied_ones() {
    let steps = versions(&["a", "b"]);
    let run = match apply_pending(&steps, &Vec::new()) {
        Progress::Run(run) => run,
        Progress::Finished(outcome) => panic!("nothing pending: {:?}", outcome),
    };
    assert_eq!(run.version(), "a");
    assert_eq!(run.applied_count(), 0);
    let run = match run.on_result(true) {
        Progress::Run(run) => run,
        Progress::Finished(outcome) => panic!("ended early: {:?}", outcome),
    };
    assert_eq!(run.version(), "b");
    assert_eq!(run.applied_count(), 1);
    assert!(matches!(run.on_result(true), Progress::Finished(Ok(2))));
}

#[test]
fn the_in_memory_run_records_every_pending_step_behind_the_record() {
    let steps = versions(&["1", "2", "3", "4"]);
    let mut record = versions(&["3", "9"]);
    assert_eq!(run_migrations(&steps, &mut record), Ok(3));
    assert_eq!(record, versions(&["3", "9", "1", "2", "4"]));
}

#[test]
fn the_in_memory_run_is_a_no_op_the_second_time() {
    let steps = versions(&["00000000000000", "20210101000000"]);
    let mut record = Vec::new();
    assert_eq!(run_migrations(&steps, &mut record), Ok(2));
    assert_eq!(record, steps);
    let after_first = record.clone();
    assert_eq!(run_migrations(&steps, &mut record), Ok(0));
    assert_eq!(record, after_first);
}

#[test]
fn the_in_memory_run_refuses_a_repeated_version_and_records_nothing() {
    let steps = versions(&["1", "1"]);
    let mut record = versions(&["7"]);
    assert_eq!(run_migrations(&steps, &mut record), Err(MigrationError::DuplicateVersion));
    assert_eq!(record, versions(&["7"]));
}
