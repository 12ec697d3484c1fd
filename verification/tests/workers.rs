use parallel_import::config::ConfigurationError;
use parallel_import::coordinator::{exit_code, plan_workers, summarize, RunSummary};
use parallel_import::config::RunConfig;
use parallel_import::report::{decimal, describe_cause, report_line};
use parallel_import::worker::{
    copy_error, Worker, WorkerAction, WorkerError, WorkerEvent, WorkerResult, WorkerState,
};

fn started(partition_len: usize, chunk_size: usize) -> Worker {
    let mut worker = Worker::new(partition_len, chunk_size).unwrap();
    assert_eq!(worker.step(WorkerEvent::Started), WorkerAction::Connect);
    assert_eq!(worker.state, WorkerState::Connecting);
    worker
}

#[test]
fn new_worker_is_created() {
    let worker = Worker::new(250, 100).unwrap();
    assert_eq!(worker.state, WorkerState::Created);
    assert_eq!(worker.partition_len, 250);
    assert_eq!(worker.chunk_size, 100);
    assert!(!worker.finished());
    assert_eq!(worker.result(), None);
}

#[test]
fn worker_refuses_zero_chunk_size() {
    assert_eq!(Worker::new(250, 0), Err(ConfigurationError::ZeroChunkSize));
}

#[test]
fn worker_writes_all_batches_in_order() {
    let mut worker = started(250, 100);
    assert_eq!(
        worker.step(WorkerEvent::Connected),
        WorkerAction::Write { batch: 1, start: 0, end: 100 }
    );
    assert_eq!(worker.state, WorkerState::Loading { batch: 1 });
    assert_eq!(
        worker.step(WorkerEvent::WriteSucceeded),
        WorkerAction::Write { batch: 2, start: 100, end: 200 }
    );
    assert_eq!(
        worker.step(WorkerEvent::WriteSucceeded),
        WorkerAction::Write { batch: 3, start: 200, end: 250 }
    );
    assert!(!worker.finished());
    assert_eq!(worker.step(WorkerEvent::WriteSucceeded), WorkerAction::Stop);
    assert!(worker.finished());
    assert_eq!(worker.state, WorkerState::Completed { count: 250 });
    assert_eq!(worker.result(), Some(WorkerResult::Completed { count: 250 }));
}

#[test]
fn second_write_fails() {
    let mut worker = started(250, 100);
    assert_eq!(
        worker.step(WorkerEvent::Connected),
        WorkerAction::Write { batch: 1, start: 0, end: 100 }
    );
    assert_eq!(
        worker.step(WorkerEvent::WriteSucceeded),
        WorkerAction::Write { batch: 2, start: 100, end: 200 }
    );
    assert_eq!(worker.step(WorkerEvent::WriteFailed("sink is full".to_string())), WorkerAction::Stop);
    let expected = WorkerResult::Failed {
        at_batch: 2,
        written: 100,
        cause: WorkerError::WriteError("sink is full".to_string()),
    };
    assert_eq!(worker.result(), Some(expected.clone()));
    assert!(worker.finished());
    assert_eq!(worker.step(WorkerEvent::WriteSucceeded), WorkerAction::Rejected);
    assert_eq!(worker.step(WorkerEvent::Connected), WorkerAction::Rejected);
    assert_eq!(worker.step(WorkerEvent::Started), WorkerAction::Rejected);
    assert_eq!(worker.result(), Some(expected));
}

#[test]
fn nth_write_fails_after_n_minus_one_batches() {
    let mut n: usize = 1;
    while n <= 5 {
        let mut worker = started(47, 10);
        let mut action = worker.step(WorkerEvent::Connected);
        let mut writes: usize = 0;
        loop {
            match action {
                WorkerAction::Write { batch, start, end } => {
                    writes += 1;
                    assert_eq!(batch, writes);
                    assert_eq!(start, (batch - 1) * 10);
                    assert_eq!(end, if batch == 5 { 47 } else { batch * 10 });
                    action = if batch == n {
                        worker.step(WorkerEvent::WriteFailed("refused".to_string()))
                    } else {
                        worker.step(WorkerEvent::WriteSucceeded)
                    };
                }
                _ => {
                    assert_eq!(action, WorkerAction::Stop);
                    let rest = action;
                    assert_eq!(rest, WorkerAction::Stop);
                    break;
                }
            }
        }
        assert_eq!(writes, n);
        assert_eq!(
            worker.result(),
            Some(WorkerResult::Failed {
                at_batch: n,
                written: (n - 1) * 10,
                cause: WorkerError::WriteError("refused".to_string()),
            })
        );
        n += 1;
    }
}

#[test]
fn connection_failure_writes_nothing() {
    let mut worker = started(250, 100);
    assert_eq!(
        worker.step(WorkerEvent::ConnectionFailed("no route".to_string())),
        WorkerAction::Stop
    );
    assert_eq!(
        worker.result(),
        Some(WorkerResult::Failed {
            at_batch: 0,
            written: 0,
            cause: WorkerError::ConnectionError("no route".to_string()),
        })
    );
    assert_eq!(worker.step(WorkerEvent::Connected), WorkerAction::Rejected);
}

#[test]
fn namespace_failure_writes_nothing() {
    let mut worker = started(250, 100);
    assert_eq!(
        worker.step(WorkerEvent::NamespaceFailed("no such database".to_string())),
        WorkerAction::Stop
    );
    assert_eq!(
        worker.result(),
        Some(WorkerResult::Failed {
            at_batch: 0,
            written: 0,
            cause: WorkerError::NamespaceError("no such database".to_string()),
        })
    );
}

#[test]
fn empty_partition_completes_with_nothing_written() {
    let config = RunConfig::new(4, 100).unwrap();
    let workers = plan_workers(0, &config);
    assert_eq!(workers.len(), 4);
    let mut results: Vec<WorkerResult> = Vec::new();
    for mut worker in workers {
        assert_eq!(worker.partition_len, 0);
        assert_eq!(worker.step(WorkerEvent::Started), WorkerAction::Connect);
        assert_eq!(worker.step(WorkerEvent::Connected), WorkerAction::Stop);
        assert_eq!(worker.state, WorkerState::Completed { count: 0 });
        results.push(worker.result().unwrap());
    }
    assert_eq!(results, vec![WorkerResult::Completed { count: 0 }; 4]);
    assert_eq!(summarize(&results), RunSummary { completed: 4, failed: 0, records_written: 0 });
    assert_eq!(exit_code(&results), 0);
}

#[test]
fn events_out_of_turn_are_rejected() {
    let mut worker = Worker::new(10, 5).unwrap();
    assert_eq!(worker.step(WorkerEvent::Connected), WorkerAction::Rejected);
    assert_eq!(worker.step(WorkerEvent::WriteSucceeded), WorkerAction::Rejected);
    assert_eq!(worker.step(WorkerEvent::WriteFailed("early".to_string())), WorkerAction::Rejected);
    assert_eq!(worker.state, WorkerState::Created);
    assert_eq!(worker.step(WorkerEvent::Started), WorkerAction::Connect);
    assert_eq!(worker.step(WorkerEvent::Started), WorkerAction::Rejected);
    assert_eq!(worker.step(WorkerEvent::WriteSucceeded), WorkerAction::Rejected);
    assert_eq!(worker.state, WorkerState::Connecting);
    assert_eq!(
        worker.step(WorkerEvent::Connected),
        WorkerAction::Write { batch: 1, start: 0, end: 5 }
    );
    assert_eq!(worker.step(WorkerEvent::Connected), WorkerAction::Rejected);
    assert_eq!(worker.step(WorkerEvent::ConnectionFailed("late".to_string())), WorkerAction::Rejected);
    assert_eq!(worker.state, WorkerState::Loading { batch: 1 });
}

#[test]
fn failure_of_one_worker_leaves_the_others() {
    let config = RunConfig::new(3, 2).unwrap();
    let workers = plan_workers(10, &config);
    let mut results: Vec<WorkerResult> = Vec::new();
    let mut id: usize = 1;
    for mut worker in workers {
        let mut action = worker.step(WorkerEvent::Started);
        while !worker.finished() {
            action = match action {
                WorkerAction::Connect => worker.step(WorkerEvent::Connected),
                WorkerAction::Write { batch, .. } if id == 2 && batch == 2 => {
                    worker.step(WorkerEvent::WriteFailed("broken".to_string()))
                }
                _ => worker.step(WorkerEvent::WriteSucceeded),
            };
        }
        assert_eq!(action, WorkerAction::Stop);
        results.push(worker.result().unwrap());
        id += 1;
    }
    assert_eq!(
        results,
        vec![
            WorkerResult::Completed { count: 3 },
            WorkerResult::Failed {
                at_batch: 2,
                written: 2,
                cause: WorkerError::WriteError("broken".to_string()),
            },
            WorkerResult::Completed { count: 4 },
        ]
    );
    assert_eq!(summarize(&results), RunSummary { completed: 2, failed: 1, records_written: 9 });
    assert_eq!(exit_code(&results), 1);
}

#[test]
fn summary_of_no_workers() {
    let results: Vec<WorkerResult> = Vec::new();
    assert_eq!(summarize(&results), RunSummary { completed: 0, failed: 0, records_written: 0 });
    assert_eq!(exit_code(&results), 0);
}

#[test]
fn summary_adds_up_large_counts() {
    let results = vec![
        WorkerResult::Completed { count: usize::MAX },
        WorkerResult::Completed { count: usize::MAX },
    ];
    let summary = summarize(&results);
    assert_eq!(summary.records_written, 2 * (usize::MAX as u128));
    assert_eq!(summary.completed, 2);
}

#[test]
fn errors_are_copied_whole() {
    let causes = vec![
        WorkerError::ConnectionError("a".to_string()),
        WorkerError::NamespaceError("b".to_string()),
        WorkerError::WriteError("c".to_string()),
    ];
    for cause in causes.iter() {
        assert_eq!(&copy_error(cause), cause);
    }
}

#[test]
fn numbers_in_decimal() {
    assert_eq!(decimal(0), "0");
    assert_eq!(decimal(7), "7");
    assert_eq!(decimal(10), "10");
    assert_eq!(decimal(250), "250");
    assert_eq!(decimal(1009), "1009");
    assert_eq!(decimal(usize::MAX), usize::MAX.to_string());
}

#[test]
fn report_of_a_completed_worker() {
    assert_eq!(
        report_line(3, &WorkerResult::Completed { count: 250 }),
        "Worker 3: wrote 250 records"
    );
    assert_eq!(report_line(1, &WorkerResult::Completed { count: 0 }), "Worker 1: wrote 0 records");
}

#[test]
fn report_of_a_failed_worker() {
    let failed = WorkerResult::Failed {
        at_batch: 2,
        written: 100,
        cause: WorkerError::WriteError("sink is full".to_string()),
    };
    assert_eq!(
        report_line(12, &failed),
        "Worker 12: failed at batch 2 after 100 records: write error: sink is full"
    );
    let unconnected = WorkerResult::Failed {
        at_batch: 0,
        written: 0,
        cause: WorkerError::ConnectionError("no route".to_string()),
    };
    assert_eq!(
        report_line(1, &unconnected),
        "Worker 1: failed at batch 0 after 0 records: connection error: no route"
    );
}

#[test]
fn causes_in_words() {
    assert_eq!(
        describe_cause(&WorkerError::NamespaceError("no such database".to_string())),
        "namespace error: no such database"
    );
    assert_eq!(describe_cause(&WorkerError::ConnectionError(String::new())), "connection error: ");
    assert_eq!(describe_cause(&WorkerError::WriteError("x".to_string())), "write error: x");
}
