use newsletter::supervisor::{
    report_exit, ErrorReport, ExitKind, ExitReport, LogLevel, Supervisor,
};

fn failure(message: &str) -> ErrorReport {
    ErrorReport { message: message.to_string(), cause_chain: format!("{message}\n\n") }
}

#[test]
fn clean_exit_is_informational() {
    assert_eq!(
        report_exit("API", Ok(Ok(()))),
        ExitReport {
            task_name: "API".to_string(),
            kind: ExitKind::Exited,
            level: LogLevel::Info,
            message: "API has exited".to_string(),
            error: None,
        }
    );
}

#[test]
fn returned_error_is_reported_as_failed() {
    assert_eq!(
        report_exit("Background worker", Ok(Err(failure("no route")))),
        ExitReport {
            task_name: "Background worker".to_string(),
            kind: ExitKind::Failed,
            level: LogLevel::Error,
            message: "Background worker failed".to_string(),
            error: Some(failure("no route")),
        }
    );
}

#[test]
fn crash_is_told_apart_from_a_returned_error() {
    assert_eq!(
        report_exit("Idempotency worker", Err(failure("task 7 panicked"))),
        ExitReport {
            task_name: "Idempotency worker".to_string(),
            kind: ExitKind::Crashed,
            level: LogLevel::Error,
            message: "Idempotency worker task failed to complete".to_string(),
            error: Some(failure("task 7 panicked")),
        }
    );
}

#[test]
fn supervisor_names_the_failed_unit() {
    let mut supervisor = Supervisor::new();
    let a = supervisor.add_unit("A");
    let b = supervisor.add_unit("B");
    let c = supervisor.add_unit("C");
    assert_eq!((a, b, c), (0, 1, 2));
    assert_eq!(supervisor.unit_count(), 3);
    assert!(!supervisor.has_reported());
    let report = supervisor.on_exit(b, Ok(Err(failure("boom")))).unwrap();
    assert_eq!(report.task_name, "B");
    assert_eq!(report.kind, ExitKind::Failed);
    assert_eq!(report.level, LogLevel::Error);
    assert_eq!(report.message, "B failed");
    assert_eq!(report.error, Some(failure("boom")));
    assert!(supervisor.has_reported());
}

#[test]
fn supervisor_reports_only_the_first_unit_to_end() {
    let mut supervisor = Supervisor::new();
    let a = supervisor.add_unit("A");
    let b = supervisor.add_unit("B");
    assert!(supervisor.on_exit(a, Ok(Ok(()))).is_some());
    assert_eq!(supervisor.on_exit(b, Ok(Err(failure("late")))), None);
    assert_eq!(supervisor.on_exit(a, Err(failure("again"))), None);
    assert_eq!(supervisor.unit_count(), 2);
}

#[test]
fn supervisor_passes_over_a_unit_it_does_not_know() {
    let mut supervisor = Supervisor::new();
    assert_eq!(supervisor.on_exit(0, Ok(Ok(()))), None);
    let a = supervisor.add_unit("A");
    assert_eq!(supervisor.on_exit(a + 1, Ok(Ok(()))), None);
    assert!(!supervisor.has_reported());
    let report = supervisor.on_exit(a, Err(failure("cancelled"))).unwrap();
    assert_eq!(report.kind, ExitKind::Crashed);
    assert_eq!(report.message, "A task failed to complete");
}
