use markflow::session::{SessionEvent, SessionPhase, SessionStep, SessionTask};

#[derive(Clone, Debug, Default, PartialEq)]
struct Disk {
    main: Option<String>,
    temp: Option<String>,
    backup: Option<String>,
}

/// Performs one step on a disk on which everything succeeds.
fn perform(disk: &mut Disk, step: &SessionStep) -> SessionEvent {
    match step {
        SessionStep::PrepareDirectory => SessionEvent::DirectoryReady(Ok(())),
        SessionStep::WriteTemp(d) => {
            disk.temp = Some(d.clone());
            SessionEvent::TempWritten(Ok(()))
        }
        SessionStep::ReadMain => SessionEvent::MainRead(disk.main.clone()),
        SessionStep::BackUpMain => {
            if disk.main.is_some() {
                disk.backup = disk.main.clone();
            }
            SessionEvent::BackedUp
        }
        SessionStep::ReplaceMain => match disk.temp.take() {
            Some(t) => {
                disk.main = Some(t);
                SessionEvent::MainReplaced(Ok(()))
            }
            None => SessionEvent::MainReplaced(Err("missing".to_string())),
        },
        SessionStep::ReadBackup => SessionEvent::BackupRead(disk.backup.clone()),
        SessionStep::Finish(_) => panic!("finished"),
    }
}

fn drive(mut task: SessionTask, mut step: SessionStep, disk: &mut Disk, limit: usize) -> Option<Result<String, String>> {
    for _ in 0..limit {
        if let SessionStep::Finish(r) = step {
            return Some(r);
        }
        let event = perform(disk, &step);
        step = task.resume(event);
    }
    match step {
        SessionStep::Finish(r) => Some(r),
        _ => None,
    }
}

fn save(disk: &mut Disk, data: &str) -> Result<String, String> {
    let (task, step) = SessionTask::save_session(data.to_string());
    drive(task, step, disk, 10).unwrap()
}

fn load(disk: &mut Disk) -> Result<String, String> {
    let (task, step) = SessionTask::load_session();
    drive(task, step, disk, 10).unwrap()
}

#[test]
fn save_then_load_gives_the_document_back() {
    let mut disk = Disk::default();
    assert_eq!(save(&mut disk, "{\"tabs\":[]}"), Ok(String::new()));
    assert_eq!(disk.main.as_deref(), Some("{\"tabs\":[]}"));
    assert_eq!(disk.temp, None);
    assert_eq!(load(&mut disk), Ok("{\"tabs\":[]}".to_string()));
}

#[test]
fn invalid_document_is_refused_before_any_file_operation() {
    for bad in ["", "[1,2]", "not json", "{\"a\":", "42"] {
        let (task, step) = SessionTask::save_session(bad.to_string());
        assert_eq!(
            step,
            SessionStep::Finish(Err("Refusing to save an invalid session document".to_string()))
        );
        assert_eq!(
            task.phase(),
            &SessionPhase::Finished(Err("Refusing to save an invalid session document".to_string()))
        );
    }
}

#[test]
fn save_backs_up_a_valid_previous_session_only() {
    let mut disk = Disk { main: Some("{\"v\":1}".to_string()), temp: None, backup: None };
    save(&mut disk, "{\"v\":2}").unwrap();
    assert_eq!(disk.backup.as_deref(), Some("{\"v\":1}"));
    let mut disk = Disk { main: Some("garbage".to_string()), temp: None, backup: Some("{\"v\":0}".to_string()) };
    save(&mut disk, "{\"v\":2}").unwrap();
    assert_eq!(disk.backup.as_deref(), Some("{\"v\":0}"));
    assert_eq!(disk.main.as_deref(), Some("{\"v\":2}"));
}

#[test]
fn load_falls_back_to_the_backup_and_restores_it() {
    let mut disk = Disk { main: Some("{\"trunc".to_string()), temp: None, backup: Some("{\"v\":1}".to_string()) };
    assert_eq!(load(&mut disk), Ok("{\"v\":1}".to_string()));
    assert_eq!(disk.main.as_deref(), Some("{\"v\":1}"));
    assert_eq!(load(&mut disk), Ok("{\"v\":1}".to_string()));
}

#[test]
fn load_of_nothing_is_empty() {
    let mut disk = Disk::default();
    assert_eq!(load(&mut disk), Ok(String::new()));
    let mut disk = Disk { main: Some("[]".to_string()), temp: None, backup: Some("x".to_string()) };
    assert_eq!(load(&mut disk), Ok(String::new()));
    assert_eq!(disk.main.as_deref(), Some("[]"));
}

#[test]
fn save_interrupted_at_any_step_loses_nothing() {
    let start = Disk { main: Some("{\"v\":1}".to_string()), temp: None, backup: None };
    for steps in 0..8 {
        let mut disk = start.clone();
        let (task, step) = SessionTask::save_session("{\"v\":2}".to_string());
        let _ = drive(task, step, &mut disk, steps);
        let seen = load(&mut disk.clone()).unwrap();
        assert!(seen == "{\"v\":1}" || seen == "{\"v\":2}", "after {} steps: {}", steps, seen);
    }
}

#[test]
fn file_errors_are_reported() {
    let (mut task, step) = SessionTask::save_session("{}".to_string());
    assert_eq!(step, SessionStep::PrepareDirectory);
    let step = task.resume(SessionEvent::DirectoryReady(Ok(())));
    assert_eq!(step, SessionStep::WriteTemp("{}".to_string()));
    let step = task.resume(SessionEvent::TempWritten(Err("disk full".to_string())));
    assert_eq!(step, SessionStep::Finish(Err("Failed to write temporary session file: disk full".to_string())));

    let (mut task, _) = SessionTask::save_session("{}".to_string());
    task.resume(SessionEvent::DirectoryReady(Ok(())));
    task.resume(SessionEvent::TempWritten(Ok(())));
    assert_eq!(task.resume(SessionEvent::MainRead(None)), SessionStep::ReplaceMain);
    assert_eq!(
        task.resume(SessionEvent::MainReplaced(Err("denied".to_string()))),
        SessionStep::Finish(Err("Failed to replace session file: denied".to_string()))
    );

    let (mut task, _) = SessionTask::load_session();
    assert_eq!(
        task.resume(SessionEvent::DirectoryReady(Err("Unable to determine app data directory: x".to_string()))),
        SessionStep::Finish(Err("Unable to determine app data directory: x".to_string()))
    );
}

#[test]
fn failed_restore_still_returns_the_backup() {
    let (mut task, _) = SessionTask::load_session();
    task.resume(SessionEvent::DirectoryReady(Ok(())));
    assert_eq!(task.resume(SessionEvent::MainRead(None)), SessionStep::ReadBackup);
    assert_eq!(
        task.resume(SessionEvent::BackupRead(Some("{\"a\":1}".to_string()))),
        SessionStep::WriteTemp("{\"a\":1}".to_string())
    );
    assert_eq!(
        task.resume(SessionEvent::TempWritten(Err("ro".to_string()))),
        SessionStep::Finish(Ok("{\"a\":1}".to_string()))
    );
}

#[test]
fn unexpected_event_repeats_the_pending_step() {
    let (mut task, _) = SessionTask::load_session();
    assert_eq!(task.resume(SessionEvent::BackedUp), SessionStep::PrepareDirectory);
}
