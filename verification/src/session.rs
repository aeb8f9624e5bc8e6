//! Session persistence. Saving writes the document to a temporary file, keeps
//! a backup of the previous document when that one is valid, and renames the
//! temporary file over the session file; loading takes the session file, or
//! else restores the backup. The file operations are the caller's: a task
//! here names the next one to perform and decides on what it returned.
use vstd::prelude::*;
use crate::json::{is_valid_json, json_object_text};
use crate::text::push_str;

verus! {

/// The file operation to perform next, or the end of the task.
#[derive(Debug, PartialEq, Eq)]
pub enum SessionStep {
    /// Find (creating it if needed) the application's data directory.
    PrepareDirectory,
    /// Write the text, synced to disk, to `session.json.tmp`.
    WriteTemp(String),
    /// Read `session.json` if it exists.
    ReadMain,
    /// Copy `session.json` to `session.json.bak`; the outcome does not matter.
    BackUpMain,
    /// Atomically replace `session.json` with `session.json.tmp`.
    ReplaceMain,
    /// Read `session.json.bak` if it exists.
    ReadBackup,
    /// The task is over: the loaded document (empty for a save), or the error.
    Finish(Result<String, String>),
}

/// What the last file operation gave.
#[derive(Debug, PartialEq, Eq)]
pub enum SessionEvent {
    DirectoryReady(Result<(), String>),
    TempWritten(Result<(), String>),
    /// The contents, or `None` where the file is missing or unreadable.
    MainRead(Option<String>),
    BackedUp,
    MainReplaced(Result<(), String>),
    /// The contents, or `None` where the file is missing or unreadable.
    BackupRead(Option<String>),
}

/// Where a task stands.
#[derive(Debug, PartialEq, Eq)]
pub enum SessionPhase {
    SaveAwaitingDirectory(String),
    SaveAwaitingTemp(String),
    SaveAwaitingMain,
    SaveAwaitingBackup,
    SaveAwaitingReplace,
    LoadAwaitingDirectory,
    LoadAwaitingMain,
    LoadAwaitingBackup,
    LoadAwaitingTemp(String),
    LoadAwaitingReplace(String),
    Finished(Result<String, String>),
}

/// A save or a load of the session document, step by step.
pub struct SessionTask {
    phase: SessionPhase,
}

pub enum StepModel {
    PrepareDirectory,
    WriteTemp(Seq<char>),
    ReadMain,
    BackUpMain,
    ReplaceMain,
    ReadBackup,
    Finish(Result<Seq<char>, Seq<char>>),
}

pub enum EventModel {
    DirectoryReady(Result<(), Seq<char>>),
    TempWritten(Result<(), Seq<char>>),
    MainRead(Option<Seq<char>>),
    BackedUp,
    MainReplaced(Result<(), Seq<char>>),
    BackupRead(Option<Seq<char>>),
}

pub enum PhaseModel {
    SaveAwaitingDirectory(Seq<char>),
    SaveAwaitingTemp(Seq<char>),
    SaveAwaitingMain,
    SaveAwaitingBackup,
    SaveAwaitingReplace,
    LoadAwaitingDirectory,
    LoadAwaitingMain,
    LoadAwaitingBackup,
    LoadAwaitingTemp(Seq<char>),
    LoadAwaitingReplace(Seq<char>),
    Finished(Result<Seq<char>, Seq<char>>),
}

pub open spec fn result_view(r: Result<String, String>) -> Result<Seq<char>, Seq<char>> {
    match r {
        Ok(s) => Ok(s@),
        Err(e) => Err(e@),
    }
}

pub open spec fn unit_result_view(r: Result<(), String>) -> Result<(), Seq<char>> {
    match r {
        Ok(_) => Ok(()),
        Err(e) => Err(e@),
    }
}

pub open spec fn option_view(o: Option<String>) -> Option<Seq<char>> {
    match o {
        Some(s) => Some(s@),
        None => None,
    }
}

impl View for SessionStep {
    type V = StepModel;

    open spec fn view(&self) -> StepModel {
        match self {
            SessionStep::PrepareDirectory => StepModel::PrepareDirectory,
            SessionStep::WriteTemp(d) => StepModel::WriteTemp(d@),
            SessionStep::ReadMain => StepModel::ReadMain,
            SessionStep::BackUpMain => StepModel::BackUpMain,
            SessionStep::ReplaceMain => StepModel::ReplaceMain,
            SessionStep::ReadBackup => StepModel::ReadBackup,
            SessionStep::Finish(r) => StepModel::Finish(result_view(*r)),
        }
    }
}

impl View for SessionEvent {
    type V = EventModel;

    open spec fn view(&self) -> EventModel {
        match self {
            SessionEvent::DirectoryReady(r) => EventModel::DirectoryReady(unit_result_view(*r)),
            SessionEvent::TempWritten(r) => EventModel::TempWritten(unit_result_view(*r)),
            SessionEvent::MainRead(o) => EventModel::MainRead(option_view(*o)),
            SessionEvent::BackedUp => EventModel::BackedUp,
            SessionEvent::MainReplaced(r) => EventModel::MainReplaced(unit_result_view(*r)),
            SessionEvent::BackupRead(o) => EventModel::BackupRead(option_view(*o)),
        }
    }
}

impl View for SessionPhase {
    type V = PhaseModel;

    open spec fn view(&self) -> PhaseModel {
        match self {
            SessionPhase::SaveAwaitingDirectory(d) => PhaseModel::SaveAwaitingDirectory(d@),
            SessionPhase::SaveAwaitingTemp(d) => PhaseModel::SaveAwaitingTemp(d@),
            SessionPhase::SaveAwaitingMain => PhaseModel::SaveAwaitingMain,
            SessionPhase::SaveAwaitingBackup => PhaseModel::SaveAwaitingBackup,
            SessionPhase::SaveAwaitingReplace => PhaseModel::SaveAwaitingReplace,
            SessionPhase::LoadAwaitingDirectory => PhaseModel::LoadAwaitingDirectory,
            SessionPhase::LoadAwaitingMain => PhaseModel::LoadAwaitingMain,
            SessionPhase::LoadAwaitingBackup => PhaseModel::LoadAwaitingBackup,
            SessionPhase::LoadAwaitingTemp(d) => PhaseModel::LoadAwaitingTemp(d@),
            SessionPhase::LoadAwaitingReplace(d) => PhaseModel::LoadAwaitingReplace(d@),
            SessionPhase::Finished(r) => PhaseModel::Finished(result_view(*r)),
        }
    }
}

impl View for SessionTask {
    type V = PhaseModel;

    closed spec fn view(&self) -> PhaseModel {
        self.phase@
    }
}

pub open spec fn refusal_message() -> Seq<char> {
    "Refusing to save an invalid session document"@
}

/// A document text is kept only when `serde_json` reads it as a JSON object.
pub open spec fn valid_document(d: Option<Seq<char>>) -> bool {
    d matches Some(text) && json_object_text(text)
}

/// Where a save of `data` starts: refused at once unless `data` is a JSON object.
pub open spec fn save_start(data: Seq<char>) -> PhaseModel {
    if json_object_text(data) {
        PhaseModel::SaveAwaitingDirectory(data)
    } else {
        PhaseModel::Finished(Err(refusal_message()))
    }
}

/// The file operation that a phase waits for.
pub open spec fn pending(p: PhaseModel) -> StepModel {
    match p {
        PhaseModel::SaveAwaitingDirectory(_) => StepModel::PrepareDirectory,
        PhaseModel::SaveAwaitingTemp(d) => StepModel::WriteTemp(d),
        PhaseModel::SaveAwaitingMain => StepModel::ReadMain,
        PhaseModel::SaveAwaitingBackup => StepModel::BackUpMain,
        PhaseModel::SaveAwaitingReplace => StepModel::ReplaceMain,
        PhaseModel::LoadAwaitingDirectory => StepModel::PrepareDirectory,
        PhaseModel::LoadAwaitingMain => StepModel::ReadMain,
        PhaseModel::LoadAwaitingBackup => StepModel::ReadBackup,
        PhaseModel::LoadAwaitingTemp(d) => StepModel::WriteTemp(d),
        PhaseModel::LoadAwaitingReplace(_) => StepModel::ReplaceMain,
        PhaseModel::Finished(r) => StepModel::Finish(r),
    }
}

/// The phase after an event. An event that the phase does not wait for
/// leaves it where it is.
pub open spec fn session_next(p: PhaseModel, e: EventModel) -> PhaseModel {
    match (p, e) {
        (PhaseModel::SaveAwaitingDirectory(d), EventModel::DirectoryReady(r)) => match r {
            Ok(_) => PhaseModel::SaveAwaitingTemp(d),
            Err(x) => PhaseModel::Finished(Err(x)),
        },
        (PhaseModel::SaveAwaitingTemp(_), EventModel::TempWritten(r)) => match r {
            Ok(_) => PhaseModel::SaveAwaitingMain,
            Err(x) => PhaseModel::Finished(Err("Failed to write temporary session file: "@ + x)),
        },
        (PhaseModel::SaveAwaitingMain, EventModel::MainRead(prev)) => if valid_document(prev) {
            PhaseModel::SaveAwaitingBackup
        } else {
            PhaseModel::SaveAwaitingReplace
        },
        (PhaseModel::SaveAwaitingBackup, EventModel::BackedUp) => PhaseModel::SaveAwaitingReplace,
        (PhaseModel::SaveAwaitingReplace, EventModel::MainReplaced(r)) => match r {
            Ok(_) => PhaseModel::Finished(Ok(Seq::empty())),
            Err(x) => PhaseModel::Finished(Err("Failed to replace session file: "@ + x)),
        },
        (PhaseModel::LoadAwaitingDirectory, EventModel::DirectoryReady(r)) => match r {
            Ok(_) => PhaseModel::LoadAwaitingMain,
            Err(x) => PhaseModel::Finished(Err(x)),
        },
        (PhaseModel::LoadAwaitingMain, EventModel::MainRead(d)) => if valid_document(d) {
            PhaseModel::Finished(Ok(d->0))
        } else {
            PhaseModel::LoadAwaitingBackup
        },
        (PhaseModel::LoadAwaitingBackup, EventModel::BackupRead(d)) => if valid_document(d) {
            PhaseModel::LoadAwaitingTemp(d->0)
        } else {
            PhaseModel::Finished(Ok(Seq::empty()))
        },
        (PhaseModel::LoadAwaitingTemp(d), EventModel::TempWritten(r)) => match r {
            Ok(_) => PhaseModel::LoadAwaitingReplace(d),
            Err(_) => PhaseModel::Finished(Ok(d)),
        },
        (PhaseModel::LoadAwaitingReplace(d), EventModel::MainReplaced(_)) => PhaseModel::Finished(
            Ok(d),
        ),
        _ => p,
    }
}

fn string_copy(s: &String) -> (r: String)
    ensures
        r@ == s@,
{
    s.clone()
}

fn text(s: &str) -> (r: String)
    ensures
        r@ == s@,
{
    let mut r = String::new();
    push_str(&mut r, s);
    assert(r@ =~= s@);
    r
}

fn pending_step(phase: &SessionPhase) -> (step: SessionStep)
    ensures
        step@ == pending(phase@),
{
    match phase {
        SessionPhase::SaveAwaitingDirectory(_) => SessionStep::PrepareDirectory,
        SessionPhase::SaveAwaitingTemp(d) => SessionStep::WriteTemp(string_copy(d)),
        SessionPhase::SaveAwaitingMain => SessionStep::ReadMain,
        SessionPhase::SaveAwaitingBackup => SessionStep::BackUpMain,
        SessionPhase::SaveAwaitingReplace => SessionStep::ReplaceMain,
        SessionPhase::LoadAwaitingDirectory => SessionStep::PrepareDirectory,
        SessionPhase::LoadAwaitingMain => SessionStep::ReadMain,
        SessionPhase::LoadAwaitingBackup => SessionStep::ReadBackup,
        SessionPhase::LoadAwaitingTemp(d) => SessionStep::WriteTemp(string_copy(d)),
        SessionPhase::LoadAwaitingReplace(_) => SessionStep::ReplaceMain,
        SessionPhase::Finished(Ok(d)) => SessionStep::Finish(Ok(string_copy(d))),
        SessionPhase::Finished(Err(e)) => SessionStep::Finish(Err(string_copy(e))),
    }
}

fn prefixed(prefix: &str, detail: String) -> (r: String)
    ensures
        r@ == prefix@ + detail@,
{
    let mut r = String::new();
    push_str(&mut r, prefix);
    push_str(&mut r, detail.as_str());
    assert(r@ =~= prefix@ + detail@);
    r
}

fn is_valid_document(d: &Option<String>) -> (r: bool)
    ensures
        r == valid_document(option_view(*d)),
{
    match d {
        Some(text) => is_valid_json(text.as_str()),
        None => false,
    }
}

fn next_phase(phase: SessionPhase, event: SessionEvent) -> (r: SessionPhase)
    ensures
        r@ == session_next(phase@, event@),
{
    match (phase, event) {
        (SessionPhase::SaveAwaitingDirectory(d), SessionEvent::DirectoryReady(r)) => match r {
            Ok(_) => SessionPhase::SaveAwaitingTemp(d),
            Err(x) => SessionPhase::Finished(Err(x)),
        },
        (SessionPhase::SaveAwaitingTemp(_), SessionEvent::TempWritten(r)) => match r {
            Ok(_) => SessionPhase::SaveAwaitingMain,
            Err(x) => SessionPhase::Finished(
                Err(prefixed("Failed to write temporary session file: ", x)),
            ),
        },
        (SessionPhase::SaveAwaitingMain, SessionEvent::MainRead(prev)) => {
            if is_valid_document(&prev) {
                SessionPhase::SaveAwaitingBackup
            } else {
                SessionPhase::SaveAwaitingReplace
            }
        },
        (SessionPhase::SaveAwaitingBackup, SessionEvent::BackedUp) => SessionPhase::SaveAwaitingReplace,
        (SessionPhase::SaveAwaitingReplace, SessionEvent::MainReplaced(r)) => match r {
            Ok(_) => SessionPhase::Finished(Ok(String::new())),
            Err(x) => SessionPhase::Finished(Err(prefixed("Failed to replace session file: ", x))),
        },
        (SessionPhase::LoadAwaitingDirectory, SessionEvent::DirectoryReady(r)) => match r {
            Ok(_) => SessionPhase::LoadAwaitingMain,
            Err(x) => SessionPhase::Finished(Err(x)),
        },
        (SessionPhase::LoadAwaitingMain, SessionEvent::MainRead(d)) => {
            let valid = is_valid_document(&d);
            match d {
                Some(text) if valid => SessionPhase::Finished(Ok(text)),
                _ => SessionPhase::LoadAwaitingBackup,
            }
        },
        (SessionPhase::LoadAwaitingBackup, SessionEvent::BackupRead(d)) => {
            let valid = is_valid_document(&d);
            match d {
                Some(text) if valid => SessionPhase::LoadAwaitingTemp(text),
                _ => SessionPhase::Finished(Ok(String::new())),
            }
        },
        (SessionPhase::LoadAwaitingTemp(d), SessionEvent::TempWritten(r)) => match r {
            Ok(_) => SessionPhase::LoadAwaitingReplace(d),
            Err(_) => SessionPhase::Finished(Ok(d)),
        },
        (SessionPhase::LoadAwaitingReplace(d), SessionEvent::MainReplaced(_)) => SessionPhase::Finished(
            Ok(d),
        ),
        (p, _) => p,
    }
}

impl SessionTask {
    /// Starts `save_session` for `data`: refused at once, with no file
    /// touched, unless `data` is a JSON object.
    pub fn save_session(data: String) -> (r: (SessionTask, SessionStep))
        ensures
            r.0@ == save_start(data@),
            r.1@ == pending(r.0@),
    {
        let phase = if is_valid_json(data.as_str()) {
            SessionPhase::SaveAwaitingDirectory(data)
        } else {
            SessionPhase::Finished(Err(text("Refusing to save an invalid session document")))
        };
        let step = pending_step(&phase);
        (SessionTask { phase }, step)
    }

    /// Starts `load_session`.
    pub fn load_session() -> (r: (SessionTask, SessionStep))
        ensures
            r.0@ == PhaseModel::LoadAwaitingDirectory,
            r.1@ == StepModel::PrepareDirectory,
    {
        (SessionTask { phase: SessionPhase::LoadAwaitingDirectory }, SessionStep::PrepareDirectory)
    }

    /// Takes what the last file operation gave and names the next one.
    pub fn resume(&mut self, event: SessionEvent) -> (step: SessionStep)
        ensures
            final(self)@ == session_next(old(self)@, event@),
            step@ == pending(final(self)@),
    {
        let mut phase = SessionPhase::LoadAwaitingMain;
        std::mem::swap(&mut phase, &mut self.phase);
        self.phase = next_phase(phase, event);
        pending_step(&self.phase)
    }

    /// Where the task stands.
    pub fn phase(&self) -> (r: &SessionPhase)
        ensures
            r@ == self@,
    {
        &self.phase
    }
}


/// The three files of a session store, as a reader or a crash finds them:
/// `session.json`, `session.json.tmp` and `session.json.bak`.
pub struct DiskModel {
    pub main: Option<Seq<char>>,
    pub temp: Option<Seq<char>>,
    pub backup: Option<Seq<char>>,
}

/// A file operation performed on a disk on which every operation succeeds:
/// writes are synced, a copy duplicates the file, a rename is atomic.
pub open spec fn perform(disk: DiskModel, step: StepModel) -> (DiskModel, EventModel) {
    match step {
        StepModel::PrepareDirectory => (disk, EventModel::DirectoryReady(Ok(()))),
        StepModel::WriteTemp(d) => (
            DiskModel { main: disk.main, temp: Some(d), backup: disk.backup },
            EventModel::TempWritten(Ok(())),
        ),
        StepModel::ReadMain => (disk, EventModel::MainRead(disk.main)),
        StepModel::BackUpMain => (
            match disk.main {
                Some(m) => DiskModel { main: disk.main, temp: disk.temp, backup: Some(m) },
                None => disk,
            },
            EventModel::BackedUp,
        ),
        StepModel::ReplaceMain => match disk.temp {
            Some(t) => (
                DiskModel { main: Some(t), temp: None, backup: disk.backup },
                EventModel::MainReplaced(Ok(())),
            ),
            None => (disk, EventModel::MainReplaced(Err(Seq::empty()))),
        },
        StepModel::ReadBackup => (disk, EventModel::BackupRead(disk.backup)),
        StepModel::Finish(_) => (disk, EventModel::BackedUp),
    }
}

/// A task driven for at most `fuel` file operations on such a disk.
pub open spec fn drive(p: PhaseModel, disk: DiskModel, fuel: nat) -> (PhaseModel, DiskModel)
    decreases fuel,
{
    if p is Finished || fuel == 0 {
        (p, disk)
    } else {
        let (d2, e) = perform(disk, pending(p));
        drive(session_next(p, e), d2, (fuel - 1) as nat)
    }
}

/// What a load finds on a disk: the session file when it holds a JSON object,
/// else the backup when that does, else nothing.
pub open spec fn load_answer(disk: DiskModel) -> Seq<char> {
    if valid_document(disk.main) {
        disk.main->0
    } else if valid_document(disk.backup) {
        disk.backup->0
    } else {
        Seq::empty()
    }
}

/// The most file operations that a save or a load performs.
pub open spec fn task_bound() -> nat {
    5
}

/// A document that is not a JSON object is refused, and no file is touched.
pub proof fn lemma_save_refuses_invalid(data: Seq<char>, disk: DiskModel, fuel: nat)
    requires
        !json_object_text(data),
    ensures
        drive(save_start(data), disk, fuel) == (PhaseModel::Finished(Err(refusal_message())), disk),
{
}

/// Saving a JSON object succeeds, leaves it in the session file, backs up the
/// previous session file if and only if that one held a JSON object, and
/// leaves no temporary file.
pub proof fn lemma_save_result(data: Seq<char>, disk: DiskModel, fuel: nat)
    requires
        json_object_text(data),
        fuel >= task_bound(),
    ensures
        ({
            let (p, d) = drive(save_start(data), disk, fuel);
            &&& p == PhaseModel::Finished(Ok(Seq::<char>::empty()))
            &&& d.main == Some(data)
            &&& d.temp is None
            &&& d.backup == if valid_document(disk.main) {
                disk.main
            } else {
                disk.backup
            }
        }),
{
    reveal_with_fuel(drive, 6);
}

/// Loading gives what `load_answer` finds; when it came from the backup the
/// session file is restored from it, otherwise no file changes.
pub proof fn lemma_load_result(disk: DiskModel, fuel: nat)
    requires
        fuel >= task_bound(),
    ensures
        ({
            let (p, d) = drive(PhaseModel::LoadAwaitingDirectory, disk, fuel);
            &&& p == PhaseModel::Finished(Ok(load_answer(disk)))
            &&& d == if !valid_document(disk.main) && valid_document(disk.backup) {
                DiskModel { main: disk.backup, temp: None, backup: disk.backup }
            } else {
                disk
            }
        }),
{
    reveal_with_fuel(drive, 6);
}

/// What a load reads back after a save is what was saved.
pub proof fn lemma_save_then_load(data: Seq<char>, disk: DiskModel, fuel: nat)
    requires
        json_object_text(data),
        fuel >= task_bound(),
    ensures
        drive(PhaseModel::LoadAwaitingDirectory, drive(save_start(data), disk, fuel).1, fuel).0
            == PhaseModel::Finished(Ok(data)),
{
    lemma_save_result(data, disk, fuel);
    let d = drive(save_start(data), disk, fuel).1;
    lemma_load_result(d, fuel);
}

/// A save interrupted after any number of file operations leaves files from
/// which a load reads either the session it would have read before the save
/// or the saved document: a crash never loses both.
pub proof fn lemma_save_crash_safe(data: Seq<char>, disk: DiskModel, steps: nat)
    requires
        json_object_text(data),
    ensures
        ({
            let d = drive(save_start(data), disk, steps).1;
            load_answer(d) == load_answer(disk) || load_answer(d) == data
        }),
{
    reveal_with_fuel(drive, 6);
}

/// A load interrupted after any number of file operations leaves files from
/// which a later load reads what this one would have.
pub proof fn lemma_load_crash_safe(disk: DiskModel, steps: nat)
    ensures
        load_answer(drive(PhaseModel::LoadAwaitingDirectory, disk, steps).1) == load_answer(disk),
{
    reveal_with_fuel(drive, 6);
}

/// The session file is absent or holds a JSON object.
pub open spec fn main_sound(disk: DiskModel) -> bool {
    disk.main is None || valid_document(disk.main)
}

/// Neither a save nor a load, interrupted after any number of file
/// operations or not, ever leaves a session file that is not a JSON object
/// where there was none before.
pub proof fn lemma_session_file_stays_sound(data: Seq<char>, disk: DiskModel, steps: nat)
    requires
        main_sound(disk),
    ensures
        main_sound(drive(save_start(data), disk, steps).1),
        main_sound(drive(PhaseModel::LoadAwaitingDirectory, disk, steps).1),
{
    reveal_with_fuel(drive, 6);
}

} // verus!
