//! Single-instance start-up on the desktop: the first instance listens on a
//! local port and later instances hand their files to it; and the queue of
//! files waiting to be opened by the editor window.
use vstd::prelude::*;
use crate::json::{
    after_literal, json_array, lemma_after_literal, lemma_read_string_array, push_json_string_array,
    quoted_all, read_string_array, string_values,
};
use crate::text::push_str;

verus! {

/// The local port on which the first instance listens.
pub const INSTANCE_PORT: u16 = 48721;

/// What start-up does next.
#[derive(Debug, PartialEq, Eq)]
pub enum LaunchStep {
    /// Bind the listener on this host and port (always the loopback
    /// `127.0.0.1` and `INSTANCE_PORT`).
    Listen { host: String, port: u16 },
    /// Connect to this host and port (the same ones) and send these files to
    /// the instance that holds the port.
    Forward { host: String, port: u16, files: Vec<String> },
    /// Run the editor as the primary instance with these files pending,
    /// serving the listener that was bound, or without one.
    RunPrimary { files: Vec<String>, listening: bool },
    /// The running instance took the files: this process ends.
    Exit,
}

/// What the last start-up operation gave.
#[derive(Debug, PartialEq, Eq, Clone, Copy)]
pub enum LaunchEvent {
    /// Whether the listener could be bound.
    Bound(bool),
    /// Whether the files reached the running instance.
    Forwarded(bool),
}

#[derive(Debug, PartialEq, Eq)]
enum LaunchPhase {
    Listening(Vec<String>),
    Forwarding(Vec<String>),
    Primary(Vec<String>, bool),
    HandedOff,
}

/// Start-up of the desktop application, step by step.
pub struct Launch {
    phase: LaunchPhase,
}

pub enum LaunchModel {
    Listening(Seq<String>),
    Forwarding(Seq<String>),
    Primary(Seq<String>, bool),
    HandedOff,
}

pub enum LaunchStepModel {
    Listen(Seq<char>, u16),
    Forward(Seq<char>, u16, Seq<String>),
    RunPrimary(Seq<String>, bool),
    Exit,
}

impl View for LaunchStep {
    type V = LaunchStepModel;

    open spec fn view(&self) -> LaunchStepModel {
        match self {
            LaunchStep::Listen { host, port } => LaunchStepModel::Listen(host@, *port),
            LaunchStep::Forward { host, port, files } => LaunchStepModel::Forward(
                host@,
                *port,
                files@,
            ),
            LaunchStep::RunPrimary { files, listening } => LaunchStepModel::RunPrimary(
                files@,
                *listening,
            ),
            LaunchStep::Exit => LaunchStepModel::Exit,
        }
    }
}

impl View for Launch {
    type V = LaunchModel;

    closed spec fn view(&self) -> LaunchModel {
        match self.phase {
            LaunchPhase::Listening(f) => LaunchModel::Listening(f@),
            LaunchPhase::Forwarding(f) => LaunchModel::Forwarding(f@),
            LaunchPhase::Primary(f, l) => LaunchModel::Primary(f@, l),
            LaunchPhase::HandedOff => LaunchModel::HandedOff,
        }
    }
}

/// The only host that start-up binds or connects to: the loopback address,
/// so no other machine can reach the listener or receive the files.
pub open spec fn loopback_host() -> Seq<char> {
    "127.0.0.1"@
}

fn loopback() -> (r: String)
    ensures
        r@ == loopback_host(),
{
    let mut r = String::new();
    push_str(&mut r, "127.0.0.1");
    assert(r@ =~= loopback_host());
    r
}

/// The operation that a start-up phase waits for.
pub open spec fn launch_pending(p: LaunchModel) -> LaunchStepModel {
    match p {
        LaunchModel::Listening(_) => LaunchStepModel::Listen(loopback_host(), INSTANCE_PORT),
        LaunchModel::Forwarding(f) => LaunchStepModel::Forward(loopback_host(), INSTANCE_PORT, f),
        LaunchModel::Primary(f, l) => LaunchStepModel::RunPrimary(f, l),
        LaunchModel::HandedOff => LaunchStepModel::Exit,
    }
}

/// The phase after an event: a bound listener makes this the primary
/// instance; otherwise the files go to the running instance, and where that
/// fails this becomes the primary instance without a listener. An event that
/// the phase does not wait for leaves it where it is.
pub open spec fn launch_next(p: LaunchModel, e: LaunchEvent) -> LaunchModel {
    match (p, e) {
        (LaunchModel::Listening(f), LaunchEvent::Bound(true)) => LaunchModel::Primary(f, true),
        (LaunchModel::Listening(f), LaunchEvent::Bound(false)) => LaunchModel::Forwarding(f),
        (LaunchModel::Forwarding(_), LaunchEvent::Forwarded(true)) => LaunchModel::HandedOff,
        (LaunchModel::Forwarding(f), LaunchEvent::Forwarded(false)) => LaunchModel::Primary(f, false),
        _ => p,
    }
}

/// A copy of a list of strings.
pub fn copy_strings(v: &Vec<String>) -> (r: Vec<String>)
    ensures
        r@ == v@,
{
    let mut r: Vec<String> = Vec::new();
    let mut i: usize = 0;
    while i < v.len()
        invariant
            i <= v.len(),
            r@ == v@.take(i as int),
        decreases v.len() - i,
    {
        r.push(v[i].clone());
        i += 1;
    }
    assert(v@.take(v@.len() as int) == v@);
    r
}

fn launch_pending_step(phase: &LaunchPhase) -> (r: LaunchStep)
    ensures
        r@ == launch_pending((Launch { phase: *phase })@),
{
    match phase {
        LaunchPhase::Listening(_) => LaunchStep::Listen { host: loopback(), port: INSTANCE_PORT },
        LaunchPhase::Forwarding(f) => LaunchStep::Forward {
            host: loopback(),
            port: INSTANCE_PORT,
            files: copy_strings(f),
        },
        LaunchPhase::Primary(f, l) => LaunchStep::RunPrimary { files: copy_strings(f), listening: *l },
        LaunchPhase::HandedOff => LaunchStep::Exit,
    }
}

/// Starts the desktop application with the files that it was opened with:
/// the first step is always to bind the single-instance listener.
pub fn run(startup_files: Vec<String>) -> (r: (Launch, LaunchStep))
    ensures
        r.0@ == LaunchModel::Listening(startup_files@),
        r.1@ == LaunchStepModel::Listen(loopback_host(), INSTANCE_PORT),
{
    (
        Launch { phase: LaunchPhase::Listening(startup_files) },
        LaunchStep::Listen { host: loopback(), port: INSTANCE_PORT },
    )
}

impl Launch {
    /// Takes what the last operation gave and names the next one.
    pub fn resume(&mut self, event: LaunchEvent) -> (step: LaunchStep)
        ensures
            final(self)@ == launch_next(old(self)@, event),
            step@ == launch_pending(final(self)@),
    {
        let mut phase = LaunchPhase::HandedOff;
        std::mem::swap(&mut phase, &mut self.phase);
        self.phase = match (phase, event) {
            (LaunchPhase::Listening(f), LaunchEvent::Bound(true)) => LaunchPhase::Primary(f, true),
            (LaunchPhase::Listening(f), LaunchEvent::Bound(false)) => LaunchPhase::Forwarding(f),
            (LaunchPhase::Forwarding(_), LaunchEvent::Forwarded(true)) => LaunchPhase::HandedOff,
            (LaunchPhase::Forwarding(f), LaunchEvent::Forwarded(false)) => LaunchPhase::Primary(
                f,
                false,
            ),
            (p, _) => p,
        };
        launch_pending_step(&self.phase)
    }
}

/// Start-up ends after at most two operations, whatever they give: the
/// process runs as the primary instance with exactly its own files, serving
/// the listener if and only if it could bind it, or it exits only after its
/// files reached the running instance.
pub proof fn lemma_launch_outcome(files: Seq<String>, bound: bool, forwarded: bool)
    ensures
        ({
            let p1 = launch_next(LaunchModel::Listening(files), LaunchEvent::Bound(bound));
            let p2 = launch_next(p1, LaunchEvent::Forwarded(forwarded));
            if bound {
                &&& p1 == LaunchModel::Primary(files, true)
                &&& launch_pending(p1) == LaunchStepModel::RunPrimary(files, true)
            } else {
                &&& launch_pending(p1) == LaunchStepModel::Forward(loopback_host(), INSTANCE_PORT, files)
                &&& launch_pending(p2) == if forwarded {
                    LaunchStepModel::Exit
                } else {
                    LaunchStepModel::RunPrimary(files, false)
                }
            }
        }),
{
}

/// Every address that start-up binds or connects to, in any phase, is the
/// loopback host and the instance port.
pub proof fn lemma_launch_loopback_only(p: LaunchModel)
    ensures
        launch_pending(p) matches LaunchStepModel::Listen(h, port) ==> h == loopback_host()
            && port == INSTANCE_PORT,
        launch_pending(p) matches LaunchStepModel::Forward(h, port, _) ==> h == loopback_host()
            && port == INSTANCE_PORT,
{
}

/// Once start-up has decided, no further event changes the decision.
pub proof fn lemma_launch_settled(p: LaunchModel, e: LaunchEvent)
    requires
        p is Primary || p is HandedOff,
    ensures
        launch_next(p, e) == p,
{
}

/// The message by which a later instance hands its files over.
#[derive(Debug, PartialEq, Eq)]
pub struct InstanceMessage {
    pub paths: Vec<String>,
}

/// The message as JSON: `{"paths":[...]}`.
pub open spec fn instance_message_json(paths: Seq<String>) -> Seq<char> {
    "{\"paths\":"@ + json_array(quoted_all(paths)) + seq!['}']
}

/// The bytes that `forward_to_existing_instance` sends, as text.
pub fn encode_instance_message(message: &InstanceMessage) -> (r: String)
    ensures
        r@ == instance_message_json(message.paths@),
{
    let mut r = String::new();
    push_str(&mut r, "{\"paths\":");
    push_json_string_array(&mut r, &message.paths);
    crate::text::push_char(&mut r, '}');
    assert(r@ =~= instance_message_json(message.paths@));
    r
}

/// The files that a received message asks to open: a message that did not
/// parse only brings the window forward, with no files.
pub fn received_paths(message: Option<InstanceMessage>) -> (r: Vec<String>)
    ensures
        r@ == match message {
            Some(m) => m.paths@,
            None => Seq::empty(),
        },
{
    match message {
        Some(m) => m.paths,
        None => Vec::new(),
    }
}

/// Files waiting for the editor window to open them, oldest first.
pub struct PendingOpenFiles {
    paths: Vec<String>,
}

impl View for PendingOpenFiles {
    type V = Seq<String>;

    closed spec fn view(&self) -> Seq<String> {
        self.paths@
    }
}

impl PendingOpenFiles {
    /// The queue holding the files the application was started with.
    pub fn new(startup_files: Vec<String>) -> (r: PendingOpenFiles)
        ensures
            r@ == startup_files@,
    {
        PendingOpenFiles { paths: startup_files }
    }

    /// `queue_open_files`: appends the files; returns whether any were
    /// queued, in which case the window is told that files wait. The answer
    /// comes once the files are in the queue, so a take prompted by it finds
    /// them.
    pub fn queue(&mut self, paths: Vec<String>) -> (announce: bool)
        ensures
            final(self)@ == old(self)@ + paths@,
            final(self)@ == queue_batches(old(self)@, seq![paths@]),
            announce == (paths@.len() > 0),
    {
        assert(queue_batches(self@, seq![paths@]) == queue_batches(self@ + paths@, seq![paths@].drop_first()));
        assert(seq![paths@].drop_first().len() == 0);
        if paths.len() == 0 {
            assert(self@ + paths@ =~= self@);
            return false;
        }
        let mut paths = paths;
        self.paths.append(&mut paths);
        true
    }

    /// `take_pending_open_files`: hands out every waiting file and leaves the
    /// queue empty.
    pub fn take(&mut self) -> (r: Vec<String>)
        ensures
            r@ == old(self)@,
            final(self)@ == Seq::<String>::empty(),
    {
        let mut out: Vec<String> = Vec::new();
        std::mem::swap(&mut out, &mut self.paths);
        out
    }
}

/// The queue after `queue` is called with each batch in turn.
pub open spec fn queue_batches(waiting: Seq<String>, batches: Seq<Seq<String>>) -> Seq<String>
    decreases batches.len(),
{
    if batches.len() == 0 {
        waiting
    } else {
        queue_batches(waiting + batches[0], batches.drop_first())
    }
}

/// Files received in several messages wait in the order they arrived, after
/// the files the application started with: the queue is the start-up files
/// followed by every batch, in order.
pub proof fn lemma_queue_keeps_arrival_order(waiting: Seq<String>, batches: Seq<Seq<String>>)
    ensures
        queue_batches(waiting, batches) == waiting + batches.flatten(),
    decreases batches.len(),
{
    if batches.len() > 0 {
        lemma_queue_keeps_arrival_order(waiting + batches[0], batches.drop_first());
        assert(waiting + batches[0] + batches.drop_first().flatten() =~= waiting + batches.flatten());
    } else {
        assert(waiting + batches.flatten() =~= waiting);
    }
}

/// Reads a start-up message as the running instance does: the paths of
/// `{"paths":[...]}`, with nothing after it.
pub open spec fn read_instance_message(t: Seq<char>) -> Option<Seq<Seq<char>>> {
    match after_literal("{\"paths\":"@, t) {
        Some(a) => match read_string_array(a) {
            Some((paths, r)) => if r == seq!['}'] {
                Some(paths)
            } else {
                None
            },
            None => None,
        },
        None => None,
    }
}

/// The message a later instance sends reads back as exactly the files it
/// forwards, every one of them, in order, for any number of files.
pub proof fn lemma_instance_message_round_trip(paths: Seq<String>)
    ensures
        read_instance_message(instance_message_json(paths)) == Some(string_values(paths)),
{
    let arr = json_array(quoted_all(paths));
    lemma_after_literal("{\"paths\":"@, arr + seq!['}']);
    assert(instance_message_json(paths) =~= "{\"paths\":"@ + (arr + seq!['}']));
    lemma_read_string_array(paths, seq!['}']);
}

} // verus!
