//! Android draft protection and system file access: drafts are kept per
//! document URI, written as JSON, and dropped when they no longer parse.
use vstd::prelude::*;
use crate::json::{
    after_literal, json_quoted, json_text, json_value_of, lemma_after_literal, lemma_read_quoted,
    parse_json, push_json_string, read_string,
};
use crate::text::{decimal, decimal_digit, hex_digit, hex_fixed, push_char, push_decimal, push_hex_fixed, push_str};

verus! {

/// What is hashed to name a document's draft file: its URI, or `untitled`
/// for content that has no URI yet, which shares one slot.
pub open spec fn draft_key(uri: Seq<char>) -> Seq<char> {
    if uri.len() == 0 {
        "untitled"@
    } else {
        uri
    }
}

/// The draft file's name for a hash of its key: 16 lowercase hex digits and `.json`.
pub open spec fn draft_file_name(hash: u64) -> Seq<char> {
    hex_fixed(hash as nat, 16) + ".json"@
}

/// A draft as JSON, keys in sorted order as a `serde_json` object writes them.
pub open spec fn draft_json(uri: Seq<char>, name: Seq<char>, content: Seq<char>, updated_at: nat) -> Seq<char> {
    "{\"content\":"@ + json_quoted(content) + ",\"name\":"@ + json_quoted(name) + ",\"updatedAt\":"@
        + decimal(updated_at) + ",\"uri\":"@ + json_quoted(uri) + seq!['}']
}

/// The text whose hash names the draft file for `uri`.
pub fn draft_hash_key(uri: &str) -> (r: String)
    ensures
        r@ == draft_key(uri@),
{
    let mut r = String::new();
    if uri.is_empty() {
        push_str(&mut r, "untitled");
    } else {
        push_str(&mut r, uri);
    }
    assert(r@ =~= draft_key(uri@));
    r
}

/// The draft file's name for the hash of its key, as `{:016x}.json` writes it.
pub fn draft_file_name_for(hash: u64) -> (r: String)
    ensures
        r@ == draft_file_name(hash),
{
    let mut r = String::new();
    push_hex_fixed(&mut r, hash, 16);
    push_str(&mut r, ".json");
    assert(r@ =~= draft_file_name(hash));
    r
}

/// The JSON text that `save_android_draft` writes; `updated_at` is the time
/// of the save in milliseconds since the Unix epoch. A JSON number of
/// `serde_json` holds at most `u64::MAX`; a later time cannot be written.
pub fn encode_draft(uri: &str, name: &str, content: &str, updated_at: u128) -> (r: String)
    requires
        updated_at <= u64::MAX,
    ensures
        r@ == draft_json(uri@, name@, content@, updated_at as nat),
{
    let mut r = String::new();
    push_str(&mut r, "{\"content\":");
    push_json_string(&mut r, content);
    push_str(&mut r, ",\"name\":");
    push_json_string(&mut r, name);
    push_str(&mut r, ",\"updatedAt\":");
    push_decimal(&mut r, updated_at as u64);
    push_str(&mut r, ",\"uri\":");
    push_json_string(&mut r, uri);
    push_char(&mut r, '}');
    assert(r@ =~= draft_json(uri@, name@, content@, updated_at as nat));
    r
}

/// What was found at a draft's path.
#[derive(Debug, PartialEq, Eq)]
pub enum DraftRead {
    /// No file.
    Missing,
    /// The file exists but could not be read; the error text.
    Unreadable(String),
    /// The file's text.
    Contents(String),
}

/// What `load_android_draft` does with it.
#[derive(Debug)]
pub enum DraftLoad {
    /// Return the parsed draft.
    Draft(serde_json::Value),
    /// Return `null`.
    Absent,
    /// The draft is corrupted (say, truncated): delete it and return `null`.
    Corrupted,
    /// Fail with this error text.
    Failed(String),
}

/// Decides on a draft read from disk: a missing file gives `null`, an
/// unreadable one its error, a text that parses as JSON the value it parses
/// into, and
/// any other text is dropped rather than failing on every launch.
pub fn settle_draft(read: DraftRead) -> (r: DraftLoad)
    ensures
        match read {
            DraftRead::Missing => r is Absent,
            DraftRead::Unreadable(e) => r matches DraftLoad::Failed(f) && f@ == e@,
            DraftRead::Contents(t) => if json_text(t@) {
                r matches DraftLoad::Draft(v) && v == json_value_of(t@)
            } else {
                r is Corrupted
            },
        },
{
    match read {
        DraftRead::Missing => DraftLoad::Absent,
        DraftRead::Unreadable(e) => DraftLoad::Failed(e),
        DraftRead::Contents(t) => match parse_json(t.as_str()) {
            Some(v) => DraftLoad::Draft(v),
            None => DraftLoad::Corrupted,
        },
    }
}

/// What the system file access plugin answered to a write through a URI:
/// its `ok` member if that is a boolean, its `error` member if that is a string.
#[derive(Debug, PartialEq, Eq)]
pub struct UriWriteReply {
    pub ok: Option<bool>,
    pub error: Option<String>,
}

/// The result of `write_file_via_uri`: success only on `"ok": true`; otherwise
/// the plugin's error text, or a generic one.
pub fn uri_write_outcome(reply: UriWriteReply) -> (r: Result<(), String>)
    ensures
        r is Ok <==> reply.ok == Some(true),
        r matches Err(e) ==> e@ == match reply.error {
            Some(m) => m@,
            None => "Unknown error writing file"@,
        },
{
    if reply.ok == Some(true) {
        return Ok(());
    }
    match reply.error {
        Some(m) => Err(m),
        None => {
            let mut e = String::new();
            push_str(&mut e, "Unknown error writing file");
            assert(e@ =~= "Unknown error writing file"@);
            Err(e)
        },
    }
}

/// Different documents get different draft keys; only the URI `untitled`
/// shares the slot of content that has no URI.
pub proof fn lemma_draft_keys_distinct(u1: Seq<char>, u2: Seq<char>)
    requires
        u1 != u2,
        !(u1.len() == 0 && u2 == "untitled"@),
        !(u2.len() == 0 && u1 == "untitled"@),
    ensures
        draft_key(u1) != draft_key(u2),
{
    reveal_strlit("untitled");
    if u1.len() == 0 && u2.len() == 0 {
        assert(u1 =~= u2);
    }
}

proof fn lemma_hex_fixed_len(n: nat, width: nat)
    ensures
        hex_fixed(n, width).len() == width,
    decreases width,
{
    if width > 0 {
        lemma_hex_fixed_len(n / 16, (width - 1) as nat);
    }
}

proof fn lemma_hex_fixed_injective(n: nat, m: nat, width: nat)
    requires
        n < pow16(width),
        m < pow16(width),
        hex_fixed(n, width) == hex_fixed(m, width),
    ensures
        n == m,
    decreases width,
{
    if width > 0 {
        let w1 = (width - 1) as nat;
        let a = hex_fixed(n, width);
        let b = hex_fixed(m, width);
        assert(a.last() == b.last());
        assert(a.drop_last() == hex_fixed(n / 16, w1));
        assert(b.drop_last() == hex_fixed(m / 16, w1));
        assert(n / 16 < pow16(w1) && m / 16 < pow16(w1)) by (nonlinear_arith)
            requires
                n < pow16(width),
                m < pow16(width),
                pow16(width) == 16 * pow16(w1),
        ;
        lemma_hex_fixed_injective(n / 16, m / 16, w1);
        assert(n % 16 == m % 16) by {
            assert(hex_digit(n % 16) == hex_digit(m % 16));
        }
        assert(n == 16 * (n / 16) + n % 16) by (nonlinear_arith);
        assert(m == 16 * (m / 16) + m % 16) by (nonlinear_arith);
    } else {
    }
}

/// `16` to the power `k`.
pub open spec fn pow16(k: nat) -> nat
    decreases k,
{
    if k == 0 {
        1
    } else {
        16 * pow16((k - 1) as nat)
    }
}

/// Keys that hash differently are kept in different draft files.
pub proof fn lemma_draft_file_names_distinct(h1: u64, h2: u64)
    requires
        h1 != h2,
    ensures
        draft_file_name(h1) != draft_file_name(h2),
{
    reveal_with_fuel(pow16, 17);
    assert(pow16(16) == 0x1_0000_0000_0000_0000);
    lemma_hex_fixed_len(h1 as nat, 16);
    lemma_hex_fixed_len(h2 as nat, 16);
    if draft_file_name(h1) == draft_file_name(h2) {
        let a = hex_fixed(h1 as nat, 16);
        let b = hex_fixed(h2 as nat, 16);
        assert(draft_file_name(h1).subrange(0, 16) =~= a);
        assert(draft_file_name(h2).subrange(0, 16) =~= b);
        lemma_hex_fixed_injective(h1 as nat, h2 as nat, 16);
    }
}

/// The file operation that saving a draft performs next, or its end.
#[derive(Debug, PartialEq, Eq)]
pub enum DraftSaveStep {
    /// Find (creating it if needed) the drafts directory and the draft's path.
    PrepareDirectory,
    /// Write the text, synced to disk, to the draft's `.tmp` sibling.
    WriteTemp(String),
    /// Atomically replace the draft file with the `.tmp` file.
    ReplaceDraft,
    /// The save is over.
    Finish(Result<(), String>),
}

/// What the last file operation gave; an error carries its text.
#[derive(Debug, PartialEq, Eq)]
pub enum DraftSaveEvent {
    DirectoryReady(Result<(), String>),
    TempWritten(Result<(), String>),
    DraftReplaced(Result<(), String>),
}

#[derive(Debug, PartialEq, Eq)]
enum DraftSavePhase {
    AwaitingDirectory(String),
    AwaitingTemp(String),
    AwaitingReplace,
    Finished(Result<(), String>),
}

/// `save_android_draft`, step by step: the draft goes to a temporary file
/// first and then replaces the draft file in one rename.
pub struct DraftSave {
    phase: DraftSavePhase,
}

pub enum DraftSaveModel {
    AwaitingDirectory(Seq<char>),
    AwaitingTemp(Seq<char>),
    AwaitingReplace,
    Finished(Result<(), Seq<char>>),
}

pub enum DraftStepModel {
    PrepareDirectory,
    WriteTemp(Seq<char>),
    ReplaceDraft,
    Finish(Result<(), Seq<char>>),
}

pub enum DraftEventModel {
    DirectoryReady(Result<(), Seq<char>>),
    TempWritten(Result<(), Seq<char>>),
    DraftReplaced(Result<(), Seq<char>>),
}

pub open spec fn unit_result_view(r: Result<(), String>) -> Result<(), Seq<char>> {
    match r {
        Ok(_) => Ok(()),
        Err(e) => Err(e@),
    }
}

impl View for DraftSaveStep {
    type V = DraftStepModel;

    open spec fn view(&self) -> DraftStepModel {
        match self {
            DraftSaveStep::PrepareDirectory => DraftStepModel::PrepareDirectory,
            DraftSaveStep::WriteTemp(d) => DraftStepModel::WriteTemp(d@),
            DraftSaveStep::ReplaceDraft => DraftStepModel::ReplaceDraft,
            DraftSaveStep::Finish(r) => DraftStepModel::Finish(unit_result_view(*r)),
        }
    }
}

impl View for DraftSaveEvent {
    type V = DraftEventModel;

    open spec fn view(&self) -> DraftEventModel {
        match self {
            DraftSaveEvent::DirectoryReady(r) => DraftEventModel::DirectoryReady(unit_result_view(*r)),
            DraftSaveEvent::TempWritten(r) => DraftEventModel::TempWritten(unit_result_view(*r)),
            DraftSaveEvent::DraftReplaced(r) => DraftEventModel::DraftReplaced(unit_result_view(*r)),
        }
    }
}

impl View for DraftSave {
    type V = DraftSaveModel;

    closed spec fn view(&self) -> DraftSaveModel {
        match self.phase {
            DraftSavePhase::AwaitingDirectory(d) => DraftSaveModel::AwaitingDirectory(d@),
            DraftSavePhase::AwaitingTemp(d) => DraftSaveModel::AwaitingTemp(d@),
            DraftSavePhase::AwaitingReplace => DraftSaveModel::AwaitingReplace,
            DraftSavePhase::Finished(r) => DraftSaveModel::Finished(unit_result_view(r)),
        }
    }
}

/// The file operation that a phase of a draft save waits for.
pub open spec fn draft_pending(p: DraftSaveModel) -> DraftStepModel {
    match p {
        DraftSaveModel::AwaitingDirectory(_) => DraftStepModel::PrepareDirectory,
        DraftSaveModel::AwaitingTemp(d) => DraftStepModel::WriteTemp(d),
        DraftSaveModel::AwaitingReplace => DraftStepModel::ReplaceDraft,
        DraftSaveModel::Finished(r) => DraftStepModel::Finish(r),
    }
}

/// The phase after an event: any error ends the save with that error; an
/// event the phase does not wait for leaves it where it is.
pub open spec fn draft_next(p: DraftSaveModel, e: DraftEventModel) -> DraftSaveModel {
    match (p, e) {
        (DraftSaveModel::AwaitingDirectory(d), DraftEventModel::DirectoryReady(r)) => match r {
            Ok(_) => DraftSaveModel::AwaitingTemp(d),
            Err(x) => DraftSaveModel::Finished(Err(x)),
        },
        (DraftSaveModel::AwaitingTemp(_), DraftEventModel::TempWritten(r)) => match r {
            Ok(_) => DraftSaveModel::AwaitingReplace,
            Err(x) => DraftSaveModel::Finished(Err(x)),
        },
        (DraftSaveModel::AwaitingReplace, DraftEventModel::DraftReplaced(r)) => DraftSaveModel::Finished(r),
        _ => p,
    }
}

fn draft_pending_step(phase: &DraftSavePhase) -> (r: DraftSaveStep)
    ensures
        r@ == draft_pending((DraftSave { phase: *phase })@),
{
    match phase {
        DraftSavePhase::AwaitingDirectory(_) => DraftSaveStep::PrepareDirectory,
        DraftSavePhase::AwaitingTemp(d) => DraftSaveStep::WriteTemp(d.clone()),
        DraftSavePhase::AwaitingReplace => DraftSaveStep::ReplaceDraft,
        DraftSavePhase::Finished(Ok(())) => DraftSaveStep::Finish(Ok(())),
        DraftSavePhase::Finished(Err(e)) => DraftSaveStep::Finish(Err(e.clone())),
    }
}

impl DraftSave {
    /// Starts `save_android_draft` for a document, with the time of the save
    /// in milliseconds since the Unix epoch.
    pub fn save_android_draft(uri: &str, name: &str, content: &str, updated_at: u128) -> (r: (
        DraftSave,
        DraftSaveStep,
    ))
        requires
            updated_at <= u64::MAX,
        ensures
            r.0@ == DraftSaveModel::AwaitingDirectory(
                draft_json(uri@, name@, content@, updated_at as nat),
            ),
            r.1@ == DraftStepModel::PrepareDirectory,
    {
        let text = encode_draft(uri, name, content, updated_at);
        (DraftSave { phase: DraftSavePhase::AwaitingDirectory(text) }, DraftSaveStep::PrepareDirectory)
    }

    /// Takes what the last file operation gave and names the next one.
    pub fn resume(&mut self, event: DraftSaveEvent) -> (step: DraftSaveStep)
        ensures
            final(self)@ == draft_next(old(self)@, event@),
            step@ == draft_pending(final(self)@),
    {
        let mut phase = DraftSavePhase::AwaitingReplace;
        std::mem::swap(&mut phase, &mut self.phase);
        self.phase = match (phase, event) {
            (DraftSavePhase::AwaitingDirectory(d), DraftSaveEvent::DirectoryReady(r)) => match r {
                Ok(_) => DraftSavePhase::AwaitingTemp(d),
                Err(x) => DraftSavePhase::Finished(Err(x)),
            },
            (DraftSavePhase::AwaitingTemp(_), DraftSaveEvent::TempWritten(r)) => match r {
                Ok(_) => DraftSavePhase::AwaitingReplace,
                Err(x) => DraftSavePhase::Finished(Err(x)),
            },
            (DraftSavePhase::AwaitingReplace, DraftSaveEvent::DraftReplaced(r)) => DraftSavePhase::Finished(r),
            (p, _) => p,
        };
        draft_pending_step(&self.phase)
    }
}

/// A document's draft file and its `.tmp` sibling.
pub struct DraftDiskModel {
    pub draft: Option<Seq<char>>,
    pub temp: Option<Seq<char>>,
}

/// A file operation on a disk on which every operation succeeds: writes are
/// synced and a rename is atomic.
pub open spec fn draft_perform(disk: DraftDiskModel, step: DraftStepModel) -> (DraftDiskModel, DraftEventModel) {
    match step {
        DraftStepModel::PrepareDirectory => (disk, DraftEventModel::DirectoryReady(Ok(()))),
        DraftStepModel::WriteTemp(d) => (
            DraftDiskModel { draft: disk.draft, temp: Some(d) },
            DraftEventModel::TempWritten(Ok(())),
        ),
        DraftStepModel::ReplaceDraft => match disk.temp {
            Some(t) => (
                DraftDiskModel { draft: Some(t), temp: None },
                DraftEventModel::DraftReplaced(Ok(())),
            ),
            None => (disk, DraftEventModel::DraftReplaced(Err(Seq::empty()))),
        },
        DraftStepModel::Finish(_) => (disk, DraftEventModel::DirectoryReady(Ok(()))),
    }
}

/// A draft save driven for at most `fuel` file operations on such a disk.
pub open spec fn draft_drive(p: DraftSaveModel, disk: DraftDiskModel, fuel: nat) -> (
    DraftSaveModel,
    DraftDiskModel,
)
    decreases fuel,
{
    if p is Finished || fuel == 0 {
        (p, disk)
    } else {
        let (d2, e) = draft_perform(disk, draft_pending(p));
        draft_drive(draft_next(p, e), d2, (fuel - 1) as nat)
    }
}

/// A draft save that runs to its end succeeds and leaves the new draft, and
/// no temporary file.
pub proof fn lemma_draft_save_result(text: Seq<char>, disk: DraftDiskModel, fuel: nat)
    requires
        fuel >= 3,
    ensures
        draft_drive(DraftSaveModel::AwaitingDirectory(text), disk, fuel) == (
            DraftSaveModel::Finished(Ok(())),
            DraftDiskModel { draft: Some(text), temp: None },
        ),
{
    reveal_with_fuel(draft_drive, 4);
}

/// A draft save killed after any number of file operations leaves the draft
/// file as it was or holding the whole new draft: it is never truncated.
pub proof fn lemma_draft_save_crash_safe(text: Seq<char>, disk: DraftDiskModel, steps: nat)
    ensures
        ({
            let d = draft_drive(DraftSaveModel::AwaitingDirectory(text), disk, steps).1;
            d.draft == disk.draft || d.draft == Some(text)
        }),
{
    reveal_with_fuel(draft_drive, 4);
}

/// Whether `c` is an ASCII decimal digit.
pub open spec fn is_digit(c: char) -> bool {
    0x30 <= c as u32 <= 0x39
}

/// The longest run of decimal digits at the start of `t`, and what follows.
pub open spec fn read_digits(t: Seq<char>) -> (Seq<char>, Seq<char>)
    decreases t.len(),
{
    if t.len() > 0 && is_digit(t[0]) {
        let (d, r) = read_digits(t.drop_first());
        (seq![t[0]] + d, r)
    } else {
        (Seq::empty(), t)
    }
}

/// The number that a run of decimal digits writes.
pub open spec fn digits_value(d: Seq<char>) -> nat
    decreases d.len(),
{
    if d.len() == 0 {
        0
    } else {
        digits_value(d.drop_last()) * 10 + ((d.last() as u32) - 0x30) as nat
    }
}

/// Reads a saved draft as the editor does: its content, name, the number
/// of `updatedAt` and its URI, with nothing after the object.
pub open spec fn read_draft(t: Seq<char>) -> Option<(Seq<char>, Seq<char>, nat, Seq<char>)> {
    match after_literal("{\"content\":"@, t) {
        Some(a) => match read_string(a) {
            Some((content, b)) => match after_literal(",\"name\":"@, b) {
                Some(c) => match read_string(c) {
                    Some((name, d)) => match after_literal(",\"updatedAt\":"@, d) {
                        Some(e) => {
                            let (digits, f) = read_digits(e);
                            if digits.len() == 0 {
                                None
                            } else {
                                match after_literal(",\"uri\":"@, f) {
                                    Some(g) => match read_string(g) {
                                        Some((uri, h)) => if h == seq!['}'] {
                                            Some((content, name, digits_value(digits), uri))
                                        } else {
                                            None
                                        },
                                        None => None,
                                    },
                                    None => None,
                                }
                            }
                        },
                        None => None,
                    },
                    None => None,
                },
                None => None,
            },
            None => None,
        },
        None => None,
    }
}

proof fn lemma_decimal_digits(n: nat)
    ensures
        decimal(n).len() > 0,
        forall|i: int| 0 <= i < decimal(n).len() ==> is_digit(#[trigger] decimal(n)[i]),
        digits_value(decimal(n)) == n,
    decreases n,
{
    if n >= 10 {
        lemma_decimal_digits(n / 10);
        let d = decimal(n);
        assert(d.drop_last() =~= decimal(n / 10));
        assert(d.last() == decimal_digit(n % 10));
        assert(decimal_digit(n % 10) as u32 == n % 10 + 0x30);
        assert(n == (n / 10) * 10 + n % 10);
        assert(digits_value(d) == digits_value(d.drop_last()) * 10 + n % 10);
    } else {
        assert(decimal(n) =~= seq![decimal_digit(n)]);
        assert(seq![decimal_digit(n)].drop_last() =~= Seq::<char>::empty());
        assert(decimal_digit(n) as u32 == n + 0x30);
        assert(digits_value(decimal(n)) == digits_value(Seq::<char>::empty()) * 10 + n);
    }
}

proof fn lemma_read_digits(d: Seq<char>, rest: Seq<char>)
    requires
        forall|i: int| 0 <= i < d.len() ==> is_digit(#[trigger] d[i]),
        rest.len() > 0,
        !is_digit(rest[0]),
    ensures
        read_digits(d + rest) == (d, rest),
    decreases d.len(),
{
    if d.len() > 0 {
        assert forall|i: int| 0 <= i < d.drop_first().len() implies is_digit(
            #[trigger] d.drop_first()[i],
        ) by {
            assert(d.drop_first()[i] == d[i + 1]);
        }
        lemma_read_digits(d.drop_first(), rest);
        assert((d + rest).drop_first() =~= d.drop_first() + rest);
        assert(seq![d[0]] + d.drop_first() =~= d);
    } else {
        assert(d + rest =~= rest);
    }
}

/// A saved draft reads back with the same content, name, time and URI.
pub proof fn lemma_draft_round_trip(uri: Seq<char>, name: Seq<char>, content: Seq<char>, updated_at: nat)
    ensures
        read_draft(draft_json(uri, name, content, updated_at)) == Some(
            (content, name, updated_at, uri),
        ),
{
    reveal_strlit(",\"uri\":");
    let l1 = "{\"content\":"@;
    let l2 = ",\"name\":"@;
    let l3 = ",\"updatedAt\":"@;
    let l4 = ",\"uri\":"@;
    let t4 = json_quoted(uri) + seq!['}'];
    let t3 = decimal(updated_at) + (l4 + t4);
    let t2 = json_quoted(name) + (l3 + t3);
    let t1 = json_quoted(content) + (l2 + t2);
    assert(draft_json(uri, name, content, updated_at) =~= l1 + t1);
    lemma_after_literal(l1, t1);
    lemma_read_quoted(content, l2 + t2);
    lemma_after_literal(l2, t2);
    lemma_read_quoted(name, l3 + t3);
    lemma_after_literal(l3, t3);
    lemma_decimal_digits(updated_at);
    assert((l4 + t4)[0] == ',');
    lemma_read_digits(decimal(updated_at), l4 + t4);
    lemma_after_literal(l4, t4);
    lemma_read_quoted(uri, seq!['}']);
}

} // verus!
