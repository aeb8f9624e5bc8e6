//! Desktop integration: the shell commands that reveal a file or open a
//! folder on each operating system, and a file's modification time.
use vstd::prelude::*;
use crate::text::{chars_of, push_str, string_from_chars};

verus! {

/// The desktop operating system families the editor runs on.
#[derive(Debug, PartialEq, Eq, Clone, Copy)]
pub enum Platform {
    Windows,
    MacOs,
    /// Linux and the other Unix systems.
    Unix,
}

/// A program to start, its arguments, and the text put before the error when
/// it cannot be started.
#[derive(Debug, PartialEq, Eq)]
pub struct ShellCommand {
    pub program: String,
    pub args: Vec<String>,
    pub failure_prefix: String,
}

pub open spec fn command_is(c: ShellCommand, program: Seq<char>, args: Seq<Seq<char>>, prefix: Seq<char>) -> bool {
    &&& c.program@ == program
    &&& c.args@.len() == args.len()
    &&& forall|i: int| 0 <= i < args.len() ==> #[trigger] c.args@[i]@ == args[i]
    &&& c.failure_prefix@ == prefix
}

/// The command that shows `target` in the system file manager: Explorer with
/// the file selected, Finder with the file revealed, or the containing folder
/// (the target itself where it has no parent) opened with `xdg-open`.
pub open spec fn reveal_command(platform: Platform, target: Seq<char>) -> (
    Seq<char>,
    Seq<Seq<char>>,
    Seq<char>,
) {
    match platform {
        Platform::Windows => (
            "explorer"@,
            seq!["/select,"@ + target],
            "Failed to reveal in Explorer: "@,
        ),
        Platform::MacOs => ("open"@, seq!["-R"@, target], "Failed to reveal in Finder: "@),
        Platform::Unix => (
            "xdg-open"@,
            seq![
                match unix_parent(target) {
                    Some(p) => p,
                    None => target,
                },
            ],
            "Failed to open containing folder: "@,
        ),
    }
}

/// The file manager program of each platform.
pub open spec fn file_manager(platform: Platform) -> Seq<char> {
    match platform {
        Platform::Windows => "explorer"@,
        Platform::MacOs => "open"@,
        Platform::Unix => "xdg-open"@,
    }
}

/// Where the components of a Unix path begin: after a leading `/` (the
/// root), or after a leading `.` that is a component of its own.
pub open spec fn body_start(p: Seq<char>) -> int {
    if p.len() > 0 && p[0] == '/' {
        1
    } else if p.len() > 0 && p[0] == '.' && (p.len() == 1 || p[1] == '/') {
        1
    } else {
        0
    }
}

/// The position of the last `/` in `p[lo..n]`.
pub open spec fn last_sep(p: Seq<char>, lo: int, n: int) -> Option<int>
    decreases n - lo,
{
    if n <= lo {
        None
    } else if p[n - 1] == '/' {
        Some(n - 1)
    } else {
        last_sep(p, lo, n - 1)
    }
}

/// Where the last component of `p[..n]` starts (after its separator).
pub open spec fn comp_start(p: Seq<char>, lo: int, n: int) -> int {
    match last_sep(p, lo, n) {
        Some(j) => j + 1,
        None => lo,
    }
}

/// The length of `p[..n]` without its last component and that component's separator.
pub open spec fn comp_cut(p: Seq<char>, lo: int, n: int) -> int {
    match last_sep(p, lo, n) {
        Some(j) => j,
        None => lo,
    }
}

/// Components that a path does not count: empty ones (from repeated or
/// trailing `/`) and `.`.
pub open spec fn skipped_component(c: Seq<char>) -> bool {
    c.len() == 0 || c == seq!['.']
}

/// The last separator found lies in the range searched; where none is found there is none.
pub proof fn lemma_last_sep_bounds(p: Seq<char>, lo: int, n: int)
    ensures
        last_sep(p, lo, n) matches Some(j) ==> lo <= j < n && p[j] == '/',
        last_sep(p, lo, n) is None ==> forall|k: int| lo <= k < n ==> p[k] != '/',
    decreases n - lo,
{
    if n > lo && p[n - 1] != '/' {
        lemma_last_sep_bounds(p, lo, n - 1);
    }
}

/// The length of `p[..n]` once trailing skipped components are dropped,
/// never below `lo`.
pub open spec fn skip_back(p: Seq<char>, lo: int, n: int) -> int
    decreases n - lo,
{
    if n <= lo {
        n
    } else if skipped_component(p.subrange(comp_start(p, lo, n), n)) {
        proof {
            lemma_last_sep_bounds(p, lo, n);
        }
        skip_back(p, lo, comp_cut(p, lo, n))
    } else {
        n
    }
}

/// The parent of a Unix path as `Path::parent` gives it: the path without
/// its last component, with trailing separators and `.` components dropped;
/// `None` for the empty path and for the root; the empty path for a lone
/// relative component.
pub open spec fn unix_parent(p: Seq<char>) -> Option<Seq<char>> {
    let lo = body_start(p);
    let t = skip_back(p, lo, p.len() as int);
    if t > lo {
        Some(p.subrange(0, skip_back(p, lo, comp_cut(p, lo, t))))
    } else if lo == 1 && p[0] == '.' {
        Some(Seq::empty())
    } else {
        None
    }
}

fn find_last_sep(v: &Vec<char>, lo: usize, n: usize) -> (r: Option<usize>)
    requires
        lo <= n <= v.len(),
    ensures
        match (r, last_sep(v@, lo as int, n as int)) {
            (Some(i), Some(j)) => i == j,
            (None, None) => true,
            _ => false,
        },
{
    let mut m = n;
    while m > lo
        invariant
            lo <= m <= n <= v.len(),
            last_sep(v@, lo as int, n as int) == last_sep(v@, lo as int, m as int),
        decreases m,
    {
        if v[m - 1] == '/' {
            return Some(m - 1);
        }
        m -= 1;
    }
    None
}

fn is_skipped(v: &Vec<char>, from: usize, to: usize) -> (r: bool)
    requires
        from <= to <= v.len(),
    ensures
        r == skipped_component(v@.subrange(from as int, to as int)),
{
    if from == to {
        return true;
    }
    if to - from == 1 && v[from] == '.' {
        assert(v@.subrange(from as int, to as int) =~= seq!['.']);
        return true;
    }
    assert(v@.subrange(from as int, to as int) != seq!['.']) by {
        let c = v@.subrange(from as int, to as int);
        if c == seq!['.'] {
            assert(seq!['.'].len() == 1 && seq!['.'][0] == '.');
            assert(c.len() == 1 && c[0] == '.');
            assert(c[0] == v@[from as int]);
        }
    }
    false
}

fn skip_back_exec(v: &Vec<char>, lo: usize, n: usize) -> (r: usize)
    requires
        lo <= n <= v.len(),
    ensures
        r == skip_back(v@, lo as int, n as int),
        lo <= r <= n,
{
    let mut m = n;
    while m > lo
        invariant
            lo <= m <= n <= v.len(),
            skip_back(v@, lo as int, n as int) == skip_back(v@, lo as int, m as int),
        decreases m,
    {
        proof {
            lemma_last_sep_bounds(v@, lo as int, m as int);
        }
        let (start, cut) = match find_last_sep(v, lo, m) {
            Some(j) => (j + 1, j),
            None => (lo, lo),
        };
        if !is_skipped(v, start, m) {
            return m;
        }
        m = cut;
    }
    m
}

/// `Path::parent` of a Unix path.
pub fn unix_parent_of(path: &str) -> (r: Option<String>)
    ensures
        match (r, unix_parent(path@)) {
            (Some(a), Some(b)) => a@ == b,
            (None, None) => true,
            _ => false,
        },
{
    let v = chars_of(path);
    let n = v.len();
    let lo: usize = if n > 0 && v[0] == '/' {
        1
    } else if n > 0 && v[0] == '.' && (n == 1 || v[1] == '/') {
        1
    } else {
        0
    };
    let t = skip_back_exec(&v, lo, n);
    if t > lo {
        proof {
            lemma_last_sep_bounds(v@, lo as int, t as int);
        }
        let cut = match find_last_sep(&v, lo, t) {
            Some(j) => j,
            None => lo,
        };
        let end = skip_back_exec(&v, lo, cut);
        Some(string_from_chars(&v, 0, end))
    } else if lo == 1 && v[0] == '.' {
        Some(String::new())
    } else {
        None
    }
}

fn text(s: &str) -> (r: String)
    ensures
        r@ == s@,
{
    let mut r = String::new();
    push_str(&mut r, s);
    assert(r@ =~= s@);
    r
}

/// What `reveal_in_folder` runs for `target`, or its error when the target
/// does not exist.
pub fn reveal_in_folder_command(platform: Platform, target: &str, target_exists: bool) -> (r: Result<
    ShellCommand,
    String,
>)
    ensures
        r is Ok <==> target_exists,
        r matches Err(e) ==> e@ == "Path does not exist: "@ + target@,
        r matches Ok(c) ==> ({
            let (program, args, prefix) = reveal_command(platform, target@);
            command_is(c, program, args, prefix)
        }),
{
    if !target_exists {
        let mut e = String::new();
        push_str(&mut e, "Path does not exist: ");
        push_str(&mut e, target);
        assert(e@ =~= "Path does not exist: "@ + target@);
        return Err(e);
    }
    let mut args: Vec<String> = Vec::new();
    match platform {
        Platform::Windows => {
            let mut a = String::new();
            push_str(&mut a, "/select,");
            push_str(&mut a, target);
            args.push(a);
            Ok(
                ShellCommand {
                    program: text("explorer"),
                    args,
                    failure_prefix: text("Failed to reveal in Explorer: "),
                },
            )
        },
        Platform::MacOs => {
            args.push(text("-R"));
            args.push(text(target));
            Ok(
                ShellCommand {
                    program: text("open"),
                    args,
                    failure_prefix: text("Failed to reveal in Finder: "),
                },
            )
        },
        Platform::Unix => {
            let directory = match unix_parent_of(target) {
                Some(p) => p,
                None => text(target),
            };
            args.push(directory);
            Ok(
                ShellCommand {
                    program: text("xdg-open"),
                    args,
                    failure_prefix: text("Failed to open containing folder: "),
                },
            )
        },
    }
}

/// What `open_app_data_dir` runs: the platform's file manager on the
/// directory; a failure to start it is reported as the bare error.
pub fn open_directory_command(platform: Platform, dir: &str) -> (c: ShellCommand)
    ensures
        command_is(c, file_manager(platform), seq![dir@], Seq::empty()),
{
    let program = match platform {
        Platform::Windows => text("explorer"),
        Platform::MacOs => text("open"),
        Platform::Unix => text("xdg-open"),
    };
    let mut args: Vec<String> = Vec::new();
    args.push(text(dir));
    ShellCommand { program, args, failure_prefix: String::new() }
}

/// The error text when the command could not be started.
pub fn spawn_failure(command: &ShellCommand, detail: &str) -> (r: String)
    ensures
        r@ == command.failure_prefix@ + detail@,
{
    let mut r = String::new();
    push_str(&mut r, command.failure_prefix.as_str());
    push_str(&mut r, detail);
    assert(r@ =~= command.failure_prefix@ + detail@);
    r
}

/// What was learnt of a file's modification time.
#[derive(Debug, PartialEq, Eq)]
pub enum MtimeProbe {
    /// The file's metadata could not be read.
    NoMetadata,
    /// The platform does not record modification times.
    NoModifiedTime,
    /// The time lies before the Unix epoch; the error text.
    BeforeEpoch(String),
    /// Milliseconds since the Unix epoch.
    SinceEpoch(u128),
}

/// The result of `get_file_mtime`: no time where there is no metadata or no
/// modification time, the error for a time before the epoch, and otherwise
/// the milliseconds since the epoch cut to 64 bits as `as u64` does.
pub fn file_mtime(probe: MtimeProbe) -> (r: Result<Option<u64>, String>)
    ensures
        match probe {
            MtimeProbe::NoMetadata => r == Ok::<Option<u64>, String>(None),
            MtimeProbe::NoModifiedTime => r == Ok::<Option<u64>, String>(None),
            MtimeProbe::BeforeEpoch(e) => r matches Err(f) && f@ == e@,
            MtimeProbe::SinceEpoch(ms) => r matches Ok(Some(t)) && t == ms % 0x1_0000_0000_0000_0000,
        },
{
    match probe {
        MtimeProbe::NoMetadata => Ok(None),
        MtimeProbe::NoModifiedTime => Ok(None),
        MtimeProbe::BeforeEpoch(e) => Err(e),
        MtimeProbe::SinceEpoch(ms) => {
            let t = ms as u64;
            assert(t == ms % 0x1_0000_0000_0000_0000) by (bit_vector)
                requires
                    t == ms as u64,
            ;
            Ok(Some(t))
        },
    }
}

/// On Windows the command is Explorer with one argument: `/select,`
/// followed by the target exactly as given, with no character added,
/// removed or quoted. On macOS the arguments are `-R` and the target as given.
pub proof fn lemma_reveal_passes_target_unchanged(target: Seq<char>)
    ensures
        ({
            let (program, args, _) = reveal_command(Platform::Windows, target);
            &&& program == "explorer"@
            &&& args.len() == 1
            &&& args[0].len() == 8 + target.len()
            &&& args[0].subrange(0, 8) == "/select,"@
            &&& args[0].subrange(8, args[0].len() as int) == target
        }),
        ({
            let (program, args, _) = reveal_command(Platform::MacOs, target);
            &&& program == "open"@
            &&& args.len() == 2
            &&& args[0] == "-R"@
            &&& args[1] == target
        }),
{
    reveal_strlit("/select,");
    let a = "/select,"@ + target;
    assert(a.subrange(0, 8) =~= "/select,"@);
    assert(a.subrange(8, a.len() as int) =~= target);
}

/// On Unix the folder opened is the target's parent, a prefix of the target
/// that ends before its last component, or the target itself where it has no
/// parent.
pub proof fn lemma_unix_reveal_opens_parent(target: Seq<char>)
    ensures
        ({
            let (program, args, _) = reveal_command(Platform::Unix, target);
            &&& program == "xdg-open"@
            &&& args.len() == 1
            &&& args[0].is_prefix_of(target)
            &&& (args[0] == target <==> unix_parent(target) is None)
        }),
{
    let lo = body_start(target);
    let n = target.len() as int;
    lemma_skip_back_bounds(target, lo, n);
    let t = skip_back(target, lo, n);
    if t > lo {
        lemma_last_sep_bounds(target, lo, t);
        let c = comp_cut(target, lo, t);
        lemma_skip_back_bounds(target, lo, c);
        let e = skip_back(target, lo, c);
        assert(target.subrange(0, e) =~= target.subrange(0, e));
        assert(e < n);
        assert(target.subrange(0, e).len() != target.len());
    } else if lo == 1 && target[0] == '.' {
        assert(Seq::<char>::empty() =~= target.subrange(0, 0));
        assert(Seq::<char>::empty().len() != target.len());
    } else {
        assert(target =~= target.subrange(0, n));
    }
}

proof fn lemma_skip_back_bounds(p: Seq<char>, lo: int, n: int)
    requires
        0 <= lo <= n <= p.len(),
    ensures
        lo <= skip_back(p, lo, n) <= n,
    decreases n - lo,
{
    if n > lo {
        lemma_last_sep_bounds(p, lo, n);
        if skipped_component(p.subrange(comp_start(p, lo, n), n)) {
            lemma_skip_back_bounds(p, lo, comp_cut(p, lo, n));
        }
    }
}

} // verus!
