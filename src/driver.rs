//! The debugger driver: what it asks of the GDB subprocess, and the
//! breakpoints it has placed there.
use vstd::prelude::*;
use vstd::seq_lib::seq_to_set_is_finite;
use vstd::set_lib::lemma_len_subset;
use crate::mi::{exec_and_symbols_command, exec_and_symbols_text, normalize_path, normalized, MiCommand, ResultClass};
use crate::protocol::{LaunchRequestArguments, ProcessEventBody, ProcessEventStartMethod, SetBreakpointsArguments};

verus! {

/// Work for the task that owns the debugger subprocess.
#[derive(Clone, Debug, PartialEq, Eq)]
pub enum Message {
    /// Start the debugger, then load the executable with `load_command`.
    Launch { load_command: String },
    /// Write one command line to the running debugger.
    Command { text: String },
}

/// Why the driver refused or failed an operation.
#[derive(Clone, Debug, PartialEq, Eq)]
pub enum DriverError {
    /// No debugger subprocess is live.
    NotRunning,
    /// A debugger subprocess is live already.
    AlreadyRunning,
    /// The launch arguments name no program.
    MissingExecutable,
    /// The debugger subprocess could not be started.
    StartFailed,
    /// Loading the executable did not end in `done`; the debugger's reply.
    LoadFailed { content: String },
    /// The breakpoint request names no source file.
    MissingSource,
    /// No breakpoint numbers are left.
    Exhausted,
}

/// The text an IDE is shown for a driver error.
pub open spec fn error_text(e: DriverError) -> Seq<char> {
    match e {
        DriverError::NotRunning => "gdb is not running"@,
        DriverError::AlreadyRunning => "gdb is already running"@,
        DriverError::MissingExecutable => "missing executable"@,
        DriverError::StartFailed => "failed to start gdb debugger!"@,
        DriverError::LoadFailed { content } => content@,
        DriverError::MissingSource => "missing source path"@,
        DriverError::Exhausted => "no breakpoint numbers are left"@,
    }
}

impl DriverError {
    /// The text an IDE is shown for this error.
    pub fn message(&self) -> (r: String)
        ensures
            r@ == error_text(*self),
    {
        match self {
            DriverError::NotRunning => String::from_str("gdb is not running"),
            DriverError::AlreadyRunning => String::from_str("gdb is already running"),
            DriverError::MissingExecutable => String::from_str("missing executable"),
            DriverError::StartFailed => String::from_str("failed to start gdb debugger!"),
            DriverError::LoadFailed { content } => content.clone(),
            DriverError::MissingSource => String::from_str("missing source path"),
            DriverError::Exhausted => String::from_str("no breakpoint numbers are left"),
        }
    }
}

/// How starting the debugger and loading the executable went.
#[derive(Clone, Debug, PartialEq, Eq)]
pub enum LaunchOutcome {
    /// The subprocess did not start.
    SpawnFailed,
    /// The subprocess started, and the load command got this result record.
    Loaded { class: ResultClass, content: String },
}

/// A breakpoint placed in the debugger, with the number the debugger gave it.
#[derive(Clone, Debug, PartialEq, Eq)]
pub struct PlacedBreakpoint {
    pub source: String,
    pub line: i64,
    pub number: u64,
}

/// The capabilities every debugger backend offers.
pub trait Driver {
    /// The backend's own invariant.
    spec fn inv(&self) -> bool;

    /// Whether the debugger subprocess is live.
    spec fn running(&self) -> bool;

    /// The work that starts the debugger and loads the executable; refused
    /// without a program, and while a debugger is live.
    fn launch(&self, launch_args: &LaunchRequestArguments) -> (r: Result<Message, DriverError>)
        ensures
            launch_args.program is None ==> r == Err::<Message, DriverError>(DriverError::MissingExecutable),
            launch_args.program is Some && self.running() ==> r == Err::<Message, DriverError>(
                DriverError::AlreadyRunning,
            ),
            launch_args.program is Some && !self.running() ==> r is Ok && r->Ok_0 is Launch
                && r->Ok_0->load_command@ == exec_and_symbols_text(launch_args.program->0@),
    ;

    /// The work that sends one command line; refused while no debugger is live.
    fn send_cmd_raw(&self, cmd: &str) -> (r: Result<Message, DriverError>)
        ensures
            !self.running() ==> r == Err::<Message, DriverError>(DriverError::NotRunning),
            self.running() ==> r is Ok && r->Ok_0 is Command && r->Ok_0->text@ == cmd@,
    ;

    /// The commands that bring one source file's breakpoints to those asked
    /// for; refused while no debugger is live, or without a source file.
    fn set_breakpoints(&mut self, args: &SetBreakpointsArguments) -> (r: Result<Vec<MiCommand>, DriverError>)
        requires
            old(self).inv(),
        ensures
            final(self).inv(),
            !old(self).running() ==> r == Err::<Vec<MiCommand>, DriverError>(DriverError::NotRunning),
            old(self).running() && args.source_path is None ==> r == Err::<Vec<MiCommand>, DriverError>(
                DriverError::MissingSource,
            ),
            final(self).running() == old(self).running(),
    ;
}

/// Whether some breakpoint of `bps` stands in `src` at `line`.
pub open spec fn has_line(bps: Seq<PlacedBreakpoint>, src: Seq<char>, line: i64) -> bool {
    exists|i: int| 0 <= i < bps.len() && (#[trigger] bps[i]).source@ == src && bps[i].line == line
}

/// The lines of `src` that hold a breakpoint.
pub open spec fn lines_at(bps: Seq<PlacedBreakpoint>, src: Seq<char>) -> Set<i64> {
    Set::new(|line: i64| has_line(bps, src, line))
}

/// Whether no two breakpoints of `bps` share a number.
pub open spec fn numbers_distinct(bps: Seq<PlacedBreakpoint>) -> bool {
    forall|a: int, b: int| 0 <= a < b < bps.len() ==> (#[trigger] bps[a]).number != (#[trigger] bps[b]).number
}

/// The GDB backend: whether its subprocess is live, and the breakpoints
/// placed so far.
pub struct DriverGDB {
    pub launched: bool,
    pub breakpoints: Vec<PlacedBreakpoint>,
    /// The number the debugger gives the next breakpoint.
    pub next_number: u64,
}

/// Whether `old` held a breakpoint in `src` numbered `number` at a line
/// that is not among `lines`.
pub open spec fn removed(olds: Seq<PlacedBreakpoint>, src: Seq<char>, lines: Seq<i64>, number: u64) -> bool {
    exists|m: int| 0 <= m < olds.len() && (#[trigger] olds[m]).source@ == src && olds[m].number == number
        && !lines.contains(olds[m].line)
}

/// What one call of `set_breakpoints` on `old` with source `src` and lines
/// `lines` leaves, when it succeeds with commands `cmds`.
pub open spec fn set_breakpoints_post(
    old: DriverGDB,
    src: Seq<char>,
    lines: Seq<i64>,
    new: DriverGDB,
    cmds: Seq<MiCommand>,
) -> bool {
    &&& new.launched == old.launched
    &&& new.next_number == old.next_number + new_lines(old.breakpoints@, src, lines).len()
    &&& lines_at(new.breakpoints@, src) == lines.to_set()
    &&& forall|s: Seq<char>| s != src ==> lines_at(new.breakpoints@, s) == lines_at(old.breakpoints@, s)
    &&& forall|k: int| 0 <= k < cmds.len() ==> match #[trigger] cmds[k] {
        MiCommand::BreakInsert { source, line } => source@ == src && lines.contains(line)
            && !has_line(old.breakpoints@, src, line),
        MiCommand::BreakDelete { number } => removed(old.breakpoints@, src, lines, number),
    }
    &&& forall|l: i64| lines.contains(l) && !has_line(old.breakpoints@, src, l) ==> exists|k: int|
        0 <= k < cmds.len() && #[trigger] inserts(cmds[k], src, l)
    &&& forall|i: int| 0 <= i < old.breakpoints@.len() && (#[trigger] old.breakpoints@[i]).source@ == src
        && !lines.contains(old.breakpoints@[i].line) ==> cmds.contains(
        MiCommand::BreakDelete { number: old.breakpoints@[i].number },
    )
    &&& forall|k1: int, k2: int| 0 <= k1 < k2 < cmds.len() && cmds[k1] is BreakInsert
        && cmds[k2] is BreakInsert ==> (#[trigger] cmds[k1])->line != (#[trigger] cmds[k2])->line
    &&& forall|k1: int, k2: int| 0 <= k1 < k2 < cmds.len() ==> #[trigger] cmds[k1] != #[trigger] cmds[k2]
}

/// The lines asked for in `src` that hold no breakpoint yet.
pub open spec fn new_lines(bps: Seq<PlacedBreakpoint>, src: Seq<char>, lines: Seq<i64>) -> Set<i64> {
    lines.to_set().difference(lines_at(bps, src))
}

/// Whether `c` inserts a breakpoint at `line` of `src`.
pub open spec fn inserts(c: MiCommand, src: Seq<char>, line: i64) -> bool {
    c is BreakInsert && c->source@ == src && c->line == line
}

/// The process event of a debuggee launched from `program`.
pub open spec fn launched_process(program: Seq<char>, body: ProcessEventBody) -> bool {
    &&& body.name@ == normalized(program)
    &&& body.system_process_id == Some(-1i64)
    &&& body.is_local_process == Some(true)
    &&& body.start_method == Some(ProcessEventStartMethod::Launch)
    &&& body.pointer_size == Some(8i64)
}

fn contains_line(lines: &Vec<i64>, line: i64) -> (r: bool)
    ensures
        r == lines@.contains(line),
{
    let mut i: usize = 0;
    while i < lines.len()
        invariant
            i <= lines.len(),
            forall|j: int| 0 <= j < i ==> lines@[j] != line,
        decreases lines.len() - i,
    {
        if lines[i] == line {
            return true;
        }
        i = i + 1;
    }
    false
}

fn has_breakpoint(bps: &Vec<PlacedBreakpoint>, src: &String, line: i64) -> (r: bool)
    ensures
        r == has_line(bps@, src@, line),
{
    let mut i: usize = 0;
    while i < bps.len()
        invariant
            i <= bps.len(),
            forall|j: int| 0 <= j < i ==> !((#[trigger] bps@[j]).source@ == src@ && bps@[j].line == line),
        decreases bps.len() - i,
    {
        if bps[i].line == line && bps[i].source == *src {
            return true;
        }
        i = i + 1;
    }
    false
}

fn copy_breakpoint(bp: &PlacedBreakpoint) -> (r: PlacedBreakpoint)
    ensures
        r == *bp,
{
    PlacedBreakpoint { source: bp.source.clone(), line: bp.line, number: bp.number }
}


proof fn lemma_push_contains<T>(s: Seq<T>, x: T)
    ensures
        s.push(x).contains(x),
        forall|y: T| s.contains(y) ==> #[trigger] s.push(x).contains(y),
{
    assert(s.push(x)[s.len() as int] == x);
    assert forall|y: T| s.contains(y) implies #[trigger] s.push(x).contains(y) by {
        let j = choose|j: int| 0 <= j < s.len() && s[j] == y;
        assert(s.push(x)[j] == y);
    }
}

/// The lines of `src` that stay after the removals are exactly the old ones
/// still asked for.
proof fn lemma_kept_lines(olds: Seq<PlacedBreakpoint>, mid: Seq<PlacedBreakpoint>, src: Seq<char>, lines: Seq<i64>)
    requires
        forall|j: int| 0 <= j < mid.len() ==> olds.contains(#[trigger] mid[j]),
        forall|j: int| 0 <= j < mid.len() && (#[trigger] mid[j]).source@ == src ==> lines.contains(mid[j].line),
        forall|m: int| 0 <= m < olds.len() && ((#[trigger] olds[m]).source@ != src || lines.contains(olds[m].line))
            ==> mid.contains(olds[m]),
    ensures
        forall|l: i64| #[trigger] has_line(mid, src, l) <==> (has_line(olds, src, l) && lines.contains(l)),
        new_lines(mid, src, lines) == new_lines(olds, src, lines),
{
    assert forall|l: i64| #[trigger] has_line(mid, src, l) <==> (has_line(olds, src, l) && lines.contains(l)) by {
        if has_line(olds, src, l) && lines.contains(l) {
            let m = choose|m: int| 0 <= m < olds.len() && (#[trigger] olds[m]).source@ == src && olds[m].line == l;
            assert(mid.contains(olds[m]));
            let w = choose|w: int| 0 <= w < mid.len() && mid[w] == olds[m];
        }
        if has_line(mid, src, l) {
            let w = choose|w: int| 0 <= w < mid.len() && (#[trigger] mid[w]).source@ == src && mid[w].line == l;
            assert(olds.contains(mid[w]));
            let m = choose|m: int| 0 <= m < olds.len() && olds[m] == mid[w];
            assert(olds[m].source@ == src);
        }
    }
    assert(new_lines(mid, src, lines) =~= new_lines(olds, src, lines));
}

/// Splits the placed breakpoints into those that stay and the deletions of
/// those in `src` whose line is no longer wanted.
fn plan_removals(olds: &Vec<PlacedBreakpoint>, src: &String, lines: &Vec<i64>) -> (r: (
    Vec<PlacedBreakpoint>,
    Vec<MiCommand>,
))
    requires
        numbers_distinct(olds@),
    ensures
        numbers_distinct(r.0@),
        forall|k1: int, k2: int| 0 <= k1 < k2 < r.1@.len() ==> (#[trigger] r.1@[k1])->number
            != (#[trigger] r.1@[k2])->number,
        forall|j: int| 0 <= j < r.0@.len() ==> olds@.contains(#[trigger] r.0@[j]),
        forall|j: int| 0 <= j < r.0@.len() && (#[trigger] r.0@[j]).source@ == src@ ==> lines@.contains(r.0@[j].line),
        forall|m: int| 0 <= m < olds@.len() && ((#[trigger] olds@[m]).source@ != src@ || lines@.contains(olds@[m].line))
            ==> r.0@.contains(olds@[m]),
        forall|k: int| 0 <= k < r.1@.len() ==> (#[trigger] r.1@[k]) is BreakDelete
            && removed(olds@, src@, lines@, r.1@[k]->number),
        forall|m: int| 0 <= m < olds@.len() && (#[trigger] olds@[m]).source@ == src@ && !lines@.contains(olds@[m].line)
            ==> r.1@.contains(MiCommand::BreakDelete { number: olds@[m].number }),
{
    let mut kept: Vec<PlacedBreakpoint> = Vec::new();
    let mut cmds: Vec<MiCommand> = Vec::new();
    let ghost mut idx: Seq<int> = Seq::empty();
    let ghost mut didx: Seq<int> = Seq::empty();
    let mut i: usize = 0;
    while i < olds.len()
        invariant
            i <= olds@.len(),
            numbers_distinct(olds@),
            idx.len() == kept@.len(),
            forall|j: int| 0 <= j < idx.len() ==> 0 <= #[trigger] idx[j] < i && kept@[j] == olds@[idx[j]],
            forall|a: int, b: int| 0 <= a < b < idx.len() ==> #[trigger] idx[a] < #[trigger] idx[b],
            numbers_distinct(kept@),
            didx.len() == cmds@.len(),
            forall|k: int| 0 <= k < didx.len() ==> 0 <= #[trigger] didx[k] < i && cmds@[k]
                == (MiCommand::BreakDelete { number: olds@[didx[k]].number }),
            forall|a: int, b: int| 0 <= a < b < didx.len() ==> #[trigger] didx[a] < #[trigger] didx[b],
            forall|k1: int, k2: int| 0 <= k1 < k2 < cmds@.len() ==> (#[trigger] cmds@[k1])->number
                != (#[trigger] cmds@[k2])->number,
            forall|j: int| 0 <= j < kept@.len() ==> olds@.contains(#[trigger] kept@[j]),
            forall|j: int| 0 <= j < kept@.len() && (#[trigger] kept@[j]).source@ == src@ ==> lines@.contains(kept@[j].line),
            forall|m: int| 0 <= m < i && ((#[trigger] olds@[m]).source@ != src@ || lines@.contains(olds@[m].line))
                ==> kept@.contains(olds@[m]),
            forall|k: int| 0 <= k < cmds@.len() ==> (#[trigger] cmds@[k]) is BreakDelete
                && removed(olds@, src@, lines@, cmds@[k]->number),
            forall|m: int| 0 <= m < i && (#[trigger] olds@[m]).source@ == src@ && !lines@.contains(olds@[m].line)
                ==> cmds@.contains(MiCommand::BreakDelete { number: olds@[m].number }),
        decreases olds@.len() - i,
    {
        let bp = &olds[i];
        if bp.source == *src && !contains_line(lines, bp.line) {
            let ghost c0 = cmds@;
            let c = MiCommand::BreakDelete { number: bp.number };
            proof {
                lemma_push_contains(c0, c);
                assert(removed(olds@, src@, lines@, bp.number)) by {
                    assert(olds@[i as int] == *bp);
                }
            }
            cmds.push(c);
            proof {
                let didx0 = didx;
                didx = didx.push(i as int);
                assert forall|a: int, b: int| 0 <= a < b < didx.len() implies #[trigger] didx[a] < #[trigger] didx[b] by {
                    assert(didx[a] == didx0[a]);
                    if b < didx0.len() {
                        assert(didx[b] == didx0[b]);
                    }
                }
                assert forall|k1: int, k2: int| 0 <= k1 < k2 < cmds@.len() implies (#[trigger] cmds@[k1])->number
                    != (#[trigger] cmds@[k2])->number by {
                    assert(cmds@[k1] == c0[k1]);
                    assert(didx[k1] < didx[k2]);
                    assert(cmds@[k1]->number == olds@[didx[k1]].number);
                    assert(cmds@[k2]->number == olds@[didx[k2]].number);
                }
            }
        } else {
            let ghost k0 = kept@;
            let ghost idx0 = idx;
            let b = copy_breakpoint(bp);
            proof {
                lemma_push_contains(k0, b);
                assert(olds@.contains(b)) by {
                    assert(olds@[i as int] == b);
                }
            }
            kept.push(b);
            proof {
                idx = idx.push(i as int);
                assert forall|a: int, c: int| 0 <= a < c < kept@.len() implies (#[trigger] kept@[a]).number
                    != (#[trigger] kept@[c]).number by {
                    assert(idx[a] < idx[c]) by {
                        if c < idx0.len() {
                            assert(idx[a] == idx0[a] && idx[c] == idx0[c]);
                        } else {
                            assert(idx[a] == idx0[a]);
                        }
                    }
                    assert(kept@[a] == olds@[idx[a]]);
                    assert(kept@[c] == olds@[idx[c]]);
                }
            }
        }
        i = i + 1;
    }
    (kept, cmds)
}

/// Inserts a breakpoint, numbered from `first`, at each line of `lines`
/// that has none in `src` yet, each line once.
fn plan_insertions(
    kept: &mut Vec<PlacedBreakpoint>,
    cmds: &mut Vec<MiCommand>,
    src: &String,
    lines: &Vec<i64>,
    first: u64,
) -> (r: Option<u64>)
    requires
        numbers_distinct(old(kept)@),
        forall|j: int| 0 <= j < old(kept)@.len() ==> (#[trigger] old(kept)@[j]).number < first,
    ensures
        r is None ==> first + new_lines(old(kept)@, src@, lines@).len() > u64::MAX,
        r is Some ==> r->0 == first + new_lines(old(kept)@, src@, lines@).len(),
        r is Some ==> numbers_distinct(final(kept)@),
        r is Some ==> forall|j: int| 0 <= j < final(kept)@.len() ==> (#[trigger] final(kept)@[j]).number < r->0,
        final(kept)@.len() >= old(kept)@.len(),
        forall|j: int| 0 <= j < old(kept)@.len() ==> #[trigger] final(kept)@[j] == old(kept)@[j],
        forall|j: int| old(kept)@.len() <= j < final(kept)@.len() ==> (#[trigger] final(kept)@[j]).source@ == src@
            && lines@.contains(final(kept)@[j].line),
        r is Some ==> forall|l: i64| #[trigger] has_line(final(kept)@, src@, l) <==> (has_line(old(kept)@, src@, l)
            || lines@.contains(l)),
        final(cmds)@.len() >= old(cmds)@.len(),
        forall|k: int| 0 <= k < old(cmds)@.len() ==> #[trigger] final(cmds)@[k] == old(cmds)@[k],
        forall|k: int| old(cmds)@.len() <= k < final(cmds)@.len() ==> (#[trigger] final(cmds)@[k]) is BreakInsert
            && final(cmds)@[k]->source@ == src@ && lines@.contains(final(cmds)@[k]->line)
            && !has_line(old(kept)@, src@, final(cmds)@[k]->line),
        r is Some ==> forall|l: i64| lines@.contains(l) && !has_line(old(kept)@, src@, l) ==> exists|k: int|
            old(cmds)@.len() <= k < final(cmds)@.len() && #[trigger] inserts(final(cmds)@[k], src@, l),
        forall|k1: int, k2: int| old(cmds)@.len() <= k1 < k2 < final(cmds)@.len()
            ==> (#[trigger] final(cmds)@[k1])->line != (#[trigger] final(cmds)@[k2])->line,
{
    let ghost k_in = kept@;
    let ghost c_in = cmds@;
    let ghost target = new_lines(k_in, src@, lines@);
    proof {
        seq_to_set_is_finite(lines@);
        assert(target.finite());
    }
    let ghost mut added: Set<i64> = Set::empty();
    let mut next = first;
    let mut j: usize = 0;
    while j < lines.len()
        invariant
            j <= lines@.len(),
            k_in == old(kept)@,
            c_in == old(cmds)@,
            target == new_lines(k_in, src@, lines@),
            target.finite(),
            added.finite(),
            next == first + added.len(),
            forall|l: i64| #[trigger] added.contains(l) <==> (has_line(kept@, src@, l) && !has_line(k_in, src@, l)),
            numbers_distinct(kept@),
            forall|i: int| 0 <= i < kept@.len() ==> (#[trigger] kept@[i]).number < next,
            kept@.len() >= k_in.len(),
            forall|i: int| 0 <= i < k_in.len() ==> #[trigger] kept@[i] == k_in[i],
            forall|i: int| k_in.len() <= i < kept@.len() ==> (#[trigger] kept@[i]).source@ == src@
                && lines@.contains(kept@[i].line),
            forall|l: i64| #[trigger] has_line(kept@, src@, l) ==> (has_line(k_in, src@, l) || lines@.contains(l)),
            forall|l: i64| has_line(k_in, src@, l) ==> #[trigger] has_line(kept@, src@, l),
            forall|jj: int| 0 <= jj < j ==> has_line(kept@, src@, #[trigger] lines@[jj]),
            cmds@.len() >= c_in.len(),
            forall|k: int| 0 <= k < c_in.len() ==> #[trigger] cmds@[k] == c_in[k],
            forall|k: int| c_in.len() <= k < cmds@.len() ==> (#[trigger] cmds@[k]) is BreakInsert
                && cmds@[k]->source@ == src@ && lines@.contains(cmds@[k]->line)
                && !has_line(k_in, src@, cmds@[k]->line) && has_line(kept@, src@, cmds@[k]->line),
            forall|l: i64| #[trigger] has_line(kept@, src@, l) && !has_line(k_in, src@, l) ==> exists|k: int|
                c_in.len() <= k < cmds@.len() && inserts(cmds@[k], src@, l),
            forall|k1: int, k2: int| c_in.len() <= k1 < k2 < cmds@.len()
                ==> (#[trigger] cmds@[k1])->line != (#[trigger] cmds@[k2])->line,
        decreases lines@.len() - j,
    {
        let line = lines[j];
        if !has_breakpoint(kept, src, line) {
            proof {
                assert(!added.contains(line));
                assert(!has_line(k_in, src@, line)) by {
                    if has_line(k_in, src@, line) {
                        assert(has_line(kept@, src@, line));
                    }
                }
                assert(lines@.contains(line)) by {
                    assert(lines@[j as int] == line);
                }
                assert(added.insert(line).subset_of(target)) by {
                    assert forall|l: i64| added.insert(l).contains(l) && #[trigger] added.insert(line).contains(l)
                        implies target.contains(l) by {
                        if l != line {
                            assert(added.contains(l));
                        }
                    }
                }
                lemma_len_subset(added.insert(line), target);
                assert(added.insert(line).len() == added.len() + 1);
            }
            if next == u64::MAX {
                return None;
            }
            let ghost kept0 = kept@;
            let ghost cmds0 = cmds@;
            cmds.push(MiCommand::BreakInsert { source: src.clone(), line });
            kept.push(PlacedBreakpoint { source: src.clone(), line, number: next });
            next = next + 1;
            proof {
                added = added.insert(line);
                assert forall|l: i64| #[trigger] added.contains(l) implies (has_line(kept@, src@, l) && !has_line(
                    k_in,
                    src@,
                    l,
                )) by {
                    if l != line {
                        let w = choose|w: int| 0 <= w < kept0.len() && (#[trigger] kept0[w]).source@ == src@ && kept0[w].line == l;
                        assert(kept@[w] == kept0[w]);
                    } else {
                        assert(kept@[kept@.len() - 1].source@ == src@);
                    }
                }
                assert forall|l: i64| has_line(kept@, src@, l) && !has_line(k_in, src@, l) implies #[trigger] added.contains(l) by {
                    if l != line {
                        let w = choose|w: int| 0 <= w < kept@.len() && (#[trigger] kept@[w]).source@ == src@ && kept@[w].line == l;
                        assert(w < kept0.len());
                        assert(kept0[w] == kept@[w]);
                        assert(has_line(kept0, src@, l));
                    }
                }
                assert forall|a: int, c: int| 0 <= a < c < kept@.len() implies (#[trigger] kept@[a]).number
                    != (#[trigger] kept@[c]).number by {
                    assert(kept@[a] == kept0[a]);
                    if c < kept0.len() {
                        assert(kept@[c] == kept0[c]);
                    }
                }
                assert forall|i: int| 0 <= i < kept@.len() implies (#[trigger] kept@[i]).number < next by {
                    if i < kept0.len() {
                        assert(kept@[i] == kept0[i]);
                    }
                }
                assert(kept@[kept@.len() - 1].source@ == src@);
                assert(has_line(kept@, src@, line));
                assert forall|l: i64| #[trigger] has_line(kept@, src@, l) implies (has_line(k_in, src@, l)
                    || lines@.contains(l)) by {
                    let w = choose|w: int| 0 <= w < kept@.len() && (#[trigger] kept@[w]).source@ == src@ && kept@[w].line == l;
                    if w < kept0.len() {
                        assert(kept0[w] == kept@[w]);
                        assert(has_line(kept0, src@, l));
                    } else {
                        assert(lines@[j as int] == l);
                    }
                }
                assert forall|l: i64| has_line(kept0, src@, l) implies #[trigger] has_line(kept@, src@, l) by {
                    let w = choose|w: int| 0 <= w < kept0.len() && (#[trigger] kept0[w]).source@ == src@ && kept0[w].line == l;
                    assert(kept@[w] == kept0[w]);
                }
                assert(inserts(cmds@[cmds@.len() - 1], src@, line));
                assert(!has_line(k_in, src@, line));
                assert forall|k: int| c_in.len() <= k < cmds@.len() implies has_line(kept@, src@, #[trigger] cmds@[k]->line) by {
                    if k < cmds0.len() {
                        assert(cmds@[k] == cmds0[k]);
                    }
                }
                assert forall|k1: int, k2: int| c_in.len() <= k1 < k2 < cmds@.len()
                    implies (#[trigger] cmds@[k1])->line != (#[trigger] cmds@[k2])->line by {
                    if k2 == cmds@.len() - 1 {
                        assert(cmds@[k1] == cmds0[k1]);
                        assert(has_line(kept0, src@, cmds0[k1]->line));
                    } else {
                        assert(cmds@[k1] == cmds0[k1]);
                        assert(cmds@[k2] == cmds0[k2]);
                    }
                }
                assert forall|l: i64| #[trigger] has_line(kept@, src@, l) && !has_line(k_in, src@, l) implies exists|k: int|
                    c_in.len() <= k < cmds@.len() && inserts(cmds@[k], src@, l) by {
                    if l == line {
                        assert(inserts(cmds@[cmds@.len() - 1], src@, l));
                    } else {
                        let w = choose|w: int| 0 <= w < kept@.len() && (#[trigger] kept@[w]).source@ == src@ && kept@[w].line == l;
                        assert(w < kept0.len());
                        assert(kept0[w] == kept@[w]);
                        assert(has_line(kept0, src@, l));
                        let k = choose|k: int| c_in.len() <= k < cmds0.len() && inserts(cmds0[k], src@, l);
                        assert(cmds@[k] == cmds0[k]);
                    }
                }
            }
        }
        j = j + 1;
    }
    proof {
        assert forall|l: i64| lines@.contains(l) implies #[trigger] has_line(kept@, src@, l) by {
            let jj = choose|jj: int| 0 <= jj < lines@.len() && lines@[jj] == l;
            assert(has_line(kept@, src@, lines@[jj]));
        }
        assert(added =~= target);
    }
    Some(next)
}

impl DriverGDB {
    /// The invariant: the debugger numbered each placed breakpoint once, and
    /// below the next number it will give.
    pub open spec fn wf(&self) -> bool {
        &&& numbers_distinct(self.breakpoints@)
        &&& forall|i: int| 0 <= i < self.breakpoints@.len() ==> (#[trigger] self.breakpoints@[i]).number < self.next_number
    }

    /// A driver with no subprocess and no breakpoints.
    pub fn new() -> (r: Self)
        ensures
            r.wf(),
            !r.launched,
            r.breakpoints@.len() == 0,
            r.next_number == 1,
    {
        DriverGDB { launched: false, breakpoints: Vec::new(), next_number: 1 }
    }

    /// Hands one command line to the subprocess; refused while none is live.
    pub fn send_cmd_raw(&self, cmd: &str) -> (r: Result<Message, DriverError>)
        ensures
            !self.launched ==> r == Err::<Message, DriverError>(DriverError::NotRunning),
            self.launched ==> r is Ok && r->Ok_0 is Command && r->Ok_0->text@ == cmd@,
    {
        if !self.launched {
            return Err(DriverError::NotRunning);
        }
        Ok(Message::Command { text: String::from_str(cmd) })
    }

    /// The work that starts the debugger and loads the program, its path
    /// normalized; refused when no program is named, or else when a debugger
    /// is live.
    pub fn launch(&self, launch_args: &LaunchRequestArguments) -> (r: Result<Message, DriverError>)
        ensures
            launch_args.program is None ==> r == Err::<Message, DriverError>(DriverError::MissingExecutable),
            launch_args.program is Some && self.launched ==> r == Err::<Message, DriverError>(
                DriverError::AlreadyRunning,
            ),
            launch_args.program is Some && !self.launched ==> r is Ok && r->Ok_0 is Launch
                && r->Ok_0->load_command@ == exec_and_symbols_text(launch_args.program->0@),
    {
        match &launch_args.program {
            None => Err(DriverError::MissingExecutable),
            Some(program) => {
                if self.launched {
                    return Err(DriverError::AlreadyRunning);
                }
                Ok(Message::Launch { load_command: exec_and_symbols_command(program.as_str()) })
            },
        }
    }

    /// Records how the launch of `program` went: on `done` the subprocess is
    /// live and the process event is returned.
    pub fn launch_finished(&mut self, program: &str, outcome: LaunchOutcome) -> (r: Result<ProcessEventBody, DriverError>)
        ensures
            final(self).breakpoints == old(self).breakpoints,
            final(self).next_number == old(self).next_number,
            outcome is SpawnFailed ==> r == Err::<ProcessEventBody, DriverError>(DriverError::StartFailed)
                && final(self).launched == old(self).launched,
            outcome is Loaded && outcome->class != ResultClass::Done ==> r == Err::<ProcessEventBody, DriverError>(
                DriverError::LoadFailed { content: outcome->content },
            ) && final(self).launched == old(self).launched,
            outcome is Loaded && outcome->class == ResultClass::Done ==> r is Ok && final(self).launched
                && launched_process(program@, r->Ok_0),
    {
        match outcome {
            LaunchOutcome::SpawnFailed => Err(DriverError::StartFailed),
            LaunchOutcome::Loaded { class, content } => {
                if class != ResultClass::Done {
                    return Err(DriverError::LoadFailed { content });
                }
                self.launched = true;
                Ok(ProcessEventBody {
                    name: normalize_path(program),
                    system_process_id: Some(-1),
                    is_local_process: Some(true),
                    start_method: Some(ProcessEventStartMethod::Launch),
                    pointer_size: Some(8),
                })
            },
        }
    }

    /// Brings the breakpoints of one source file to the lines asked for:
    /// deletes those no longer wanted, inserts each wanted line that has none
    /// yet, and leaves the other files alone. Lines that already hold a
    /// breakpoint give no command.
    pub fn set_breakpoints(&mut self, args: &SetBreakpointsArguments) -> (r: Result<Vec<MiCommand>, DriverError>)
        requires
            old(self).wf(),
        ensures
            final(self).wf(),
            !old(self).launched ==> r == Err::<Vec<MiCommand>, DriverError>(DriverError::NotRunning),
            old(self).launched && args.source_path is None ==> r == Err::<Vec<MiCommand>, DriverError>(
                DriverError::MissingSource,
            ),
            old(self).launched && args.source_path is Some && old(self).next_number + new_lines(
                old(self).breakpoints@,
                args.source_path->0@,
                args.lines@,
            ).len() > u64::MAX ==> r == Err::<Vec<MiCommand>, DriverError>(DriverError::Exhausted),
            r is Err ==> *final(self) == *old(self),
            old(self).launched && args.source_path is Some && old(self).next_number + new_lines(
                old(self).breakpoints@,
                args.source_path->0@,
                args.lines@,
            ).len() <= u64::MAX ==> r is Ok,
            r is Ok ==> set_breakpoints_post(
                *old(self),
                args.source_path->0@,
                args.lines@,
                *final(self),
                r->Ok_0@,
            ),
    {
        if !self.launched {
            return Err(DriverError::NotRunning);
        }
        let src = match &args.source_path {
            None => {
                return Err(DriverError::MissingSource);
            },
            Some(s) => s,
        };
        let ghost olds = self.breakpoints@;
        let ghost lines = args.lines@;
        let (mut kept, mut cmds) = plan_removals(&self.breakpoints, src, &args.lines);
        let ghost mid = kept@;
        proof {
            assert forall|j: int| 0 <= j < mid.len() implies (#[trigger] mid[j]).number < self.next_number by {
                assert(olds.contains(mid[j]));
            }
        }
        let ghost deletes = cmds@;
        let next = match plan_insertions(&mut kept, &mut cmds, src, &args.lines, self.next_number) {
            None => {
                proof {
                    assert(new_lines(mid, src@, lines) =~= new_lines(olds, src@, lines)) by {
                        lemma_kept_lines(olds, mid, src@, lines);
                    }
                }
                return Err(DriverError::Exhausted);
            },
            Some(n) => n,
        };
        proof {
            lemma_kept_lines(olds, mid, src@, lines);
            assert(new_lines(mid, src@, lines) =~= new_lines(olds, src@, lines));
            let news = kept@;
            assert forall|l: i64| has_line(olds, src@, l) && lines.contains(l) implies has_line(mid, src@, l) by {
                let m = choose|m: int| 0 <= m < olds.len() && (#[trigger] olds[m]).source@ == src@ && olds[m].line == l;
                assert(mid.contains(olds[m]));
                let w = choose|w: int| 0 <= w < mid.len() && mid[w] == olds[m];
            }
            assert forall|l: i64| has_line(mid, src@, l) implies has_line(olds, src@, l) && lines.contains(l) by {
                let w = choose|w: int| 0 <= w < mid.len() && (#[trigger] mid[w]).source@ == src@ && mid[w].line == l;
                assert(olds.contains(mid[w]));
                let m = choose|m: int| 0 <= m < olds.len() && olds[m] == mid[w];
                assert(olds[m].source@ == src@);
            }
            assert forall|l: i64| #[trigger] has_line(news, src@, l) <==> lines.to_set().contains(l) by {
                assert(has_line(news, src@, l) <==> (has_line(mid, src@, l) || lines.contains(l)));
            }
            assert(lines_at(news, src@) =~= lines.to_set());
            assert forall|s: Seq<char>| s != src@ implies lines_at(news, s) == lines_at(olds, s) by {
                assert forall|l: i64| has_line(news, s, l) <==> has_line(olds, s, l) by {
                    if has_line(news, s, l) {
                        let w = choose|w: int| 0 <= w < news.len() && (#[trigger] news[w]).source@ == s && news[w].line == l;
                        assert(w < mid.len());
                        assert(news[w] == mid[w]);
                        assert(olds.contains(mid[w]));
                        let m = choose|m: int| 0 <= m < olds.len() && olds[m] == mid[w];
                        assert(olds[m].source@ == s);
                    }
                    if has_line(olds, s, l) {
                        let m = choose|m: int| 0 <= m < olds.len() && (#[trigger] olds[m]).source@ == s && olds[m].line == l;
                        assert(mid.contains(olds[m]));
                        let w = choose|w: int| 0 <= w < mid.len() && mid[w] == olds[m];
                        assert(news[w] == mid[w]);
                    }
                }
                assert(lines_at(news, s) =~= lines_at(olds, s));
            }
            let cs = cmds@;
            assert forall|k: int| 0 <= k < cs.len() implies match #[trigger] cs[k] {
                MiCommand::BreakInsert { source, line } => source@ == src@ && lines.contains(line)
                    && !has_line(olds, src@, line),
                MiCommand::BreakDelete { number } => removed(olds, src@, lines, number),
            } by {
                if k < deletes.len() {
                    assert(cs[k] == deletes[k]);
                } else {
                    if has_line(olds, src@, cs[k]->line) {
                        assert(has_line(mid, src@, cs[k]->line));
                    }
                }
            }
            assert forall|i: int| 0 <= i < olds.len() && (#[trigger] olds[i]).source@ == src@
                && !lines.contains(olds[i].line) implies cs.contains(MiCommand::BreakDelete { number: olds[i].number }) by {
                let c = MiCommand::BreakDelete { number: olds[i].number };
                assert(deletes.contains(c));
                let k = choose|k: int| 0 <= k < deletes.len() && deletes[k] == c;
                assert(cs[k] == deletes[k]);
            }
            assert forall|l: i64| lines.contains(l) && !has_line(olds, src@, l) implies exists|k: int|
                0 <= k < cs.len() && #[trigger] inserts(cs[k], src@, l) by {
                assert(!has_line(mid, src@, l));
            }
            assert forall|k1: int, k2: int| 0 <= k1 < k2 < cs.len() && cs[k1] is BreakInsert
                && cs[k2] is BreakInsert implies (#[trigger] cs[k1])->line != (#[trigger] cs[k2])->line by {
                if k1 < deletes.len() {
                    assert(cs[k1] == deletes[k1]);
                } else if k2 < deletes.len() {
                    assert(cs[k2] == deletes[k2]);
                }
            }
        }
        self.breakpoints = kept;
        self.next_number = next;
        Ok(cmds)
    }

    /// Records that the subprocess has exited.
    pub fn process_exited(&mut self)
        ensures
            !final(self).launched,
            final(self).breakpoints == old(self).breakpoints,
            final(self).next_number == old(self).next_number,
    {
        self.launched = false;
    }
}

impl Driver for DriverGDB {
    open spec fn inv(&self) -> bool {
        self.wf()
    }

    open spec fn running(&self) -> bool {
        self.launched
    }

    fn launch(&self, launch_args: &LaunchRequestArguments) -> Result<Message, DriverError> {
        DriverGDB::launch(self, launch_args)
    }

    fn send_cmd_raw(&self, cmd: &str) -> Result<Message, DriverError> {
        DriverGDB::send_cmd_raw(self, cmd)
    }

    fn set_breakpoints(&mut self, args: &SetBreakpointsArguments) -> Result<Vec<MiCommand>, DriverError> {
        DriverGDB::set_breakpoints(self, args)
    }
}

/// Asking twice in a row for the same breakpoints of a file sends no command
/// the second time and uses no breakpoint number: the first call already
/// placed exactly those lines.
pub proof fn lemma_set_breakpoints_idempotent(
    d0: DriverGDB,
    src: Seq<char>,
    lines: Seq<i64>,
    d1: DriverGDB,
    cmds1: Seq<MiCommand>,
    d2: DriverGDB,
    cmds2: Seq<MiCommand>,
)
    requires
        set_breakpoints_post(d0, src, lines, d1, cmds1),
        set_breakpoints_post(d1, src, lines, d2, cmds2),
    ensures
        cmds2.len() == 0,
        lines_at(d2.breakpoints@, src) == lines_at(d1.breakpoints@, src),
        d2.next_number == d1.next_number,
{
    assert(new_lines(d1.breakpoints@, src, lines) =~= Set::<i64>::empty());
    if cmds2.len() > 0 {
        match cmds2[0] {
            MiCommand::BreakInsert { source, line } => {
                assert(lines.to_set().contains(line));
                assert(lines_at(d1.breakpoints@, src).contains(line));
            },
            MiCommand::BreakDelete { number } => {
                let m = choose|m: int| 0 <= m < d1.breakpoints@.len() && (#[trigger] d1.breakpoints@[m]).source@ == src
                    && d1.breakpoints@[m].number == number && !lines.contains(d1.breakpoints@[m].line);
                let l = d1.breakpoints@[m].line;
                assert(has_line(d1.breakpoints@, src, l));
                assert(lines_at(d1.breakpoints@, src).contains(l));
                assert(lines.to_set().contains(l));
            },
        }
    }
}

} // verus!
