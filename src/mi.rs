//! The GDB machine interface: paths, command text and output records.
use vstd::prelude::*;

verus! {

/// `s` with every occurrence of `from` replaced by `to`.
pub open spec fn replaced(s: Seq<char>, from: char, to: Seq<char>) -> Seq<char>
    decreases s.len(),
{
    if s.len() == 0 {
        Seq::empty()
    } else {
        replaced(s.drop_last(), from, to) + if s.last() == from {
            to
        } else {
            seq![s.last()]
        }
    }
}

/// The forward-slash form of a path: each backslash becomes a slash.
pub open spec fn normalized(s: Seq<char>) -> Seq<char> {
    s.map_values(|c: char| if c == '\\' { '/' } else { c })
}

/// Relies on str::replace with a `char` pattern: every occurrence of `from`
/// is replaced by `to`, the rest of the text is kept in order.
#[verifier::external_body]
fn replace_char(s: &str, from: char, to: &str) -> (r: String)
    ensures
        r@ == replaced(s@, from, to@),
{
    s.replace(from, to)
}

proof fn lemma_replaced_slash(s: Seq<char>)
    ensures
        replaced(s, '\\', seq!['/']) == normalized(s),
    decreases s.len(),
{
    if s.len() > 0 {
        lemma_replaced_slash(s.drop_last());
        assert(normalized(s) =~= normalized(s.drop_last()) + seq![normalized(s).last()]);
    } else {
        assert(normalized(s) =~= Seq::<char>::empty());
    }
}

/// Rewrites a path with forward slashes only, so that no backslash reaches
/// the line-oriented command text.
pub fn normalize_path(path: &str) -> (r: String)
    ensures
        r@ == normalized(path@),
{
    let slash = "/";
    proof {
        reveal_strlit("/");
        assert(slash@ =~= seq!['/']);
        lemma_replaced_slash(path@);
    }
    replace_char(path, '\\', slash)
}

/// Normalizing twice changes nothing more, and two spellings of a path that
/// differ only in the kind of separator normalize to the same text.
pub proof fn lemma_normalize_idempotent(a: Seq<char>, b: Seq<char>)
    requires
        a.len() == b.len(),
        forall|i: int| 0 <= i < a.len() ==> (#[trigger] a[i] == b[i]) || ((a[i] == '\\' || a[i] == '/') && (b[i] == '\\' || b[i] == '/')),
    ensures
        normalized(normalized(a)) == normalized(a),
        normalized(a) == normalized(b),
{
    assert(normalized(normalized(a)) =~= normalized(a));
    assert(normalized(a) =~= normalized(b));
}

/// The decimal digit for `d`, which is below ten.
pub open spec fn digit_char(d: nat) -> char {
    if d == 0 { '0' } else if d == 1 { '1' } else if d == 2 { '2' } else if d == 3 { '3' }
    else if d == 4 { '4' } else if d == 5 { '5' } else if d == 6 { '6' } else if d == 7 { '7' }
    else if d == 8 { '8' } else { '9' }
}

/// The decimal text of a natural number, without leading zeros.
pub open spec fn nat_text(n: nat) -> Seq<char>
    decreases n,
{
    if n < 10 {
        seq![digit_char(n)]
    } else {
        nat_text(n / 10).push(digit_char(n % 10))
    }
}

/// The decimal text of an integer, with a minus sign when it is negative.
pub open spec fn int_text(n: int) -> Seq<char> {
    if n < 0 {
        seq!['-'] + nat_text((-n) as nat)
    } else {
        nat_text(n as nat)
    }
}

fn digit_str(d: u64) -> (r: &'static str)
    requires
        d < 10,
    ensures
        r@ == seq![digit_char(d as nat)],
{
    proof {
        reveal_strlit("0");
        reveal_strlit("1");
        reveal_strlit("2");
        reveal_strlit("3");
        reveal_strlit("4");
        reveal_strlit("5");
        reveal_strlit("6");
        reveal_strlit("7");
        reveal_strlit("8");
        reveal_strlit("9");
    }
    let r = if d == 0 { "0" } else if d == 1 { "1" } else if d == 2 { "2" } else if d == 3 { "3" }
    else if d == 4 { "4" } else if d == 5 { "5" } else if d == 6 { "6" } else if d == 7 { "7" }
    else if d == 8 { "8" } else { "9" };
    assert(r@ =~= seq![digit_char(d as nat)]);
    r
}

/// Decimal text of an unsigned number.
pub fn nat_to_text(n: u64) -> (r: String)
    ensures
        r@ == nat_text(n as nat),
    decreases n,
{
    if n < 10 {
        String::from_str(digit_str(n))
    } else {
        let mut r = nat_to_text(n / 10);
        r.append(digit_str(n % 10));
        r
    }
}

/// Decimal text of a signed number.
pub fn int_to_text(n: i64) -> (r: String)
    ensures
        r@ == int_text(n as int),
{
    if n < 0 {
        let m: u64 = (0i128 - (n as i128)) as u64;
        let mut r = String::from_str("-");
        proof {
            reveal_strlit("-");
        }
        r.append(nat_to_text(m).as_str());
        assert(r@ =~= int_text(n as int));
        r
    } else {
        nat_to_text(n as u64)
    }
}

/// The command that loads an executable and its symbols into the debugger.
pub open spec fn exec_and_symbols_text(program: Seq<char>) -> Seq<char> {
    "-file-exec-and-symbols \""@ + normalized(program) + "\""@
}

/// Builds the load command for `program`, with its path normalized.
pub fn exec_and_symbols_command(program: &str) -> (r: String)
    ensures
        r@ == exec_and_symbols_text(program@),
{
    let mut r = String::from_str("-file-exec-and-symbols \"");
    let path = normalize_path(program);
    r.append(path.as_str());
    r.append("\"");
    r
}

/// A breakpoint command of the machine interface.
#[derive(Clone, Debug, PartialEq, Eq)]
pub enum MiCommand {
    /// Insert a breakpoint at a line of a source file.
    BreakInsert { source: String, line: i64 },
    /// Delete the breakpoint that the debugger numbered `number`.
    BreakDelete { number: u64 },
}

/// The text of a breakpoint command, as written to the debugger.
pub open spec fn command_text(c: MiCommand) -> Seq<char> {
    match c {
        MiCommand::BreakInsert { source, line } => "-break-insert \""@ + normalized(source@) + ":"@
            + int_text(line as int) + "\""@,
        MiCommand::BreakDelete { number } => "-break-delete "@ + nat_text(number as nat),
    }
}

impl MiCommand {
    /// The command line for this command.
    pub fn to_text(&self) -> (r: String)
        ensures
            r@ == command_text(*self),
    {
        match self {
            MiCommand::BreakInsert { source, line } => {
                let mut r = String::from_str("-break-insert \"");
                let path = normalize_path(source.as_str());
                r.append(path.as_str());
                r.append(":");
                let n = int_to_text(*line);
                r.append(n.as_str());
                r.append("\"");
                r
            },
            MiCommand::BreakDelete { number } => {
                let mut r = String::from_str("-break-delete ");
                let n = nat_to_text(*number);
                r.append(n.as_str());
                r
            },
        }
    }
}

/// The outcome tag of a result record.
#[derive(Clone, Copy, Debug, PartialEq, Eq, Structural)]
pub enum ResultClass {
    Done,
    Running,
    Error,
    Exit,
    Connected,
}

/// One decoded unit of debugger output.
#[derive(Clone, Debug, PartialEq, Eq)]
pub enum Record {
    /// The reply to a command: its class and its key/value content as text.
    Result { class: ResultClass, content: String },
    /// An out-of-band notification, such as a created breakpoint or a stop.
    Async { class: String, content: String },
    /// Console or log text, for information only.
    Stream { text: String },
}

impl Record {
    pub open spec fn is_result(self) -> bool {
        self is Result
    }

    pub open spec fn is_async(self) -> bool {
        self is Async
    }
}

/// One step of the command/result correlation: a result record ends the
/// wait and is returned; an async record is kept in `skipped`, in order, for
/// later processing; stream text is dropped.
pub fn correlate(skipped: &mut Vec<Record>, record: Record) -> (r: Option<Record>)
    ensures
        record.is_result() ==> r == Some(record) && final(skipped)@ == old(skipped)@,
        record.is_async() ==> r is None && final(skipped)@ == old(skipped)@.push(record),
        record is Stream ==> r is None && final(skipped)@ == old(skipped)@,
{
    match record {
        Record::Result { .. } => Some(record),
        Record::Async { .. } => {
            skipped.push(record);
            None
        },
        Record::Stream { .. } => None,
    }
}

} // verus!
