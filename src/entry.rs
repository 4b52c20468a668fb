//! The recorder: created when a unit of work starts, consumed when it ends.
use vstd::prelude::*;
use crate::duration::{elapsed, elapsed_ns, format_time, time_text};
use crate::frames::{capture_frames, frames_text, lemma_first_symbol_first, push_frames, symbol_text, StackFrame};

verus! {

/// The line prefix for a unit of work: its method, a space, and its target.
pub open spec fn line_of(method: Seq<char>, target: Seq<char>) -> Seq<char> {
    method + " "@ + target
}

/// The entry written when the work ended normally after `elapsed_ns` nanoseconds.
pub open spec fn timed_lines(line: Seq<char>, elapsed_ns: nat) -> Seq<char> {
    line + " - "@ + time_text(elapsed_ns) + "\n"@
}

/// The entry written when the work failed, with the stack `frames`.
pub open spec fn panic_lines(line: Seq<char>, frames: Seq<StackFrame>) -> Seq<char> {
    line + " - "@ + " - PANIC!\n"@ + frames_text(frames) + "\n"@
}

/// An entry for a failed unit of work begins with its line and the marker
/// `PANIC!` on the first line, ends with a line break, and, where the innermost
/// frame resolved to a symbol, has that symbol's lines, numbered one and with
/// sentinels for what the resolver left out, right after the first line.
pub proof fn lemma_panic_layout(line: Seq<char>, frames: Seq<StackFrame>)
    ensures
        (line + " -  - PANIC!\n"@).is_prefix_of(panic_lines(line, frames)),
        "PANIC!"@ =~= panic_lines(line, frames).subrange(line.len() as int + 6, line.len() as int + 12),
        panic_lines(line, frames).last() == '\n',
        frames.len() > 0 && frames[0].symbols@.len() > 0 ==> (line + " -  - PANIC!\n"@
            + symbol_text(1, frames[0].ip as nat, frames[0].symbols@[0])).is_prefix_of(
            panic_lines(line, frames),
        ),
{
    reveal_strlit(" - ");
    reveal_strlit(" - PANIC!\n");
    reveal_strlit(" -  - PANIC!\n");
    reveal_strlit("PANIC!");
    reveal_strlit("\n");
    let head = line + " -  - PANIC!\n"@;
    let all = panic_lines(line, frames);
    assert(line + " - "@ + " - PANIC!\n"@ =~= head);
    assert(all =~= head + frames_text(frames) + "\n"@);
    assert(all.subrange(0, head.len() as int) =~= head);
    assert(all.subrange(line.len() as int + 6, line.len() as int + 12) =~= "PANIC!"@);
    if frames.len() > 0 && frames[0].symbols@.len() > 0 {
        lemma_first_symbol_first(frames);
        let a = symbol_text(1, frames[0].ip as nat, frames[0].symbols@[0]);
        let ft = frames_text(frames);
        assert(all.subrange(0, (head + a).len() as int) =~= head + ft.subrange(0, a.len() as int));
    }
}

/// Records one unit of work. It is made by `start` and consumed by `finish`,
/// which by taking it by value can produce its log entry only once.
pub struct LogEntry {
    line: String,
    start_time: u64,
}

/// Relies on time::precise_time_ns, a reading of a monotonic clock in
/// nanoseconds. A reading depends on when it is taken: nothing is promised of it.
#[verifier::external_body]
fn clock_ns() -> (r: u64) {
    time::precise_time_ns()
}

impl LogEntry {
    /// The line prefix, fixed when the entry was started.
    pub closed spec fn spec_line(&self) -> Seq<char> {
        self.line@
    }

    /// The clock reading taken when the entry was started.
    pub closed spec fn spec_start_time(&self) -> nat {
        self.start_time as nat
    }

    /// Starts an entry for the unit of work `method target`, reading the clock.
    pub fn start(method: &str, target: &str) -> (r: LogEntry)
        ensures
            r.spec_line() == line_of(method@, target@),
    {
        let mut line = String::from_str(method);
        line.append(" ");
        line.append(target);
        LogEntry { line, start_time: clock_ns() }
    }

    /// An entry with the given line prefix and start reading.
    pub fn with_start_time(line: &str, start_time: u64) -> (r: LogEntry)
        ensures
            r.spec_line() == line@,
            r.spec_start_time() == start_time as nat,
    {
        LogEntry { line: String::from_str(line), start_time }
    }

    /// The line prefix.
    pub fn line(&self) -> (r: &str)
        ensures
            r@ == self.spec_line(),
    {
        self.line.as_str()
    }

    /// The clock reading taken at the start.
    pub fn start_time(&self) -> (r: u64)
        ensures
            r as nat == self.spec_start_time(),
    {
        self.start_time
    }

    /// The entry for a normal end, with the clock reading `now`.
    pub fn render_elapsed(&self, now: u64) -> (r: String)
        ensures
            r@ == timed_lines(self.spec_line(), elapsed(self.spec_start_time(), now as nat)),
    {
        let mut out = self.line.clone();
        out.append(" - ");
        let took = format_time(elapsed_ns(self.start_time, now));
        out.append(took.as_str());
        out.append("\n");
        out
    }

    /// The entry for an abnormal end, with the captured stack `frames`.
    pub fn render_panic(&self, frames: &Vec<StackFrame>) -> (r: String)
        ensures
            r@ == panic_lines(self.spec_line(), frames@),
    {
        let mut out = self.line.clone();
        out.append(" - ");
        out.append(" - PANIC!\n");
        push_frames(&mut out, frames);
        out.append("\n");
        out
    }

    /// Ends the unit of work and returns its entry: the stack trace when
    /// `panicking`, otherwise the time elapsed since the start.
    pub fn finish(self, panicking: bool) -> (r: String)
        ensures
            panicking ==> exists|frames: Seq<StackFrame>|
                r@ == panic_lines(self.spec_line(), frames),
            !panicking ==> exists|now: nat|
                r@ == timed_lines(self.spec_line(), elapsed(self.spec_start_time(), now)),
    {
        if panicking {
            let frames = capture_frames();
            let r = self.render_panic(&frames);
            assert(r@ == panic_lines(self.spec_line(), frames@));
            r
        } else {
            let now = clock_ns();
            let r = self.render_elapsed(now);
            assert(r@ == timed_lines(self.spec_line(), elapsed(self.spec_start_time(), now as nat)));
            r
        }
    }
}

} // verus!
