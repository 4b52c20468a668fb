//! Stack frames captured on an abnormal exit, and their rendering.
use vstd::prelude::*;
use crate::text::{decimal, hex, pad_left, push_decimal, push_decimal_padded, push_hex};

verus! {

/// One symbol that an instruction address resolved to. Each text field is
/// `None` when the resolver gave nothing, and `Some(None)` when what it gave
/// was not valid text.
pub struct FrameSymbol {
    pub name: Option<Option<String>>,
    pub filename: Option<Option<String>>,
    pub lineno: Option<u32>,
}

/// One frame of a call stack: its instruction address and the symbols bound to it.
pub struct StackFrame {
    pub ip: usize,
    pub symbols: Vec<FrameSymbol>,
}

/// The text shown for a symbol field, with the sentinels for a missing or non-text value.
pub open spec fn field_text(f: Option<Option<String>>) -> Seq<char> {
    match f {
        None => "<unknown>"@,
        Some(None) => "<not-utf8>"@,
        Some(Some(s)) => s@,
    }
}

/// The text shown for a line number.
pub open spec fn lineno_text(l: Option<u32>) -> Seq<char> {
    match l {
        None => "??"@,
        Some(n) => decimal(n as nat),
    }
}

/// The two lines written for one symbol of frame number `num` at address `ip`.
pub open spec fn symbol_text(num: nat, ip: nat, sym: FrameSymbol) -> Seq<char> {
    pad_left(decimal(num), 4) + " - 0x"@ + hex(ip) + " - "@ + field_text(sym.name)
        + "\n       "@ + field_text(sym.filename) + ":"@ + lineno_text(sym.lineno) + "\n"@
}

/// The lines written for all symbols of frame number `num` at address `ip`, in order.
pub open spec fn symbols_text(num: nat, ip: nat, syms: Seq<FrameSymbol>) -> Seq<char>
    decreases syms.len(),
{
    if syms.len() == 0 {
        Seq::empty()
    } else {
        symbols_text(num, ip, syms.drop_last()) + symbol_text(num, ip, syms.last())
    }
}

/// The lines written for a whole stack, frames numbered from one, innermost first.
pub open spec fn frames_text(frames: Seq<StackFrame>) -> Seq<char>
    decreases frames.len(),
{
    if frames.len() == 0 {
        Seq::empty()
    } else {
        frames_text(frames.drop_last()) + symbols_text(
            frames.len(),
            frames.last().ip as nat,
            frames.last().symbols@,
        )
    }
}

/// The lines of the first symbols of a frame come first in the lines of the frame.
pub proof fn lemma_symbols_prefix(num: nat, ip: nat, syms: Seq<FrameSymbol>, k: int)
    requires
        0 <= k <= syms.len(),
    ensures
        symbols_text(num, ip, syms.take(k)).is_prefix_of(symbols_text(num, ip, syms)),
    decreases syms.len(),
{
    if k < syms.len() {
        lemma_symbols_prefix(num, ip, syms.drop_last(), k);
        assert(syms.drop_last().take(k) =~= syms.take(k));
    } else {
        assert(syms.take(k) =~= syms);
    }
}

/// The lines of the innermost frames come first in the lines of the stack.
pub proof fn lemma_frames_prefix(frames: Seq<StackFrame>, k: int)
    requires
        0 <= k <= frames.len(),
    ensures
        frames_text(frames.take(k)).is_prefix_of(frames_text(frames)),
    decreases frames.len(),
{
    if k < frames.len() {
        lemma_frames_prefix(frames.drop_last(), k);
        assert(frames.drop_last().take(k) =~= frames.take(k));
    } else {
        assert(frames.take(k) =~= frames);
    }
}

/// A stack whose innermost frame resolved to a symbol begins with that
/// symbol's lines, numbered one.
pub proof fn lemma_first_symbol_first(frames: Seq<StackFrame>)
    requires
        frames.len() > 0,
        frames[0].symbols@.len() > 0,
    ensures
        symbol_text(1, frames[0].ip as nat, frames[0].symbols@[0]).is_prefix_of(
            frames_text(frames),
        ),
{
    let f = frames[0];
    let one = frames.take(1);
    lemma_frames_prefix(frames, 1);
    assert(one.drop_last() =~= Seq::<StackFrame>::empty());
    assert(one.len() == 1 && one.last() == f);
    assert(frames_text(one.drop_last()) =~= Seq::<char>::empty());
    assert(frames_text(one) =~= symbols_text(1, f.ip as nat, f.symbols@));
    lemma_symbols_prefix(1, f.ip as nat, f.symbols@, 1);
    let s1 = f.symbols@.take(1);
    assert(s1.drop_last() =~= Seq::<FrameSymbol>::empty());
    assert(s1.len() == 1 && s1.last() == f.symbols@[0]);
    assert(symbols_text(1, f.ip as nat, s1.drop_last()) =~= Seq::<char>::empty());
    assert(symbols_text(1, f.ip as nat, f.symbols@.take(1)) =~= symbol_text(
        1,
        f.ip as nat,
        f.symbols@[0],
    ));
    let a = symbol_text(1, f.ip as nat, f.symbols@[0]);
    let b = symbols_text(1, f.ip as nat, f.symbols@);
    let c = frames_text(frames);
    assert(c.subrange(0, a.len() as int) =~= b.subrange(0, a.len() as int));
}

fn push_field(out: &mut String, f: &Option<Option<String>>)
    ensures
        final(out)@ == old(out)@ + field_text(*f),
{
    match f {
        None => out.append("<unknown>"),
        Some(None) => out.append("<not-utf8>"),
        Some(Some(s)) => out.append(s.as_str()),
    }
}

/// Appends the two lines for one symbol of frame number `num` at address `ip`.
pub fn push_symbol(out: &mut String, num: u64, ip: usize, sym: &FrameSymbol)
    ensures
        final(out)@ == old(out)@ + symbol_text(num as nat, ip as nat, *sym),
{
    let ghost start = out@;
    push_decimal_padded(out, num, 4);
    out.append(" - 0x");
    push_hex(out, ip as u64);
    out.append(" - ");
    push_field(out, &sym.name);
    out.append("\n       ");
    push_field(out, &sym.filename);
    out.append(":");
    match sym.lineno {
        None => out.append("??"),
        Some(n) => push_decimal(out, n as u64),
    }
    out.append("\n");
    assert(out@ =~= start + symbol_text(num as nat, ip as nat, *sym));
}

/// Appends the lines for every frame of `frames`, numbering them from one.
pub fn push_frames(out: &mut String, frames: &Vec<StackFrame>)
    ensures
        final(out)@ == old(out)@ + frames_text(frames@),
{
    let ghost start = out@;
    let mut i: usize = 0;
    while i < frames.len()
        invariant
            i <= frames@.len(),
            out@ == start + frames_text(frames@.take(i as int)),
        decreases frames@.len() - i,
    {
        let frame = &frames[i];
        let num: usize = i + 1;
        let ghost before = out@;
        let mut j: usize = 0;
        while j < frame.symbols.len()
            invariant
                j <= frame.symbols@.len(),
                out@ == before + symbols_text(num as nat, frame.ip as nat, frame.symbols@.take(j as int)),
            decreases frame.symbols@.len() - j,
        {
            push_symbol(out, num as u64, frame.ip, &frame.symbols[j]);
            proof {
                assert(frame.symbols@.take(j + 1).drop_last() =~= frame.symbols@.take(j as int));
            }
            j = j + 1;
        }
        proof {
            assert(frame.symbols@.take(j as int) =~= frame.symbols@);
            assert(frames@.take(i + 1).drop_last() =~= frames@.take(i as int));
        }
        i = i + 1;
    }
    proof {
        assert(frames@.take(i as int) =~= frames@);
    }
}

/// Relies on backtrace::Backtrace::new, which walks the current call stack and
/// resolves the symbols of every frame. What it finds depends on the machine and
/// the binary's debug information, so nothing is promised of the frames.
#[verifier::external_body]
pub(crate) fn capture_frames() -> (r: Vec<StackFrame>) {
    backtrace::Backtrace::new().frames().iter().map(|f| StackFrame {
        ip: f.ip() as usize,
        symbols: f.symbols().iter().map(|s| FrameSymbol {
            name: s.name().map(|n| n.as_str().map(String::from)),
            filename: s.filename().map(|p| p.to_str().map(String::from)),
            lineno: s.lineno(),
        }).collect(),
    }).collect()
}

} // verus!
