//! The model of the console scanner: how the bytes that the console server
//! prints are read back into the command lines that the user entered.
use vstd::prelude::*;

verus! {

/// Bytes of the prompt that the console server prints before each command.
pub const PROMPT_LEN: usize = 5;

/// The prompt itself: `"vpp# "`.
pub open spec fn prompt() -> Seq<u8> {
    seq![118u8, 112u8, 112u8, 35u8, 32u8]
}

pub const LF: u8 = 10;

pub const CR: u8 = 13;

pub const BACKSPACE: u8 = 8;

/// Bytes below this one are control bytes.
pub const FIRST_PRINTABLE: u8 = 32;

/// Printable bytes are the ones that the scanner writes into its line.
pub open spec fn is_printable(c: u8) -> bool {
    c >= FIRST_PRINTABLE
}

/// The state of the scanner between two bytes.
pub struct ScanModel {
    /// The bytes of the line so far, up to its high-water length.
    pub line: Seq<u8>,
    /// Where the next printable byte is written.
    pub pos: nat,
    /// Whether the scanner is in step with the prompt.
    pub armed: bool,
    /// Whether the user has sent a line terminator since the last line ended.
    pub enter_seen: bool,
}

impl ScanModel {
    pub open spec fn wf(self) -> bool {
        self.pos <= self.line.len()
    }

    /// A scanner at the start of a line, in step with the prompt.
    pub open spec fn line_start(enter_seen: bool) -> ScanModel {
        ScanModel { line: Seq::empty(), pos: 0, armed: true, enter_seen }
    }
}

/// The line after writing printable byte `c` at `pos`: over the old byte
/// there, or at the end.
pub open spec fn write_at(line: Seq<u8>, pos: nat, c: u8) -> Seq<u8> {
    if pos < line.len() {
        line.update(pos as int, c)
    } else {
        line.push(c)
    }
}

/// One byte of output read by the scanner: its next state, and the command
/// that the byte completes, if any.
///
/// A line feed or carriage return ends the line, and completes a command
/// where the user sent a line terminator and the line holds more than the
/// prompt. A backspace steps back one byte, never before the start of the
/// line. Other control bytes are skipped, and printable bytes are written
/// over the line, which grows as far as it needs. A printable byte that
/// leaves the line exactly as long as the prompt, but not the prompt, puts
/// the scanner out of step until the next line feed.
pub open spec fn scan_byte(s: ScanModel, c: u8) -> (ScanModel, Option<Seq<u8>>) {
    if !s.armed {
        if c == LF {
            (ScanModel { armed: true, ..s }, None)
        } else {
            (s, None)
        }
    } else if c == LF || c == CR {
        let done = ScanModel::line_start(false);
        if s.line.len() > PROMPT_LEN && s.enter_seen {
            (done, Some(s.line.subrange(PROMPT_LEN as int, s.line.len() as int)))
        } else {
            (done, None)
        }
    } else if c == BACKSPACE {
        (ScanModel { pos: if s.pos > 0 { (s.pos - 1) as nat } else { 0 }, ..s }, None)
    } else if !is_printable(c) {
        (s, None)
    } else {
        let line = write_at(s.line, s.pos, c);
        if line.len() == PROMPT_LEN && line != prompt() {
            (ScanModel { line: Seq::empty(), pos: 0, armed: false, enter_seen: s.enter_seen }, None)
        } else {
            (ScanModel { line, pos: s.pos + 1, ..s }, None)
        }
    }
}

/// The commands that an optional command stands for.
pub open spec fn emitted(e: Option<Seq<u8>>) -> Seq<Seq<u8>> {
    match e {
        Some(cmd) => seq![cmd],
        None => Seq::empty(),
    }
}

/// A run of output read byte by byte: the final state, and the commands it
/// completes, in order.
pub open spec fn scan(s: ScanModel, bytes: Seq<u8>) -> (ScanModel, Seq<Seq<u8>>)
    decreases bytes.len(),
{
    if bytes.len() == 0 {
        (s, Seq::empty())
    } else {
        let before = scan(s, bytes.drop_last());
        let last = scan_byte(before.0, bytes.last());
        (last.0, before.1 + emitted(last.1))
    }
}

/// Reading a single byte is one step of the scanner.
pub proof fn lemma_scan_one(s: ScanModel, c: u8)
    ensures
        scan(s, seq![c]) == (scan_byte(s, c).0, emitted(scan_byte(s, c).1)),
{
    assert(seq![c].drop_last() =~= Seq::<u8>::empty());
    assert(seq![c].last() == c);
    assert(scan(s, seq![c].drop_last()) == (s, Seq::<Seq<u8>>::empty()));
    assert(Seq::<Seq<u8>>::empty() + emitted(scan_byte(s, c).1) =~= emitted(scan_byte(s, c).1));
}

pub proof fn lemma_scan_byte_wf(s: ScanModel, c: u8)
    requires
        s.wf(),
    ensures
        scan_byte(s, c).0.wf(),
{
}

/// Reading output in two pieces gives the same state and the same commands
/// as reading it in one: where a read ends does not matter.
pub proof fn lemma_scan_chunks(s: ScanModel, a: Seq<u8>, b: Seq<u8>)
    ensures
        scan(s, a + b).0 == scan(scan(s, a).0, b).0,
        scan(s, a + b).1 == scan(s, a).1 + scan(scan(s, a).0, b).1,
    decreases b.len(),
{
    if b.len() == 0 {
        assert(a + b =~= a);
        assert(scan(s, a).1 + Seq::<Seq<u8>>::empty() =~= scan(s, a).1);
    } else {
        assert((a + b).drop_last() =~= a + b.drop_last());
        assert((a + b).last() == b.last());
        lemma_scan_chunks(s, a, b.drop_last());
        let mid = scan(s, a).0;
        let last = scan_byte(scan(mid, b.drop_last()).0, b.last());
        assert(scan(s, a).1 + scan(mid, b.drop_last()).1 + emitted(last.1)
            =~= scan(s, a).1 + (scan(mid, b.drop_last()).1 + emitted(last.1)));
    }
}

/// Without a line terminator from the user, no command is ever taken from
/// the output, and the scanner goes on without one.
pub proof fn lemma_no_enter_no_command(s: ScanModel, bytes: Seq<u8>)
    requires
        !s.enter_seen,
    ensures
        scan(s, bytes).1 == Seq::<Seq<u8>>::empty(),
        !scan(s, bytes).0.enter_seen,
    decreases bytes.len(),
{
    if bytes.len() > 0 {
        lemma_no_enter_no_command(s, bytes.drop_last());
        assert(scan(s, bytes).1 =~= Seq::<Seq<u8>>::empty());
    }
}

/// Printable bytes typed at the end of a line that stays in step with the
/// prompt are appended to it, and complete no command.
proof fn lemma_typing(s: ScanModel, t: Seq<u8>)
    requires
        s.armed,
        s.pos == s.line.len(),
        forall|i: int| 0 <= i < t.len() ==> is_printable(#[trigger] t[i]),
        forall|k: int|
            0 <= k <= t.len() && s.line.len() + k == PROMPT_LEN ==> s.line + t.take(k)
                == prompt(),
    ensures
        scan(s, t).0 == (ScanModel {
            line: s.line + t,
            pos: s.line.len() + t.len(),
            armed: true,
            enter_seen: s.enter_seen,
        }),
        scan(s, t).1 == Seq::<Seq<u8>>::empty(),
    decreases t.len(),
{
    if t.len() > 0 {
        let init = t.drop_last();
        assert forall|k: int|
            0 <= k <= init.len() && s.line.len() + k == PROMPT_LEN implies s.line + init.take(k)
            == prompt() by {
            assert(init.take(k) =~= t.take(k));
        }
        lemma_typing(s, init);
        assert(t.take(t.len() as int) =~= t);
        assert((s.line + init).push(t.last()) =~= s.line + t);
        assert(is_printable(t[t.len() - 1]));
    }
}

/// A command typed after the prompt, sent with a line terminator by the
/// user, is taken from the output exactly once and exactly as typed when the
/// line ends, by a line feed or a carriage return, and the scanner is back at
/// the start of a line.
pub proof fn lemma_prompted_line(text: Seq<u8>, end: u8)
    requires
        text.len() > 0,
        forall|i: int| 0 <= i < text.len() ==> is_printable(#[trigger] text[i]),
        end == LF || end == CR,
    ensures
        scan(ScanModel::line_start(true), prompt() + text + seq![end]) == (
            ScanModel::line_start(false),
            seq![text],
        ),
{
    let s = ScanModel::line_start(true);
    let t = prompt() + text;
    assert forall|i: int| 0 <= i < t.len() implies is_printable(#[trigger] t[i]) by {
        if i >= PROMPT_LEN {
            assert(t[i] == text[i - PROMPT_LEN]);
        }
    }
    assert forall|k: int|
        0 <= k <= t.len() && s.line.len() + k == PROMPT_LEN implies s.line + t.take(k)
        == prompt() by {
        assert(s.line + t.take(k) =~= prompt());
    }
    lemma_typing(s, t);
    let all = t + seq![end];
    assert(all.drop_last() =~= t);
    assert(all.last() == end);
    assert((s.line + t).subrange(PROMPT_LEN as int, (s.line + t).len() as int) =~= text);
    assert(Seq::<Seq<u8>>::empty() + seq![text] =~= seq![text]);
}

/// A line end read at the start of a line completes nothing, and leaves the
/// scanner at the start of a line.
pub proof fn lemma_empty_line(enter_seen: bool, end: u8)
    requires
        end == LF || end == CR,
    ensures
        scan(ScanModel::line_start(enter_seen), seq![end]) == (
            ScanModel::line_start(false),
            Seq::<Seq<u8>>::empty(),
        ),
{
    lemma_scan_one(ScanModel::line_start(enter_seen), end);
}

/// A line of printable bytes that does not begin with the prompt completes
/// no command, and leaves the scanner at the start of the next line, in step
/// with the prompt again.
pub proof fn lemma_foreign_line(enter_seen: bool, l: Seq<u8>)
    requires
        forall|i: int| 0 <= i < l.len() ==> is_printable(#[trigger] l[i]),
        !(l.len() >= PROMPT_LEN && l.take(PROMPT_LEN as int) == prompt()),
    ensures
        scan(ScanModel::line_start(enter_seen), l + seq![LF]).1 == Seq::<Seq<u8>>::empty(),
        scan(ScanModel::line_start(enter_seen), l + seq![LF]).0.armed,
        scan(ScanModel::line_start(enter_seen), l + seq![LF]).0.line == Seq::<u8>::empty(),
        scan(ScanModel::line_start(enter_seen), l + seq![LF]).0.pos == 0,
{
    let s = ScanModel::line_start(enter_seen);
    let all = l + seq![LF];
    assert(all.drop_last() =~= l);
    if l.len() < PROMPT_LEN {
        lemma_typing(s, l);
        assert(Seq::<Seq<u8>>::empty() + emitted(None) =~= Seq::<Seq<u8>>::empty());
    } else {
        let head = l.take(PROMPT_LEN as int - 1);
        lemma_typing(s, head);
        let off = ScanModel { line: Seq::empty(), pos: 0, armed: false, enter_seen };
        let c = l[PROMPT_LEN - 1];
        assert(head.push(c) =~= l.take(PROMPT_LEN as int));
        assert(scan(s, l.take(PROMPT_LEN as int)).0 == off) by {
            assert(l.take(PROMPT_LEN as int).drop_last() =~= head);
            assert(is_printable(c));
            assert(s.line + head =~= head);
        }
        assert(scan(s, l.take(PROMPT_LEN as int)).1 =~= Seq::<Seq<u8>>::empty()) by {
            assert(l.take(PROMPT_LEN as int).drop_last() =~= head);
        }
        lemma_idle(off, l.skip(PROMPT_LEN as int));
        assert(l.take(PROMPT_LEN as int) + l.skip(PROMPT_LEN as int) =~= l);
        lemma_scan_chunks(s, l.take(PROMPT_LEN as int), l.skip(PROMPT_LEN as int));
        assert(Seq::<Seq<u8>>::empty() + Seq::<Seq<u8>>::empty() =~= Seq::<Seq<u8>>::empty());
        assert(Seq::<Seq<u8>>::empty() + emitted(None) =~= Seq::<Seq<u8>>::empty());
    }
}

/// Out of step with the prompt, bytes other than a line feed change nothing.
proof fn lemma_idle(s: ScanModel, t: Seq<u8>)
    requires
        !s.armed,
        forall|i: int| 0 <= i < t.len() ==> #[trigger] t[i] != LF,
    ensures
        scan(s, t) == (s, Seq::<Seq<u8>>::empty()),
    decreases t.len(),
{
    if t.len() > 0 {
        lemma_idle(s, t.drop_last());
        assert(t[t.len() - 1] != LF);
        assert(Seq::<Seq<u8>>::empty() + emitted(None) =~= Seq::<Seq<u8>>::empty());
    }
}

} // verus!
