//! The text console: a history of the last 4096 bytes written, and the lines
//! of it that fit on the screen, newest first.
use vstd::prelude::*;

verus! {

/// Capacity of the console history, in bytes.
pub const HISTORY_CAPACITY: usize = 4096;

/// The bytes written to the console, in a ring buffer of 4096 bytes.
#[verifier::external_body]
pub struct History {
    buf: heapless::HistoryBuf<u8, 4096>,
}

/// The occupied slots of the ring buffer, in storage order (`as_slice`).
pub uninterp spec fn history_slots(h: History) -> Seq<u8>;

/// The slot that the next byte is written to.
pub uninterp spec fn history_write_position(h: History) -> nat;

/// The shape that every ring buffer state has: at most 4096 occupied slots, a
/// write position inside the buffer, which is the end of the occupied slots
/// until the buffer has filled up.
pub open spec fn ring_wf(slots: Seq<u8>, pos: nat) -> bool {
    &&& slots.len() <= 4096
    &&& pos < 4096
    &&& slots.len() < 4096 ==> pos == slots.len()
}

/// The slots and write position after one byte is written: it takes the next
/// free slot, or overwrites the oldest byte once the buffer is full.
pub open spec fn ring_write(slots: Seq<u8>, pos: nat, b: u8) -> (Seq<u8>, nat) {
    (
        if slots.len() < 4096 { slots.push(b) } else { slots.update(pos as int, b) },
        (pos + 1) % 4096,
    )
}

/// The slots and write position after `bytes` are written one by one.
pub open spec fn ring_write_all(slots: Seq<u8>, pos: nat, bytes: Seq<u8>) -> (Seq<u8>, nat)
    decreases bytes.len(),
{
    if bytes.len() == 0 {
        (slots, pos)
    } else {
        let before = ring_write_all(slots, pos, bytes.drop_last());
        ring_write(before.0, before.1, bytes.last())
    }
}

/// The bytes held, oldest first (`as_slices` joined).
pub open spec fn ring_contents(slots: Seq<u8>, pos: nat) -> Seq<u8> {
    if slots.len() < 4096 {
        slots
    } else {
        slots.subrange(pos as int, 4096) + slots.subrange(0, pos as int)
    }
}

/// Length of the older part of the contents (the first slice of `as_slices`).
pub open spec fn older_len(slots: Seq<u8>, pos: nat) -> nat {
    if slots.len() < 4096 { slots.len() } else { (4096 - pos) as nat }
}

/// Length of the newer part of the contents (the second slice of `as_slices`).
pub open spec fn newer_len(slots: Seq<u8>, pos: nat) -> nat {
    if slots.len() < 4096 { 0 } else { pos }
}

impl History {
    /// `HistoryBuf::new`: an empty history.
    #[verifier::external_body]
    fn new() -> (r: Self)
        ensures
            history_slots(r) == Seq::<u8>::empty(),
            history_write_position(r) == 0,
    {
        History { buf: heapless::HistoryBuf::new() }
    }

    /// `HistoryBuf::write`: writes one byte, overwriting the oldest once full.
    #[verifier::external_body]
    fn write(&mut self, b: u8)
        requires
            ring_wf(history_slots(*old(self)), history_write_position(*old(self))),
        ensures
            (history_slots(*final(self)), history_write_position(*final(self)))
                == ring_write(history_slots(*old(self)), history_write_position(*old(self)), b),
    {
        self.buf.write(b)
    }

    /// `HistoryBuf::as_slice`: the occupied slots in storage order.
    #[verifier::external_body]
    fn as_slice(&self) -> (r: &[u8])
        ensures
            r@ == history_slots(*self),
    {
        self.buf.as_slice()
    }

    /// `HistoryBuf::as_slices`: the older and the newer part of the contents.
    #[verifier::external_body]
    fn as_slices(&self) -> (r: (&[u8], &[u8]))
        requires
            ring_wf(history_slots(*self), history_write_position(*self)),
        ensures
            history_slots(*self).len() < 4096 ==> r.0@ == history_slots(*self) && r.1@ == Seq::<u8>::empty(),
            history_slots(*self).len() == 4096 ==> r.0@ == history_slots(*self).subrange(history_write_position(*self) as int, 4096)
                && r.1@ == history_slots(*self).subrange(0, history_write_position(*self) as int),
    {
        self.buf.as_slices()
    }
}

/// Writing keeps the shape of a ring buffer.
proof fn lemma_ring_write_wf(slots: Seq<u8>, pos: nat, b: u8)
    requires
        ring_wf(slots, pos),
    ensures
        ring_wf(ring_write(slots, pos, b).0, ring_write(slots, pos, b).1),
{
}

/// The history keeps the last 4096 bytes written: after a byte is written,
/// the contents, oldest first, are the earlier contents followed by the byte,
/// less the oldest byte once 4096 are held.
pub proof fn lemma_ring_keeps_last_bytes(slots: Seq<u8>, pos: nat, b: u8)
    requires
        ring_wf(slots, pos),
    ensures
        ({
            let after = ring_write(slots, pos, b);
            let c = ring_contents(slots, pos).push(b);
            ring_contents(after.0, after.1) == if c.len() > 4096 { c.drop_first() } else { c }
        }),
{
    let after = ring_write(slots, pos, b);
    let c = ring_contents(slots, pos).push(b);
    if slots.len() < 4095 {
        assert(ring_contents(after.0, after.1) =~= c);
    } else if slots.len() == 4095 {
        assert(after.1 == 0);
        assert(ring_contents(after.0, after.1) =~= c);
    } else {
        let n = after.0;
        if pos < 4095 {
            assert(ring_contents(n, after.1) =~= c.drop_first());
        } else {
            assert(ring_contents(n, after.1) =~= c.drop_first());
        }
    }
}

/// Most characters shown on one screen line.
pub const MAX_LINE_CHARS: usize = 128;
/// Most screen lines shown.
pub const MAX_LINES: usize = 32;
/// The byte that ends a line.
pub const NEWLINE: u8 = 10;

/// One screen line, of at most 128 bytes.
#[verifier::external_body]
pub struct Line {
    bytes: heapless::Vec<u8, 128>,
}

/// The bytes of a screen line.
pub uninterp spec fn line_bytes(line: Line) -> Seq<u8>;

impl Line {
    /// `heapless::Vec::new`: an empty line.
    #[verifier::external_body]
    fn new() -> (r: Self)
        ensures
            line_bytes(r) == Seq::<u8>::empty(),
    {
        Line { bytes: heapless::Vec::new() }
    }

    /// `FromIterator for heapless::Vec` over the copied `bytes`, which must
    /// fit in a line.
    #[verifier::external_body]
    fn collect(bytes: &[u8]) -> (r: Self)
        requires
            bytes@.len() <= 128,
        ensures
            line_bytes(r) == bytes@,
    {
        Line { bytes: bytes.iter().copied().collect() }
    }
}

/// Up to 32 screen lines, newest first.
#[verifier::external_body]
pub struct Lines {
    lines: heapless::Vec<heapless::Vec<u8, 128>, 32>,
}

/// The bytes of each screen line held, in order.
pub uninterp spec fn lines_view(lines: Lines) -> Seq<Seq<u8>>;

impl Lines {
    /// `heapless::Vec::new`: no lines.
    #[verifier::external_body]
    fn new() -> (r: Self)
        ensures
            lines_view(r) == Seq::<Seq<u8>>::empty(),
    {
        Lines { lines: heapless::Vec::new() }
    }

    /// `heapless::Vec::push`: appends `line` if fewer than 32 lines are held,
    /// and hands it back otherwise.
    #[verifier::external_body]
    fn push(&mut self, line: Line) -> (r: Result<(), Line>)
        ensures
            r is Ok <==> lines_view(*old(self)).len() < 32,
            lines_view(*final(self)) == (if lines_view(*old(self)).len() < 32 {
                lines_view(*old(self)).push(line_bytes(line))
            } else {
                lines_view(*old(self))
            }),
    {
        match self.lines.push(line.bytes) {
            Ok(()) => Ok(()),
            Err(bytes) => Err(Line { bytes }),
        }
    }

    /// `heapless::Vec::len`: the number of lines held.
    #[verifier::external_body]
    pub fn len(&self) -> (r: usize)
        ensures
            r == lines_view(*self).len(),
    {
        self.lines.len()
    }

    /// Indexing through `Deref<Target = [T]>`: the bytes of line `i`, at
    /// most 128 (the capacity of the line's vector).
    #[verifier::external_body]
    pub fn line(&self, i: usize) -> (r: &[u8])
        requires
            i < lines_view(*self).len(),
        ensures
            r@ == lines_view(*self)[i as int],
            r@.len() <= 128,
    {
        self.lines[i].as_slice()
    }
}

/// The lines of `s`, split at every newline (`<[u8]>::split`): `n` newlines
/// give `n + 1` lines, some possibly empty.
pub open spec fn split_lines(s: Seq<u8>) -> Seq<Seq<u8>>
    decreases s.len(),
{
    if s.len() == 0 {
        seq![Seq::<u8>::empty()]
    } else {
        let init = split_lines(s.drop_last());
        if s.last() == NEWLINE {
            init.push(Seq::<u8>::empty())
        } else {
            init.update(init.len() - 1, init.last().push(s.last()))
        }
    }
}

/// `r` cut into pieces of `c` bytes, the last one possibly shorter
/// (`<[u8]>::chunks`); an empty `r` has no pieces.
pub open spec fn chunks(r: Seq<u8>, c: nat) -> Seq<Seq<u8>>
    decreases r.len(),
{
    if r.len() == 0 || c == 0 {
        Seq::empty()
    } else if r.len() <= c {
        seq![r]
    } else {
        seq![r.take(c as int)] + chunks(r.skip(c as int), c)
    }
}

/// The screen lines of some text lines, each line cut into pieces that are
/// taken last piece first.
pub open spec fn pieces(raw: Seq<Seq<u8>>, c: nat) -> Seq<Seq<u8>> {
    raw.map_values(|r: Seq<u8>| chunks(r, c).reverse()).flatten_alt()
}

/// Characters per screen line: at most 128.
pub open spec fn line_chars(max_line_chars: nat) -> nat {
    if max_line_chars < 128 { max_line_chars } else { 128 }
}

/// What the console shows of `slots` on a screen of `max_lines` lines of
/// `max_line_chars` characters, newest first: an empty line, then the last
/// `max_lines` text lines, newest first, each cut into screen lines that are
/// taken last piece first; at most 32 screen lines in all.
pub open spec fn screen_lines(slots: Seq<u8>, max_line_chars: nat, max_lines: nat) -> Seq<Seq<u8>> {
    let raw = split_lines(slots).reverse();
    let shown = raw.take(if max_lines < raw.len() { max_lines as int } else { raw.len() as int });
    let all = seq![Seq::<u8>::empty()] + pieces(shown, line_chars(max_line_chars));
    if all.len() <= 32 { all } else { all.take(32) }
}

proof fn lemma_split_lines_nonempty(s: Seq<u8>)
    ensures
        split_lines(s).len() >= 1,
    decreases s.len(),
{
    if s.len() > 0 {
        lemma_split_lines_nonempty(s.drop_last());
    }
}

/// Appending text without a newline only extends the last line.
proof fn lemma_split_lines_extend(u: Seq<u8>, t: Seq<u8>)
    requires
        !t.contains(NEWLINE),
    ensures
        split_lines(u + t).len() == split_lines(u).len(),
        split_lines(u + t) == split_lines(u).update(split_lines(u).len() - 1, split_lines(u).last() + t),
    decreases t.len(),
{
    lemma_split_lines_nonempty(u);
    if t.len() == 0 {
        assert(u + t =~= u);
        assert(split_lines(u).last() + t =~= split_lines(u).last());
        assert(split_lines(u).update(split_lines(u).len() - 1, split_lines(u).last()) =~= split_lines(u));
    } else {
        let t0 = t.drop_last();
        assert(!t0.contains(NEWLINE)) by {
            if t0.contains(NEWLINE) {
                let i = choose|i: int| 0 <= i < t0.len() && t0[i] == NEWLINE;
                assert(t[i] == NEWLINE);
            }
        }
        lemma_split_lines_extend(u, t0);
        assert((u + t).drop_last() =~= u + t0);
        assert((u + t).last() == t.last());
        assert(t.last() != NEWLINE) by {
            assert(t[t.len() - 1] == t.last());
        }
        let a = split_lines(u);
        assert((a.last() + t0).push(t.last()) =~= a.last() + t);
        assert(split_lines(u + t) =~= a.update(a.len() - 1, a.last() + t));
    }
}

/// Text without a newline is one line.
proof fn lemma_split_lines_single(s: Seq<u8>)
    requires
        !s.contains(NEWLINE),
    ensures
        split_lines(s) == seq![s],
{
    lemma_split_lines_extend(Seq::<u8>::empty(), s);
    assert(Seq::<u8>::empty() + s =~= s);
    assert(seq![Seq::<u8>::empty()].update(0, Seq::<u8>::empty() + s) =~= seq![s]);
}

/// The last line of text is what follows its last newline.
proof fn lemma_split_lines_last(s: Seq<u8>, p: int)
    requires
        0 <= p < s.len(),
        s[p] == NEWLINE,
        !s.skip(p + 1).contains(NEWLINE),
    ensures
        split_lines(s) == split_lines(s.take(p)).push(s.skip(p + 1)),
{
    let u = s.take(p + 1);
    let t = s.skip(p + 1);
    assert(s =~= u + t);
    assert(u.drop_last() =~= s.take(p));
    assert(u.last() == NEWLINE);
    let a = split_lines(s.take(p));
    assert(split_lines(u) == a.push(Seq::<u8>::empty()));
    lemma_split_lines_extend(u, t);
    assert(Seq::<u8>::empty() + t =~= t);
    assert(a.push(Seq::<u8>::empty()).update(a.len() as int, Seq::<u8>::empty() + t) =~= a.push(t));
}

/// Reversing a sequence with one more element puts that element first.
proof fn lemma_reverse_push<A>(s: Seq<A>, x: A)
    ensures
        s.push(x).reverse() == seq![x] + s.reverse(),
{
    assert(s.push(x).reverse() =~= seq![x] + s.reverse());
}

/// Each piece starts inside the text: `k * c < n` for `k < (n + c - 1) / c`.
proof fn lemma_chunk_start(n: int, c: int, k: int)
    requires
        n >= 0,
        c > 0,
        0 <= k < (n + c - 1) / c,
    ensures
        k * c < n,
        (k + 1) * c == k * c + c,
{
    let q = (n + c - 1) / c;
    let m = (n + c - 1) % c;
    vstd::arithmetic::div_mod::lemma_fundamental_div_mod(n + c - 1, c);
    vstd::arithmetic::div_mod::lemma_mod_bound(n + c - 1, c);
    assert(k * c < n) by (nonlinear_arith)
        requires
            n + c - 1 == c * q + m,
            0 <= m < c,
            0 <= k < q,
            c > 0;
    assert((k + 1) * c == k * c + c) by (nonlinear_arith);
}

/// The pieces of `r`: `(|r| + c - 1) / c` of them, the `k`-th being
/// `r[k * c .. min((k + 1) * c, |r|)]`.
proof fn lemma_chunks(r: Seq<u8>, c: nat)
    requires
        c > 0,
    ensures
        chunks(r, c).len() == (r.len() + c - 1) / (c as int),
        forall|k: int| 0 <= k < chunks(r, c).len() ==> #[trigger] chunks(r, c)[k]
            == r.subrange(k * c, if (k + 1) * c < r.len() { (k + 1) * c } else { r.len() as int }),
    decreases r.len(),
{
    let n = r.len() as int;
    let ci = c as int;
    if n == 0 {
        assert((n + ci - 1) / ci == 0) by (nonlinear_arith)
            requires n == 0, ci > 0;
    } else if n <= ci {
        assert((n + ci - 1) / ci == 1) by (nonlinear_arith)
            requires 0 < n <= ci;
        assert forall|k: int| 0 <= k < chunks(r, c).len() implies #[trigger] chunks(r, c)[k]
            == r.subrange(k * c, if (k + 1) * c < r.len() { (k + 1) * c } else { r.len() as int }) by {
            assert(k == 0);
            assert(r.subrange(0, n) =~= r);
        }
    } else {
        let rest = r.skip(ci);
        lemma_chunks(rest, c);
        assert((n + ci - 1) / ci == (n - 1) / ci + 1) by (nonlinear_arith)
            requires n > ci, ci > 0;
        assert(((rest.len() + ci - 1) / ci) == (n - 1) / ci);
        assert forall|k: int| 0 <= k < chunks(r, c).len() implies #[trigger] chunks(r, c)[k]
            == r.subrange(k * c, if (k + 1) * c < r.len() { (k + 1) * c } else { r.len() as int }) by {
            if k == 0 {
                assert((0 + 1) * ci == ci);
                assert(0 * ci == 0);
                assert(r.take(ci) =~= r.subrange(0, ci));
                assert(chunks(r, c)[0] == r.take(ci));
            } else {
                let j = k - 1;
                assert(chunks(r, c)[k] == chunks(rest, c)[j]);
                lemma_chunk_start(rest.len() as int, ci, j);
                assert(j * ci + ci == k * ci && (j + 1) * ci + ci == (k + 1) * ci) by (nonlinear_arith)
                    requires j == k - 1;
                let hi = if (j + 1) * c < rest.len() { (j + 1) * c } else { rest.len() as int };
                assert(chunks(rest, c)[j] == rest.subrange(j * c, hi));
                assert(rest.subrange(j * c, hi) =~= r.subrange(k * c, if (k + 1) * c < r.len() { (k + 1) * c } else { r.len() as int }));
            }
        }
    }
}

/// The screen lines of one more text line are those of the earlier lines
/// followed by the pieces of the new one.
proof fn lemma_pieces_step(raw: Seq<Seq<u8>>, c: nat, j: int)
    requires
        0 <= j < raw.len(),
    ensures
        pieces(raw.take(j + 1), c) == pieces(raw.take(j), c) + chunks(raw[j], c).reverse(),
{
    let f = |r: Seq<u8>| chunks(r, c).reverse();
    assert(raw.take(j + 1).map_values(f).drop_last() =~= raw.take(j).map_values(f));
}

/// The screen lines of fewer text lines come first among those of more.
proof fn lemma_pieces_prefix(raw: Seq<Seq<u8>>, c: nat, j: int, k: int)
    requires
        0 <= j <= k <= raw.len(),
    ensures
        pieces(raw.take(j), c).len() <= pieces(raw.take(k), c).len(),
        pieces(raw.take(k), c).take(pieces(raw.take(j), c).len() as int) == pieces(raw.take(j), c),
    decreases k - j,
{
    if j < k {
        lemma_pieces_prefix(raw, c, j, k - 1);
        lemma_pieces_step(raw, c, k - 1);
        let a = pieces(raw.take(j), c);
        let b = pieces(raw.take(k - 1), c);
        assert((b + chunks(raw[k - 1], c).reverse()).take(a.len() as int) =~= b.take(a.len() as int));
    } else {
        assert(pieces(raw.take(k), c).take(pieces(raw.take(j), c).len() as int) =~= pieces(raw.take(j), c));
    }
}

/// The last 4096 bytes of `s` (all of it when shorter).
pub open spec fn last_bytes(s: Seq<u8>) -> Seq<u8> {
    if s.len() > 4096 { s.skip(s.len() - 4096) } else { s }
}

/// Writing keeps the shape of a ring buffer, whatever is written.
proof fn lemma_ring_write_all_wf(slots: Seq<u8>, pos: nat, bytes: Seq<u8>)
    requires
        ring_wf(slots, pos),
    ensures
        ring_wf(ring_write_all(slots, pos, bytes).0, ring_write_all(slots, pos, bytes).1),
    decreases bytes.len(),
{
    if bytes.len() > 0 {
        lemma_ring_write_all_wf(slots, pos, bytes.drop_last());
        let before = ring_write_all(slots, pos, bytes.drop_last());
        lemma_ring_write_wf(before.0, before.1, bytes.last());
    }
}

/// What the history gives back of what was written: after `bytes` are
/// written, its contents, oldest first, are the last 4096 bytes of the
/// earlier contents followed by `bytes`.
pub proof fn lemma_history_keeps_last_bytes(slots: Seq<u8>, pos: nat, bytes: Seq<u8>)
    requires
        ring_wf(slots, pos),
    ensures
        ({
            let after = ring_write_all(slots, pos, bytes);
            ring_contents(after.0, after.1) == last_bytes(ring_contents(slots, pos) + bytes)
        }),
    decreases bytes.len(),
{
    assert(ring_contents(slots, pos).len() <= 4096);
    if bytes.len() == 0 {
        assert(ring_contents(slots, pos) + bytes =~= ring_contents(slots, pos));
    } else {
        let init = bytes.drop_last();
        lemma_history_keeps_last_bytes(slots, pos, init);
        lemma_ring_write_all_wf(slots, pos, init);
        let before = ring_write_all(slots, pos, init);
        lemma_ring_keeps_last_bytes(before.0, before.1, bytes.last());
        let whole = ring_contents(slots, pos) + bytes;
        let prev = ring_contents(slots, pos) + init;
        assert(whole =~= prev.push(bytes.last()));
        let c = last_bytes(prev).push(bytes.last());
        if c.len() > 4096 {
            assert(c.drop_first() =~= last_bytes(whole));
        } else {
            assert(c =~= last_bytes(whole));
        }
    }
}

/// Width of a glyph of the console font, in pixels.
pub const CHAR_WIDTH: usize = 9;
/// Height of a glyph of the console font, in pixels.
pub const CHAR_HEIGHT: usize = 21;

/// One glyph of the console screen: `byte` drawn with its top-left corner at
/// pixel (`x`, `y`).
#[derive(Clone, Copy, Debug, PartialEq, Eq, Structural)]
pub struct Glyph {
    pub x: usize,
    pub y: usize,
    pub byte: u8,
}

/// The glyphs of screen row `row`: the bytes of `line`, one per column.
pub open spec fn row_glyphs(line: Seq<u8>, row: int) -> Seq<Glyph> {
    Seq::new(
        line.len(),
        |col: int| Glyph { x: (9 * col) as usize, y: (21 * row) as usize, byte: line[col] },
    )
}

/// The glyphs of `rows`, the top row first.
pub open spec fn rows_glyphs(rows: Seq<Seq<u8>>) -> Seq<Glyph>
    decreases rows.len(),
{
    if rows.len() == 0 {
        Seq::empty()
    } else {
        rows_glyphs(rows.drop_last()) + row_glyphs(rows.last(), rows.len() - 1)
    }
}

/// What the console shows of `slots` on a screen of `width` x `height`
/// pixels: its screen lines for that many glyphs, the oldest in the top row
/// and the newest in the bottom one.
pub open spec fn screen_glyphs(slots: Seq<u8>, width: nat, height: nat) -> Seq<Glyph> {
    rows_glyphs(screen_lines(slots, width / 9, height / 21).reverse())
}

/// The text console.
pub struct Console {
    history: History,
}

impl Console {
    /// The occupied slots of the history, in storage order.
    pub closed spec fn slots(&self) -> Seq<u8> {
        history_slots(self.history)
    }

    /// The slot that the next byte goes to.
    pub closed spec fn write_position(&self) -> nat {
        history_write_position(self.history)
    }

    /// The history always has the shape of a ring buffer.
    #[verifier::type_invariant]
    spec fn ring_shaped(self) -> bool {
        ring_wf(history_slots(self.history), history_write_position(self.history))
    }

    /// An empty console.
    pub fn new() -> (r: Self)
        ensures
            r.slots() == Seq::<u8>::empty(),
            r.write_position() == 0,
    {
        Console { history: History::new() }
    }

    /// Appends `bytes` to the history.
    pub fn write(&mut self, bytes: &[u8])
        ensures
            (final(self).slots(), final(self).write_position())
                == ring_write_all(old(self).slots(), old(self).write_position(), bytes@),
    {
        proof {
            use_type_invariant(&*self);
        }
        let ghost start = (self.slots(), self.write_position());
        let mut console = Console::new();
        core::mem::swap(self, &mut console);
        let Console { mut history } = console;
        let mut i: usize = 0;
        while i < bytes.len()
            invariant
                i <= bytes@.len(),
                ring_wf(start.0, start.1),
                ring_wf(history_slots(history), history_write_position(history)),
                (history_slots(history), history_write_position(history))
                    == ring_write_all(start.0, start.1, bytes@.take(i as int)),
            decreases bytes@.len() - i,
        {
            proof {
                assert(bytes@.take(i + 1).drop_last() =~= bytes@.take(i as int));
                lemma_ring_write_wf(history_slots(history), history_write_position(history), bytes@[i as int]);
            }
            history.write(bytes[i]);
            i = i + 1;
        }
        proof {
            assert(bytes@.take(bytes@.len() as int) =~= bytes@);
        }
        *self = Console { history };
    }

    /// The lines to show on a screen of `max_lines` lines of `max_line_chars`
    /// characters, newest first (see [`screen_lines`]).  Lines may only be cut
    /// into pieces of at least one character.
    pub fn render_lines(&self, max_line_chars: usize, max_lines: usize) -> (lines: Lines)
        requires
            max_line_chars > 0 || max_lines == 0,
        ensures
            lines_view(lines) == screen_lines(self.slots(), max_line_chars as nat, max_lines as nat),
    {
        let bytes = self.history.as_slice();
        let c: usize = if max_line_chars < MAX_LINE_CHARS { max_line_chars } else { MAX_LINE_CHARS };
        let ghost raw = split_lines(bytes@).reverse();
        let ghost m: int = if max_lines < raw.len() { max_lines as int } else { raw.len() as int };
        let ghost full = seq![Seq::<u8>::empty()] + pieces(raw.take(m), c as nat);
        proof {
            lemma_split_lines_nonempty(bytes@);
            assert(bytes@.take(bytes@.len() as int) =~= bytes@);
            assert(raw.skip(0) =~= raw);
            assert(raw.take(0).map_values(|r: Seq<u8>| chunks(r, c as nat).reverse()) =~= Seq::<Seq<Seq<u8>>>::empty());
        }
        let mut lines = Lines::new();
        let _ = lines.push(Line::new());
        proof {
            assert(lines_view(lines) =~= seq![Seq::<u8>::empty()] + pieces(raw.take(0), c as nat));
        }
        let mut end: usize = bytes.len();
        let mut taken: usize = 0;
        let mut finished = false;
        while taken < max_lines && !finished
            invariant
                bytes@ == self.slots(),
                c as nat == line_chars(max_line_chars as nat),
                max_line_chars > 0 || max_lines == 0,
                raw == split_lines(bytes@).reverse(),
                m == (if max_lines < raw.len() { max_lines as int } else { raw.len() as int }),
                full == seq![Seq::<u8>::empty()] + pieces(raw.take(m), c as nat),
                taken <= max_lines,
                taken <= raw.len(),
                !finished ==> end <= bytes@.len() && split_lines(bytes@.take(end as int)).reverse() == raw.skip(taken as int),
                finished ==> taken == raw.len(),
                lines_view(lines) == seq![Seq::<u8>::empty()] + pieces(raw.take(taken as int), c as nat),
                lines_view(lines).len() <= 32,
            decreases raw.len() - taken, if finished { 0int } else { 1int },
        {
            let ghost text = bytes@.take(end as int);
            proof {
                lemma_split_lines_nonempty(text);
            }
            let mut start: usize = end;
            while start > 0 && bytes[start - 1] != NEWLINE
                invariant
                    start <= end <= bytes@.len(),
                    forall|j: int| start <= j < end ==> bytes@[j] != NEWLINE,
                decreases start,
            {
                start = start - 1;
            }
            let ghost line = bytes@.subrange(start as int, end as int);
            proof {
                assert(!line.contains(NEWLINE)) by {
                    if line.contains(NEWLINE) {
                        let i = choose|i: int| 0 <= i < line.len() && line[i] == NEWLINE;
                        assert(bytes@[start + i] == NEWLINE);
                    }
                }
                if start == 0 {
                    assert(text =~= line);
                    lemma_split_lines_single(text);
                    assert(seq![line].reverse() =~= seq![line]);
                } else {
                    assert(text.skip(start as int) =~= line);
                    assert(text.take(start - 1) =~= bytes@.take(start - 1));
                    lemma_split_lines_last(text, start - 1);
                    lemma_reverse_push(split_lines(bytes@.take(start - 1)), line);
                }
                assert(split_lines(text).reverse().len() >= 1);
                assert(raw.skip(taken as int).len() >= 1);
                assert(taken < raw.len());
                assert(raw.skip(taken as int)[0] == line);
                assert(raw[taken as int] == line);
                lemma_pieces_step(raw, c as nat, taken as int);
                lemma_pieces_prefix(raw, c as nat, taken + 1, m);
                lemma_chunks(line, c as nat);
            }
            let ghost base = lines_view(lines);
            let ghost rc = chunks(line, c as nat).reverse();
            let len = end - start;
            let n = if len == 0 { 0 } else { (len - 1) / c + 1 };
            proof {
                let li = len as int;
                let ci = c as int;
                if li > 0 {
                    assert((li - 1) / ci + 1 == (li + ci - 1) / ci) by (nonlinear_arith)
                        requires li > 0, ci > 0;
                } else {
                    assert((li + ci - 1) / ci == 0) by (nonlinear_arith)
                        requires li == 0, ci > 0;
                }
            }
            let mut k: usize = n;
            while k > 0
                invariant
                    bytes@ == self.slots(),
                    start <= end <= bytes@.len(),
                    line == bytes@.subrange(start as int, end as int),
                    0 < c <= 128,
                    len == end - start,
                    n == chunks(line, c as nat).len(),
                    n == (len + c - 1) / (c as int),
                    forall|q: int| 0 <= q < chunks(line, c as nat).len() ==> #[trigger] chunks(line, c as nat)[q]
                        == line.subrange(q * c, if (q + 1) * c < line.len() { (q + 1) * c } else { line.len() as int }),
                    rc == chunks(line, c as nat).reverse(),
                    k <= n,
                    lines_view(lines) == base + rc.take(n - k),
                    lines_view(lines).len() <= 32,
                    full == seq![Seq::<u8>::empty()] + pieces(raw.take(m), c as nat),
                    base == seq![Seq::<u8>::empty()] + pieces(raw.take(taken as int), c as nat),
                    pieces(raw.take(taken + 1), c as nat) == pieces(raw.take(taken as int), c as nat) + rc,
                    pieces(raw.take(taken + 1), c as nat).len() <= pieces(raw.take(m), c as nat).len(),
                    pieces(raw.take(m), c as nat).take(pieces(raw.take(taken + 1), c as nat).len() as int)
                        == pieces(raw.take(taken + 1), c as nat),
                    screen_lines(bytes@, max_line_chars as nat, max_lines as nat)
                        == (if full.len() <= 32 { full } else { full.take(32) }),
                decreases k,
            {
                k = k - 1;
                proof {
                    lemma_chunk_start(len as int, c as int, k as int);
                }
                let a = start + k * c;
                let b = if c < end - a { a + c } else { end };
                proof {
                    assert(chunks(line, c as nat)[k as int] =~= bytes@.subrange(a as int, b as int));
                    assert(rc[n - k - 1] == chunks(line, c as nat)[k as int]);
                }
                let piece = Line::collect(vstd::slice::slice_subrange(bytes, a, b));
                let pushed = lines.push(piece);
                if pushed.is_err() {
                    proof {
                        let l = lines_view(lines);
                        assert(l.len() == 32);
                        assert(rc.take(n - k - 1) =~= rc.take(n - k).drop_last());
                        assert(l.len() <= full.len());
                        assert(full.take(l.len() as int) =~= l) by {
                            let p1 = pieces(raw.take(taken + 1), c as nat);
                            let pm = pieces(raw.take(m), c as nat);
                            assert forall|i: int| 0 <= i < l.len() implies full[i] == l[i] by {
                                if i > 0 {
                                    assert(l[i] == (pieces(raw.take(taken as int), c as nat) + rc)[i - 1]);
                                    assert(p1[i - 1] == pm[i - 1]);
                                }
                            }
                        }
                    }
                    proof {
                        let l = lines_view(lines);
                        if full.len() <= 32 {
                            assert(full.take(32) =~= full);
                        }
                        assert(screen_lines(self.slots(), max_line_chars as nat, max_lines as nat) == l);
                    }
                    return lines;
                }
                proof {
                    assert(rc.take(n - k) =~= rc.take(n - k - 1).push(rc[n - k - 1]));
                }
            }
            proof {
                assert(rc.take(n as int) =~= rc);
            }
            taken = taken + 1;
            if start == 0 {
                finished = true;
            } else {
                end = start - 1;
                proof {
                    assert(raw.skip(taken as int) =~= raw.skip(taken - 1).drop_first());
                }
            }
        }
        proof {
            assert(taken == m);
            assert(lines_view(lines) == full);
        }
        lines
    }

    /// The glyphs to draw, once the screen is cleared, to show the console
    /// on a screen of `width` x `height` pixels (see [`screen_glyphs`]).  A
    /// screen with room for a line must have room for a glyph in it.
    pub fn render(&self, width: u32, height: u32) -> (glyphs: Vec<Glyph>)
        requires
            width / 9 > 0 || height / 21 == 0,
        ensures
            glyphs@ == screen_glyphs(self.slots(), width as nat, height as nat),
    {
        let max_line_chars: usize = width as usize / CHAR_WIDTH;
        let max_lines: usize = height as usize / CHAR_HEIGHT;
        let lines = self.render_lines(max_line_chars, max_lines);
        let ghost all = lines_view(lines);
        let ghost rows = all.reverse();
        let n = lines.len();
        let mut glyphs: Vec<Glyph> = Vec::new();
        let mut row: usize = 0;
        while row < n
            invariant
                all == lines_view(lines),
                rows == all.reverse(),
                n == all.len(),
                n <= 32,
                row <= n,
                glyphs@ == rows_glyphs(rows.take(row as int)),
            decreases n - row,
        {
            let line = lines.line(n - 1 - row);
            let ghost before = glyphs@;
            assert(rows[row as int] == line@);
            let mut col: usize = 0;
            while col < line.len()
                invariant
                    row < n <= 32,
                    line@.len() <= 128,
                    col <= line@.len(),
                    glyphs@ == before + row_glyphs(line@, row as int).take(col as int),
                decreases line@.len() - col,
            {
                glyphs.push(Glyph { x: CHAR_WIDTH * col, y: CHAR_HEIGHT * row, byte: line[col] });
                proof {
                    assert(glyphs@ =~= before + row_glyphs(line@, row as int).take(col + 1));
                }
                col = col + 1;
            }
            proof {
                assert(row_glyphs(line@, row as int).take(col as int) =~= row_glyphs(line@, row as int));
                assert(rows.take(row + 1).drop_last() =~= rows.take(row as int));
                assert(rows.take(row + 1).last() == line@);
            }
            row = row + 1;
        }
        proof {
            assert(rows.take(n as int) =~= rows);
        }
        glyphs
    }

    /// The byte that `as_slices` gives at `index`: the `index`-th oldest byte
    /// when `index` falls in the older part; otherwise the byte of the newer
    /// part at `index` plus the length of the older part.
    pub fn get_byte(&self, index: usize) -> (r: u8)
        requires
            index < older_len(self.slots(), self.write_position())
                || older_len(self.slots(), self.write_position()) + index < newer_len(self.slots(), self.write_position()),
        ensures
            r == (if index < older_len(self.slots(), self.write_position()) {
                ring_contents(self.slots(), self.write_position())[index as int]
            } else {
                self.slots()[older_len(self.slots(), self.write_position()) + index]
            }),
    {
        proof {
            use_type_invariant(self);
        }
        let (left, right) = self.history.as_slices();
        if index < left.len() {
            left[index]
        } else {
            right[left.len() + index]
        }
    }
}

} // verus!
