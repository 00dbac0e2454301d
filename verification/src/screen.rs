//! The terminal conversation view as styled lines: the messages and the
//! streaming answer laid out as lines, wrapped to the screen's width, and the
//! sizes and positions of the input box and typeahead.

use vstd::prelude::*;

use crate::text::{push_char, to_chars};

verus! {

// ---------------------------------------------------------------------------
// Styled lines
// ---------------------------------------------------------------------------

/// The styles the view uses.
#[derive(Debug, Clone, Copy, PartialEq, Eq, Structural)]
pub enum Tone {
    Plain,
    Dim,
    Reasoning,
    UserLabel,
    AssistantLabel,
    Cursor,
}

/// A run of text in one style.
#[derive(Debug, Clone)]
pub struct StyledSpan {
    pub text: String,
    pub tone: Tone,
}

/// A line of styled runs.
#[derive(Debug, Clone)]
pub struct StyledLine {
    pub spans: Vec<StyledSpan>,
}

/// Each character of `text`, in style `tone`.
pub open spec fn tagged(text: Seq<char>, tone: Tone) -> Seq<(char, Tone)> {
    text.map_values(|c: char| (c, tone))
}

/// The styled characters of a list of runs.
#[verifier::opaque]
pub open spec fn span_cells(spans: Seq<StyledSpan>) -> Seq<(char, Tone)>
    decreases spans.len(),
{
    if spans.len() == 0 {
        Seq::<(char, Tone)>::empty()
    } else {
        span_cells(spans.drop_last()) + tagged(spans.last().text@, spans.last().tone)
    }
}

pub open spec fn line_cells(l: StyledLine) -> Seq<(char, Tone)> {
    span_cells(l.spans@)
}

/// The run at `i` differs in style from the one before it.
pub open spec fn differs_from_previous(spans: Seq<StyledSpan>, i: int) -> bool {
    spans[i - 1].tone != spans[i].tone
}

/// Runs that are not empty, and of which neighbours differ in style.
pub open spec fn maximal_runs(spans: Seq<StyledSpan>) -> bool {
    &&& forall|i: int| 0 <= i < spans.len() ==> (#[trigger] spans[i]).text@.len() > 0
    &&& forall|i: int| 0 < i < spans.len() ==> #[trigger] differs_from_previous(spans, i)
}

/// The styled characters of lines, one line after the other.
#[verifier::opaque]
pub open spec fn lines_cells(ls: Seq<StyledLine>) -> Seq<(char, Tone)>
    decreases ls.len(),
{
    if ls.len() == 0 {
        Seq::<(char, Tone)>::empty()
    } else {
        lines_cells(ls.drop_last()) + line_cells(ls.last())
    }
}

/// What `unicode-width`'s `UnicodeWidthChar::width` gives for a character:
/// the columns it takes on a terminal, or `None` for a control character.
pub uninterp spec fn unicode_char_width(c: char) -> Option<nat>;

/// Calls `unicode-width`'s `UnicodeWidthChar::width`.
#[verifier::external_body]
fn char_width(c: char) -> (r: Option<usize>)
    ensures
        match unicode_char_width(c) {
            Some(w) => r matches Some(x) && x == w,
            None => r is None,
        },
{
    unicode_width::UnicodeWidthChar::width(c)
}

/// The columns a character takes (a control character takes none).
pub open spec fn char_cols(c: char) -> nat {
    match unicode_char_width(c) {
        Some(w) => w,
        None => 0,
    }
}

/// The columns a character takes.
fn columns(c: char) -> (n: usize)
    ensures
        n == char_cols(c),
{
    match char_width(c) {
        Some(w) => w,
        None => 0,
    }
}

/// The columns styled characters take.
pub open spec fn cols(cells: Seq<(char, Tone)>) -> nat
    decreases cells.len(),
{
    if cells.len() == 0 {
        0
    } else {
        cols(cells.drop_last()) + char_cols(cells.last().0)
    }
}

/// A row fits in `width` columns, or holds a single character wider than that.
pub open spec fn row_fits(cells: Seq<(char, Tone)>, width: nat) -> bool {
    cols(cells) <= width || cells.len() == 1
}

/// Row `k` ends where the next row's first character would not fit after it.
pub open spec fn breaks_before(rows: Seq<StyledLine>, k: int, width: nat) -> bool {
    cols(line_cells(rows[k])) + char_cols(line_cells(rows[k + 1])[0].0) > width
}

/// `rows` is `cells` cut into rows that fit in `width` columns, each row
/// taking characters while the next one fits (a character wider than the
/// whole width takes a row of its own), each row written as maximal runs.
pub open spec fn wrapped_as(rows: Seq<StyledLine>, cells: Seq<(char, Tone)>, width: nat) -> bool {
    &&& lines_cells(rows) == cells
    &&& forall|k: int| 0 <= k < rows.len() ==> maximal_runs((#[trigger] rows[k]).spans@)
    &&& forall|k: int|
        0 <= k < rows.len() ==> line_cells(#[trigger] rows[k]).len() > 0 && row_fits(line_cells(rows[k]), width)
    &&& forall|k: int| 0 <= k < rows.len() - 1 ==> #[trigger] breaks_before(rows, k, width)
}

pub proof fn lemma_span_cells_push(spans: Seq<StyledSpan>, s: StyledSpan)
    ensures
        span_cells(spans.push(s)) == span_cells(spans) + tagged(s.text@, s.tone),
{
    reveal(span_cells);
    assert(spans.push(s).drop_last() == spans);
}

pub proof fn lemma_span_cells_empty()
    ensures
        span_cells(Seq::<StyledSpan>::empty()) == Seq::<(char, Tone)>::empty(),
{
    reveal(span_cells);
}

pub proof fn lemma_lines_cells_push(ls: Seq<StyledLine>, l: StyledLine)
    ensures
        lines_cells(ls.push(l)) == lines_cells(ls) + line_cells(l),
{
    reveal(lines_cells);
    assert(ls.push(l).drop_last() == ls);
}

pub proof fn lemma_lines_cells_empty()
    ensures
        lines_cells(Seq::<StyledLine>::empty()) == Seq::<(char, Tone)>::empty(),
{
    reveal(lines_cells);
}

/// An empty line.
pub fn empty_line() -> (l: StyledLine)
    ensures
        l.spans@.len() == 0,
{
    StyledLine { spans: Vec::new() }
}

fn styled_cells(line: &StyledLine) -> (cells: Vec<(char, Tone)>)
    ensures
        cells@ == line_cells(*line),
{
    let mut cells: Vec<(char, Tone)> = Vec::new();
    proof {
        lemma_span_cells_empty();
        assert(line.spans@.take(0) == Seq::<StyledSpan>::empty());
    }
    for i in 0..line.spans.len()
        invariant
            cells@ == span_cells(line.spans@.take(i as int)),
    {
        let tone = line.spans[i].tone;
        let cs = to_chars(line.spans[i].text.as_str());
        let ghost before = cells@;
        for j in 0..cs.len()
            invariant
                cells@ == before + tagged(cs@.take(j as int), tone),
        {
            cells.push((cs[j], tone));
            assert(tagged(cs@.take(j + 1), tone) =~= tagged(cs@.take(j as int), tone).push((cs@[j as int], tone)));
        }
        assert(cs@.take(cs.len() as int) == cs@);
        proof {
            assert(line.spans@.take(i + 1) == line.spans@.take(i as int).push(line.spans@[i as int]));
            lemma_span_cells_push(line.spans@.take(i as int), line.spans@[i as int]);
        }
    }
    assert(line.spans@.take(line.spans.len() as int) == line.spans@);
    cells
}

/// Moves the pending text, if any, into a run of style `tone`.
fn flush_text(spans: &mut Vec<StyledSpan>, text: &mut String, tone: Tone)
    requires
        maximal_runs(old(spans)@),
        old(spans)@.len() > 0 ==> old(spans)@.last().tone != tone,
    ensures
        span_cells(final(spans)@) + tagged(final(text)@, tone) == span_cells(old(spans)@) + tagged(old(text)@, tone),
        span_cells(final(spans)@).len() + final(text)@.len() == span_cells(old(spans)@).len() + old(text)@.len(),
        final(text)@.len() == 0,
        maximal_runs(final(spans)@),
        old(text)@.len() == 0 ==> final(spans)@ == old(spans)@,
        old(text)@.len() > 0 ==> final(spans)@.len() > 0 && final(spans)@.last().tone == tone,
{
    if !text.as_str().is_empty() {
        let ghost before = spans@;
        let span = StyledSpan { text: text.clone(), tone };
        spans.push(span);
        *text = String::new();
        proof {
            lemma_span_cells_push(before, span);
            assert(tagged(text@, tone) =~= Seq::<(char, Tone)>::empty());
            assert forall|i: int| 0 < i < spans@.len() implies #[trigger] differs_from_previous(spans@, i) by {
                if i < before.len() {
                    assert(differs_from_previous(before, i));
                }
            }
            assert forall|i: int| 0 <= i < spans@.len() implies (#[trigger] spans@[i]).text@.len() > 0 by {
                if i < before.len() {
                    assert(spans@[i] == before[i]);
                }
            }
        }
    } else {
        assert(tagged(text@, tone) =~= Seq::<(char, Tone)>::empty());
    }
}

/// The state of wrapping: the finished rows, and the runs and pending text of
/// the current row, which takes `col` columns.
struct Wrapper {
    result: Vec<StyledLine>,
    spans: Vec<StyledSpan>,
    text: String,
    tone: Tone,
    col: usize,
}

impl Wrapper {
    spec fn cur(&self) -> Seq<(char, Tone)> {
        span_cells(self.spans@) + tagged(self.text@, self.tone)
    }

    spec fn cells(&self) -> Seq<(char, Tone)> {
        lines_cells(self.result@) + self.cur()
    }

    spec fn inv(&self, width: nat) -> bool {
        &&& self.inv_core(width)
        &&& self.spans@.len() > 0 ==> self.text@.len() > 0
        &&& self.result@.len() > 0 ==> self.cur().len() > 0
    }

    spec fn inv_core(&self, width: nat) -> bool {
        &&& width > 0
        &&& forall|k: int| 0 <= k < self.result@.len() ==> maximal_runs((#[trigger] self.result@[k]).spans@)
        &&& forall|k: int|
            0 <= k < self.result@.len() ==> line_cells(#[trigger] self.result@[k]).len() > 0 && row_fits(
                line_cells(self.result@[k]),
                width,
            )
        &&& forall|k: int| 0 <= k < self.result@.len() - 1 ==> #[trigger] breaks_before(self.result@, k, width)
        &&& (self.result@.len() > 0 && self.cur().len() > 0) ==> cols(line_cells(self.result@.last())) + char_cols(
            self.cur()[0].0,
        ) > width
        &&& maximal_runs(self.spans@)
        &&& self.spans@.len() > 0 ==> self.spans@.last().tone != self.tone
        &&& self.col == cols(self.cur())
        &&& row_fits(self.cur(), width)
    }

    /// Ends the current row, before a character of `next` columns that does
    /// not fit after it.
    fn end_row(&mut self, width: usize, Ghost(next): Ghost<nat>)
        requires
            old(self).inv_core(width as nat),
            old(self).cur().len() > 0,
            old(self).col + next > width,
        ensures
            final(self).inv_core(width as nat),
            final(self).spans@.len() == 0,
            final(self).text@.len() == 0,
            final(self).cells() == old(self).cells(),
            final(self).col == 0,
            final(self).tone == old(self).tone,
            final(self).result@.len() > 0,
            cols(line_cells(final(self).result@.last())) + next > width,
    {
        let ghost cur = self.cur();
        flush_text(&mut self.spans, &mut self.text, self.tone);
        let mut spans: Vec<StyledSpan> = Vec::new();
        std::mem::swap(&mut spans, &mut self.spans);
        let ghost before_result = self.result@;
        let done = StyledLine { spans };
        assert(line_cells(done) == span_cells(done.spans@));
        assert(line_cells(done) == cur);
        self.result.push(done);
        self.col = 0;
        proof {
            lemma_lines_cells_push(before_result, done);
            lemma_span_cells_empty();
            assert(self.spans@ == Seq::<StyledSpan>::empty());
            assert(tagged(self.text@, self.tone) =~= Seq::<(char, Tone)>::empty());
            assert(self.cur() =~= Seq::<(char, Tone)>::empty());
            assert forall|k: int| 0 <= k < self.result@.len() implies maximal_runs((#[trigger] self.result@[k]).spans@) by {
                if k < before_result.len() {
                    assert(self.result@[k] == before_result[k]);
                }
            }
            assert forall|k: int| 0 <= k < self.result@.len() implies line_cells(#[trigger] self.result@[k]).len() > 0
                && row_fits(line_cells(self.result@[k]), width as nat) by {
                if k < before_result.len() {
                    assert(self.result@[k] == before_result[k]);
                }
            }
            assert forall|k: int| 0 <= k < self.result@.len() - 1 implies #[trigger] breaks_before(
                self.result@,
                k,
                width as nat,
            ) by {
                assert(self.result@[k] == before_result[k]);
                if k + 1 < before_result.len() {
                    assert(self.result@[k + 1] == before_result[k + 1]);
                    assert(breaks_before(before_result, k, width as nat));
                } else {
                    assert(self.result@[k + 1] == done);
                }
            }
        }
    }

    /// Adds one styled character.
    fn step(&mut self, ch: char, tone: Tone, width: usize)
        requires
            old(self).inv(width as nat),
        ensures
            final(self).inv(width as nat),
            final(self).cells() == old(self).cells().push((ch, tone)),
            final(self).cur().len() > 0,
    {
        let w = columns(ch);
        let started = !self.text.as_str().is_empty();
        proof {
            if !started {
                assert(self.text@.len() == 0);
                assert(self.spans@.len() == 0);
                assert(self.spans@ == Seq::<StyledSpan>::empty());
                lemma_span_cells_empty();
                assert(tagged(self.text@, self.tone) =~= Seq::<(char, Tone)>::empty());
                assert(self.cur() =~= Seq::<(char, Tone)>::empty());
            } else {
                assert(self.cur().len() > 0);
            }
        }
        let ghost cur_start = self.cur();
        if tone != self.tone {
            let ghost cur = self.cur();
            flush_text(&mut self.spans, &mut self.text, self.tone);
            proof {
                assert(tagged(self.text@, tone) =~= Seq::<(char, Tone)>::empty());
                assert(tagged(self.text@, self.tone) =~= Seq::<(char, Tone)>::empty());
            }
            self.tone = tone;
            assert(self.cur() == cur);
        }
        assert(self.cur() == cur_start);
        if started && (self.col > width || w > width - self.col) {
            self.end_row(width, Ghost(w as nat));
            proof {
                lemma_span_cells_empty();
                assert(self.spans@ == Seq::<StyledSpan>::empty());
                assert(tagged(self.text@, self.tone) =~= Seq::<(char, Tone)>::empty());
                assert(self.cur() =~= Seq::<(char, Tone)>::empty());
            }
        }
        let ghost cur_before = self.cur();
        let ghost col_before = self.col;
        assert(col_before == cols(cur_before));
        assert(cur_before.len() > 0 ==> col_before + w <= width);
        let ghost text_before = self.text@;
        push_char(&mut self.text, ch);
        proof {
            assert(tagged(self.text@, self.tone) =~= tagged(text_before, self.tone).push((ch, self.tone)));
            assert(self.cur() =~= cur_before.push((ch, tone)));
            assert(self.cur().drop_last() == cur_before);
            assert(cols(self.cur()) == cols(cur_before) + char_cols(ch));
            assert(cur_before.len() == 0 ==> cols(cur_before) == 0);
            if cur_before.len() > 0 {
                assert(self.cur()[0] == cur_before[0]);
            } else {
                assert(cols(cur_before) == 0);
                assert(self.cur()[0] == (ch, tone));
            }
        }
        self.col = self.col + w;
        proof {
            if cur_before.len() == 0 {
                assert(self.cur().len() == 1);
            } else {
                assert(cols(self.cur()) <= width);
            }
            assert(row_fits(self.cur(), width as nat));
        }
    }
}

/// Wraps a styled line to lines that fit within `width` terminal columns,
/// keeping each character's style; a character wider than the width takes a
/// line of its own. An empty line, or a width of zero, gives one empty line.
pub fn wrap_line(line: &StyledLine, width: usize) -> (r: Vec<StyledLine>)
    ensures
        (width == 0 || line_cells(*line).len() == 0) ==> r@.len() == 1 && r@[0].spans@.len() == 0,
        (width > 0 && line_cells(*line).len() > 0) ==> wrapped_as(r@, line_cells(*line), width as nat),
{
    if width == 0 {
        return vec![empty_line()];
    }
    let cells = styled_cells(line);
    if cells.len() == 0 {
        return vec![empty_line()];
    }
    let mut w = Wrapper {
        result: Vec::new(),
        spans: Vec::new(),
        text: String::new(),
        tone: cells[0].1,
        col: 0,
    };
    proof {
        lemma_lines_cells_empty();
        lemma_span_cells_empty();
        assert(w.result@ == Seq::<StyledLine>::empty());
        assert(w.spans@ == Seq::<StyledSpan>::empty());
        assert(w.cells() =~= cells@.take(0));
    }
    for i in 0..cells.len()
        invariant
            cells@ == line_cells(*line),
            cells.len() > 0,
            w.inv(width as nat),
            w.cells() == cells@.take(i as int),
            i > 0 ==> w.cur().len() > 0,
    {
        let (ch, tone) = cells[i];
        w.step(ch, tone, width);
        assert(cells@.take(i + 1) == cells@.take(i as int).push(cells@[i as int]));
    }
    let ghost cur_final = w.cur();
    flush_text(&mut w.spans, &mut w.text, w.tone);
    assert(w.cur() == cur_final);
    proof {
        assert(cells@.take(cells.len() as int) == cells@);
        assert(tagged(w.text@, w.tone) =~= Seq::<(char, Tone)>::empty());
    }
    let ghost before_result = w.result@;
    let Wrapper { result, spans, .. } = w;
    let mut result = result;
    if spans.len() > 0 {
        let last = StyledLine { spans };
        assert(line_cells(last) == cur_final);
        result.push(last);
        proof {
            lemma_lines_cells_push(before_result, last);
            assert forall|k: int| 0 <= k < result@.len() implies maximal_runs((#[trigger] result@[k]).spans@) by {
                if k < before_result.len() {
                    assert(result@[k] == before_result[k]);
                }
            }
            assert forall|k: int| 0 <= k < result@.len() implies line_cells(#[trigger] result@[k]).len() > 0
                && row_fits(line_cells(result@[k]), width as nat) by {
                if k < before_result.len() {
                    assert(result@[k] == before_result[k]);
                }
            }
            assert forall|k: int| 0 <= k < result@.len() - 1 implies #[trigger] breaks_before(result@, k, width as nat) by {
                assert(result@[k] == before_result[k]);
                if k + 1 < before_result.len() {
                    assert(result@[k + 1] == before_result[k + 1]);
                    assert(breaks_before(before_result, k, width as nat));
                } else {
                    assert(result@[k + 1] == last);
                }
            }
        }
    } else {
        proof {
            lemma_span_cells_empty();
            assert(spans@ == Seq::<StyledSpan>::empty());
        }
    }
    result
}

// ---------------------------------------------------------------------------
// Lines of text
// ---------------------------------------------------------------------------

/// A line of text without its line ending (`\n` or `\r\n`).
pub open spec fn strip_ending(piece: Seq<char>) -> Seq<char> {
    if piece.len() > 0 && piece.last() == '\n' {
        let p = piece.drop_last();
        if p.len() > 0 && p.last() == '\r' {
            p.drop_last()
        } else {
            p
        }
    } else {
        piece
    }
}

/// The lines of `s` from position `p` on, as `str::lines` gives them.
pub open spec fn lines_from(s: Seq<char>, p: int) -> Seq<Seq<char>>
    decreases s.len() - p,
{
    if p < 0 || p >= s.len() {
        Seq::<Seq<char>>::empty()
    } else {
        let e = crate::skill::line_end(s, p);
        proof {
            crate::skill::lemma_line_end(s, p);
        }
        seq![strip_ending(s.subrange(p, e))] + lines_from(s, e)
    }
}

/// The lines of a text, as `str::lines` gives them.
pub open spec fn text_lines(s: Seq<char>) -> Seq<Seq<char>> {
    lines_from(s, 0)
}

fn strip_ending_exec(cs: &Vec<char>, from: usize, to: usize) -> (r: String)
    requires
        from <= to <= cs.len(),
    ensures
        r@ == strip_ending(cs@.subrange(from as int, to as int)),
{
    let ghost piece = cs@.subrange(from as int, to as int);
    let mut end = to;
    if end > from && cs[end - 1] == '\n' {
        end = end - 1;
        assert(piece.drop_last() == cs@.subrange(from as int, end as int));
        if end > from && cs[end - 1] == '\r' {
            end = end - 1;
            assert(cs@.subrange(from as int, end + 1).drop_last() == cs@.subrange(from as int, end as int));
        }
    }
    crate::text::string_from_range(cs.as_slice(), from, end)
}

/// The lines of a text, as `str::lines` gives them.
pub fn split_text_lines(text: &str) -> (r: Vec<String>)
    ensures
        r@.map_values(|l: String| l@) == text_lines(text@),
{
    let cs = to_chars(text);
    let mut r: Vec<String> = Vec::new();
    let mut p: usize = 0;
    while p < cs.len()
        invariant
            p <= cs.len(),
            cs@ == text@,
            r@.map_values(|l: String| l@) + lines_from(text@, p as int) == text_lines(text@),
        decreases cs.len() - p,
    {
        let e = crate::skill::line_end_exec(&cs, p);
        let line = strip_ending_exec(&cs, p, e);
        let ghost before = r@;
        r.push(line);
        proof {
            assert(r@.map_values(|l: String| l@) =~= before.map_values(|l: String| l@).push(line@));
            assert(lines_from(text@, p as int) == seq![line@] + lines_from(text@, e as int));
            assert(r@.map_values(|l: String| l@) + lines_from(text@, e as int) =~= before.map_values(|l: String| l@) + lines_from(text@, p as int));
        }
        p = e;
    }
    proof {
        assert(lines_from(text@, p as int) == Seq::<Seq<char>>::empty());
        assert(r@.map_values(|l: String| l@) + Seq::<Seq<char>>::empty() == r@.map_values(|l: String| l@));
    }
    r
}

// ---------------------------------------------------------------------------
// The conversation as lines
// ---------------------------------------------------------------------------

/// Who a message is from.
#[derive(Debug, Clone, Copy, PartialEq, Eq, Structural)]
pub enum Role {
    User,
    Assistant,
}

/// A piece of an answer, in the order the model produced it.
#[derive(Debug, Clone)]
pub enum StreamChunk {
    /// Reasoning text (shown dimmed).
    Reasoning(String),
    /// Answer text.
    Text(String),
    /// A tool call's status line.
    Tool(String),
}

/// A message as the view shows it.
#[derive(Debug, Clone)]
pub struct DisplayMessage {
    pub role: Role,
    pub chunks: Vec<StreamChunk>,
}

/// A line as its runs of (text, style).
pub type LineView = Seq<(Seq<char>, Tone)>;

pub open spec fn line_view(l: StyledLine) -> LineView {
    l.spans@.map_values(|sp: StyledSpan| (sp.text@, sp.tone))
}

pub open spec fn lines_view(ls: Seq<StyledLine>) -> Seq<LineView> {
    ls.map_values(|l: StyledLine| line_view(l))
}

/// A line of one run.
pub open spec fn single(text: Seq<char>, tone: Tone) -> LineView {
    seq![(text, tone)]
}

/// An empty line.
pub open spec fn blank() -> LineView {
    single(Seq::<char>::empty(), Tone::Plain)
}

pub open spec fn is_tool(c: StreamChunk) -> bool {
    c is Tool
}

/// The lines of a text in one style, and an empty line after a final line break.
pub open spec fn text_block(s: Seq<char>, tone: Tone) -> Seq<LineView> {
    text_lines(s).map_values(|l: Seq<char>| single(l, tone)) + if s.len() > 0 && s.last() == '\n' {
        seq![blank()]
    } else {
        Seq::<LineView>::empty()
    }
}

pub open spec fn chunk_lines(c: StreamChunk) -> Seq<LineView> {
    match c {
        StreamChunk::Reasoning(s) => text_block(s@, Tone::Reasoning),
        StreamChunk::Text(s) => text_block(s@, Tone::Plain),
        StreamChunk::Tool(s) => if s@.len() == 0 {
            seq![blank()]
        } else {
            text_block(s@, Tone::Dim)
        },
    }
}

/// The lines of chunks: an empty line between two chunks unless both are tool lines.
pub open spec fn chunks_lines(cs: Seq<StreamChunk>) -> Seq<LineView>
    decreases cs.len(),
{
    if cs.len() == 0 {
        Seq::<LineView>::empty()
    } else {
        let prev = chunks_lines(cs.drop_last());
        let sep = if cs.len() > 1 && !(is_tool(cs[cs.len() - 2]) && is_tool(cs.last())) {
            seq![blank()]
        } else {
            Seq::<LineView>::empty()
        };
        prev + sep + chunk_lines(cs.last())
    }
}

pub open spec fn label_line(role: Role) -> LineView {
    match role {
        Role::User => single("You"@, Tone::UserLabel),
        Role::Assistant => single("Assistant"@, Tone::AssistantLabel),
    }
}

/// The lines of messages: each labelled, separated by an empty line.
pub open spec fn messages_lines(ms: Seq<DisplayMessage>) -> Seq<LineView>
    decreases ms.len(),
{
    if ms.len() == 0 {
        Seq::<LineView>::empty()
    } else {
        let prev = messages_lines(ms.drop_last());
        (if prev.len() > 0 {
            prev.push(blank())
        } else {
            prev
        }) + seq![label_line(ms.last().role)] + chunks_lines(ms.last().chunks@)
    }
}

fn blank_line() -> (l: StyledLine)
    ensures
        line_view(l) == blank(),
{
    let l = StyledLine { spans: vec![StyledSpan { text: String::new(), tone: Tone::Plain }] };
    assert(line_view(l) =~= blank());
    l
}

fn single_line(text: String, tone: Tone) -> (l: StyledLine)
    ensures
        line_view(l) == single(text@, tone),
{
    let l = StyledLine { spans: vec![StyledSpan { text, tone }] };
    assert(line_view(l) =~= single(text@, tone));
    l
}

proof fn lemma_lines_view_push(ls: Seq<StyledLine>, l: StyledLine)
    ensures
        lines_view(ls.push(l)) == lines_view(ls).push(line_view(l)),
{
    assert(lines_view(ls.push(l)) =~= lines_view(ls).push(line_view(l)));
}

/// Appends the lines of a text in one style, and an empty line after a final line break.
fn push_text_block(lines: &mut Vec<StyledLine>, s: &String, tone: Tone)
    ensures
        lines_view(final(lines)@) == lines_view(old(lines)@) + text_block(s@, tone),
{
    let ls = split_text_lines(s.as_str());
    let ghost start = lines_view(lines@);
    let ghost tl = text_lines(s@);
    for i in 0..ls.len()
        invariant
            ls@.map_values(|l: String| l@) == tl,
            lines_view(lines@) == start + tl.take(i as int).map_values(|l: Seq<char>| single(l, tone)),
    {
        let line = single_line(ls[i].clone(), tone);
        let ghost before = lines@;
        lines.push(line);
        proof {
            lemma_lines_view_push(before, line);
            assert(tl[i as int] == ls@[i as int]@);
            assert(tl.take(i + 1).map_values(|l: Seq<char>| single(l, tone)) =~= tl.take(i as int).map_values(|l: Seq<char>| single(l, tone)).push(single(tl[i as int], tone)));
        }
    }
    proof {
        assert(tl.take(ls.len() as int) == tl);
    }
    let cs = to_chars(s.as_str());
    if cs.len() > 0 && cs[cs.len() - 1] == '\n' {
        let ghost before = lines@;
        let b = blank_line();
        lines.push(b);
        proof {
            lemma_lines_view_push(before, b);
        }
    }
}

/// Appends the lines of a chunk.
fn push_chunk_lines(lines: &mut Vec<StyledLine>, c: &StreamChunk)
    ensures
        lines_view(final(lines)@) == lines_view(old(lines)@) + chunk_lines(*c),
{
    match c {
        StreamChunk::Reasoning(s) => push_text_block(lines, s, Tone::Reasoning),
        StreamChunk::Text(s) => push_text_block(lines, s, Tone::Plain),
        StreamChunk::Tool(s) => {
            if s.as_str().is_empty() {
                let ghost before = lines@;
                let b = blank_line();
                lines.push(b);
                proof {
                    lemma_lines_view_push(before, b);
                }
            } else {
                push_text_block(lines, s, Tone::Dim);
            }
        },
    }
}

/// Appends the lines of chunks, with an empty line between two chunks unless
/// both are tool lines.
pub fn render_chunks(chunks: &Vec<StreamChunk>, lines: &mut Vec<StyledLine>)
    ensures
        lines_view(final(lines)@) == lines_view(old(lines)@) + chunks_lines(chunks@),
{
    let ghost start = lines_view(lines@);
    for i in 0..chunks.len()
        invariant
            lines_view(lines@) == start + chunks_lines(chunks@.take(i as int)),
    {
        let ghost cs = chunks@.take(i + 1);
        proof {
            assert(cs.drop_last() == chunks@.take(i as int));
            assert(cs.last() == chunks@[i as int]);
            if i > 0 {
                assert(cs[cs.len() - 2] == chunks@[i - 1]);
            }
        }
        if i > 0 {
            let prev_is_tool = match &chunks[i - 1] {
                StreamChunk::Tool(_) => true,
                _ => false,
            };
            let curr_is_tool = match &chunks[i] {
                StreamChunk::Tool(_) => true,
                _ => false,
            };
            if !prev_is_tool || !curr_is_tool {
                let ghost before = lines@;
                let b = blank_line();
                lines.push(b);
                proof {
                    lemma_lines_view_push(before, b);
                }
            }
        }
        push_chunk_lines(lines, &chunks[i]);
    }
    assert(chunks@.take(chunks.len() as int) == chunks@);
}

/// The character shown as the streaming cursor.
pub open spec fn cursor_text(blink_on: bool) -> Seq<char> {
    if blink_on {
        "█"@
    } else {
        " "@
    }
}

/// A line whose runs are all empty.
pub open spec fn is_empty_line(l: LineView) -> bool {
    forall|i: int| 0 <= i < l.len() ==> (#[trigger] l[i]).0.len() == 0
}

/// Whether the cursor goes on a fresh line after this chunk: after a tool
/// line, or after text that ends with a line break.
pub open spec fn ends_line(c: StreamChunk) -> bool {
    match c {
        StreamChunk::Tool(_) => true,
        StreamChunk::Text(s) => s@.len() > 0 && s@.last() == '\n',
        StreamChunk::Reasoning(s) => s@.len() > 0 && s@.last() == '\n',
    }
}

/// The lines of the conversation: the messages, then the answer being
/// streamed (with the blinking cursor while generating), or a hint when
/// there is nothing yet.
pub open spec fn conversation_lines(ms: Seq<DisplayMessage>, stream: Seq<StreamChunk>, generating: bool, blink_on: bool) -> Seq<LineView> {
    let base = messages_lines(ms);
    let with_stream = if generating || stream.len() > 0 {
        let head = (if base.len() > 0 {
            base.push(blank())
        } else {
            base
        }).push(label_line(Role::Assistant)) + chunks_lines(stream);
        if generating {
            let cur = (cursor_text(blink_on), Tone::Cursor);
            if stream.len() == 0 || (ends_line(stream.last()) && !is_empty_line(head.last())) {
                head.push(seq![cur])
            } else {
                head.update(head.len() - 1, head.last().push(cur))
            }
        } else {
            head
        }
    } else {
        base
    };
    if with_stream.len() == 0 {
        seq![single("Type a message and press Enter to start."@, Tone::Dim)]
    } else {
        with_stream
    }
}

fn push_line(lines: &mut Vec<StyledLine>, l: StyledLine)
    ensures
        lines_view(final(lines)@) == lines_view(old(lines)@).push(line_view(l)),
{
    let ghost before = lines@;
    lines.push(l);
    proof {
        lemma_lines_view_push(before, l);
    }
}

fn label(role: Role) -> (l: StyledLine)
    ensures
        line_view(l) == label_line(role),
{
    match role {
        Role::User => single_line("You".to_owned(), Tone::UserLabel),
        Role::Assistant => single_line("Assistant".to_owned(), Tone::AssistantLabel),
    }
}

fn line_is_empty(l: &StyledLine) -> (b: bool)
    ensures
        b == is_empty_line(line_view(*l)),
{
    for i in 0..l.spans.len()
        invariant
            forall|k: int| 0 <= k < i ==> (#[trigger] line_view(*l)[k]).0.len() == 0,
    {
        if !l.spans[i].text.as_str().is_empty() {
            assert(line_view(*l)[i as int].0.len() > 0);
            return false;
        }
    }
    true
}

/// The lines of the conversation, before wrapping.
pub fn conversation_view(messages: &Vec<DisplayMessage>, stream_chunks: &Vec<StreamChunk>, generating: bool, cursor_blink_on: bool) -> (r: Vec<StyledLine>)
    ensures
        lines_view(r@) == conversation_lines(messages@, stream_chunks@, generating, cursor_blink_on),
{
    let mut lines: Vec<StyledLine> = Vec::new();
    assert(lines_view(lines@) =~= messages_lines(messages@.take(0)));
    for i in 0..messages.len()
        invariant
            lines_view(lines@) == messages_lines(messages@.take(i as int)),
    {
        proof {
            assert(messages@.take(i + 1).drop_last() == messages@.take(i as int));
            assert(messages@.take(i + 1).last() == messages@[i as int]);
        }
        if lines.len() > 0 {
            push_line(&mut lines, blank_line());
        }
        push_line(&mut lines, label(messages[i].role));
        render_chunks(&messages[i].chunks, &mut lines);
    }
    assert(messages@.take(messages.len() as int) == messages@);
    if generating || stream_chunks.len() > 0 {
        if lines.len() > 0 {
            push_line(&mut lines, blank_line());
        }
        push_line(&mut lines, label(Role::Assistant));
        render_chunks(stream_chunks, &mut lines);
        if generating {
            let cursor = if cursor_blink_on {
                "█".to_owned()
            } else {
                " ".to_owned()
            };
            let cursor_span = StyledSpan { text: cursor, tone: Tone::Cursor };
            let n = lines.len();
            if stream_chunks.len() == 0 {
                let l = StyledLine { spans: vec![cursor_span] };
                assert(line_view(l) =~= seq![(cursor_text(cursor_blink_on), Tone::Cursor)]);
                push_line(&mut lines, l);
            } else {
                let ends = match &stream_chunks[stream_chunks.len() - 1] {
                    StreamChunk::Tool(_) => true,
                    StreamChunk::Text(s) => {
                        let cs = to_chars(s.as_str());
                        cs.len() > 0 && cs[cs.len() - 1] == '\n'
                    },
                    StreamChunk::Reasoning(s) => {
                        let cs = to_chars(s.as_str());
                        cs.len() > 0 && cs[cs.len() - 1] == '\n'
                    },
                };
                assert(lines_view(lines@).last() == line_view(lines@[n - 1]));
                let last_empty = line_is_empty(&lines[n - 1]);
                if ends && !last_empty {
                    let l = StyledLine { spans: vec![cursor_span] };
                    assert(line_view(l) =~= seq![(cursor_text(cursor_blink_on), Tone::Cursor)]);
                    push_line(&mut lines, l);
                } else {
                    let ghost before = lines@;
                    let mut last = lines.pop().unwrap();
                    last.spans.push(cursor_span);
                    let ghost lv = line_view(last);
                    lines.push(last);
                    proof {
                        assert(lv =~= line_view(before[n - 1]).push((cursor_text(cursor_blink_on), Tone::Cursor)));
                        assert(lines_view(lines@) =~= lines_view(before).update(n - 1, lv));
                    }
                }
            }
        }
    }
    if lines.len() == 0 {
        let hint = single_line("Type a message and press Enter to start.".to_owned(), Tone::Dim);
        push_line(&mut lines, hint);
    }
    lines
}

/// `g` is what wrapping `l` to `width` gives.
pub open spec fn wrap_of(g: Seq<StyledLine>, l: StyledLine, width: nat) -> bool {
    if width == 0 || line_cells(l).len() == 0 {
        g.len() == 1 && g[0].spans@.len() == 0
    } else {
        wrapped_as(g, line_cells(l), width)
    }
}

pub open spec fn concat_lines(gs: Seq<Seq<StyledLine>>) -> Seq<StyledLine>
    decreases gs.len(),
{
    if gs.len() == 0 {
        Seq::<StyledLine>::empty()
    } else {
        concat_lines(gs.drop_last()) + gs.last()
    }
}

/// Wraps each line to `width`, one after the other, so that the number of
/// lines is the height they take on screen.
pub fn wrap_lines(lines: &Vec<StyledLine>, width: usize) -> (r: Vec<StyledLine>)
    ensures
        exists|gs: Seq<Seq<StyledLine>>|
            #![trigger concat_lines(gs)]
            gs.len() == lines@.len() && concat_lines(gs) == r@ && forall|k: int|
                0 <= k < gs.len() ==> wrap_of(#[trigger] gs[k], lines@[k], width as nat),
{
    let mut out: Vec<StyledLine> = Vec::new();
    let ghost mut gs: Seq<Seq<StyledLine>> = Seq::empty();
    for i in 0..lines.len()
        invariant
            gs.len() == i,
            concat_lines(gs) == out@,
            forall|k: int| 0 <= k < gs.len() ==> wrap_of(#[trigger] gs[k], lines@[k], width as nat),
    {
        let mut w = wrap_line(&lines[i], width);
        let ghost g = w@;
        let ghost before = out@;
        out.append(&mut w);
        proof {
            let old_gs = gs;
            gs = gs.push(g);
            assert(gs.drop_last() == old_gs);
            assert forall|k: int| 0 <= k < gs.len() implies wrap_of(#[trigger] gs[k], lines@[k], width as nat) by {
                if k < old_gs.len() {
                    assert(gs[k] == old_gs[k]);
                }
            }
        }
    }
    out
}

/// The conversation's lines, wrapped to `width`.
pub fn build_message_lines(messages: &Vec<DisplayMessage>, stream_chunks: &Vec<StreamChunk>, generating: bool, cursor_blink_on: bool, width: usize) -> (r: Vec<StyledLine>)
    ensures
        exists|logical: Seq<StyledLine>, gs: Seq<Seq<StyledLine>>|
            #![trigger concat_lines(gs), lines_view(logical)]
            lines_view(logical) == conversation_lines(messages@, stream_chunks@, generating, cursor_blink_on)
                && gs.len() == logical.len() && concat_lines(gs) == r@ && forall|k: int|
                0 <= k < gs.len() ==> wrap_of(#[trigger] gs[k], logical[k], width as nat),
{
    let logical = conversation_view(messages, stream_chunks, generating, cursor_blink_on);
    wrap_lines(&logical, width)
}

} // verus!
