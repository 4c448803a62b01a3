//! The chat's light markdown: lines, with text between backticks shown as code.
use vstd::prelude::*;

use crate::text::{char_views, from_chars, split_chars, split_on, to_chars};

verus! {

/// A run of text on one line, and whether it sits between backticks.
pub struct MarkdownSpan {
    pub text: String,
    pub code: bool,
}

/// One line without its line ending: a trailing `\r` goes with the `\n`.
pub open spec fn strip_cr(line: Seq<char>) -> Seq<char> {
    if line.len() > 0 && line.last() == '\r' {
        line.drop_last()
    } else {
        line
    }
}

/// The lines of `s` as `str::lines` yields them: split at `\n` (a `\r`
/// before it is dropped), with no empty line after a final `\n`.
pub open spec fn text_lines(s: Seq<char>) -> Seq<Seq<char>> {
    let p = split_on(s, '\n');
    let ended = p.drop_last().map_values(|l: Seq<char>| strip_cr(l));
    if p.last().len() == 0 {
        ended
    } else {
        ended.push(p.last())
    }
}

/// The spans of one line: the pieces between backticks, every second one code.
pub open spec fn line_spans(line: Seq<char>) -> Seq<(Seq<char>, bool)> {
    let parts = split_on(line, '`');
    Seq::new(parts.len(), |i: int| (parts[i], i % 2 == 1))
}

/// The view of one rendered line.
pub open spec fn span_views(spans: Seq<MarkdownSpan>) -> Seq<(Seq<char>, bool)> {
    spans.map_values(|s: MarkdownSpan| (s.text@, s.code))
}

fn render_line(line: &[char]) -> (spans: Vec<MarkdownSpan>)
    ensures
        span_views(spans@) == line_spans(line@),
{
    let parts = split_chars(line, '`');
    let ghost pv = char_views(parts@);
    let mut spans: Vec<MarkdownSpan> = Vec::new();
    let mut i: usize = 0;
    while i < parts.len()
        invariant
            i <= parts.len(),
            pv == char_views(parts@),
            pv == split_on(line@, '`'),
            span_views(spans@) =~= Seq::new(i as nat, |k: int| (pv[k], k % 2 == 1)),
        decreases parts.len() - i,
    {
        let ghost before = span_views(spans@);
        let s = MarkdownSpan { text: from_chars(&parts[i]), code: i % 2 == 1 };
        spans.push(s);
        assert(span_views(spans@) =~= before.push((pv[i as int], i % 2 == 1)));
        i = i + 1;
    }
    spans
}

fn drop_cr(line: &[char]) -> (r: Vec<char>)
    ensures
        r@ == strip_cr(line@),
{
    if line.len() > 0 && line[line.len() - 1] == '\r' {
        crate::text::copy_range(line, 0, line.len() - 1)
    } else {
        crate::text::copy_range(line, 0, line.len())
    }
}

/// The chat text as lines of spans: each line split at backticks, the text
/// between a pair of backticks marked as code.
pub fn render_markdown(text: &str) -> (lines: Vec<Vec<MarkdownSpan>>)
    ensures
        lines@.len() == text_lines(text@).len(),
        forall|i: int| 0 <= i < lines@.len() ==> span_views(#[trigger] lines@[i]@) == line_spans(text_lines(text@)[i]),
{
    let chars = to_chars(text);
    let pieces = split_chars(&chars, '\n');
    let ghost pv = char_views(pieces@);
    let ghost tl = text_lines(text@);
    proof {
        crate::text::lemma_split_on_nonempty(text@, '\n');
    }
    let n = pieces.len();
    let last_empty = pieces[n - 1].len() == 0;
    let count = if last_empty { n - 1 } else { n };
    let mut lines: Vec<Vec<MarkdownSpan>> = Vec::new();
    let mut i: usize = 0;
    while i < count
        invariant
            n == pv.len(),
            n > 0,
            pieces@.len() == n,
            forall|k: int| 0 <= k < n ==> #[trigger] pieces@[k]@ == pv[k],
            pv == split_on(text@, '\n'),
            tl == text_lines(text@),
            count == (if pv.last().len() == 0 { n - 1 } else { n as int }),
            i <= count,
            lines@.len() == i,
            forall|k: int| 0 <= k < i ==> span_views(#[trigger] lines@[k]@) == line_spans(tl[k]),
        decreases count - i,
    {
        let piece = &pieces[i];
        assert(piece@ == pv[i as int]);
        let line = if i + 1 < n { drop_cr(piece) } else { crate::text::copy_range(piece, 0, piece.len()) };
        proof {
            if i + 1 < n {
                assert(tl[i as int] == strip_cr(pv[i as int]));
            } else {
                assert(pv.last().len() != 0);
                assert(tl[i as int] == pv.last());
            }
        }
        assert(piece@.subrange(0, piece@.len() as int) =~= piece@);
        assert(line@ == tl[i as int]);
        let spans = render_line(&line);
        lines.push(spans);
        assert(span_views(lines@[i as int]@) == line_spans(tl[i as int]));
        i = i + 1;
    }
    lines
}

} // verus!
