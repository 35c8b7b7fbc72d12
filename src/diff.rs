use vstd::prelude::*;

verus! {

/// Whether a line of a diff was deleted, inserted, or is common to both texts.
#[derive(Debug, Clone, Copy, PartialEq, Eq, Structural)]
pub enum ChangeKind {
    Delete,
    Insert,
    Equal,
}

/// One line of a diff: its kind, its index in the old and in the new text
/// (where it stands there), its text in segments, each marked when it is a
/// changed part of the line, and whether it lacks a final newline.
#[derive(Debug)]
pub struct DiffLine {
    pub tag: ChangeKind,
    pub old_index: Option<usize>,
    pub new_index: Option<usize>,
    pub segments: Vec<(bool, String)>,
    pub missing_newline: bool,
}

/// A line of a diff without its emphasis: kind, old index, new index, text,
/// missing final newline.
pub type LineSummary = (ChangeKind, Option<usize>, Option<usize>, Seq<char>, bool);

/// The segments of a line joined.
pub open spec fn joined(s: Seq<(bool, String)>) -> Seq<char>
    decreases s.len(),
{
    if s.len() == 0 {
        seq![]
    } else {
        joined(s.drop_last()) + s.last().1@
    }
}

impl DiffLine {
    pub open spec fn summary(&self) -> LineSummary {
        (self.tag, self.old_index, self.new_index, joined(self.segments@), self.missing_newline)
    }
}

/// The summaries of groups of diff lines.
pub open spec fn summaries(g: Seq<Vec<DiffLine>>) -> Seq<Seq<LineSummary>> {
    g.map_values(|v: Vec<DiffLine>| v@.map_values(|l: DiffLine| l.summary()))
}

/// The line diff of `old` and `new` in hunks with `context` lines of context
/// around each change, as the text-diff library groups it.
pub uninterp spec fn line_diff_of(old: Seq<char>, new: Seq<char>, context: nat) -> Seq<Seq<LineSummary>>;

/// Relies on `similar::TextDiff::from_lines`, `TextDiff::grouped_ops` and
/// `TextDiff::iter_inline_changes`. The lines and their grouping depend on the
/// texts alone; which segments are marked changed may vary, since the
/// library gives up refining a line after a time limit.
#[verifier::external_body]
fn diff_lines(old: &str, new: &str, context: usize) -> (r: Vec<Vec<DiffLine>>)
    ensures
        summaries(r@) == line_diff_of(old@, new@, context as nat),
{
    let diff = similar::TextDiff::from_lines(old, new);
    let tag = |t| match t {
        similar::ChangeTag::Delete => ChangeKind::Delete,
        similar::ChangeTag::Insert => ChangeKind::Insert,
        similar::ChangeTag::Equal => ChangeKind::Equal,
    };
    let line = |c: similar::InlineChange<str>| DiffLine {
        tag: tag(c.tag()),
        old_index: c.old_index(),
        new_index: c.new_index(),
        segments: c.iter_strings_lossy().map(|(e, s)| (e, s.into_owned())).collect(),
        missing_newline: c.missing_newline(),
    };
    let hunk = |g: &Vec<similar::DiffOp>| g.iter().flat_map(|op| diff.iter_inline_changes(op)).map(line).collect();
    diff.grouped_ops(context).iter().map(hunk).collect()
}

/// The decimal digits of `n`.
pub open spec fn decimal(n: nat) -> Seq<char>
    decreases n,
{
    if n < 10 {
        seq![digit_char(n)]
    } else {
        decimal(n / 10).push(digit_char(n % 10))
    }
}

pub open spec fn digit_char(d: nat) -> char {
    if d == 0 { '0' } else if d == 1 { '1' } else if d == 2 { '2' } else if d == 3 { '3' }
    else if d == 4 { '4' } else if d == 5 { '5' } else if d == 6 { '6' } else if d == 7 { '7' }
    else if d == 8 { '8' } else { '9' }
}

/// `s` padded on the right with spaces to four characters.
pub open spec fn pad4(s: Seq<char>) -> Seq<char> {
    if s.len() >= 4 {
        s
    } else {
        s + Seq::new((4 - s.len()) as nat, |i: int| ' ')
    }
}

/// The line-number column for an index: the 1-based number, left-aligned in
/// four columns, or four spaces when the line is absent from that text.
pub open spec fn line_number(i: Option<usize>) -> Seq<char> {
    match i {
        Some(n) => pad4(decimal(n as nat + 1)),
        None => seq![' ', ' ', ' ', ' '],
    }
}

/// The sign column of a line.
pub open spec fn sign(t: ChangeKind) -> Seq<char> {
    match t {
        ChangeKind::Delete => seq!['-'],
        ChangeKind::Insert => seq!['+'],
        ChangeKind::Equal => seq![' '],
    }
}

/// The separator between hunks: eighty dashes.
pub open spec fn hunk_separator() -> Seq<char> {
    Seq::new(80, |i: int| '-')
}

/// The text of one diff line: old number, new number, ` |`, sign, content,
/// and a newline where the content lacks one.
pub open spec fn line_text(l: LineSummary) -> Seq<char> {
    line_number(l.1) + line_number(l.2) + seq![' ', '|'] + sign(l.0) + l.3
        + (if l.4 { seq!['\n'] } else { seq![] })
}

/// The text of the lines of a hunk.
pub open spec fn lines_text(ls: Seq<LineSummary>) -> Seq<char>
    decreases ls.len(),
{
    if ls.len() == 0 {
        seq![]
    } else {
        lines_text(ls.drop_last()) + line_text(ls.last())
    }
}

/// The text of a diff: its hunks, a separator before each but the first.
pub open spec fn diff_text_of(g: Seq<Seq<LineSummary>>) -> Seq<char>
    decreases g.len(),
{
    if g.len() == 0 {
        seq![]
    } else {
        diff_text_of(g.drop_last()) + (if g.len() > 1 { hunk_separator() } else { seq![] })
            + lines_text(g.last())
    }
}

fn digit_str(d: u128) -> (r: &'static str)
    requires
        d < 10,
    ensures
        r@ == seq![digit_char(d as nat)],
{
    proof {
        reveal_strlit("0");
        reveal_strlit("1");
        reveal_strlit("2");
        reveal_strlit("3");
        reveal_strlit("4");
        reveal_strlit("5");
        reveal_strlit("6");
        reveal_strlit("7");
        reveal_strlit("8");
        reveal_strlit("9");
    }
    if d == 0 { "0" } else if d == 1 { "1" } else if d == 2 { "2" } else if d == 3 { "3" }
    else if d == 4 { "4" } else if d == 5 { "5" } else if d == 6 { "6" } else if d == 7 { "7" }
    else if d == 8 { "8" } else { "9" }
}

/// Appends the decimal digits of `n`.
fn write_decimal(n: u128, out: &mut String)
    ensures
        final(out)@ == old(out)@ + decimal(n as nat),
    decreases n,
{
    if n >= 10 {
        write_decimal(n / 10, out);
    }
    out.append(digit_str(n % 10));
    proof {
        if n >= 10 {
            assert(decimal(n as nat) == decimal((n / 10) as nat).push(digit_char((n % 10) as nat)));
        }
    }
}

/// Appends the line-number column for `i`.
fn write_line_number(i: Option<usize>, out: &mut String)
    ensures
        final(out)@ == old(out)@ + line_number(i),
{
    proof {
        reveal_strlit(" ");
        reveal_strlit("    ");
    }
    match i {
        Some(n) => {
            let mut num = String::new();
            write_decimal(n as u128 + 1, &mut num);
            assert(num@ =~= decimal(n as nat + 1));
            let len = num.as_str().unicode_len();
            let mut pad = String::new();
            let mut k: usize = len;
            while k < 4
                invariant
                    len <= k,
                    len == num@.len(),
                    k <= 4 || k == len,
                    pad@ =~= Seq::new((k - len) as nat, |j: int| ' '),
                decreases 4 - k,
            {
                proof {
                    reveal_strlit(" ");
                }
                pad.append(" ");
                k = k + 1;
            }
            out.append(num.as_str());
            out.append(pad.as_str());
            proof {
                if len >= 4 {
                    assert(pad@ =~= seq![]);
                }
                assert(num@ + pad@ =~= pad4(num@));
            }
            assert(final(out)@ =~= old(out)@ + line_number(i));
        },
        None => {
            out.append("    ");
            assert(final(out)@ =~= old(out)@ + line_number(i));
        },
    }
}

/// Appends the joined segments of a line.
fn write_segments(segs: &Vec<(bool, String)>, out: &mut String)
    ensures
        final(out)@ == old(out)@ + joined(segs@),
{
    let ghost start = out@;
    let mut i: usize = 0;
    while i < segs.len()
        invariant
            i <= segs@.len(),
            out@ == start + joined(segs@.subrange(0, i as int)),
        decreases segs@.len() - i,
    {
        out.append(segs[i].1.as_str());
        proof {
            assert(segs@.subrange(0, i + 1).drop_last() =~= segs@.subrange(0, i as int));
            assert(out@ =~= start + joined(segs@.subrange(0, i + 1)));
        }
        i = i + 1;
    }
    assert(segs@.subrange(0, segs@.len() as int) =~= segs@);
}

/// The sign column of a line, as text.
fn sign_str(t: ChangeKind) -> (r: &'static str)
    ensures
        r@ == sign(t),
{
    proof {
        reveal_strlit("-");
        reveal_strlit("+");
        reveal_strlit(" ");
    }
    match t {
        ChangeKind::Delete => "-",
        ChangeKind::Insert => "+",
        ChangeKind::Equal => " ",
    }
}

/// Appends the text of one diff line.
fn write_line(l: &DiffLine, out: &mut String)
    ensures
        final(out)@ == old(out)@ + line_text(l.summary()),
{
    proof {
        reveal_strlit(" |");
        reveal_strlit("\n");
    }
    let ghost start = out@;
    write_line_number(l.old_index, out);
    write_line_number(l.new_index, out);
    out.append(" |");
    out.append(sign_str(l.tag));
    write_segments(&l.segments, out);
    if l.missing_newline {
        out.append("\n");
    }
    assert(out@ =~= start + line_text(l.summary()));
}

/// Appends the text of the lines of a hunk.
fn write_hunk(ls: &Vec<DiffLine>, out: &mut String)
    ensures
        final(out)@ == old(out)@ + lines_text(ls@.map_values(|l: DiffLine| l.summary())),
{
    let ghost start = out@;
    let mut i: usize = 0;
    while i < ls.len()
        invariant
            i <= ls@.len(),
            out@ == start + lines_text(ls@.subrange(0, i as int).map_values(|l: DiffLine| l.summary())),
        decreases ls@.len() - i,
    {
        write_line(&ls[i], out);
        proof {
            let pre = ls@.subrange(0, i as int).map_values(|l: DiffLine| l.summary());
            let next = ls@.subrange(0, i + 1).map_values(|l: DiffLine| l.summary());
            assert(next.drop_last() =~= pre);
            assert(out@ =~= start + lines_text(next));
        }
        i = i + 1;
    }
    assert(ls@.subrange(0, ls@.len() as int) =~= ls@);
}

/// Appends the text of a diff given in hunks.
pub fn render_diff_text(groups: &Vec<Vec<DiffLine>>) -> (r: String)
    ensures
        r@ == diff_text_of(summaries(groups@)),
{
    let mut out = String::new();
    let mut i: usize = 0;
    while i < groups.len()
        invariant
            i <= groups@.len(),
            out@ == diff_text_of(summaries(groups@.subrange(0, i as int))),
        decreases groups@.len() - i,
    {
        let ghost before = out@;
        if i > 0 {
            let mut k: usize = 0;
            while k < 80
                invariant
                    k <= 80,
                    out@ =~= before + Seq::new(k as nat, |j: int| '-'),
                decreases 80 - k,
            {
                proof {
                    reveal_strlit("-");
                }
                out.append("-");
                k = k + 1;
            }
        }
        let ghost mid = out@;
        assert(mid =~= before + (if i + 1 > 1 { hunk_separator() } else { seq![] }));
        write_hunk(&groups[i], &mut out);
        proof {
            let pre = summaries(groups@.subrange(0, i as int));
            let next = summaries(groups@.subrange(0, i + 1));
            assert(next.drop_last() =~= pre);
            assert(next.last() == groups@[i as int]@.map_values(|l: DiffLine| l.summary()));
            assert(out@ =~= diff_text_of(next));
        }
        i = i + 1;
    }
    assert(groups@.subrange(0, groups@.len() as int) =~= groups@);
    out
}

/// The number of context lines kept around each change.
pub const CONTEXT_LINES: usize = 3;

/// The line diff of two texts, rendered: hunks with three lines of context,
/// eighty dashes between hunks, and for each line its old and new number,
/// its sign and its content.
pub fn diff_text(text1: &str, text2: &str) -> (r: String)
    ensures
        r@ == diff_text_of(line_diff_of(text1@, text2@, 3)),
{
    let groups = diff_lines(text1, text2, CONTEXT_LINES);
    render_diff_text(&groups)
}

/// How a piece of a rendered diff is to be shown.
#[derive(Debug, Clone, Copy, PartialEq, Eq, Structural)]
pub enum SpanStyle {
    /// A line-number column.
    LineNumber,
    /// Text shown without style.
    Plain,
    /// The sign column of a line of the given kind.
    Sign(ChangeKind),
    /// Unchanged text within a line of the given kind.
    Text(ChangeKind),
    /// Changed text within a line of the given kind.
    Emphasized(ChangeKind),
    /// The separator between hunks.
    Separator,
}

/// A piece of a rendered diff and how it is to be shown.
#[derive(Debug)]
pub struct Span {
    pub text: String,
    pub style: SpanStyle,
}

/// The text and style of each span.
pub open spec fn spans_view(v: Seq<Span>) -> Seq<(Seq<char>, SpanStyle)> {
    v.map_values(|sp: Span| (sp.text@, sp.style))
}

/// The spans of the segments of a line of kind `t`.
pub open spec fn segment_spans(segs: Seq<(bool, String)>, t: ChangeKind) -> Seq<(Seq<char>, SpanStyle)>
    decreases segs.len(),
{
    if segs.len() == 0 {
        seq![]
    } else {
        segment_spans(segs.drop_last(), t).push(
            (segs.last().1@, if segs.last().0 { SpanStyle::Emphasized(t) } else { SpanStyle::Text(t) }),
        )
    }
}

/// The spans that open a diff line: its two numbers, the gutter and its sign.
pub open spec fn line_head(l: DiffLine) -> Seq<(Seq<char>, SpanStyle)> {
    seq![
        (line_number(l.old_index), SpanStyle::LineNumber),
        (line_number(l.new_index), SpanStyle::LineNumber),
        (seq![' ', '|'], SpanStyle::Plain),
        (sign(l.tag), SpanStyle::Sign(l.tag)),
    ]
}

/// The spans of one diff line.
pub open spec fn line_spans(l: DiffLine) -> Seq<(Seq<char>, SpanStyle)> {
    line_head(l) + segment_spans(l.segments@, l.tag) + (if l.missing_newline {
        seq![(seq!['\n'], SpanStyle::Plain)]
    } else {
        seq![]
    })
}

/// The spans of the lines of a hunk.
pub open spec fn hunk_spans(ls: Seq<DiffLine>) -> Seq<(Seq<char>, SpanStyle)>
    decreases ls.len(),
{
    if ls.len() == 0 {
        seq![]
    } else {
        hunk_spans(ls.drop_last()) + line_spans(ls.last())
    }
}

/// The spans of a diff: its hunks, a separator before each but the first.
pub open spec fn diff_spans_of(g: Seq<Vec<DiffLine>>) -> Seq<(Seq<char>, SpanStyle)>
    decreases g.len(),
{
    if g.len() == 0 {
        seq![]
    } else {
        diff_spans_of(g.drop_last()) + (if g.len() > 1 {
            seq![(hunk_separator(), SpanStyle::Separator)]
        } else {
            seq![]
        }) + hunk_spans(g.last()@)
    }
}

/// The texts of spans joined.
pub open spec fn spans_text(sp: Seq<(Seq<char>, SpanStyle)>) -> Seq<char>
    decreases sp.len(),
{
    if sp.len() == 0 {
        seq![]
    } else {
        spans_text(sp.drop_last()) + sp.last().0
    }
}

pub proof fn lemma_spans_text_concat(a: Seq<(Seq<char>, SpanStyle)>, b: Seq<(Seq<char>, SpanStyle)>)
    ensures
        spans_text(a + b) == spans_text(a) + spans_text(b),
    decreases b.len(),
{
    if b.len() == 0 {
        assert(a + b =~= a);
    } else {
        lemma_spans_text_concat(a, b.drop_last());
        assert((a + b).drop_last() =~= a + b.drop_last());
    }
}

pub proof fn lemma_segment_spans_text(segs: Seq<(bool, String)>, t: ChangeKind)
    ensures
        spans_text(segment_spans(segs, t)) == joined(segs),
    decreases segs.len(),
{
    if segs.len() > 0 {
        lemma_segment_spans_text(segs.drop_last(), t);
        let r = segment_spans(segs, t);
        assert(r.drop_last() =~= segment_spans(segs.drop_last(), t));
    }
}

pub proof fn lemma_hunk_spans_text(ls: Seq<DiffLine>)
    ensures
        spans_text(hunk_spans(ls)) == lines_text(ls.map_values(|l: DiffLine| l.summary())),
    decreases ls.len(),
{
    if ls.len() > 0 {
        let l = ls.last();
        lemma_hunk_spans_text(ls.drop_last());
        lemma_spans_text_concat(hunk_spans(ls.drop_last()), line_spans(l));
        let head = seq![
            (line_number(l.old_index), SpanStyle::LineNumber),
            (line_number(l.new_index), SpanStyle::LineNumber),
            (seq![' ', '|'], SpanStyle::Plain),
            (sign(l.tag), SpanStyle::Sign(l.tag)),
        ];
        let tail = if l.missing_newline { seq![(seq!['\n'], SpanStyle::Plain)] } else { seq![] };
        lemma_spans_text_concat(head + segment_spans(l.segments@, l.tag), tail);
        lemma_spans_text_concat(head, segment_spans(l.segments@, l.tag));
        lemma_segment_spans_text(l.segments@, l.tag);
        reveal_with_fuel(spans_text, 5);
        assert(head.drop_last().drop_last().drop_last().drop_last() =~= seq![]);
        assert(head.drop_last().drop_last().drop_last() =~= seq![head[0]]);
        assert(head.drop_last().drop_last() =~= seq![head[0], head[1]]);
        assert(head.drop_last() =~= seq![head[0], head[1], head[2]]);
        assert(spans_text(head) =~= line_number(l.old_index) + line_number(l.new_index) + seq![' ', '|'] + sign(l.tag));
        if l.missing_newline {
            assert(tail.drop_last() =~= seq![]);
        }
        assert(spans_text(tail) =~= (if l.missing_newline { seq!['\n'] } else { seq![] }));
        assert(ls.map_values(|l: DiffLine| l.summary()).drop_last() =~= ls.drop_last().map_values(|l: DiffLine| l.summary()));
        assert(spans_text(line_spans(l)) =~= line_text(l.summary()));
    }
}

/// The spans of a diff show exactly its text.
pub proof fn lemma_diff_spans_text(g: Seq<Vec<DiffLine>>)
    ensures
        spans_text(diff_spans_of(g)) == diff_text_of(summaries(g)),
    decreases g.len(),
{
    if g.len() > 0 {
        lemma_diff_spans_text(g.drop_last());
        let sep = if g.len() > 1 { seq![(hunk_separator(), SpanStyle::Separator)] } else { seq![] };
        lemma_spans_text_concat(diff_spans_of(g.drop_last()) + sep, hunk_spans(g.last()@));
        lemma_spans_text_concat(diff_spans_of(g.drop_last()), sep);
        lemma_hunk_spans_text(g.last()@);
        reveal_with_fuel(spans_text, 2);
        if g.len() > 1 {
            assert(sep.drop_last() =~= seq![]);
        }
        assert(spans_text(sep) =~= (if g.len() > 1 { hunk_separator() } else { seq![] }));
        assert(summaries(g).drop_last() =~= summaries(g.drop_last()));
    }
}

fn push_span(out: &mut Vec<Span>, text: String, style: SpanStyle)
    ensures
        spans_view(final(out)@) == spans_view(old(out)@).push((text@, style)),
{
    out.push(Span { text, style });
    proof {
        assert(spans_view(out@) =~= spans_view(old(out)@).push((text@, style)));
    }
}

/// Appends the spans of one diff line.
fn write_line_spans(l: &DiffLine, out: &mut Vec<Span>)
    ensures
        spans_view(final(out)@) == spans_view(old(out)@) + line_spans(*l),
{
    proof {
        reveal_strlit(" |");
        reveal_strlit("\n");
    }
    let ghost start = spans_view(out@);
    let mut old_no = String::new();
    write_line_number(l.old_index, &mut old_no);
    assert(old_no@ =~= line_number(l.old_index));
    push_span(out, old_no, SpanStyle::LineNumber);
    let mut new_no = String::new();
    write_line_number(l.new_index, &mut new_no);
    assert(new_no@ =~= line_number(l.new_index));
    push_span(out, new_no, SpanStyle::LineNumber);
    let gutter = String::from_str(" |");
    assert(gutter@ =~= seq![' ', '|']);
    push_span(out, gutter, SpanStyle::Plain);
    let sign_text = String::from_str(sign_str(l.tag));
    assert(sign_text@ == sign(l.tag));
    push_span(out, sign_text, SpanStyle::Sign(l.tag));
    let ghost head = spans_view(out@);
    assert(head =~= start + line_head(*l));
    let mut i: usize = 0;
    while i < l.segments.len()
        invariant
            i <= l.segments@.len(),
            head == start + line_head(*l),
            spans_view(out@) == head + segment_spans(l.segments@.subrange(0, i as int), l.tag),
        decreases l.segments@.len() - i,
    {
        let style = if l.segments[i].0 { SpanStyle::Emphasized(l.tag) } else { SpanStyle::Text(l.tag) };
        push_span(out, l.segments[i].1.clone(), style);
        proof {
            assert(l.segments@.subrange(0, i + 1).drop_last() =~= l.segments@.subrange(0, i as int));
            assert(spans_view(out@) =~= head + segment_spans(l.segments@.subrange(0, i + 1), l.tag));
        }
        i = i + 1;
    }
    assert(l.segments@.subrange(0, l.segments@.len() as int) =~= l.segments@);
    proof {
        reveal_strlit("\n");
    }
    let ghost body = spans_view(out@);
    assert(body == start + line_head(*l) + segment_spans(l.segments@, l.tag));
    if l.missing_newline {
        let nl = String::from_str("\n");
        assert(nl@ =~= seq!['\n']);
        push_span(out, nl, SpanStyle::Plain);
        assert(spans_view(out@) =~= body + seq![(seq!['\n'], SpanStyle::Plain)]);
    } else {
        assert(spans_view(out@) =~= body + seq![]);
    }
    assert(spans_view(out@) =~= start + line_spans(*l));
}

/// The spans of a diff given in hunks: what `render_diff_text` writes, piece
/// by piece, each with the style it is shown in.
pub fn render_diff_spans(groups: &Vec<Vec<DiffLine>>) -> (r: Vec<Span>)
    ensures
        spans_view(r@) == diff_spans_of(groups@),
{
    let mut out: Vec<Span> = Vec::new();
    let mut i: usize = 0;
    while i < groups.len()
        invariant
            i <= groups@.len(),
            spans_view(out@) == diff_spans_of(groups@.subrange(0, i as int)),
        decreases groups@.len() - i,
    {
        let ghost before = spans_view(out@);
        if i > 0 {
            let mut dashes = String::new();
            let mut k: usize = 0;
            while k < 80
                invariant
                    k <= 80,
                    dashes@ =~= Seq::new(k as nat, |j: int| '-'),
                decreases 80 - k,
            {
                proof {
                    reveal_strlit("-");
                }
                dashes.append("-");
                k = k + 1;
            }
            assert(dashes@ =~= hunk_separator());
            push_span(&mut out, dashes, SpanStyle::Separator);
        }
        let ghost mid = spans_view(out@);
        let g = &groups[i];
        let mut j: usize = 0;
        while j < g.len()
            invariant
                j <= g@.len(),
                spans_view(out@) == mid + hunk_spans(g@.subrange(0, j as int)),
            decreases g@.len() - j,
        {
            write_line_spans(&g[j], &mut out);
            proof {
                assert(g@.subrange(0, j + 1).drop_last() =~= g@.subrange(0, j as int));
                assert(spans_view(out@) =~= mid + hunk_spans(g@.subrange(0, j + 1)));
            }
            j = j + 1;
        }
        proof {
            assert(g@.subrange(0, g@.len() as int) =~= g@);
            let next = groups@.subrange(0, i + 1);
            assert(next.drop_last() =~= groups@.subrange(0, i as int));
            assert(spans_view(out@) =~= diff_spans_of(next));
        }
        i = i + 1;
    }
    assert(groups@.subrange(0, groups@.len() as int) =~= groups@);
    out
}

/// The line diff of two texts as styled spans: what `diff_text` gives, piece
/// by piece, with changed parts of lines marked where the diff library found
/// them.
pub fn diff_spans(text1: &str, text2: &str) -> (r: Vec<Span>)
    ensures
        exists|g: Seq<Vec<DiffLine>>| summaries(g) == line_diff_of(text1@, text2@, 3)
            && #[trigger] diff_spans_of(g) == spans_view(r@),
        spans_text(spans_view(r@)) == diff_text_of(line_diff_of(text1@, text2@, 3)),
{
    let groups = diff_lines(text1, text2, CONTEXT_LINES);
    let r = render_diff_spans(&groups);
    proof {
        lemma_diff_spans_text(groups@);
    }
    r
}

} // verus!
