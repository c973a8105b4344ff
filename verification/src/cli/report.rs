use vstd::prelude::*;

verus! {

/// How a span of text is shown on a terminal.
#[derive(Debug, Clone, Copy, PartialEq, Eq, Structural)]
pub enum Tone {
    Plain,
    /// A label (cyan).
    Label,
    /// A section title (bold cyan).
    Title,
    /// An identifier that stands out (bold white).
    Key,
    /// A marker or an element that exists (green).
    Mark,
    /// A sub-heading (bold).
    Strong,
    /// A number that stands out, or a warning (yellow).
    Accent,
    /// An error (red).
    Alert,
    /// Information (blue).
    Note,
    /// A detail that stays in the background (dimmed).
    Faint,
}

/// A span of text and the way it is shown.
#[derive(Debug)]
pub struct Span {
    pub tone: Tone,
    pub text: String,
}

impl View for Span {
    type V = (Tone, Seq<char>);

    open spec fn view(&self) -> (Tone, Seq<char>) {
        (self.tone, self.text@)
    }
}

/// One line of a report: its spans, one after the other.
#[derive(Debug)]
pub struct Line {
    pub spans: Vec<Span>,
}

/// A line as its spans, each as tone and characters.
pub type LineView = Seq<(Tone, Seq<char>)>;

impl View for Line {
    type V = LineView;

    open spec fn view(&self) -> LineView {
        self.spans@.map_values(|s: Span| s@)
    }
}

/// The lines of a report, each as its spans.
pub open spec fn report_view(r: Seq<Line>) -> Seq<LineView> {
    r.map_values(|l: Line| l@)
}

/// A plain span.
pub open spec fn p(t: Seq<char>) -> (Tone, Seq<char>) {
    (Tone::Plain, t)
}

/// A line of one plain span.
pub open spec fn plain_line(t: Seq<char>) -> LineView {
    seq![p(t)]
}

/// The lines of applying `f` to each item, one item after another.
pub open spec fn lines_for<T>(items: Seq<T>, f: spec_fn(T) -> Seq<LineView>) -> Seq<LineView>
    decreases items.len(),
{
    if items.len() == 0 {
        Seq::empty()
    } else {
        lines_for(items.drop_last(), f) + f(items.last())
    }
}

/// One more item reported.
pub proof fn lemma_lines_for_step<T>(items: Seq<T>, f: spec_fn(T) -> Seq<LineView>, i: int)
    requires
        0 <= i < items.len(),
    ensures
        lines_for(items.take(i + 1), f) == lines_for(items.take(i), f) + f(items[i]),
{
    assert(items.take(i + 1).drop_last() =~= items.take(i));
}

/// All items reported.
pub proof fn lemma_lines_for_all<T>(items: Seq<T>, f: spec_fn(T) -> Seq<LineView>)
    ensures
        lines_for(items.take(items.len() as int), f) == lines_for(items, f),
{
    assert(items.take(items.len() as int) =~= items);
}

/// `lines` when `c` holds, no line otherwise.
pub open spec fn lines_if(c: bool, lines: Seq<LineView>) -> Seq<LineView> {
    if c {
        lines
    } else {
        Seq::empty()
    }
}

impl Line {
    /// A line without spans.
    pub fn new() -> (l: Line)
        ensures
            l@ == Seq::<(Tone, Seq<char>)>::empty(),
    {
        let l = Line { spans: Vec::new() };
        assert(l@ =~= Seq::<(Tone, Seq<char>)>::empty());
        l
    }

    /// Appends a span showing `text` in `tone`.
    pub fn add(&mut self, tone: Tone, text: &str)
        ensures
            final(self)@ == old(self)@.push((tone, text@)),
    {
        let ghost prev = self@;
        self.spans.push(Span { tone, text: String::from_str(text) });
        assert(self@ =~= prev.push((tone, text@)));
    }

    /// Appends a plain span.
    pub fn plain(&mut self, text: &str)
        ensures
            final(self)@ == old(self)@.push(p(text@)),
    {
        self.add(Tone::Plain, text);
    }
}

/// Appends a line to a report.
pub fn emit(out: &mut Vec<Line>, l: Line)
    ensures
        report_view(final(out)@) == report_view(old(out)@).push(l@),
{
    let ghost prev = out@;
    let ghost lv = l@;
    out.push(l);
    assert(report_view(out@) =~= report_view(prev).push(lv));
}

/// Appends a line of one plain span.
pub fn emit_plain(out: &mut Vec<Line>, text: &str)
    ensures
        report_view(final(out)@) == report_view(old(out)@).push(plain_line(text@)),
{
    let mut l = Line::new();
    l.plain(text);
    assert(l@ =~= plain_line(text@));
    emit(out, l);
}

} // verus!
