//! Formatted output: lines of a report, and their text.

use vstd::prelude::*;
use vstd::string::StringExecFns;

use crate::source::{source_label, PackageSource};

verus! {

/// A single line of formatted ark output.
#[derive(Debug, Clone, PartialEq, Eq)]
pub enum ArkOutputLine {
    Header(String),
    Package { name: String, version: String, source: PackageSource, description: String },
    Info { key: String, value: String },
    Separator,
    Success(String),
    Error(String),
    Warning(String),
}

/// A line, with its strings as character sequences.
pub enum LineView {
    Header(Seq<char>),
    Package { name: Seq<char>, version: Seq<char>, source: PackageSource, description: Seq<char> },
    Info { key: Seq<char>, value: Seq<char> },
    Separator,
    Success(Seq<char>),
    Error(Seq<char>),
    Warning(Seq<char>),
}

impl View for ArkOutputLine {
    type V = LineView;

    open spec fn view(&self) -> LineView {
        match self {
            ArkOutputLine::Header(s) => LineView::Header(s@),
            ArkOutputLine::Package { name, version, source, description } => LineView::Package {
                name: name@,
                version: version@,
                source: *source,
                description: description@,
            },
            ArkOutputLine::Info { key, value } => LineView::Info { key: key@, value: value@ },
            ArkOutputLine::Separator => LineView::Separator,
            ArkOutputLine::Success(s) => LineView::Success(s@),
            ArkOutputLine::Error(s) => LineView::Error(s@),
            ArkOutputLine::Warning(s) => LineView::Warning(s@),
        }
    }
}

/// Formatted output for display.
#[derive(Debug, Clone)]
pub struct ArkOutput {
    pub lines: Vec<ArkOutputLine>,
}

pub open spec fn lines_view(lines: Seq<ArkOutputLine>) -> Seq<LineView> {
    Seq::new(lines.len(), |i: int| lines[i]@)
}

impl View for ArkOutput {
    type V = Seq<LineView>;

    open spec fn view(&self) -> Seq<LineView> {
        lines_view(self.lines@)
    }
}

/// The text of one line, with its end of line.
pub open spec fn line_text(l: LineView) -> Seq<char> {
    match l {
        LineView::Header(s) => "=== "@ + s + " ===\n"@,
        LineView::Package { name, version, source, description } => "  "@ + name + " ("@ + version
            + ") ["@ + source_label(source) + "] -- "@ + description + "\n"@,
        LineView::Info { key, value } => "  "@ + key + ": "@ + value + "\n"@,
        LineView::Separator => "---\n"@,
        LineView::Success(s) => "OK: "@ + s + "\n"@,
        LineView::Error(s) => "ERROR: "@ + s + "\n"@,
        LineView::Warning(s) => "WARN: "@ + s + "\n"@,
    }
}

/// The text of the lines, one after another.
pub open spec fn display_text(lines: Seq<LineView>) -> Seq<char>
    decreases lines.len(),
{
    if lines.len() == 0 {
        Seq::empty()
    } else {
        display_text(lines.drop_last()) + line_text(lines.last())
    }
}

/// Appends the text of `line` to `out`.
fn push_line_text(out: &mut String, line: &ArkOutputLine)
    ensures
        final(out)@ == old(out)@ + line_text(line@),
{
    match line {
        ArkOutputLine::Header(s) => {
            out.append("=== ");
            out.append(s.as_str());
            out.append(" ===\n");
        },
        ArkOutputLine::Package { name, version, source, description } => {
            out.append("  ");
            out.append(name.as_str());
            out.append(" (");
            out.append(version.as_str());
            out.append(") [");
            out.append(source.label());
            out.append("] -- ");
            out.append(description.as_str());
            out.append("\n");
        },
        ArkOutputLine::Info { key, value } => {
            out.append("  ");
            out.append(key.as_str());
            out.append(": ");
            out.append(value.as_str());
            out.append("\n");
        },
        ArkOutputLine::Separator => {
            out.append("---\n");
        },
        ArkOutputLine::Success(s) => {
            out.append("OK: ");
            out.append(s.as_str());
            out.append("\n");
        },
        ArkOutputLine::Error(s) => {
            out.append("ERROR: ");
            out.append(s.as_str());
            out.append("\n");
        },
        ArkOutputLine::Warning(s) => {
            out.append("WARN: ");
            out.append(s.as_str());
            out.append("\n");
        },
    }
}

impl ArkOutput {
    /// Create an empty output.
    pub fn new() -> (r: ArkOutput)
        ensures
            r@ == Seq::<LineView>::empty(),
    {
        let r = ArkOutput { lines: Vec::new() };
        assert(r@ =~= Seq::<LineView>::empty());
        r
    }

    /// Appends a line.
    pub fn push(&mut self, line: ArkOutputLine)
        ensures
            final(self)@ == old(self)@.push(line@),
    {
        let ghost before = self@;
        self.lines.push(line);
        assert(self@ =~= before.push(line@));
    }

    /// Appends the lines of `more`, in order.
    pub fn push_all(&mut self, more: Vec<ArkOutputLine>)
        ensures
            final(self)@ == old(self)@ + lines_view(more@),
    {
        let ghost before = self@;
        let ghost added = lines_view(more@);
        let mut more = more;
        self.lines.append(&mut more);
        assert(self@ =~= before + added);
    }

    /// Format the output as a human-readable string.
    pub fn to_display_string(&self) -> (r: String)
        ensures
            r@ == display_text(self@),
    {
        let mut out = String::new();
        let mut k: usize = 0;
        while k < self.lines.len()
            invariant
                k <= self.lines.len(),
                out@ == display_text(self@.take(k as int)),
            decreases self.lines.len() - k,
        {
            assert(self@.take(k + 1).drop_last() =~= self@.take(k as int));
            push_line_text(&mut out, &self.lines[k]);
            k = k + 1;
        }
        assert(self@.take(self.lines.len() as int) =~= self@);
        out
    }
}

impl Default for ArkOutput {
    fn default() -> (r: ArkOutput)
        ensures
            r@ == Seq::<LineView>::empty(),
    {
        ArkOutput::new()
    }
}

/// A header line.
pub fn header(text: String) -> (r: ArkOutputLine)
    ensures
        r@ == LineView::Header(text@),
{
    ArkOutputLine::Header(text)
}

/// A `key: value` line.
pub fn info_line(key: &str, value: String) -> (r: ArkOutputLine)
    ensures
        r@ == (LineView::Info { key: key@, value: value@ }),
{
    ArkOutputLine::Info { key: String::from_str(key), value }
}

} // verus!

verus! {

/// Displaying the lines `a` and then the lines `b` gives the text of `a`
/// followed by the text of `b`.
pub proof fn law_display_concat(a: Seq<LineView>, b: Seq<LineView>)
    ensures
        display_text(a + b) == display_text(a) + display_text(b),
    decreases b.len(),
{
    if b.len() == 0 {
        assert(a + b =~= a);
        assert(display_text(b) =~= Seq::<char>::empty());
        assert(display_text(a) + display_text(b) =~= display_text(a));
    } else {
        law_display_concat(a, b.drop_last());
        assert((a + b).drop_last() =~= a + b.drop_last());
        assert((a + b).last() == b.last());
        assert(display_text(a + b) =~= display_text(a) + display_text(b));
    }
}

} // verus!
