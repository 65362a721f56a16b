//! The lines of a rendered tree: their model, and the text of each.

use vstd::prelude::*;
use vstd::string::*;

verus! {

/// What a line shows.
#[derive(Clone, Copy, Debug, PartialEq, Eq, Structural)]
pub enum Marker {
    /// The header of a directory, written `=`.
    Directory,
    /// A file, written `-`.
    File,
    /// A symbolic link, written `&`.
    Symlink,
    /// The notice that stands for the entries of a directory that could
    /// not be read.
    Denied,
}

/// The model of one line of output.
pub struct Line {
    /// How many directories lie between the root and what the line shows.
    pub depth: nat,
    pub marker: Marker,
    /// The entry's name; empty on a [`Marker::Denied`] line.
    pub name: Seq<char>,
}

/// The quoted, escaped form in which `std`'s `Debug` writes a file name.
pub uninterp spec fn debug_quoted(name: Seq<char>) -> Seq<char>;

/// `depth` spaces.
pub open spec fn indent(depth: nat) -> Seq<char> {
    Seq::new(depth, |i: int| ' ')
}

/// The character that introduces an entry of the given kind.
pub open spec fn marker_char(marker: Marker) -> char {
    match marker {
        Marker::Directory => '=',
        Marker::File => '-',
        Marker::Symlink => '&',
        Marker::Denied => '[',
    }
}

/// What follows the indentation on a line whose name, quoted, is `quoted`:
/// the notice, or the marker, the quoted name and the end of the line.
pub open spec fn body_text(marker: Marker, quoted: Seq<char>) -> Seq<char> {
    match marker {
        Marker::Denied => "[ACCESS DENIED]\n"@,
        _ => seq![marker_char(marker)] + quoted + seq!['\n'],
    }
}

/// What follows the indentation on a line.
pub open spec fn line_body(marker: Marker, name: Seq<char>) -> Seq<char> {
    body_text(marker, debug_quoted(name))
}

/// The text of one line, newline included.
pub open spec fn render_line(line: Line) -> Seq<char> {
    indent(line.depth) + line_body(line.marker, line.name)
}

/// The text of a sequence of lines.
pub open spec fn render(lines: Seq<Line>) -> Seq<char>
    decreases lines.len(),
{
    if lines.len() == 0 {
        Seq::empty()
    } else {
        render(lines.drop_last()) + render_line(lines.last())
    }
}

/// The line for an entry named `name` at `depth`.
pub open spec fn entry_line(depth: nat, marker: Marker, name: Seq<char>) -> Line {
    Line { depth, marker, name }
}

/// The line that reports an unreadable directory whose entries would stand
/// at `depth`.
pub open spec fn denied_line(depth: nat) -> Line {
    Line { depth, marker: Marker::Denied, name: Seq::empty() }
}

/// Whether every line stands at a level from `first` to `last`.
pub open spec fn within_levels(lines: Seq<Line>, first: nat, last: nat) -> bool {
    forall|i: int| 0 <= i < lines.len() ==> first <= (#[trigger] lines[i]).depth <= last
}

/// Rendering distributes over concatenation.
pub proof fn lemma_render_concat(a: Seq<Line>, b: Seq<Line>)
    ensures
        render(a + b) == render(a) + render(b),
    decreases b.len(),
{
    if b.len() > 0 {
        lemma_render_concat(a, b.drop_last());
        assert((a + b).drop_last() =~= a + b.drop_last());
    }
}

/// A single line renders to its own text.
pub proof fn lemma_render_single(line: Line)
    ensures
        render(seq![line]) == render_line(line),
{
    assert(render(seq![line].drop_last()) =~= Seq::<char>::empty());
}

/// A line at depth `d` begins with exactly `d` spaces: its first `d`
/// characters are spaces, and the one behind them is not.
pub proof fn lemma_line_indentation(line: Line)
    ensures
        render_line(line).len() > line.depth,
        forall|i: int| 0 <= i < line.depth ==> render_line(line)[i] == ' ',
        render_line(line)[line.depth as int] != ' ',
{
    reveal_strlit("[ACCESS DENIED]\n");
}

/// Writes a file name as `std`'s `Debug` does for a `Path` (`{:?}`):
/// between double quotes, with escapes. The result is named, not described.
#[verifier::external_body]
fn quote(name: &str) -> (quoted: String)
    ensures
        quoted@ == debug_quoted(name@),
{
    format!("{:?}", std::path::Path::new(name))
}

/// A string of `depth` spaces.
pub fn indentation(depth: usize) -> (prefix: String)
    ensures
        prefix@ == indent(depth as nat),
{
    let mut prefix = String::new();
    let mut written: usize = 0;
    while written < depth
        invariant
            written <= depth,
            prefix@ == indent(written as nat),
        decreases depth - written,
    {
        proof {
            reveal_strlit(" ");
        }
        prefix.append(" ");
        written = written + 1;
    }
    prefix
}

/// The text of a line at `depth` whose name, already quoted, is `quoted`:
/// the indentation, then the marker, the quoted name and the end of the
/// line. With [`Marker::Denied`] the notice stands in place of all three.
pub fn compose_line(depth: usize, marker: Marker, quoted: &str) -> (text: String)
    ensures
        text@ == indent(depth as nat) + body_text(marker, quoted@),
{
    let mut text = indentation(depth);
    proof {
        reveal_strlit("=");
        reveal_strlit("-");
        reveal_strlit("&");
        reveal_strlit("\n");
    }
    let sign = match marker {
        Marker::Directory => "=",
        Marker::File => "-",
        Marker::Symlink => "&",
        Marker::Denied => {
            text.append("[ACCESS DENIED]\n");
            return text;
        },
    };
    text.append(sign);
    text.append(quoted);
    text.append("\n");
    text
}

/// The text of the line for an entry named `name` at `depth`. `marker` is
/// the entry's kind; with [`Marker::Denied`] the name is left out.
pub fn format_line(depth: usize, marker: Marker, name: &str) -> (text: String)
    ensures
        text@ == render_line(entry_line(depth as nat, marker, name@)),
{
    let quoted = quote(name);
    compose_line(depth, marker, quoted.as_str())
}

} // verus!
