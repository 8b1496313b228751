//! The line diff of two summaries, rendered as markup.

use vstd::prelude::*;
use crate::text::{is_space, lemma_trimmed_unchanged, trim, trimmed};

verus! {

/// How a line of a diff relates to the two texts.
#[derive(Clone, Copy, Debug, PartialEq, Eq, Structural)]
pub enum LineKind {
    /// The line stands in the old text only.
    Deletion,
    /// The line stands in the new text only.
    Insertion,
    /// The line stands in both texts.
    Equal,
}

/// One line of a diff: its kind and its text, newline included.
#[derive(Clone, Debug, PartialEq, Eq)]
pub struct DiffLine {
    pub kind: LineKind,
    pub text: String,
}

/// The model of a [`DiffLine`].
pub struct DiffLineView {
    pub kind: LineKind,
    pub text: Seq<char>,
}

impl View for DiffLine {
    type V = DiffLineView;

    open spec fn view(&self) -> DiffLineView {
        DiffLineView { kind: self.kind, text: self.text@ }
    }
}

/// The model of a list of diff lines.
pub open spec fn lines_view(lines: Seq<DiffLine>) -> Seq<DiffLineView> {
    lines.map_values(|l: DiffLine| l@)
}

/// The lines of the unified line diff of `old` and `new`, three lines of
/// context around each change, hunk after hunk.
pub uninterp spec fn unified_diff_lines(old: Seq<char>, new: Seq<char>) -> Seq<DiffLineView>;

/// Calls `similar::TextDiff::from_lines` and walks `unified_diff().iter_hunks()`,
/// each hunk by `iter_changes()`.
///
/// Trusted: the lines that come back are a function of the two texts alone
/// (no deadline is set, so the clock plays no part), and two equal texts
/// have no hunk: their only operation is one run of equal lines, which the
/// grouping drops. Each text is the change's `Display` form, that is the
/// line with a newline added where it had none.
#[verifier::external_body]
fn line_changes(old: &str, new: &str) -> (changes: Vec<DiffLine>)
    ensures
        lines_view(changes@) == unified_diff_lines(old@, new@),
        old@ == new@ ==> changes@.len() == 0,
{
    let diff = similar::TextDiff::from_lines(old, new);
    let mut changes = Vec::new();
    for hunk in diff.unified_diff().iter_hunks() {
        for change in hunk.iter_changes() {
            let kind = match change.tag() {
                similar::ChangeTag::Delete => LineKind::Deletion,
                similar::ChangeTag::Insert => LineKind::Insertion,
                similar::ChangeTag::Equal => LineKind::Equal,
            };
            changes.push(DiffLine { kind, text: change.to_string() });
        }
    }
    changes
}

/// What a character becomes in markup: the four characters that markup
/// gives a meaning are replaced by their entities, every other character
/// stands for itself.
pub open spec fn escaped_char(c: char) -> Seq<char> {
    if c == '&' {
        "&amp;"@
    } else if c == '<' {
        "&lt;"@
    } else if c == '>' {
        "&gt;"@
    } else if c == '"' {
        "&quot;"@
    } else {
        seq![c]
    }
}

/// A text with every character escaped for markup.
pub open spec fn escaped_text(s: Seq<char>) -> Seq<char>
    decreases s.len(),
{
    if s.len() == 0 {
        Seq::empty()
    } else {
        escaped_text(s.drop_last()) + escaped_char(s.last())
    }
}

/// Calls maud's `Render::render` on a `str`, which escapes the text.
///
/// Trusted: `&`, `<`, `>` and `"` come back as `&amp;`, `&lt;`, `&gt;` and
/// `&quot;`; every other character comes back unchanged.
#[verifier::external_body]
fn escape(text: &str) -> (escaped: String)
    ensures
        escaped@ == escaped_text(text@),
{
    maud::Render::render(text).into_string()
}

/// Escaped text holds no `<`, `>` or `"`: it cannot open or close a tag or
/// an attribute.
pub proof fn lemma_escaped_text_is_inert(s: Seq<char>)
    ensures
        !escaped_text(s).contains('<'),
        !escaped_text(s).contains('>'),
        !escaped_text(s).contains('"'),
    decreases s.len(),
{
    if s.len() > 0 {
        reveal_strlit("&amp;");
        reveal_strlit("&lt;");
        reveal_strlit("&gt;");
        reveal_strlit("&quot;");
        lemma_escaped_text_is_inert(s.drop_last());
        let head = escaped_text(s.drop_last());
        let tail = escaped_char(s.last());
        let all = escaped_text(s);
        assert forall|k: int| 0 <= k < all.len() implies all[k] != '<' && all[k] != '>' && all[k]
            != '"' by {
            if k < head.len() {
                assert(head.contains(head[k]));
            } else {
                assert(all[k] == tail[k - head.len()]);
            }
        }
    }
}

/// The sign shown before a line. Lines of the old text only are shown as
/// additions, lines of the new text only as removals.
pub open spec fn sign_glyph(kind: LineKind) -> Seq<char> {
    match kind {
        LineKind::Deletion => "+"@,
        LineKind::Insertion => "-"@,
        LineKind::Equal => " "@,
    }
}

/// The colour a line is shown in; none for a line of both texts.
pub open spec fn color_hint(kind: LineKind) -> Seq<char> {
    match kind {
        LineKind::Deletion => "green"@,
        LineKind::Insertion => "red"@,
        LineKind::Equal => ""@,
    }
}

/// The markup of one line: its sign in bold, then its escaped text in a
/// coloured span.
pub open spec fn fragment(line: DiffLineView) -> Seq<char> {
    "<strong>"@ + sign_glyph(line.kind) + "</strong><span style=\"color:"@ + color_hint(line.kind)
        + "\">"@ + escaped_text(line.text) + "</span>"@
}

/// The markup of the lines, one fragment after the other.
pub open spec fn fragments(lines: Seq<DiffLineView>) -> Seq<char>
    decreases lines.len(),
{
    if lines.len() == 0 {
        Seq::empty()
    } else {
        fragments(lines.drop_last()) + fragment(lines.last())
    }
}

/// The markup of a diff: nothing where there is no line, else the
/// fragments inside a preformatted code block.
pub open spec fn rendered(lines: Seq<DiffLineView>) -> Seq<char> {
    if lines.len() == 0 {
        Seq::empty()
    } else {
        "<pre><code>"@ + fragments(lines) + "</code></pre>"@
    }
}

fn sign_of(kind: LineKind) -> (sign: &'static str)
    ensures
        sign@ == sign_glyph(kind),
{
    match kind {
        LineKind::Deletion => "+",
        LineKind::Insertion => "-",
        LineKind::Equal => " ",
    }
}

fn color_of(kind: LineKind) -> (color: &'static str)
    ensures
        color@ == color_hint(kind),
{
    match kind {
        LineKind::Deletion => "green",
        LineKind::Insertion => "red",
        LineKind::Equal => "",
    }
}

/// Renders the lines of a diff as markup.
///
/// No line gives the empty text. Otherwise every line becomes a fragment,
/// the fragments are joined in order and wrapped in a code block; the
/// result neither starts nor ends with whitespace.
pub fn render_changes(changes: &Vec<DiffLine>) -> (markup: String)
    ensures
        markup@ == rendered(lines_view(changes@)),
        trimmed(markup@) == markup@,
{
    let ghost lines = lines_view(changes@);
    if changes.len() == 0 {
        let markup = String::new();
        proof {
            lemma_trimmed_unchanged(markup@);
        }
        return markup;
    }
    let mut body = String::from_str("<pre><code>");
    let mut i: usize = 0;
    while i < changes.len()
        invariant
            i <= changes.len(),
            lines == lines_view(changes@),
            body@ == "<pre><code>"@ + fragments(lines.take(i as int)),
        decreases changes.len() - i,
    {
        let line = &changes[i];
        let text = escape(line.text.as_str());
        body.append("<strong>");
        body.append(sign_of(line.kind));
        body.append("</strong><span style=\"color:");
        body.append(color_of(line.kind));
        body.append("\">");
        body.append(text.as_str());
        body.append("</span>");
        proof {
            let upto = lines.take(i + 1);
            assert(upto.drop_last() =~= lines.take(i as int));
            assert(upto.last() == line@);
            assert(body@ =~= "<pre><code>"@ + fragments(upto));
        }
        i = i + 1;
    }
    body.append("</code></pre>");
    proof {
        assert(lines.take(i as int) =~= lines);
        reveal_strlit("<pre><code>");
        reveal_strlit("</code></pre>");
        assert(body@.first() == '<');
        assert(body@.last() == '>');
        assert(!is_space('<') && !is_space('>'));
        lemma_trimmed_unchanged(body@);
    }
    trim(body.as_str())
}

/// Renders the unified line diff of two summaries as markup; two equal
/// summaries give the empty text.
pub fn render_diff(old_summary: &str, new_summary: &str) -> (markup: String)
    ensures
        markup@ == rendered(unified_diff_lines(old_summary@, new_summary@)),
        old_summary@ == new_summary@ ==> markup@.len() == 0,
        trimmed(markup@) == markup@,
{
    let changes = line_changes(old_summary, new_summary);
    render_changes(&changes)
}

} // verus!
