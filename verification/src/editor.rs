//! The rich-text editor opened over a sticky note: its initial content, its
//! formatting buttons and its colour choices.
use vstd::prelude::*;

use crate::strings::{chars_of, contains_char, str_eq};

verus! {

/// `s` with every line break replaced by a `<br>` tag.
pub open spec fn br_lines(s: Seq<char>) -> Seq<char>
    decreases s.len(),
{
    if s.len() == 0 {
        Seq::<char>::empty()
    } else {
        br_lines(s.drop_last()) + (if s.last() == '\n' {
            "<br>"@
        } else {
            seq![s.last()]
        })
    }
}

/// The HTML the editor starts from: content that already looks like HTML
/// (it holds both `<` and `>`) is used as it is; plain text has its line
/// breaks turned into `<br>` tags.
pub open spec fn spec_editor_initial_html(content: Seq<char>) -> Seq<char> {
    if content.contains('<') && content.contains('>') {
        content
    } else {
        br_lines(content)
    }
}

/// The initial HTML of the editor for a note with the given content.
pub fn editor_initial_html(content: &str) -> (html: String)
    ensures
        html@ == spec_editor_initial_html(content@),
{
    if contains_char(content, '<') && contains_char(content, '>') {
        return String::from_str(content);
    }
    let cs = chars_of(content);
    let n = cs.len();
    let mut html = String::new();
    let mut k: usize = 0;
    while k < n
        invariant
            n == cs@.len(),
            cs@ == content@,
            k <= n,
            html@ == br_lines(cs@.take(k as int)),
        decreases n - k,
    {
        let c = cs[k];
        assert(cs@.take(k + 1).drop_last() =~= cs@.take(k as int));
        if c == '\n' {
            html.append("<br>");
        } else {
            html.push(c);
        }
        k = k + 1;
    }
    assert(cs@.take(n as int) =~= cs@);
    html
}

/// Plain-text content enters the editor with no line-break characters left.
pub proof fn law_br_lines_has_no_newline(s: Seq<char>)
    ensures
        !br_lines(s).contains('\n'),
    decreases s.len(),
{
    reveal_strlit("<br>");
    if s.len() > 0 {
        law_br_lines_has_no_newline(s.drop_last());
        let tail = if s.last() == '\n' {
            "<br>"@
        } else {
            seq![s.last()]
        };
        assert(!tail.contains('\n'));
        assert forall|i: int| 0 <= i < br_lines(s).len() implies br_lines(s)[i] != '\n' by {
            let head = br_lines(s.drop_last());
            if i < head.len() {
                assert(br_lines(s)[i] == head[i]);
            } else {
                assert(br_lines(s)[i] == tail[i - head.len()]);
            }
        }
    }
}

/// `br_lines` of a concatenation is the concatenation of the parts' `br_lines`.
pub(crate) proof fn lemma_br_lines_concat(a: Seq<char>, b: Seq<char>)
    ensures
        br_lines(a + b) =~= br_lines(a) + br_lines(b),
    decreases b.len(),
{
    if b.len() == 0 {
        assert(a + b =~= a);
    } else {
        lemma_br_lines_concat(a, b.drop_last());
        assert((a + b).drop_last() =~= a + b.drop_last());
        assert((a + b).last() == b.last());
    }
}

/// Text without line feeds is left as it is.
pub(crate) proof fn lemma_br_lines_no_newline(a: Seq<char>)
    requires
        !a.contains('\n'),
    ensures
        br_lines(a) =~= a,
    decreases a.len(),
{
    if a.len() > 0 {
        assert(a.last() == a[a.len() - 1]);
        assert(!a.drop_last().contains('\n')) by {
            if a.drop_last().contains('\n') {
                let j = choose|j: int| 0 <= j < a.drop_last().len() && a.drop_last()[j] == '\n';
                assert(a[j] == '\n');
            }
        }
        lemma_br_lines_no_newline(a.drop_last());
        assert(a.drop_last().push(a.last()) =~= a);
    }
}

/// A single line feed becomes one `<br>` tag.
pub(crate) proof fn lemma_br_lines_newline()
    ensures
        br_lines(seq!['\n']) =~= "<br>"@,
{
    reveal_with_fuel(br_lines, 2);
    assert(seq!['\n'].drop_last() =~= Seq::<char>::empty());
    assert(Seq::<char>::empty() + "<br>"@ =~= "<br>"@);
}

/// In text written without `<`, every `<` of its `br_lines` starts a `<br>`
/// tag.
pub(crate) proof fn lemma_br_lines_lt(s: Seq<char>)
    requires
        !s.contains('<'),
    ensures
        forall|i: int|
            0 <= i < br_lines(s).len() && #[trigger] br_lines(s)[i] == '<' ==> i + 4 <= br_lines(
                s,
            ).len() && br_lines(s).subrange(i, i + 4) == "<br>"@,
    decreases s.len(),
{
    reveal_strlit("<br>");
    if s.len() > 0 {
        assert(!s.drop_last().contains('<')) by {
            if s.drop_last().contains('<') {
                let j = choose|j: int| 0 <= j < s.drop_last().len() && s.drop_last()[j] == '<';
                assert(s[j] == '<');
            }
        }
        assert(s.last() == s[s.len() - 1]);
        lemma_br_lines_lt(s.drop_last());
        let p = br_lines(s.drop_last());
        let tail = if s.last() == '\n' {
            "<br>"@
        } else {
            seq![s.last()]
        };
        assert(br_lines(s) == p + tail);
        assert forall|i: int|
            0 <= i < br_lines(s).len() && #[trigger] br_lines(s)[i] == '<' implies i + 4
            <= br_lines(s).len() && br_lines(s).subrange(i, i + 4) == "<br>"@ by {
            if i < p.len() {
                assert(p[i] == '<');
                assert(br_lines(s).subrange(i, i + 4) =~= p.subrange(i, i + 4));
            } else {
                assert(tail[i - p.len()] == '<');
                assert(i == p.len());
                assert(br_lines(s).subrange(i, i + 4) =~= tail);
            }
        }
    }
}

/// The HTML tag that the formatting button `format_type` wraps the selection
/// in: `b` for bold, `i` for italic, `u` for underline, none for anything else.
pub open spec fn spec_formatting_tag(format_type: Seq<char>) -> Option<Seq<char>> {
    if format_type == "bold"@ {
        Some("b"@)
    } else if format_type == "italic"@ {
        Some("i"@)
    } else if format_type == "underline"@ {
        Some("u"@)
    } else {
        None
    }
}

/// The HTML tag for a formatting button; `None` for an unknown format.
pub fn formatting_tag(format_type: &str) -> (t: Option<&'static str>)
    ensures
        match t {
            Some(tag) => spec_formatting_tag(format_type@) == Some(tag@),
            None => spec_formatting_tag(format_type@) is None,
        },
{
    if str_eq(format_type, "bold") {
        Some("b")
    } else if str_eq(format_type, "italic") {
        Some("i")
    } else if str_eq(format_type, "underline") {
        Some("u")
    } else {
        None
    }
}

/// The note colours offered by the colour picker, as (hex value, name).
pub open spec fn note_colors() -> Seq<(Seq<char>, Seq<char>)> {
    seq![
        ("#ffff88"@, "Yellow"@),
        ("#add8e6"@, "Light Blue"@),
        ("#ffb6c1"@, "Light Red"@),
        ("#ffb6d9"@, "Light Pink"@),
        ("#d3d3d3"@, "Light Grey"@),
    ]
}

/// The colours of the colour picker, in the order they are shown.
pub fn get_available_colors() -> (colors: Vec<(&'static str, &'static str)>)
    ensures
        colors@.len() == note_colors().len(),
        forall|i: int|
            0 <= i < colors@.len() ==> (#[trigger] colors@[i].0@, colors@[i].1@)
                == note_colors()[i],
{
    let colors = vec![
        ("#ffff88", "Yellow"),
        ("#add8e6", "Light Blue"),
        ("#ffb6c1", "Light Red"),
        ("#ffb6d9", "Light Pink"),
        ("#d3d3d3", "Light Grey"),
    ];
    colors
}

/// Where the text pasted into the note editor comes from.
#[derive(Debug, Clone, PartialEq)]
pub enum PasteSource {
    /// The clipboard's plain text.
    Plain(String),
    /// The clipboard's HTML, to be reduced to its text.
    Html(String),
    /// Nothing usable was pasted.
    Nothing,
}

/// The source of a paste, from the clipboard's plain text and HTML (`None`
/// where the clipboard gave no string): non-empty plain text is preferred,
/// then HTML, even empty.
pub fn paste_source(plain: Option<String>, html: Option<String>) -> (p: PasteSource)
    ensures
        p == (match (plain, html) {
            (Some(t), _) if t@.len() > 0 => PasteSource::Plain(t),
            (_, Some(h)) => PasteSource::Html(h),
            _ => PasteSource::Nothing,
        }),
{
    match plain {
        Some(t) if !t.as_str().is_empty() => PasteSource::Plain(t),
        _ => match html {
            Some(h) => PasteSource::Html(h),
            None => PasteSource::Nothing,
        },
    }
}

} // verus!
