//! Parsing of the HTML-like markup stored in sticky-note content.
//!
//! Note content edited in the browser is kept as HTML.  Before it is drawn on
//! the canvas it is cut into segments of plain text, each carrying the bold,
//! italic and underline flags of the tags that enclose it.  Supported tags are
//! `<b>`, `<strong>`, `<i>`, `<em>`, `<u>`, `<span style=...>` and `<br>`.
use vstd::prelude::*;

use crate::editor::{
    br_lines, lemma_br_lines_concat, lemma_br_lines_lt, lemma_br_lines_newline,
    lemma_br_lines_no_newline, spec_editor_initial_html,
};
use crate::text_layout::{first_newline, lemma_first_newline_props};

use crate::strings::{
    chars_of, contains_chars, contains_seq, find_chars, find_from, lemma_find_from, matches_at,
    string_of,
};
use vstd::slice::slice_subrange;

verus! {

/// The number of opening-tag patterns the parser looks for.
pub const TAG_COUNT: usize = 13;

/// The abstract value of a [`TextSegment`]: its characters and its flags.
pub struct SegmentView {
    pub text: Seq<char>,
    pub bold: bool,
    pub italic: bool,
    pub underline: bool,
}

/// A run of text with uniform formatting, as drawn on a sticky note.
#[derive(Debug, Clone)]
pub struct TextSegment {
    pub text: String,
    pub bold: bool,
    pub italic: bool,
    pub underline: bool,
}

impl View for TextSegment {
    type V = SegmentView;

    open spec fn view(&self) -> SegmentView {
        SegmentView {
            text: self.text@,
            bold: self.bold,
            italic: self.italic,
            underline: self.underline,
        }
    }
}

/// The abstract values of a sequence of segments.
#[verifier::opaque]
pub open spec fn views(v: Seq<TextSegment>) -> Seq<SegmentView> {
    v.map_values(|t: TextSegment| t@)
}

/// What a recognised opening tag does to the text it encloses.
pub enum TagKind {
    Bold,
    Italic,
    Underline,
    Span,
    Br,
}

/// The opening pattern of tag `k`, in the order the parser tries them.
pub open spec fn tag_open(k: int) -> Seq<char> {
    if k == 0 {
        "<b>"@
    } else if k == 1 {
        "<b "@
    } else if k == 2 {
        "<strong>"@
    } else if k == 3 {
        "<strong "@
    } else if k == 4 {
        "<i>"@
    } else if k == 5 {
        "<i "@
    } else if k == 6 {
        "<em>"@
    } else if k == 7 {
        "<em "@
    } else if k == 8 {
        "<u>"@
    } else if k == 9 {
        "<u "@
    } else if k == 10 {
        "<span "@
    } else if k == 11 {
        "<br>"@
    } else {
        "<br "@
    }
}

/// The kind of tag `k`.
pub open spec fn tag_kind(k: int) -> TagKind {
    if k <= 3 {
        TagKind::Bold
    } else if k <= 7 {
        TagKind::Italic
    } else if k <= 9 {
        TagKind::Underline
    } else if k == 10 {
        TagKind::Span
    } else {
        TagKind::Br
    }
}

/// The closing pattern searched for after tag `k`.
pub open spec fn tag_close(k: int) -> Seq<char> {
    if k <= 1 {
        "</b>"@
    } else if k <= 3 {
        "</strong>"@
    } else if k <= 5 {
        "</i>"@
    } else if k <= 7 {
        "</em>"@
    } else if k <= 9 {
        "</u>"@
    } else if k == 10 {
        "</span>"@
    } else {
        "</br>"@
    }
}

/// Among tags `0..n`, the one whose opening pattern occurs earliest in `s`,
/// with its position; on a tie the tag tried first wins.
pub open spec fn earliest_upto(s: Seq<char>, n: nat) -> Option<(int, int)>
    decreases n,
{
    if n == 0 {
        None
    } else {
        let prev = earliest_upto(s, (n - 1) as nat);
        let k = n - 1;
        match find_from(s, tag_open(k), 0) {
            Some(pos) => match prev {
                Some(best) => if pos < best.0 {
                    Some((pos, k))
                } else {
                    prev
                },
                None => Some((pos, k)),
            },
            None => prev,
        }
    }
}

/// The earliest recognised opening tag in `s`, as `(position, tag)`.
pub open spec fn earliest_tag(s: Seq<char>) -> Option<(int, int)> {
    earliest_upto(s, TAG_COUNT as nat)
}

/// A segment of unformatted text.
pub open spec fn plain(t: Seq<char>) -> SegmentView {
    SegmentView { text: t, bold: false, italic: false, underline: false }
}

/// Every segment of `v` with the given flags added to its own.
#[verifier::opaque]
pub open spec fn flagged(v: Seq<SegmentView>, b: bool, i: bool, u: bool) -> Seq<SegmentView> {
    v.map_values(
        |x: SegmentView|
            SegmentView {
                text: x.text,
                bold: x.bold || b,
                italic: x.italic || i,
                underline: x.underline || u,
            },
    )
}

/// The flags a `<span ...>` opening tag switches on, read from its style text.
pub open spec fn span_flags(tag: Seq<char>) -> (bool, bool, bool) {
    (
        contains_seq(tag, "font-weight:"@) && (contains_seq(tag, "bold"@) || contains_seq(
            tag,
            "700"@,
        )),
        contains_seq(tag, "font-style:"@) && contains_seq(tag, "italic"@),
        contains_seq(tag, "text-decoration:"@) && contains_seq(tag, "underline"@),
    )
}

/// The flags that tag `k`, whose full opening text is `tag`, applies.
pub open spec fn tag_flags(k: int, tag: Seq<char>) -> (bool, bool, bool) {
    match tag_kind(k) {
        TagKind::Bold => (true, false, false),
        TagKind::Italic => (false, true, false),
        TagKind::Underline => (false, false, true),
        TagKind::Span => span_flags(tag),
        TagKind::Br => (false, false, false),
    }
}

/// The segments that the content `s` is drawn as.
///
/// Text before the earliest recognised tag is one plain segment.  A `<br>` tag
/// becomes a line-break segment.  Any other tag, up to its first `>`, applies
/// its flags to the parsed content up to the first matching closing tag; the
/// parse then continues after the closing tag.  A tag with no `>` or no
/// closing tag ends the parse: the rest of the text, from the tag on, is one
/// plain segment.
#[verifier::opaque]
pub open spec fn parse_spec(s: Seq<char>) -> Seq<SegmentView>
    decreases s.len(),
{
    if s.len() == 0 {
        seq![]
    } else {
        match earliest_tag(s) {
            None => seq![plain(s)],
            Some(tag) => {
                let pos = tag.0;
                let k = tag.1;
                let lead = if pos > 0 {
                    seq![plain(s.take(pos))]
                } else {
                    Seq::<SegmentView>::empty()
                };
                proof {
                    lemma_earliest_upto(s, TAG_COUNT as nat);
                }
                match find_from(s, seq!['>'], pos) {
                    None => lead.push(plain(s.skip(pos))),
                    Some(gt) => {
                        proof {
                            lemma_find_from(s, seq!['>'], pos);
                        }
                        let tag_end = gt + 1;
                        if tag_kind(k) is Br {
                            lead.push(plain(seq!['\n'])) + parse_spec(s.skip(tag_end))
                        } else {
                            let flags = tag_flags(k, s.subrange(pos, tag_end));
                            proof {
                                lemma_tag_close_nonempty(k);
                                lemma_find_from(s, tag_close(k), tag_end);
                            }
                            match find_from(s, tag_close(k), tag_end) {
                                None => lead.push(plain(s.skip(pos))),
                                Some(e) => lead + flagged(
                                    parse_spec(s.subrange(tag_end, e)),
                                    flags.0,
                                    flags.1,
                                    flags.2,
                                ) + parse_spec(s.skip(e + tag_close(k).len())),
                            }
                        }
                    },
                }
            },
        }
    }
}

/// Every opening pattern is non-empty.
pub proof fn lemma_tag_open_nonempty(k: int)
    ensures
        tag_open(k).len() > 0,
{
    reveal_strlit("<b>");
    reveal_strlit("<b ");
    reveal_strlit("<strong>");
    reveal_strlit("<strong ");
    reveal_strlit("<i>");
    reveal_strlit("<i ");
    reveal_strlit("<em>");
    reveal_strlit("<em ");
    reveal_strlit("<u>");
    reveal_strlit("<u ");
    reveal_strlit("<span ");
    reveal_strlit("<br>");
    reveal_strlit("<br ");
}

/// Every closing pattern is non-empty.
pub proof fn lemma_tag_close_nonempty(k: int)
    ensures
        tag_close(k).len() > 0,
{
    reveal_strlit("</b>");
    reveal_strlit("</strong>");
    reveal_strlit("</i>");
    reveal_strlit("</em>");
    reveal_strlit("</u>");
    reveal_strlit("</span>");
    reveal_strlit("</br>");
}

/// The earliest tag among `0..n` is one of them, found where its pattern
/// first occurs, and no tag among `0..n` occurs earlier.
pub proof fn lemma_earliest_upto(s: Seq<char>, n: nat)
    ensures
        match earliest_upto(s, n) {
            Some(t) => {
                &&& 0 <= t.1 < n
                &&& find_from(s, tag_open(t.1), 0) == Some(t.0)
                &&& 0 <= t.0
                &&& matches_at(s, tag_open(t.1), t.0)
            },
            None => forall|k: int|
                0 <= k < n ==> #[trigger] find_from(s, tag_open(k), 0) is None,
        },
    decreases n,
{
    if n > 0 {
        lemma_earliest_upto(s, (n - 1) as nat);
        lemma_tag_open_nonempty(n - 1);
        lemma_find_from(s, tag_open(n - 1), 0);
    }
}

/// The plain segment holding the text before position `pos`, if any.
pub open spec fn lead(s: Seq<char>, pos: int) -> Seq<SegmentView> {
    if pos > 0 {
        seq![plain(s.take(pos))]
    } else {
        Seq::<SegmentView>::empty()
    }
}

proof fn lemma_parse_no_tag(s: Seq<char>)
    requires
        s.len() > 0,
        earliest_tag(s) is None,
    ensures
        parse_spec(s) == seq![plain(s)],
{
    reveal(parse_spec);
}

proof fn lemma_parse_unterminated(s: Seq<char>, pos: int, k: int)
    requires
        s.len() > 0,
        earliest_tag(s) == Some((pos, k)),
        find_from(s, seq!['>'], pos) is None,
    ensures
        parse_spec(s) == lead(s, pos).push(plain(s.skip(pos))),
{
    reveal(parse_spec);
}

proof fn lemma_parse_break(s: Seq<char>, pos: int, k: int, gt: int)
    requires
        s.len() > 0,
        earliest_tag(s) == Some((pos, k)),
        find_from(s, seq!['>'], pos) == Some(gt),
        k >= 11,
    ensures
        parse_spec(s) == lead(s, pos).push(plain(seq!['\n'])) + parse_spec(s.skip(gt + 1)),
{
    reveal(parse_spec);
}

proof fn lemma_parse_unclosed(s: Seq<char>, pos: int, k: int, gt: int)
    requires
        s.len() > 0,
        earliest_tag(s) == Some((pos, k)),
        find_from(s, seq!['>'], pos) == Some(gt),
        k < 11,
        find_from(s, tag_close(k), gt + 1) is None,
    ensures
        parse_spec(s) == lead(s, pos).push(plain(s.skip(pos))),
{
    reveal(parse_spec);
}

proof fn lemma_parse_closed(s: Seq<char>, pos: int, k: int, gt: int, e: int)
    requires
        s.len() > 0,
        earliest_tag(s) == Some((pos, k)),
        find_from(s, seq!['>'], pos) == Some(gt),
        k < 11,
        find_from(s, tag_close(k), gt + 1) == Some(e),
    ensures
        parse_spec(s) == lead(s, pos) + flagged(
            parse_spec(s.subrange(gt + 1, e)),
            tag_flags(k, s.subrange(pos, gt + 1)).0,
            tag_flags(k, s.subrange(pos, gt + 1)).1,
            tag_flags(k, s.subrange(pos, gt + 1)).2,
        ) + parse_spec(s.skip(e + tag_close(k).len())),
{
    reveal(parse_spec);
}

/// Every opening pattern starts with `<`.
proof fn lemma_tag_open_starts_with_lt(k: int)
    requires
        0 <= k < TAG_COUNT,
    ensures
        tag_open(k).len() > 1,
        tag_open(k)[0] == '<',
{
    reveal_strlit("<b>");
    reveal_strlit("<b ");
    reveal_strlit("<strong>");
    reveal_strlit("<strong ");
    reveal_strlit("<i>");
    reveal_strlit("<i ");
    reveal_strlit("<em>");
    reveal_strlit("<em ");
    reveal_strlit("<u>");
    reveal_strlit("<u ");
    reveal_strlit("<span ");
    reveal_strlit("<br>");
    reveal_strlit("<br ");
}

/// Text without any `<` holds no tag: it is drawn as a single plain segment
/// (or nothing, when empty).
pub proof fn law_plain_text_is_one_segment(s: Seq<char>)
    requires
        !s.contains('<'),
    ensures
        parse_spec(s) == (if s.len() == 0 {
            Seq::<SegmentView>::empty()
        } else {
            seq![plain(s)]
        }),
{
    if s.len() == 0 {
        reveal(parse_spec);
    } else {
        lemma_earliest_upto(s, TAG_COUNT as nat);
        match earliest_tag(s) {
            Some(t) => {
                lemma_tag_open_starts_with_lt(t.1);
                assert(s.subrange(t.0, t.0 + tag_open(t.1).len())[0] == s[t.0]);
                assert(s[t.0] == '<');
                assert(false);
            },
            None => {
                lemma_parse_no_tag(s);
            },
        }
    }
}

/// The segments of text whose lines are separated by line feeds: each
/// non-empty run of characters between line feeds as a plain segment, and
/// each line feed as a plain line-feed segment.
pub open spec fn line_segments(s: Seq<char>) -> Seq<SegmentView>
    decreases s.len(),
{
    if s.len() == 0 {
        Seq::empty()
    } else {
        match first_newline(s) {
            None => seq![plain(s)],
            Some(k) => if 0 <= k < s.len() {
                lead(s, k).push(plain(seq!['\n'])) + line_segments(s.skip(k + 1))
            } else {
                seq![plain(s)]
            },
        }
    }
}

/// Every opening pattern but `<br>` differs from `<br>` within its first four
/// characters.
proof fn lemma_tag_open_not_br(k: int)
    requires
        0 <= k < TAG_COUNT,
        k != 11,
    ensures
        (tag_open(k).len() > 1 && tag_open(k)[1] != 'b') || (tag_open(k).len() > 2 && tag_open(
            k,
        )[2] != 'r') || (tag_open(k).len() > 3 && tag_open(k)[3] != '>'),
{
    reveal_strlit("<b>");
    reveal_strlit("<b ");
    reveal_strlit("<strong>");
    reveal_strlit("<strong ");
    reveal_strlit("<i>");
    reveal_strlit("<i ");
    reveal_strlit("<em>");
    reveal_strlit("<em ");
    reveal_strlit("<u>");
    reveal_strlit("<u ");
    reveal_strlit("<span ");
    reveal_strlit("<br ");
}

/// Where every `<` starts a `<br>` tag, no other opening pattern occurs.
proof fn lemma_only_br_tags(t: Seq<char>, k: int)
    requires
        0 <= k < TAG_COUNT,
        k != 11,
        forall|i: int|
            0 <= i < t.len() && #[trigger] t[i] == '<' ==> i + 4 <= t.len() && t.subrange(i, i + 4)
                == "<br>"@,
    ensures
        find_from(t, tag_open(k), 0) is None,
{
    reveal_strlit("<br>");
    lemma_tag_open_nonempty(k);
    lemma_tag_open_starts_with_lt(k);
    lemma_tag_open_not_br(k);
    lemma_find_from(t, tag_open(k), 0);
    if let Some(j) = find_from(t, tag_open(k), 0) {
        let pat = tag_open(k);
        assert(t.subrange(j, j + pat.len()) == pat);
        assert(t[j] == pat[0]);
        assert(t.subrange(j, j + 4) == "<br>"@);
        if pat.len() > 1 && pat[1] != 'b' {
            assert(t[j + 1] == pat[1]);
            assert(t[j + 1] == "<br>"@[1]);
        } else if pat.len() > 2 && pat[2] != 'r' {
            assert(t[j + 2] == pat[2]);
            assert(t[j + 2] == "<br>"@[2]);
        } else {
            assert(t[j + 3] == pat[3]);
            assert(t[j + 3] == "<br>"@[3]);
        }
    }
}

/// Text written into the note editor without `<` is written with each line
/// feed as a `<br>` tag, and is drawn back as the same lines: its runs of
/// characters as plain segments and its line feeds as line-feed segments.
pub proof fn law_editor_lines_are_drawn_back(s: Seq<char>)
    requires
        !s.contains('<'),
    ensures
        spec_editor_initial_html(s) == br_lines(s),
        parse_spec(br_lines(s)) == line_segments(s),
    decreases s.len(), 1nat,
{
    if s.len() == 0 {
        reveal(parse_spec);
        assert(br_lines(s) =~= Seq::<char>::empty());
    } else {
        lemma_first_newline_props(s);
        match first_newline(s) {
            None => {
                lemma_br_lines_no_newline(s);
                law_plain_text_is_one_segment(s);
            },
            Some(n) => {
                lemma_lines_drawn_back_at(s, n);
            },
        }
    }
}

/// `law_editor_lines_are_drawn_back` for text whose first line feed is at `n`.
proof fn lemma_lines_drawn_back_at(s: Seq<char>, n: int)
    requires
        !s.contains('<'),
        0 <= n < s.len(),
        s[n] == '\n',
        forall|j: int| 0 <= j < n ==> s[j] != '\n',
        first_newline(s) == Some(n),
    ensures
        parse_spec(br_lines(s)) == line_segments(s),
    decreases s.len(), 0nat,
{
    reveal_strlit("<br>");
    let a = s.take(n);
    let rest = s.skip(n + 1);
    assert(s =~= a + seq!['\n'] + rest);
    assert(!a.contains('\n')) by {
        if a.contains('\n') {
            let j = choose|j: int| 0 <= j < a.len() && a[j] == '\n';
            assert(s[j] == '\n');
        }
    }
    assert(!rest.contains('<')) by {
        if rest.contains('<') {
            let j = choose|j: int| 0 <= j < rest.len() && rest[j] == '<';
            assert(s[n + 1 + j] == '<');
        }
    }
    lemma_br_lines_concat(a + seq!['\n'], rest);
    lemma_br_lines_concat(a, seq!['\n']);
    lemma_br_lines_no_newline(a);
    lemma_br_lines_newline();
    let r = br_lines(rest);
    let t = br_lines(s);
    assert(t =~= a + "<br>"@ + r);
    assert(t.subrange(n, n + 4) =~= "<br>"@);
    assert(t.take(n) =~= a);
    assert(t.skip(n + 4) =~= r);
    lemma_br_lines_lt(s);

    // The earliest tag is the `<br>` at `n`.
    assert forall|j: int| 0 <= j < n implies !#[trigger] matches_at(t, "<br>"@, j) by {
        if matches_at(t, "<br>"@, j) {
            assert(t.subrange(j, j + 4)[0] == t[j]);
            assert(t[j] == a[j]);
            assert(s[j] == '<');
        }
    }
    lemma_find_first(t, "<br>"@, 0, n);
    assert(find_from(t, tag_open(11), 0) == Some(n));
    lemma_earliest_upto(t, TAG_COUNT as nat);
    match earliest_tag(t) {
        Some(e) => {
            if e.1 != 11 {
                lemma_only_br_tags(t, e.1);
            }
            assert(e == (n, 11int));
        },
        None => {
            assert(find_from(t, tag_open(11), 0) is None);
        },
    }

    // The tag ends at the `>` three characters on.
    assert forall|j: int| n <= j < n + 3 implies !#[trigger] matches_at(t, seq!['>'], j) by {
        if matches_at(t, seq!['>'], j) {
            assert(t.subrange(j, j + 1)[0] == t[j]);
            assert(t[j] == "<br>"@[j - n]);
        }
    }
    assert(t.subrange(n + 3, n + 4)[0] == t[n + 3]);
    assert(t.subrange(n + 3, n + 4) =~= seq!['>']);
    lemma_find_first(t, seq!['>'], n, n + 3);
    lemma_parse_break(t, n, 11, n + 3);
    law_editor_lines_are_drawn_back(rest);
    assert(lead(t, n) == lead(s, n));
}

/// No segment is empty.
pub open spec fn all_nonempty(v: Seq<SegmentView>) -> bool {
    forall|i: int| 0 <= i < v.len() ==> (#[trigger] v[i]).text.len() > 0
}

/// Every segment the content is drawn as holds at least one character.
pub proof fn law_segments_nonempty(s: Seq<char>)
    ensures
        all_nonempty(parse_spec(s)),
    decreases s.len(),
{
    if s.len() == 0 {
        reveal(parse_spec);
    } else {
        lemma_earliest_upto(s, TAG_COUNT as nat);
        match earliest_tag(s) {
            None => {
                lemma_parse_no_tag(s);
            },
            Some(t) => {
                let pos = t.0;
                let k = t.1;
                lemma_tag_open_nonempty(k);
                assert(lead(s, pos).len() > 0 ==> lead(s, pos)[0].text.len() > 0);
                match find_from(s, seq!['>'], pos) {
                    None => {
                        lemma_parse_unterminated(s, pos, k);
                        assert(all_nonempty(lead(s, pos).push(plain(s.skip(pos)))));
                    },
                    Some(gt) => {
                        lemma_find_from(s, seq!['>'], pos);
                        if k >= 11 {
                            lemma_parse_break(s, pos, k, gt);
                            law_segments_nonempty(s.skip(gt + 1));
                            assert(all_nonempty(lead(s, pos).push(plain(seq!['\n']))));
                            assert(all_nonempty(
                                lead(s, pos).push(plain(seq!['\n'])) + parse_spec(s.skip(gt + 1)),
                            ));
                        } else {
                            lemma_tag_close_nonempty(k);
                            lemma_find_from(s, tag_close(k), gt + 1);
                            match find_from(s, tag_close(k), gt + 1) {
                                None => {
                                    lemma_parse_unclosed(s, pos, k, gt);
                                    assert(all_nonempty(lead(s, pos).push(plain(s.skip(pos)))));
                                },
                                Some(e) => {
                                    lemma_parse_closed(s, pos, k, gt, e);
                                    let f = tag_flags(k, s.subrange(pos, gt + 1));
                                    let inner = parse_spec(s.subrange(gt + 1, e));
                                    let rest = parse_spec(s.skip(e + tag_close(k).len()));
                                    law_segments_nonempty(s.subrange(gt + 1, e));
                                    law_segments_nonempty(s.skip(e + tag_close(k).len()));
                                    let mid = flagged(inner, f.0, f.1, f.2);
                                    reveal(flagged);
                                    assert(all_nonempty(mid));
                                    assert(all_nonempty(lead(s, pos) + mid + rest));
                                },
                            }
                        }
                    },
                }
            },
        }
    }
}

/// A match with no match before it, from `i` on, is the one `find_from` finds.
proof fn lemma_find_first(s: Seq<char>, pat: Seq<char>, i: int, m: int)
    requires
        0 <= i <= m,
        pat.len() > 0,
        matches_at(s, pat, m),
        forall|j: int| i <= j < m ==> !#[trigger] matches_at(s, pat, j),
    ensures
        find_from(s, pat, i) == Some(m),
{
    lemma_find_from(s, pat, i);
}

/// The facts about the simple tags `<b>`, `<strong>`, `<i>`, `<em>` and `<u>`
/// that the wrapping law rests on.
proof fn lemma_simple_tag_shape(k: int)
    requires
        k == 0 || k == 2 || k == 4 || k == 6 || k == 8,
    ensures
        tag_open(k).len() >= 3,
        tag_open(k)[0] == '<',
        tag_open(k)[tag_open(k).len() - 1] == '>',
        forall|j: int| 0 <= j < tag_open(k).len() - 1 ==> tag_open(k)[j] != '>',
        forall|k2: int| 0 <= k2 < k ==> tag_open(k2)[1] != tag_open(k)[1],
        tag_close(k).len() > 0,
        tag_close(k)[0] == '<',
        forall|j: int| 0 < j < tag_close(k).len() ==> tag_close(k)[j] != '<',
        !(tag_kind(k) is Span),
        !(tag_kind(k) is Br),
{
    reveal_strlit("<b>");
    reveal_strlit("<b ");
    reveal_strlit("<strong>");
    reveal_strlit("<strong ");
    reveal_strlit("<i>");
    reveal_strlit("<i ");
    reveal_strlit("<em>");
    reveal_strlit("<em ");
    reveal_strlit("<u>");
    reveal_strlit("</b>");
    reveal_strlit("</strong>");
    reveal_strlit("</i>");
    reveal_strlit("</em>");
    reveal_strlit("</u>");
}

/// When `s` starts with the opening pattern of simple tag `k`, that tag is
/// the earliest among tags `0..n` once `n > k`.
proof fn lemma_earliest_at_start(s: Seq<char>, k: int, n: nat)
    requires
        k == 0 || k == 2 || k == 4 || k == 6 || k == 8,
        n <= TAG_COUNT,
        matches_at(s, tag_open(k), 0),
    ensures
        n > k ==> earliest_upto(s, n) == Some((0int, k)),
        n <= k ==> match earliest_upto(s, n) {
            Some(t) => t.0 > 0,
            None => true,
        },
    decreases n,
{
    lemma_simple_tag_shape(k);
    if n > 0 {
        lemma_earliest_at_start(s, k, (n - 1) as nat);
        let k2 = n - 1;
        lemma_tag_open_starts_with_lt(k2);
        lemma_find_from(s, tag_open(k2), 0);
        if k2 < k {
            assert(s.subrange(0, tag_open(k).len() as int)[1] == s[1]);
            if matches_at(s, tag_open(k2), 0) {
                assert(s.subrange(0, tag_open(k2).len() as int)[1] == s[1]);
                assert(false);
            }
        } else if k2 == k {
            lemma_find_first(s, tag_open(k), 0, 0);
        }
    }
}

/// Wrapping text in one of the simple tags `<b>`, `<strong>`, `<i>`, `<em>`
/// or `<u>` draws it as it would be drawn alone, with the tag's flag added,
/// provided the text does not itself close that tag.
pub proof fn law_simple_tag_applies_flags(k: int, t: Seq<char>)
    requires
        k == 0 || k == 2 || k == 4 || k == 6 || k == 8,
        !contains_seq(t, tag_close(k)),
    ensures
        parse_spec(tag_open(k) + t + tag_close(k)) == flagged(
            parse_spec(t),
            tag_flags(k, tag_open(k)).0,
            tag_flags(k, tag_open(k)).1,
            tag_flags(k, tag_open(k)).2,
        ),
{
    let o = tag_open(k);
    let c = tag_close(k);
    let s = o + t + c;
    let ol = o.len() as int;
    let m = ol + t.len();
    lemma_simple_tag_shape(k);
    assert(s.subrange(0, ol) =~= o);
    lemma_earliest_at_start(s, k, TAG_COUNT as nat);
    assert forall|j: int| 0 <= j < ol - 1 implies !#[trigger] matches_at(s, seq!['>'], j) by {
        assert(s.subrange(j, j + 1)[0] == s[j]);
        assert(s[j] == o[j]);
    }
    assert(s.subrange(ol - 1, ol) =~= seq!['>']);
    lemma_find_first(s, seq!['>'], 0, ol - 1);
    assert(s.subrange(m, m + c.len()) =~= c);
    lemma_find_from(t, c, 0);
    assert forall|j: int| ol <= j < m implies !#[trigger] matches_at(s, c, j) by {
        if j + c.len() <= m {
            assert(t.subrange(j - ol, j - ol + c.len()) =~= s.subrange(j, j + c.len()));
            assert(matches_at(t, c, j - ol) ==> matches_at(s, c, j));
            if matches_at(s, c, j) {
                assert(matches_at(t, c, j - ol));
            }
        } else {
            if matches_at(s, c, j) {
                assert(s.subrange(j, j + c.len())[m - j] == s[m]);
                assert(s[m] == c[0]);
                assert(c[m - j] == '<');
            }
        }
    }
    lemma_find_first(s, c, ol, m);
    lemma_parse_closed(s, 0, k, ol - 1, m);
    assert(s.subrange(ol, m) =~= t);
    assert(s.subrange(0, ol) =~= o);
    assert(s.skip(m + c.len()) =~= Seq::<char>::empty());
    reveal(parse_spec);
    assert(lead(s, 0) =~= Seq::<SegmentView>::empty());
    assert(parse_spec(s) =~= flagged(
        parse_spec(t),
        tag_flags(k, o).0,
        tag_flags(k, o).1,
        tag_flags(k, o).2,
    ));
}

/// The facts about `<span ` and `</span>` that the span law rests on.
proof fn lemma_span_shape()
    ensures
        tag_open(10) == "<span "@,
        tag_close(10) == "</span>"@,
        tag_kind(10) is Span,
        "<span "@.len() == 6,
        "<span "@[0] == '<',
        "<span "@[1] == 's',
        "<span "@[2] == 'p',
        forall|j: int| 0 <= j < 6 ==> "<span "@[j] != '>',
        "</span>"@.len() == 7,
        "</span>"@[0] == '<',
        forall|j: int| 0 < j < 7 ==> "</span>"@[j] != '<',
        forall|k2: int|
            0 <= k2 < 10 ==> tag_open(k2).len() >= 3 && (tag_open(k2)[1] != 's' || tag_open(
                k2,
            )[2] != 'p'),
{
    reveal_strlit("<b>");
    reveal_strlit("<b ");
    reveal_strlit("<strong>");
    reveal_strlit("<strong ");
    reveal_strlit("<i>");
    reveal_strlit("<i ");
    reveal_strlit("<em>");
    reveal_strlit("<em ");
    reveal_strlit("<u>");
    reveal_strlit("<u ");
    reveal_strlit("<span ");
    reveal_strlit("</span>");
}

/// When `s` starts with `<span `, that tag is the earliest among tags `0..n`
/// once `n > 10`.
proof fn lemma_earliest_at_span(s: Seq<char>, n: nat)
    requires
        n <= TAG_COUNT,
        matches_at(s, "<span "@, 0),
    ensures
        n > 10 ==> earliest_upto(s, n) == Some((0int, 10int)),
        n <= 10 ==> match earliest_upto(s, n) {
            Some(t) => t.0 > 0,
            None => true,
        },
    decreases n,
{
    lemma_span_shape();
    if n > 0 {
        lemma_earliest_at_span(s, (n - 1) as nat);
        let k2 = n - 1;
        lemma_tag_open_starts_with_lt(k2);
        lemma_find_from(s, tag_open(k2), 0);
        if k2 < 10 {
            assert(s.subrange(0, 6)[1] == s[1]);
            assert(s.subrange(0, 6)[2] == s[2]);
            if matches_at(s, tag_open(k2), 0) {
                assert(s.subrange(0, tag_open(k2).len() as int)[1] == s[1]);
                assert(s.subrange(0, tag_open(k2).len() as int)[2] == s[2]);
                assert(false);
            }
        } else if k2 == 10 {
            lemma_find_first(s, tag_open(10), 0, 0);
        }
    }
}

/// Wrapping text in a `<span ...>` tag draws it as it would be drawn alone,
/// with bold added exactly when the tag's text holds `font-weight:` and
/// `bold` or `700`, italic exactly when it holds `font-style:` and `italic`,
/// and underline exactly when it holds `text-decoration:` and `underline`,
/// whatever else the tag says; provided the style has no `>` and the text does
/// not itself close the span.
pub proof fn law_span_applies_its_style(style: Seq<char>, t: Seq<char>)
    requires
        forall|j: int| 0 <= j < style.len() ==> style[j] != '>',
        !contains_seq(t, "</span>"@),
    ensures
        ({
            let tag = "<span "@ + style + ">"@;
            parse_spec(tag + t + "</span>"@) == flagged(
                parse_spec(t),
                contains_seq(tag, "font-weight:"@) && (contains_seq(tag, "bold"@) || contains_seq(
                    tag,
                    "700"@,
                )),
                contains_seq(tag, "font-style:"@) && contains_seq(tag, "italic"@),
                contains_seq(tag, "text-decoration:"@) && contains_seq(tag, "underline"@),
            )
        }),
{
    lemma_span_shape();
    let o = "<span "@ + style + ">"@;
    let c = "</span>"@;
    let s = o + t + c;
    let ol = o.len() as int;
    let m = ol + t.len();
    let a = "<span "@ + style;
    reveal_strlit(">");
    assert(a.len() == 6 + style.len());
    assert(ol == a.len() + 1);
    assert(o[ol - 1] == ">"@[0]);
    assert forall|j: int| 0 <= j < ol - 1 implies o[j] != '>' by {
        assert(o[j] == a[j]);
        if j < 6 {
            assert(a[j] == "<span "@[j]);
        } else {
            assert(a[j] == style[j - 6]);
        }
    }
    assert(s.subrange(0, 6) =~= "<span "@) by {
        assert forall|j: int| 0 <= j < 6 implies s.subrange(0, 6)[j] == "<span "@[j] by {
            assert(s[j] == o[j]);
        }
    }
    lemma_earliest_at_span(s, TAG_COUNT as nat);
    assert forall|j: int| 0 <= j < ol - 1 implies !#[trigger] matches_at(s, seq!['>'], j) by {
        assert(s.subrange(j, j + 1)[0] == s[j]);
        assert(s[j] == o[j]);
    }
    assert(s.subrange(ol - 1, ol) =~= seq!['>']);
    lemma_find_first(s, seq!['>'], 0, ol - 1);
    assert(s.subrange(m, m + c.len()) =~= c);
    lemma_find_from(t, c, 0);
    assert forall|j: int| ol <= j < m implies !#[trigger] matches_at(s, c, j) by {
        if j + c.len() <= m {
            assert(t.subrange(j - ol, j - ol + c.len()) =~= s.subrange(j, j + c.len()));
            if matches_at(s, c, j) {
                assert(matches_at(t, c, j - ol));
            }
        } else {
            if matches_at(s, c, j) {
                assert(s.subrange(j, j + c.len())[m - j] == s[m]);
                assert(s[m] == c[0]);
            }
        }
    }
    lemma_find_first(s, c, ol, m);
    lemma_parse_closed(s, 0, 10, ol - 1, m);
    assert(s.subrange(ol, m) =~= t);
    assert(s.subrange(0, ol) =~= o);
    assert(s.skip(m + c.len()) =~= Seq::<char>::empty());
    reveal(parse_spec);
    assert(lead(s, 0) =~= Seq::<SegmentView>::empty());
    assert(parse_spec(s) =~= flagged(
        parse_spec(t),
        tag_flags(10, o).0,
        tag_flags(10, o).1,
        tag_flags(10, o).2,
    ));
}

/// Adding flags commutes with concatenation.
pub proof fn lemma_flagged_add(a: Seq<SegmentView>, c: Seq<SegmentView>, b: bool, i: bool, u: bool)
    ensures
        flagged(a + c, b, i, u) == flagged(a, b, i, u) + flagged(c, b, i, u),
{
    reveal(flagged);
    assert(flagged(a + c, b, i, u) =~= flagged(a, b, i, u) + flagged(c, b, i, u));
}

/// Adding flags twice adds their union.
pub proof fn lemma_flagged_twice(
    v: Seq<SegmentView>,
    b1: bool,
    i1: bool,
    u1: bool,
    b2: bool,
    i2: bool,
    u2: bool,
)
    ensures
        flagged(flagged(v, b1, i1, u1), b2, i2, u2) == flagged(v, b1 || b2, i1 || i2, u1 || u2),
{
    reveal(flagged);
    assert(flagged(flagged(v, b1, i1, u1), b2, i2, u2) =~= flagged(
        v,
        b1 || b2,
        i1 || i2,
        u1 || u2,
    ));
}

/// Adding no flag changes nothing.
pub proof fn lemma_flagged_none(v: Seq<SegmentView>)
    ensures
        flagged(v, false, false, false) == v,
{
    reveal(flagged);
    assert(flagged(v, false, false, false) =~= v);
}

/// Adding flags to one segment.
pub proof fn lemma_flagged_single(x: SegmentView, b: bool, i: bool, u: bool)
    ensures
        flagged(seq![x], b, i, u) == seq![
            SegmentView {
                text: x.text,
                bold: x.bold || b,
                italic: x.italic || i,
                underline: x.underline || u,
            },
        ],
{
    reveal(flagged);
    assert(flagged(seq![x], b, i, u) =~= seq![
        SegmentView {
            text: x.text,
            bold: x.bold || b,
            italic: x.italic || i,
            underline: x.underline || u,
        },
    ]);
}

/// Adding flags to no segment.
pub proof fn lemma_flagged_empty(b: bool, i: bool, u: bool)
    ensures
        flagged(Seq::<SegmentView>::empty(), b, i, u) == Seq::<SegmentView>::empty(),
{
    reveal(flagged);
    assert(flagged(Seq::<SegmentView>::empty(), b, i, u) =~= Seq::<SegmentView>::empty());
}

/// `r` is the executable form of the abstract tag lookup `t`.
pub open spec fn same_tag(r: Option<(usize, usize)>, t: Option<(int, int)>) -> bool {
    match r {
        Some(p) => t == Some((p.0 as int, p.1 as int)),
        None => t is None,
    }
}

fn tag_open_exec(k: usize) -> (p: Vec<char>)
    ensures
        p@ == tag_open(k as int),
{
    if k == 0 {
        chars_of("<b>")
    } else if k == 1 {
        chars_of("<b ")
    } else if k == 2 {
        chars_of("<strong>")
    } else if k == 3 {
        chars_of("<strong ")
    } else if k == 4 {
        chars_of("<i>")
    } else if k == 5 {
        chars_of("<i ")
    } else if k == 6 {
        chars_of("<em>")
    } else if k == 7 {
        chars_of("<em ")
    } else if k == 8 {
        chars_of("<u>")
    } else if k == 9 {
        chars_of("<u ")
    } else if k == 10 {
        chars_of("<span ")
    } else if k == 11 {
        chars_of("<br>")
    } else {
        chars_of("<br ")
    }
}

fn tag_close_exec(k: usize) -> (p: Vec<char>)
    ensures
        p@ == tag_close(k as int),
{
    if k <= 1 {
        chars_of("</b>")
    } else if k <= 3 {
        chars_of("</strong>")
    } else if k <= 5 {
        chars_of("</i>")
    } else if k <= 7 {
        chars_of("</em>")
    } else if k <= 9 {
        chars_of("</u>")
    } else if k == 10 {
        chars_of("</span>")
    } else {
        chars_of("</br>")
    }
}

fn tag_flags_exec(k: usize, tag: &[char]) -> (f: (bool, bool, bool))
    ensures
        f == tag_flags(k as int, tag@),
{
    if k <= 3 {
        (true, false, false)
    } else if k <= 7 {
        (false, true, false)
    } else if k <= 9 {
        (false, false, true)
    } else if k == 10 {
        let weight = contains_chars(tag, chars_of("font-weight:").as_slice());
        let bold_word = contains_chars(tag, chars_of("bold").as_slice());
        let heavy = contains_chars(tag, chars_of("700").as_slice());
        let style = contains_chars(tag, chars_of("font-style:").as_slice());
        let italic_word = contains_chars(tag, chars_of("italic").as_slice());
        let decoration = contains_chars(tag, chars_of("text-decoration:").as_slice());
        let underline_word = contains_chars(tag, chars_of("underline").as_slice());
        (weight && (bold_word || heavy), style && italic_word, decoration && underline_word)
    } else {
        (false, false, false)
    }
}

fn earliest_tag_exec(s: &[char]) -> (r: Option<(usize, usize)>)
    ensures
        same_tag(r, earliest_tag(s@)),
{
    let mut best: Option<(usize, usize)> = None;
    let mut k: usize = 0;
    while k < TAG_COUNT
        invariant
            k <= TAG_COUNT,
            same_tag(best, earliest_upto(s@, k as nat)),
        decreases TAG_COUNT - k,
    {
        let pat = tag_open_exec(k);
        match find_chars(s, pat.as_slice(), 0) {
            Some(pos) => {
                match best {
                    Some(b) => {
                        if pos < b.0 {
                            best = Some((pos, k));
                        }
                    },
                    None => {
                        best = Some((pos, k));
                    },
                }
            },
            None => {},
        }
        k = k + 1;
    }
    best
}

/// A segment holding `text` with the given flags.
fn segment(text: &[char], fb: bool, fi: bool, fu: bool) -> (t: TextSegment)
    ensures
        t@ == (SegmentView { text: text@, bold: fb, italic: fi, underline: fu }),
{
    TextSegment { text: string_of(text), bold: fb, italic: fi, underline: fu }
}

proof fn lemma_views_push(v: Seq<TextSegment>, t: TextSegment)
    ensures
        views(v.push(t)) == views(v).push(t@),
{
    reveal(views);
    assert(views(v.push(t)) =~= views(v).push(t@));
}

proof fn lemma_views_add(v: Seq<TextSegment>, w: Seq<TextSegment>)
    ensures
        views(v + w) == views(v) + views(w),
{
    reveal(views);
    assert(views(v + w) =~= views(v) + views(w));
}

/// What the tag `k` found at `pos` in `s`, and the text after it, are drawn
/// as (everything after the text before the tag).
pub open spec fn after_tag(s: Seq<char>, pos: int, k: int) -> Seq<SegmentView> {
    match find_from(s, seq!['>'], pos) {
        None => seq![plain(s.skip(pos))],
        Some(gt) => if k >= 11 {
            seq![plain(seq!['\n'])] + parse_spec(s.skip(gt + 1))
        } else {
            match find_from(s, tag_close(k), gt + 1) {
                None => seq![plain(s.skip(pos))],
                Some(e) => flagged(
                    parse_spec(s.subrange(gt + 1, e)),
                    tag_flags(k, s.subrange(pos, gt + 1)).0,
                    tag_flags(k, s.subrange(pos, gt + 1)).1,
                    tag_flags(k, s.subrange(pos, gt + 1)).2,
                ) + parse_spec(s.skip(e + tag_close(k).len())),
            }
        },
    }
}

proof fn lemma_parse_split(s: Seq<char>, pos: int, k: int)
    requires
        s.len() > 0,
        earliest_tag(s) == Some((pos, k)),
    ensures
        parse_spec(s) == lead(s, pos) + after_tag(s, pos, k),
{
    lemma_earliest_upto(s, TAG_COUNT as nat);
    lemma_tag_open_nonempty(k);
    match find_from(s, seq!['>'], pos) {
        None => {
            lemma_parse_unterminated(s, pos, k);
            assert(lead(s, pos).push(plain(s.skip(pos))) =~= lead(s, pos) + after_tag(s, pos, k));
        },
        Some(gt) => {
            lemma_find_from(s, seq!['>'], pos);
            if k >= 11 {
                lemma_parse_break(s, pos, k, gt);
                assert(lead(s, pos).push(plain(seq!['\n'])) + parse_spec(s.skip(gt + 1)) =~= lead(
                    s,
                    pos,
                ) + after_tag(s, pos, k));
            } else {
                lemma_tag_close_nonempty(k);
                lemma_find_from(s, tag_close(k), gt + 1);
                match find_from(s, tag_close(k), gt + 1) {
                    None => {
                        lemma_parse_unclosed(s, pos, k, gt);
                        assert(lead(s, pos).push(plain(s.skip(pos))) =~= lead(s, pos) + after_tag(
                            s,
                            pos,
                            k,
                        ));
                    },
                    Some(e) => {
                        lemma_parse_closed(s, pos, k, gt, e);
                    },
                }
            }
        },
    }
}

/// Appends one segment holding `text` with the given flags.
fn push_segment(out: &mut Vec<TextSegment>, text: &[char], fb: bool, fi: bool, fu: bool)
    ensures
        views(final(out)@) == views(old(out)@) + flagged(seq![plain(text@)], fb, fi, fu),
{
    let seg = segment(text, fb, fi, fu);
    proof {
        lemma_views_push(out@, seg);
        lemma_flagged_single(plain(text@), fb, fi, fu);
    }
    out.push(seg);
    assert(views(out@) =~= views(old(out)@) + flagged(seq![plain(text@)], fb, fi, fu));
}

/// Appends what the tag `k` found at `pos` in `rem` yields (see
/// [`after_tag`]); returns the text left to parse, or `None` when done.
fn parse_tag<'a>(
    rem: &'a [char],
    pos: usize,
    k: usize,
    fb: bool,
    fi: bool,
    fu: bool,
    out: &mut Vec<TextSegment>,
) -> (next: Option<&'a [char]>)
    requires
        rem@.len() > 0,
        earliest_tag(rem@) == Some((pos as int, k as int)),
    ensures
        match next {
            Some(rest) => {
                &&& rest@.len() < rem@.len()
                &&& views(final(out)@) + flagged(parse_spec(rest@), fb, fi, fu) == views(old(out)@)
                    + flagged(after_tag(rem@, pos as int, k as int), fb, fi, fu)
            },
            None => views(final(out)@) == views(old(out)@) + flagged(
                after_tag(rem@, pos as int, k as int),
                fb,
                fi,
                fu,
            ),
        },
    decreases rem@.len(), 0int,
{
    let ghost r = rem@;
    let n = rem.len();
    proof {
        lemma_earliest_upto(r, TAG_COUNT as nat);
    }
    let gt_pat = ['>'];
    assert(gt_pat@ =~= seq!['>']);
    match find_chars(rem, &gt_pat, pos) {
        None => {
            let tail = slice_subrange(rem, pos, n);
            push_segment(out, tail, fb, fi, fu);
            assert(tail@ =~= r.skip(pos as int));
            None
        },
        Some(gt) => {
            proof {
                lemma_find_from(r, seq!['>'], pos as int);
            }
            let tag_end = gt + 1;
            if k >= 11 {
                let nl = ['\n'];
                push_segment(out, &nl, fb, fi, fu);
                let rest = slice_subrange(rem, tag_end, n);
                proof {
                    assert(nl@ =~= seq!['\n']);
                    assert(rest@ =~= r.skip(gt + 1));
                    lemma_flagged_add(seq![plain(seq!['\n'])], parse_spec(rest@), fb, fi, fu);
                }
                Some(rest)
            } else {
                let tag_text = slice_subrange(rem, pos, tag_end);
                let flags = tag_flags_exec(k, tag_text);
                let close = tag_close_exec(k);
                proof {
                    lemma_tag_close_nonempty(k as int);
                    lemma_find_from(r, tag_close(k as int), tag_end as int);
                }
                match find_chars(rem, close.as_slice(), tag_end) {
                    None => {
                        let tail = slice_subrange(rem, pos, n);
                        push_segment(out, tail, fb, fi, fu);
                        assert(tail@ =~= r.skip(pos as int));
                        None
                    },
                    Some(e) => {
                        let inner_slice = slice_subrange(rem, tag_end, e);
                        let mut inner = parse_flagged(
                            inner_slice,
                            fb || flags.0,
                            fi || flags.1,
                            fu || flags.2,
                        );
                        proof {
                            lemma_views_add(out@, inner@);
                        }
                        out.append(&mut inner);
                        let rest = slice_subrange(rem, e + close.len(), n);
                        proof {
                            let mid = flagged(parse_spec(inner_slice@), flags.0, flags.1, flags.2);
                            assert(rest@ =~= r.skip(e + tag_close(k as int).len()));
                            assert(inner_slice@ =~= r.subrange(gt + 1, e as int));
                            assert(tag_text@ =~= r.subrange(pos as int, gt + 1));
                            lemma_flagged_twice(
                                parse_spec(inner_slice@),
                                flags.0,
                                flags.1,
                                flags.2,
                                fb,
                                fi,
                                fu,
                            );
                            lemma_flagged_add(mid, parse_spec(rest@), fb, fi, fu);
                        }
                        Some(rest)
                    },
                }
            }
        },
    }
}

/// Appends the segments of the first piece of `rem` (the text before the
/// earliest tag, and what that tag yields) to `out`, each with the flags
/// `fb`, `fi`, `fu` added.  Returns the text left to parse, or `None` when
/// the parse of `rem` is complete.
fn parse_step<'a>(
    rem: &'a [char],
    fb: bool,
    fi: bool,
    fu: bool,
    out: &mut Vec<TextSegment>,
) -> (next: Option<&'a [char]>)
    requires
        rem@.len() > 0,
    ensures
        match next {
            Some(rest) => {
                &&& rest@.len() < rem@.len()
                &&& views(final(out)@) + flagged(parse_spec(rest@), fb, fi, fu) == views(old(out)@)
                    + flagged(parse_spec(rem@), fb, fi, fu)
            },
            None => views(final(out)@) == views(old(out)@) + flagged(parse_spec(rem@), fb, fi, fu),
        },
    decreases rem@.len(), 1int,
{
    let ghost r = rem@;
    let ghost before = views(out@);
    let n = rem.len();
    match earliest_tag_exec(rem) {
        None => {
            proof {
                lemma_parse_no_tag(r);
            }
            push_segment(out, rem, fb, fi, fu);
            None
        },
        Some(found) => {
            let pos = found.0;
            let k = found.1;
            proof {
                lemma_earliest_upto(r, TAG_COUNT as nat);
                lemma_parse_split(r, pos as int, k as int);
                lemma_flagged_add(lead(r, pos as int), after_tag(r, pos as int, k as int), fb, fi, fu);
            }
            if pos > 0 {
                let head = slice_subrange(rem, 0, pos);
                push_segment(out, head, fb, fi, fu);
                assert(head@ =~= r.take(pos as int));
            } else {
                proof {
                    lemma_flagged_empty(fb, fi, fu);
                }
                assert(views(out@) =~= before + flagged(lead(r, pos as int), fb, fi, fu));
            }
            let ghost with_lead = views(out@);
            let next = parse_tag(rem, pos, k, fb, fi, fu, out);
            assert(with_lead + flagged(after_tag(r, pos as int, k as int), fb, fi, fu) =~= before
                + flagged(parse_spec(r), fb, fi, fu));
            next
        },
    }
}

/// The segments of `s`, each with the flags `fb`, `fi`, `fu` added.
fn parse_flagged(s: &[char], fb: bool, fi: bool, fu: bool) -> (r: Vec<TextSegment>)
    ensures
        views(r@) == flagged(parse_spec(s@), fb, fi, fu),
    decreases s@.len(), 2int,
{
    let mut out: Vec<TextSegment> = Vec::new();
    let mut rem: &[char] = s;
    let ghost target = flagged(parse_spec(s@), fb, fi, fu);
    proof {
        reveal(views);
    }
    assert(views(out@) =~= Seq::<SegmentView>::empty());
    loop
        invariant_except_break
            views(out@) + flagged(parse_spec(rem@), fb, fi, fu) == target,
        invariant
            rem@.len() <= s@.len(),
            target == flagged(parse_spec(s@), fb, fi, fu),
        ensures
            views(out@) == target,
        decreases rem@.len(),
    {
        if rem.len() == 0 {
            proof {
                reveal(parse_spec);
            }
            proof {
                lemma_flagged_empty(fb, fi, fu);
            }
            assert(views(out@) =~= target);
            break ;
        }
        let ghost before = views(out@);
        match parse_step(rem, fb, fi, fu, &mut out) {
            Some(rest) => {
                assert(views(out@) + flagged(parse_spec(rest@), fb, fi, fu) =~= target);
                rem = rest;
            },
            None => {
                assert(views(out@) =~= target);
                break ;
            },
        }
    }
    out
}

/// Cuts note content into formatted segments: see [`parse_spec`].
pub fn parse_formatted_text(text: &str) -> (segments: Vec<TextSegment>)
    ensures
        views(segments@) == parse_spec(text@),
{
    let chars = chars_of(text);
    let segments = parse_flagged(chars.as_slice(), false, false, false);
    proof {
        lemma_flagged_none(parse_spec(text@));
    }
    segments
}

} // verus!
