//! The pieces a formatted run of note text is laid out from: its lines, and in
//! each line its words and its single whitespace characters.  The renderer
//! measures each piece and wraps lines at the note's width.
use vstd::prelude::*;

use crate::strings::chars_of;

verus! {

/// Whether a character has Unicode's White_Space property: the controls
/// U+0009 to U+000D, the space U+0020, NEL U+0085, the no-break space U+00A0,
/// the Ogham space mark U+1680, the spaces U+2000 to U+200A, the line and
/// paragraph separators U+2028 and U+2029, the narrow no-break space U+202F,
/// the medium mathematical space U+205F and the ideographic space U+3000.
pub open spec fn white_space(c: char) -> bool {
    let n = c as u32;
    ||| 0x9 <= n <= 0xd
    ||| n == 0x20
    ||| n == 0x85
    ||| n == 0xa0
    ||| n == 0x1680
    ||| 0x2000 <= n <= 0x200a
    ||| n == 0x2028
    ||| n == 0x2029
    ||| n == 0x202f
    ||| n == 0x205f
    ||| n == 0x3000
}

/// Tells whether `c` has Unicode's White_Space property, as `char::is_whitespace`
/// does.
pub fn is_white_space(c: char) -> (b: bool)
    ensures
        b == white_space(c),
{
    let n: u32 = c as u32;
    if n < 0x80 {
        (0x9 <= n && n <= 0xd) || n == 0x20
    } else if n < 0x2000 {
        n == 0x85 || n == 0xa0 || n == 0x1680
    } else {
        n <= 0x200a || n == 0x2028 || n == 0x2029 || n == 0x202f || n == 0x205f || n == 0x3000
    }
}

/// One piece of laid-out text.
#[derive(Debug, Clone, PartialEq)]
pub enum LayoutItem {
    /// The start of the next line of the text.
    LineBreak,
    /// A maximal run of non-whitespace characters.
    Word(String),
    /// A single whitespace character.
    Space(char),
}

/// A layout item with its word taken as a character sequence.
pub enum ItemView {
    LineBreak,
    Word(Seq<char>),
    Space(char),
}

impl View for LayoutItem {
    type V = ItemView;

    open spec fn view(&self) -> ItemView {
        match self {
            LayoutItem::LineBreak => ItemView::LineBreak,
            LayoutItem::Word(w) => ItemView::Word(w@),
            LayoutItem::Space(c) => ItemView::Space(*c),
        }
    }
}

/// `t` without one trailing carriage return, if it has one.
pub open spec fn drop_cr(t: Seq<char>) -> Seq<char> {
    if t.len() > 0 && t.last() == '\r' {
        t.drop_last()
    } else {
        t
    }
}

/// The index of the first line feed in `s`, if any.
pub open spec fn first_newline(s: Seq<char>) -> Option<int>
    decreases s.len(),
{
    if s.len() == 0 {
        None
    } else if s[0] == '\n' {
        Some(0)
    } else {
        match first_newline(s.drop_first()) {
            Some(k) => Some(k + 1),
            None => None,
        }
    }
}

/// The lines of `s` as `str::lines` gives them: split at each line feed, a
/// carriage return before it dropped, no line after a final line feed.
pub open spec fn lines_of(s: Seq<char>) -> Seq<Seq<char>>
    decreases s.len(),
{
    if s.len() == 0 {
        Seq::empty()
    } else {
        match first_newline(s) {
            None => seq![s],
            Some(k) => if 0 <= k < s.len() {
                seq![drop_cr(s.take(k))] + lines_of(s.skip(k + 1))
            } else {
                seq![s]
            },
        }
    }
}

/// The number of non-whitespace characters at the start of `s`.
pub open spec fn word_len(s: Seq<char>) -> nat
    decreases s.len(),
{
    if s.len() == 0 || white_space(s[0]) {
        0
    } else {
        1 + word_len(s.drop_first())
    }
}

/// The words and whitespace characters of a line, in order.
pub open spec fn tokens(s: Seq<char>) -> Seq<ItemView>
    decreases s.len(),
{
    if s.len() == 0 {
        Seq::empty()
    } else if white_space(s[0]) {
        seq![ItemView::Space(s[0])] + tokens(s.drop_first())
    } else {
        let n = word_len(s);
        if 0 < n <= s.len() {
            seq![ItemView::Word(s.take(n as int))] + tokens(s.skip(n as int))
        } else {
            Seq::empty()
        }
    }
}

/// The items of a sequence of lines: each line's tokens, with a line break
/// before every line but the first.
pub open spec fn lines_items(lines: Seq<Seq<char>>) -> Seq<ItemView>
    decreases lines.len(),
{
    if lines.len() == 0 {
        Seq::empty()
    } else {
        lines_items(lines.drop_last()) + (if lines.len() > 1 {
            seq![ItemView::LineBreak]
        } else {
            Seq::empty()
        }) + tokens(lines.last())
    }
}

/// The layout items of a text.
pub open spec fn layout_of(s: Seq<char>) -> Seq<ItemView> {
    lines_items(lines_of(s))
}

/// `word_len` of a word followed by a whitespace character or nothing is the
/// word's length.
proof fn lemma_word_len_concat(w: Seq<char>, t: Seq<char>)
    requires
        forall|j: int| 0 <= j < w.len() ==> !white_space(#[trigger] w[j]),
        t.len() == 0 || white_space(t[0]),
    ensures
        word_len(w + t) == w.len(),
    decreases w.len(),
{
    if w.len() > 0 {
        assert((w + t).drop_first() =~= w.drop_first() + t);
        lemma_word_len_concat(w.drop_first(), t);
    } else {
        assert(w + t =~= t);
    }
}

/// The tokens of a word followed by `t` (which starts with whitespace or is
/// empty) are the word, then the tokens of `t`.
proof fn lemma_tokens_word(w: Seq<char>, t: Seq<char>)
    requires
        w.len() > 0,
        forall|j: int| 0 <= j < w.len() ==> !white_space(#[trigger] w[j]),
        t.len() == 0 || white_space(t[0]),
    ensures
        tokens(w + t) =~= seq![ItemView::Word(w)] + tokens(t),
{
    lemma_word_len_concat(w, t);
    let s = w + t;
    assert(!white_space(s[0]));
    assert(s.take(w.len() as int) =~= w);
    assert(s.skip(w.len() as int) =~= t);
}

/// Appending one item and then a tail is appending the item and the tail.
proof fn lemma_push_then(o: Seq<ItemView>, x: ItemView, t: Seq<ItemView>)
    ensures
        o + (seq![x] + t) =~= o.push(x) + t,
{
    assert(o + (seq![x] + t) =~= o.push(x) + t);
}

/// The tokens of a text starting with whitespace: that character, then the
/// tokens of the rest.
proof fn lemma_tokens_space(s: Seq<char>, c: char)
    requires
        s.len() > 0,
        s[0] == c,
        white_space(c),
    ensures
        tokens(s) =~= seq![ItemView::Space(c)] + tokens(s.drop_first()),
{
}

/// The lines of `s`, where `s` has its first line feed at `k`.
proof fn lemma_lines_split(s: Seq<char>, k: int)
    requires
        0 <= k < s.len(),
        s[k] == '\n',
        forall|j: int| 0 <= j < k ==> s[j] != '\n',
    ensures
        lines_of(s) == seq![drop_cr(s.take(k))] + lines_of(s.skip(k + 1)),
{
    lemma_first_newline(s, k);
}

/// What `first_newline` finds: the first line feed, or none at all.
pub(crate) proof fn lemma_first_newline_props(s: Seq<char>)
    ensures
        match first_newline(s) {
            Some(k) => 0 <= k < s.len() && s[k] == '\n' && forall|j: int|
                0 <= j < k ==> s[j] != '\n',
            None => forall|j: int| 0 <= j < s.len() ==> s[j] != '\n',
        },
    decreases s.len(),
{
    if s.len() > 0 {
        lemma_first_newline_props(s.drop_first());
        if s[0] != '\n' {
            match first_newline(s.drop_first()) {
                Some(k) => {
                    assert forall|j: int| 0 <= j < k + 1 implies s[j] != '\n' by {
                        if j > 0 {
                            assert(s[j] == s.drop_first()[j - 1]);
                        }
                    }
                },
                None => {
                    assert forall|j: int| 0 <= j < s.len() implies s[j] != '\n' by {
                        if j > 0 {
                            assert(s[j] == s.drop_first()[j - 1]);
                        }
                    }
                },
            }
        }
    }
}

/// Where `first_newline` finds the first line feed.
proof fn lemma_first_newline(s: Seq<char>, k: int)
    requires
        0 <= k <= s.len(),
        k < s.len() ==> s[k] == '\n',
        forall|j: int| 0 <= j < k ==> s[j] != '\n',
    ensures
        first_newline(s) == (if k < s.len() {
            Some(k)
        } else {
            None::<int>
        }),
    decreases k,
{
    if k > 0 {
        lemma_first_newline(s.drop_first(), k - 1);
    }
}

/// Appends one item.
fn push_item(out: &mut Vec<LayoutItem>, item: LayoutItem)
    ensures
        final(out)@.map_values(|i: LayoutItem| i@) == old(out)@.map_values(|i: LayoutItem| i@).push(
            item@,
        ),
{
    let ghost before = out@;
    out.push(item);
    assert(out@.map_values(|i: LayoutItem| i@) =~= before.map_values(|i: LayoutItem| i@).push(
        item@,
    ));
}

/// The layout items of one line: its words and its whitespace characters.
fn line_tokens(cs: &[char], lo: usize, hi: usize, out: &mut Vec<LayoutItem>)
    requires
        lo <= hi <= cs@.len(),
    ensures
        final(out)@.map_values(|i: LayoutItem| i@) == old(out)@.map_values(|i: LayoutItem| i@)
            + tokens(cs@.subrange(lo as int, hi as int)),
{
    let ghost start = out@.map_values(|i: LayoutItem| i@);
    let ghost s = cs@.subrange(lo as int, hi as int);
    let n = hi - lo;
    let mut word: Vec<char> = Vec::new();
    let mut i: usize = 0;
    assert(s.skip(0) =~= s);
    assert(word@ + s.skip(0) =~= s);
    while i < n
        invariant
            n == s.len(),
            n == hi - lo,
            lo <= hi <= cs@.len(),
            s == cs@.subrange(lo as int, hi as int),
            i <= n,
            forall|j: int| 0 <= j < word@.len() ==> !white_space(#[trigger] word@[j]),
            out@.map_values(|i: LayoutItem| i@) + tokens(word@ + s.skip(i as int)) == start
                + tokens(s),
        decreases n - i,
    {
        let c = cs[lo + i];
        let ghost rest = s.skip(i as int);
        assert(rest[0] == c);
        assert(rest.drop_first() =~= s.skip(i + 1));
        if is_white_space(c) {
            let ghost o0 = out@.map_values(|i: LayoutItem| i@);
            if word.len() > 0 {
                proof {
                    lemma_tokens_word(word@, rest);
                }
                let w = crate::strings::string_of(word.as_slice());
                push_item(out, LayoutItem::Word(w));
                proof {
                    lemma_push_then(o0, ItemView::Word(word@), tokens(rest));
                }
                word = Vec::new();
            }
            let ghost o1 = out@.map_values(|i: LayoutItem| i@);
            assert(o1 + tokens(rest) == start + tokens(s)) by {
                assert(word@ + rest =~= rest);
            }
            proof {
                lemma_tokens_space(rest, c);
                lemma_push_then(o1, ItemView::Space(c), tokens(s.skip(i + 1)));
            }
            push_item(out, LayoutItem::Space(c));
            assert(word@ + s.skip(i + 1) =~= s.skip(i + 1));
        } else {
            let ghost old_word = word@;
            word.push(c);
            assert(word@ + s.skip(i + 1) =~= old_word + rest);
        }
        i = i + 1;
    }
    assert(s.skip(n as int) =~= Seq::<char>::empty());
    assert(word@ + s.skip(n as int) =~= word@);
    if word.len() > 0 {
        proof {
            lemma_tokens_word(word@, Seq::<char>::empty());
            assert(word@ + Seq::<char>::empty() =~= word@);
        }
        let w = crate::strings::string_of(word.as_slice());
        push_item(out, LayoutItem::Word(w));
    }
}

/// The layout items of a text: its lines as `str::lines` splits them, a line
/// break before each line but the first, and in each line its words and its
/// whitespace characters.
pub fn layout_items(text: &str) -> (items: Vec<LayoutItem>)
    ensures
        items@.map_values(|i: LayoutItem| i@) == layout_of(text@),
{
    let cs = chars_of(text);
    let ghost s = cs@;
    let n = cs.len();
    let mut out: Vec<LayoutItem> = Vec::new();
    let mut start: usize = 0;
    let mut lines: usize = 0;
    let ghost mut done: Seq<Seq<char>> = Seq::empty();
    assert(s.skip(0) =~= s);
    while start < n
        invariant
            n == s.len(),
            s == cs@,
            start <= n,
            done + lines_of(s.skip(start as int)) == lines_of(s),
            done.len() == lines,
            lines <= start,
            out@.map_values(|i: LayoutItem| i@) == lines_items(done),
        decreases n - start,
    {
        let ghost rest = s.skip(start as int);
        let mut k = start;
        while k < n && cs[k] != '\n'
            invariant
                start <= k <= n,
                n == s.len(),
                s == cs@,
                forall|j: int| start <= j < k ==> s[j] != '\n',
            decreases n - k,
        {
            k = k + 1;
        }
        let mut end = k;
        if k < n && end > start && cs[end - 1] == '\r' {
            end = end - 1;
        }
        let ghost line = s.subrange(start as int, end as int);
        proof {
            if k < n {
                lemma_lines_split(rest, k - start);
                assert(rest.take(k - start) =~= s.subrange(start as int, k as int));
                assert(drop_cr(rest.take(k - start)) =~= line);
                assert(rest.skip(k - start + 1) =~= s.skip(k + 1));
            } else {
                lemma_first_newline(rest, k - start);
                assert(rest =~= line);
            }
        }
        if lines > 0 {
            push_item(&mut out, LayoutItem::LineBreak);
        }
        line_tokens(cs.as_slice(), start, end, &mut out);
        proof {
            let d2 = done.push(line);
            assert(d2.drop_last() =~= done);
            assert(cs@.subrange(start as int, end as int) =~= line);
            if lines > 0 {
                assert(out@.map_values(|i: LayoutItem| i@) =~= lines_items(done) + seq![
                    ItemView::LineBreak,
                ] + tokens(line));
            } else {
                assert(done.len() == 0);
                assert(lines_items(done) =~= Seq::<ItemView>::empty());
                assert(out@.map_values(|i: LayoutItem| i@) =~= lines_items(done) + tokens(line));
            }
            assert(d2 + lines_of(s.skip(if k < n {
                k + 1
            } else {
                n as int
            })) =~= done + lines_of(rest)) by {
                if k >= n {
                    assert(s.skip(n as int) =~= Seq::<char>::empty());
                }
            }
            done = d2;
        }
        lines = lines + 1;
        if k < n {
            start = k + 1;
        } else {
            start = n;
        }
    }
    proof {
        assert(s.skip(n as int) =~= Seq::<char>::empty());
        assert(done + Seq::<Seq<char>>::empty() =~= done);
    }
    out
}

/// The characters an item stands for: a word's characters, the whitespace
/// character, or a line feed for a line break.
pub open spec fn item_text(i: ItemView) -> Seq<char> {
    match i {
        ItemView::LineBreak => seq!['\n'],
        ItemView::Word(w) => w,
        ItemView::Space(c) => seq![c],
    }
}

/// The characters of a sequence of items, in order.
pub open spec fn joined(items: Seq<ItemView>) -> Seq<char>
    decreases items.len(),
{
    if items.len() == 0 {
        Seq::empty()
    } else {
        item_text(items[0]) + joined(items.drop_first())
    }
}

/// Splitting a line into words and whitespace characters loses no character
/// and adds none: the pieces, put back together, are the line.
pub proof fn law_tokens_keep_the_line(s: Seq<char>)
    ensures
        joined(tokens(s)) == s,
    decreases s.len(), 1nat,
{
    if s.len() > 0 {
        lemma_tokens_keep_nonempty(s, s[0]);
    }
}

/// `law_tokens_keep_the_line` for a line that starts with `c`.
proof fn lemma_tokens_keep_nonempty(s: Seq<char>, c: char)
    requires
        s.len() > 0,
        s[0] == c,
    ensures
        joined(tokens(s)) == s,
    decreases s.len(), 0nat,
{
    if white_space(c) {
        law_tokens_keep_the_line(s.drop_first());
        assert(tokens(s).len() == 1 + tokens(s.drop_first()).len());
        assert(tokens(s)[0] == ItemView::Space(c));
        assert(tokens(s).drop_first() =~= tokens(s.drop_first()));
        assert(joined(tokens(s)) == item_text(tokens(s)[0]) + joined(tokens(s).drop_first()));
        assert(seq![c] + s.drop_first() =~= s);
    } else {
        let n = word_len(s);
        lemma_word_len_bounds(s);
        law_tokens_keep_the_line(s.skip(n as int));
        assert(tokens(s).len() == 1 + tokens(s.skip(n as int)).len());
        assert(tokens(s)[0] == ItemView::Word(s.take(n as int)));
        assert(tokens(s).drop_first() =~= tokens(s.skip(n as int)));
        assert(joined(tokens(s)) == item_text(tokens(s)[0]) + joined(tokens(s).drop_first()));
        assert(s.take(n as int) + s.skip(n as int) =~= s);
    }
}

/// A text starting with a non-whitespace character starts with a word of at
/// least one character, no longer than the text.
proof fn lemma_word_len_bounds(s: Seq<char>)
    ensures
        word_len(s) <= s.len(),
        s.len() > 0 && !white_space(s[0]) ==> word_len(s) > 0,
    decreases s.len(),
{
    if s.len() > 0 && !white_space(s[0]) {
        lemma_word_len_bounds(s.drop_first());
    }
}

} // verus!
