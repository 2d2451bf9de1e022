use cocomiro::text_layout::{is_white_space, layout_items, LayoutItem};

fn word(w: &str) -> LayoutItem {
    LayoutItem::Word(w.to_string())
}

#[test]
fn words_and_spaces_alternate() {
    assert_eq!(
        layout_items("Hello world"),
        vec![word("Hello"), LayoutItem::Space(' '), word("world")]
    );
}

#[test]
fn every_whitespace_character_is_its_own_item() {
    assert_eq!(
        layout_items("  x\ty"),
        vec![
            LayoutItem::Space(' '),
            LayoutItem::Space(' '),
            word("x"),
            LayoutItem::Space('\t'),
            word("y"),
        ]
    );
}

#[test]
fn lines_are_separated_by_breaks() {
    assert_eq!(layout_items("a\nb"), vec![word("a"), LayoutItem::LineBreak, word("b")]);
    assert_eq!(layout_items("a\r\nb"), vec![word("a"), LayoutItem::LineBreak, word("b")]);
    assert_eq!(
        layout_items("a\n\nb"),
        vec![word("a"), LayoutItem::LineBreak, LayoutItem::LineBreak, word("b")]
    );
}

#[test]
fn a_final_line_feed_starts_no_line() {
    assert_eq!(layout_items("a\n"), vec![word("a")]);
    assert_eq!(layout_items("\n"), Vec::<LayoutItem>::new());
    assert_eq!(layout_items(""), Vec::<LayoutItem>::new());
}

#[test]
fn a_carriage_return_without_line_feed_stays() {
    assert_eq!(layout_items("x\r"), vec![word("x"), LayoutItem::Space('\r')]);
}

#[test]
fn non_ascii_words_are_kept_whole() {
    assert_eq!(
        layout_items("héllo\u{3000}wörld"),
        vec![word("héllo"), LayoutItem::Space('\u{3000}'), word("wörld")]
    );
}

#[test]
fn white_space_agrees_with_std_on_every_char() {
    for n in 0u32..=0x10FFFF {
        if let Some(c) = char::from_u32(n) {
            assert_eq!(is_white_space(c), c.is_whitespace(), "U+{:04X}", n);
        }
    }
}

#[test]
fn white_space_examples() {
    assert!(is_white_space(' '));
    assert!(is_white_space('\t'));
    assert!(is_white_space('\n'));
    assert!(is_white_space('\u{a0}'));
    assert!(is_white_space('\u{3000}'));
    assert!(!is_white_space('a'));
    assert!(!is_white_space('\u{200b}'));
    assert!(!is_white_space('\u{feff}'));
}
