use cocomiro::editor::editor_initial_html;
use cocomiro::formatted_text::parse_formatted_text;

#[test]
fn html_text_parsing_and_formatting() {
    // Test that HTML tags in note content are properly parsed for rendering
    {
        // Test basic HTML parsing
        let html_content = "Hello <b>world</b> and <i>universe</i>";
        let segments = parse_formatted_text(html_content);

        assert_eq!(segments.len(), 4);

        // "Hello "
        assert_eq!(segments[0].text, "Hello ");
        assert!(!segments[0].bold);
        assert!(!segments[0].italic);
        assert!(!segments[0].underline);

        // "world"
        assert_eq!(segments[1].text, "world");
        assert!(segments[1].bold);
        assert!(!segments[1].italic);
        assert!(!segments[1].underline);

        // " and "
        assert_eq!(segments[2].text, " and ");
        assert!(!segments[2].bold);
        assert!(!segments[2].italic);
        assert!(!segments[2].underline);

        // "universe"
        assert_eq!(segments[3].text, "universe");
        assert!(!segments[3].bold);
        assert!(segments[3].italic);
        assert!(!segments[3].underline);
    }

    // Test nested and overlapping tags
    {
        let complex_html = "Start <b>bold <i>bold-italic</i> still bold</b> end";
        let segments = parse_formatted_text(complex_html);

        assert_eq!(segments.len(), 5);

        // "Start "
        assert_eq!(segments[0].text, "Start ");
        assert!(!segments[0].bold);
        assert!(!segments[0].italic);

        // "bold "
        assert_eq!(segments[1].text, "bold ");
        assert!(segments[1].bold);
        assert!(!segments[1].italic);

        // "bold-italic"
        assert_eq!(segments[2].text, "bold-italic");
        assert!(segments[2].bold);
        assert!(segments[2].italic);

        // " still bold"
        assert_eq!(segments[3].text, " still bold");
        assert!(segments[3].bold);
        assert!(!segments[3].italic);

        // " end"
        assert_eq!(segments[4].text, " end");
        assert!(!segments[4].bold);
        assert!(!segments[4].italic);
    }

    // Test underline formatting
    {
        let underline_html = "Normal <u>underlined</u> normal again";
        let segments = parse_formatted_text(underline_html);

        assert_eq!(segments.len(), 3);

        // "Normal "
        assert_eq!(segments[0].text, "Normal ");
        assert!(!segments[0].underline);

        // "underlined"
        assert_eq!(segments[1].text, "underlined");
        assert!(segments[1].underline);

        // " normal again"
        assert_eq!(segments[2].text, " normal again");
        assert!(!segments[2].underline);
    }

    // Test HTML with <span> tags and style attributes
    {
        let span_bold = r#"Text <span style="font-weight: bold;">bold</span> text"#;
        let segments = parse_formatted_text(span_bold);

        assert_eq!(segments.len(), 3);

        // "Text "
        assert_eq!(segments[0].text, "Text ");
        assert!(!segments[0].bold);

        // "bold"
        assert_eq!(segments[1].text, "bold");
        assert!(segments[1].bold);

        // " text"
        assert_eq!(segments[2].text, " text");
        assert!(!segments[2].bold);
    }

    // Test HTML with <br> tags for line breaks
    {
        let br_html = "Line 1<br>Line 2<br />Line 3";
        let segments = parse_formatted_text(br_html);

        assert_eq!(segments.len(), 5);

        // "Line 1"
        assert_eq!(segments[0].text, "Line 1");
        assert!(!segments[0].bold);

        // "\n"
        assert_eq!(segments[1].text, "\n");
        assert!(!segments[1].bold);

        // "Line 2"
        assert_eq!(segments[2].text, "Line 2");
        assert!(!segments[2].bold);

        // "\n"
        assert_eq!(segments[3].text, "\n");
        assert!(!segments[3].bold);

        // "Line 3"
        assert_eq!(segments[4].text, "Line 3");
        assert!(!segments[4].bold);
    }
}

#[test]
fn plain_text_is_a_single_segment() {
    let segments = parse_formatted_text("just words, no tags");
    assert_eq!(segments.len(), 1);
    assert_eq!(segments[0].text, "just words, no tags");
    assert!(!segments[0].bold && !segments[0].italic && !segments[0].underline);
}

#[test]
fn empty_text_has_no_segments() {
    assert!(parse_formatted_text("").is_empty());
}

#[test]
fn empty_tag_produces_no_segment() {
    let segments = parse_formatted_text("a<b></b>c");
    assert_eq!(segments.len(), 2);
    assert_eq!(segments[0].text, "a");
    assert_eq!(segments[1].text, "c");
}

#[test]
fn unclosed_tag_keeps_the_rest_as_plain_text() {
    let segments = parse_formatted_text("x <b>never closed");
    assert_eq!(segments.len(), 2);
    assert_eq!(segments[0].text, "x ");
    assert_eq!(segments[1].text, "<b>never closed");
    assert!(!segments[1].bold);
}

#[test]
fn tag_without_closing_bracket_is_plain_text() {
    let segments = parse_formatted_text("a <i never ends");
    assert_eq!(segments.len(), 2);
    assert_eq!(segments[1].text, "<i never ends");
    assert!(!segments[1].italic);
}

#[test]
fn strong_em_and_attributes_are_recognised() {
    let segments = parse_formatted_text("<strong>S</strong><em>E</em><b class=\"x\">B</b>");
    assert_eq!(segments.len(), 3);
    assert!(segments[0].bold && !segments[0].italic);
    assert!(segments[1].italic && !segments[1].bold);
    assert_eq!(segments[2].text, "B");
    assert!(segments[2].bold);
}

#[test]
fn span_styles_set_flags() {
    let segments = parse_formatted_text(
        "<span style=\"font-weight: 700; font-style: italic; text-decoration: underline\">all</span>",
    );
    assert_eq!(segments.len(), 1);
    assert!(segments[0].bold && segments[0].italic && segments[0].underline);
    let plain = parse_formatted_text("<span class=\"c\">none</span>");
    assert_eq!(plain.len(), 1);
    assert!(!plain[0].bold && !plain[0].italic && !plain[0].underline);
}

#[test]
fn nested_tags_combine_flags() {
    let segments = parse_formatted_text("<u><i>both</i></u>");
    assert_eq!(segments.len(), 1);
    assert!(segments[0].underline && segments[0].italic && !segments[0].bold);
}

#[test]
fn earliest_tag_wins_over_pattern_order() {
    let segments = parse_formatted_text("<i>a</i><b>b</b>");
    assert_eq!(segments.len(), 2);
    assert!(segments[0].italic && !segments[0].bold);
    assert!(segments[1].bold && !segments[1].italic);
}

#[test]
fn multibyte_text_is_kept_whole() {
    let segments = parse_formatted_text("héllo <b>wörld ✓</b>");
    assert_eq!(segments.len(), 2);
    assert_eq!(segments[0].text, "héllo ");
    assert_eq!(segments[1].text, "wörld ✓");
    assert!(segments[1].bold);
}

#[test]
fn no_segment_is_empty() {
    for input in ["<b></b>", "<br><br>", "a<i></i>b<u>c</u>", "<span >x</span>", "<"] {
        for segment in parse_formatted_text(input) {
            assert!(!segment.text.is_empty(), "empty segment in {input:?}");
        }
    }
}

#[test]
fn editor_lines_are_drawn_back_as_lines() {
    let html = editor_initial_html("Line 1\n\nLine 3\n");
    assert_eq!(html, "Line 1<br><br>Line 3<br>");
    let segments = parse_formatted_text(&html);
    let texts: Vec<&str> = segments.iter().map(|s| s.text.as_str()).collect();
    assert_eq!(texts, vec!["Line 1", "\n", "\n", "Line 3", "\n"]);
    assert!(segments.iter().all(|s| !s.bold && !s.italic && !s.underline));
}
