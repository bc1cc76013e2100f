use treelight::catalog::catalog_name;
use treelight::{DecorationMode, HighlightEvent, Renderer, Style, Theme, ATTRIBUTE_COUNT};

fn idx(name: &str) -> usize {
    (0..ATTRIBUTE_COUNT)
        .find(|&i| catalog_name(i) == name)
        .expect("catalog name")
}

fn theme_with(entries: &[(&str, &str, bool, bool)]) -> Theme {
    let mut theme = Theme::new(String::from("#abb2bf"), String::from("#282c34"));
    for (name, color, bold, italic) in entries {
        theme.set_style(idx(name), Style::new(String::from(*color), *bold, *italic));
    }
    theme
}

fn row_count(html: &str) -> usize {
    html.matches("<tr>").count()
}

#[test]
fn scenario_single_line_keyword_and_number() {
    let theme = theme_with(&[
        ("keyword", "#c678dd", false, false),
        ("constant.numeric", "#d19a66", false, false),
    ]);
    let renderer = Renderer::new(theme);
    let source = b"let x = 1;\n";
    let events = vec![
        HighlightEvent::HighlightStart { index: idx("keyword") },
        HighlightEvent::Source { start: 0, end: 3 },
        HighlightEvent::HighlightEnd,
        HighlightEvent::Source { start: 3, end: 8 },
        HighlightEvent::HighlightStart { index: idx("constant.numeric") },
        HighlightEvent::Source { start: 8, end: 9 },
        HighlightEvent::HighlightEnd,
        HighlightEvent::Source { start: 9, end: 11 },
    ];
    let html = renderer.render_events(source, &events).unwrap();
    let expected = "\n<div class=\"tsc-table-bg\">\n    <table class=\"tsc-table\">\n        <tbody>\n           <tr><td class=line-number>0</td><td class=tsc-line><span class=\"tsc-keyword\">let</span> x = <span class=\"tsc-constant_numeric\">1</span>;</td></tr>\n        </tbody>\n    </table>\n</div>\n";
    assert_eq!(html, expected);
    assert_eq!(row_count(&html), 1);
}

#[test]
fn scenario_inline_styles_carry_colors() {
    let theme = theme_with(&[("keyword", "#c678dd", false, false)]);
    let renderer = Renderer::with_mode(theme, DecorationMode::InlineStyles);
    let source = b"let\n";
    let events = vec![
        HighlightEvent::HighlightStart { index: idx("keyword") },
        HighlightEvent::Source { start: 0, end: 3 },
        HighlightEvent::HighlightEnd,
        HighlightEvent::Source { start: 3, end: 4 },
    ];
    let html = renderer.render_events(source, &events).unwrap();
    assert!(html.contains("<span style=\"color: #c678dd\">let</span>"));
}

#[test]
fn render_events_is_deterministic() {
    let theme = theme_with(&[("comment", "#5c6370", false, true)]);
    let renderer = Renderer::new(theme);
    let source = b"// note\nlet y = 2;\n";
    let events = vec![
        HighlightEvent::HighlightStart { index: idx("comment") },
        HighlightEvent::Source { start: 0, end: 8 },
        HighlightEvent::HighlightEnd,
        HighlightEvent::Source { start: 8, end: 19 },
    ];
    let first = renderer.render_events(source, &events).unwrap();
    let second = renderer.render_events(source, &events).unwrap();
    assert_eq!(first, second);
}

#[test]
fn row_count_matches_source_lines() {
    let theme = theme_with(&[]);
    let renderer = Renderer::new(theme);
    let cases: &[(&[u8], usize)] = &[
        (b"a\nb\nc", 3),
        (b"a\nb\n", 2),
        (b"one line", 1),
        (b"", 1),
        (b"\n", 1),
        (b"\n\n", 2),
    ];
    for (source, rows) in cases {
        let events = vec![HighlightEvent::Source { start: 0, end: source.len() }];
        let html = renderer.render_events(source, &events).unwrap();
        assert_eq!(row_count(&html), *rows, "source {:?}", source);
    }
}

#[test]
fn line_numbers_are_zero_based_decimal() {
    let theme = theme_with(&[]);
    let renderer = Renderer::new(theme);
    let source = vec![b'x', b'\n'].repeat(12);
    let events = vec![HighlightEvent::Source { start: 0, end: source.len() }];
    let html = renderer.render_events(&source, &events).unwrap();
    assert_eq!(row_count(&html), 12);
    assert!(html.contains("<td class=line-number>0</td>"));
    assert!(html.contains("<td class=line-number>11</td>"));
    assert!(!html.contains("<td class=line-number>12</td>"));
}

#[test]
fn markup_characters_are_escaped() {
    let theme = theme_with(&[]);
    let renderer = Renderer::new(theme);
    let source = b"a<b&c\"d'e>f";
    let events = vec![HighlightEvent::Source { start: 0, end: source.len() }];
    let html = renderer.render_events(source, &events).unwrap();
    assert!(html.contains("a&lt;b&amp;c&quot;d&#39;e&gt;f"));
}

#[test]
fn carriage_returns_are_dropped() {
    let theme = theme_with(&[]);
    let renderer = Renderer::new(theme);
    let source = b"a\r\nb";
    let events = vec![HighlightEvent::Source { start: 0, end: source.len() }];
    let html = renderer.render_events(source, &events).unwrap();
    assert_eq!(row_count(&html), 2);
    assert!(!html.contains('\r'));
}

#[test]
fn unstyled_attribute_renders_bare_span() {
    let theme = theme_with(&[("keyword", "#c678dd", false, false)]);
    let renderer = Renderer::new(theme);
    let source = b"word\n";
    let events = vec![
        HighlightEvent::HighlightStart { index: idx("comment") },
        HighlightEvent::Source { start: 0, end: 4 },
        HighlightEvent::HighlightEnd,
        HighlightEvent::Source { start: 4, end: 5 },
    ];
    let html = renderer.render_events(source, &events).unwrap();
    assert!(html.contains("<span>word</span>"));
    assert!(!html.contains("<span >"));
}

#[test]
fn unknown_attribute_index_renders_bare_span() {
    let theme = theme_with(&[]);
    let renderer = Renderer::new(theme);
    let source = b"word\n";
    let events = vec![
        HighlightEvent::HighlightStart { index: 9999 },
        HighlightEvent::Source { start: 0, end: 4 },
        HighlightEvent::HighlightEnd,
        HighlightEvent::Source { start: 4, end: 5 },
    ];
    let html = renderer.render_events(source, &events).unwrap();
    assert!(html.contains("<span>word</span>"));
}

#[test]
fn spans_are_reopened_after_line_breaks() {
    let theme = theme_with(&[("comment", "#5c6370", false, false)]);
    let renderer = Renderer::new(theme);
    let source = b"one\ntwo\n";
    let events = vec![
        HighlightEvent::HighlightStart { index: idx("comment") },
        HighlightEvent::Source { start: 0, end: 8 },
        HighlightEvent::HighlightEnd,
    ];
    let html = renderer.render_events(source, &events).unwrap();
    assert!(html.contains("<span class=\"tsc-comment\">one</span>"));
    assert!(html.contains("<span class=\"tsc-comment\">two</span>"));
}

#[test]
fn trailing_whitespace_is_trimmed_from_rows() {
    let theme = theme_with(&[]);
    let renderer = Renderer::new(theme);
    let source = b"word   \t\nnext\n";
    let events = vec![HighlightEvent::Source { start: 0, end: source.len() }];
    let html = renderer.render_events(source, &events).unwrap();
    assert!(html.contains("<td class=tsc-line>word</td>"));
    assert!(html.contains("<td class=tsc-line>next</td>"));
}

#[test]
fn out_of_range_event_bounds_are_clamped() {
    let theme = theme_with(&[]);
    let renderer = Renderer::new(theme);
    let source = b"ab";
    let events = vec![
        HighlightEvent::Source { start: 0, end: 50 },
        HighlightEvent::Source { start: 7, end: 3 },
    ];
    let html = renderer.render_events(source, &events).unwrap();
    assert!(html.contains("<td class=tsc-line>ab</td>"));
    assert_eq!(row_count(&html), 1);
}
