use adele::grid::draw_grid;
use adele::highlight::{
    code_bg_color, draw_code_block, draw_code_line, highlight_assets, highlight_theme,
    lines_with_endings, syntax_for_lang, Region,
};
use adele::markdown::{parse, render, render_events, Event, Tag, TagEnd};
use adele::view::{plain_style, Color, Line, Span, Style};

fn render_test(src: &str) -> Vec<Line> {
    render(src, plain_style(), &highlight_assets())
}

fn flatten(lines: &[Line]) -> String {
    lines
        .iter()
        .map(|l| l.iter().map(|s| s.text.as_str()).collect::<String>())
        .collect::<Vec<_>>()
        .join("\n")
}

#[test]
fn plain_text_renders_unchanged_text() {
    let lines = render_test("hello world");
    let flat = flatten(&lines);
    assert!(flat.contains("hello world"));
}

#[test]
fn bold_emits_bold_modifier() {
    let lines = render_test("this is **strong** text");
    let any_bold = lines
        .iter()
        .flat_map(|l| l.iter())
        .any(|s| s.text == "strong" && s.style.bold);
    assert!(any_bold, "expected a span with BOLD modifier on 'strong'");
}

#[test]
fn italic_emits_italic_modifier() {
    let lines = render_test("this is *emphasized* text");
    let any_italic = lines
        .iter()
        .flat_map(|l| l.iter())
        .any(|s| s.text == "emphasized" && s.style.italic);
    assert!(any_italic);
}

#[test]
fn inline_code_keeps_backticks() {
    let lines = render_test("a `foo()` call");
    let flat = flatten(&lines);
    assert!(flat.contains("`foo()`"));
}

#[test]
fn fenced_code_block_renders_distinctly() {
    let src = "before\n\n```\nlet x = 1;\nlet y = 2;\n```\n\nafter";
    let lines = render_test(src);
    let flat = flatten(&lines);
    assert!(flat.contains("let x = 1;"));
    assert!(flat.contains("let y = 2;"));
    let any_code_styled = lines.iter().flat_map(|l| l.iter()).any(|s| {
        s.style.bg == Some(code_bg_color()) && s.text.contains("let x = 1;")
    });
    assert!(any_code_styled, "expected a span with code bg on the code line");
}

#[test]
fn bullet_list_emits_markers() {
    let lines = render_test("- alpha\n- beta\n- gamma");
    let flat = flatten(&lines);
    assert!(flat.contains("• alpha"));
    assert!(flat.contains("• beta"));
    assert!(flat.contains("• gamma"));
}

#[test]
fn numbered_list_emits_indices() {
    let lines = render_test("1. first\n2. second");
    let flat = flatten(&lines);
    assert!(flat.contains("1. first"));
    assert!(flat.contains("2. second"));
}

#[test]
fn heading_styles_with_bold() {
    let lines = render_test("# Heading text\n\nbody");
    let any_heading_bold = lines.iter().flat_map(|l| l.iter()).any(|s| {
        s.text == "Heading text" && s.style.bold
    });
    assert!(any_heading_bold);
}

#[test]
fn link_rendered_with_underline_and_url() {
    let lines = render_test("see [docs](https://example.com)");
    let flat = flatten(&lines);
    assert!(flat.contains("docs"));
    assert!(flat.contains("https://example.com"));
    let any_link = lines.iter().flat_map(|l| l.iter()).any(|s| {
        s.text == "docs" && s.style.underlined
    });
    assert!(any_link);
}

#[test]
fn table_renders_aligned_grid() {
    let src = "| a | b |\n|---|---|\n| 1 | 2 |\n| 3 | 4 |";
    let lines = render_test(src);
    let flat = flatten(&lines);
    assert!(flat.contains("a"));
    assert!(flat.contains("│"));
    assert!(flat.contains("1"));
    assert!(flat.contains("2"));
}

#[test]
fn empty_input_produces_no_lines() {
    let lines = render_test("");
    assert!(lines.is_empty());
}

#[test]
fn rust_code_block_tokens_get_distinct_colors() {
    let src = "```rust\nfn main() { let x = 1; }\n```\n";
    let lines = render_test(src);
    let mut fgs: Vec<Color> = lines
        .iter()
        .flat_map(|l| l.iter())
        .filter(|s| s.style.bg == Some(code_bg_color()) && !s.text.trim().is_empty())
        .filter_map(|s| s.style.fg)
        .collect();
    fgs.sort_by_key(|c| format!("{c:?}"));
    fgs.dedup();
    assert!(
        fgs.len() > 1,
        "expected multiple foreground colors, got {fgs:?}"
    );
}

#[test]
fn unknown_language_falls_back_to_plain_code_style() {
    let src = "```not-a-real-lang\nliteral content\n```\n";
    let lines = render_test(src);
    let plain_span = lines.iter().flat_map(|l| l.iter()).any(|s| {
        s.style.bg == Some(code_bg_color()) && s.text.contains("literal content")
    });
    assert!(plain_span);
}

#[test]
fn unfenced_code_block_uses_plain_style() {
    let src = "```\nplain block content\n```\n";
    let lines = render_test(src);
    let plain_span = lines.iter().flat_map(|l| l.iter()).any(|s| {
        s.style.bg == Some(code_bg_color()) && s.text.contains("plain block content")
    });
    assert!(plain_span);
}

#[test]
fn syntax_for_lang_handles_aliases_and_extensions() {
    let assets = highlight_assets();
    assert!(syntax_for_lang(&assets, Some("rust")).is_some());
    assert!(syntax_for_lang(&assets, Some("py")).is_some());
    assert!(syntax_for_lang(&assets, Some("")).is_none());
    assert!(syntax_for_lang(&assets, None).is_none());
}

#[test]
fn events_come_from_the_parser() {
    assert_eq!(
        parse("a *b*"),
        vec![
            Event::Start(Tag::Paragraph),
            Event::Text("a ".into()),
            Event::Start(Tag::Emphasis),
            Event::Text("b".into()),
            Event::End(TagEnd::Emphasis),
            Event::End(TagEnd::Paragraph),
        ]
    );
}

#[test]
fn task_lists_and_strikethrough_are_read() {
    let flat = flatten(&render_test("- [x] done\n- [ ] open"));
    assert!(flat.contains("done") && flat.contains("open"));
    let struck = render_test("~~gone~~");
    assert!(struck
        .iter()
        .flat_map(|l| l.iter())
        .any(|s| s.text == "gone" && s.style.crossed_out));
}

#[test]
fn paragraphs_are_set_apart() {
    assert_eq!(flatten(&render_test("one\n\ntwo")), "one\n\ntwo");
}

#[test]
fn rendering_ends_in_no_blank_line() {
    let lines = render_test("# head\n\ntext\n\n");
    let last = lines.last().unwrap();
    assert!(last.iter().any(|s| !s.text.trim().is_empty()));
}

#[test]
fn given_events_are_rendered() {
    let events = vec![
        Event::Start(Tag::List(Some(3))),
        Event::Start(Tag::Item),
        Event::Text("x".into()),
        Event::End(TagEnd::Item),
        Event::End(TagEnd::List),
    ];
    let lines = render_events(&events, plain_style(), &highlight_assets());
    assert!(flatten(&lines).contains("3. x"));
}

#[test]
fn code_lines_keep_their_regions() {
    let line = draw_code_line(
        "ab\n",
        &vec![
            Region {
                text: "a".into(),
                rgb: (1, 2, 3),
                bold: false,
                italic: false,
                underline: false,
            },
            Region {
                text: "b\n".into(),
                rgb: (4, 5, 6),
                bold: true,
                italic: false,
                underline: false,
            },
        ],
    );
    let text: String = line.iter().map(|s| s.text.as_str()).collect();
    assert!(text.starts_with(" ab"));
    assert!(line.iter().any(|s| s.style.fg == Some(Color::Rgb(4, 5, 6))));
}

#[test]
fn code_blocks_show_every_line() {
    let assets = highlight_assets();
    assert!(draw_code_block("", None, &assets).is_empty());
    let flat = flatten(&draw_code_block("fn a() {}\nfn b() {}\n", Some("rust"), &assets));
    assert!(flat.contains("fn a() {}") && flat.contains("fn b() {}"));
    assert_eq!(highlight_theme(), "base16-ocean.dark");
}

#[test]
fn lines_keep_their_endings() {
    assert_eq!(lines_with_endings("a\nb"), vec!["a\n", "b"]);
    assert_eq!(lines_with_endings("a\n"), vec!["a\n"]);
    assert!(lines_with_endings("").is_empty());
}

fn cell(text: &str) -> Line {
    vec![Span {
        text: text.into(),
        style: plain_style(),
    }]
}

#[test]
fn grid_rows_have_the_same_width() {
    let rows = vec![
        vec![cell("a"), cell("long head")],
        vec![cell("wide cell"), cell("2")],
    ];
    let style: Style = plain_style();
    let widths: Vec<usize> = draw_grid(&rows, style)
        .iter()
        .map(|l| l.iter().map(|s| s.text.chars().count()).sum())
        .filter(|w| *w > 0)
        .collect();
    assert_eq!(widths.len(), 3);
    assert!(widths.windows(2).all(|w| w[0] == w[1]), "{widths:?}");
}
