use syntect::highlighting::ThemeSet;
use syntect::parsing::SyntaxSet;

use unsegen_pager::HighlightEngine;
use unsegen_pager::LineIndex;
use unsegen_pager::NoDecorator;
use unsegen_pager::Pager;
use unsegen_pager::PagerContent;
use unsegen_pager::StyleMod;
use unsegen_pager::SyntectHighlighter;

fn rust_lines() -> Vec<String> {
    vec![
        "fn main() {".to_string(),
        "    let answer = 42; // a comment".to_string(),
        "}".to_string(),
        "".to_string(),
    ]
}

#[test]
fn syntect_produces_one_entry_per_line_with_offsets_in_bounds() {
    let syntax_set = SyntaxSet::load_defaults_nonewlines();
    let theme_set = ThemeSet::load_defaults();
    let theme = &theme_set.themes["base16-ocean.dark"];
    let highlighter = SyntectHighlighter::new(&syntax_set, "rs", theme).unwrap();

    let lines = rust_lines();
    let content = PagerContent::from_lines(lines.clone()).with_highlighter(&highlighter);
    let mut p: Pager<String, NoDecorator<String>> = Pager::new();
    p.load(content);
    let c = p.content().unwrap();
    for (i, line) in lines.iter().enumerate() {
        let info = c.highlight_changes(LineIndex::new(i));
        let mut prev = 0usize;
        for (offset, _style) in info.iter() {
            assert!(*offset >= prev);
            assert!(*offset <= line.len());
            prev = *offset;
        }
    }
}

#[test]
fn syntect_actually_colors_rust_source() {
    let syntax_set = SyntaxSet::load_defaults_nonewlines();
    let theme_set = ThemeSet::load_defaults();
    let theme = &theme_set.themes["base16-ocean.dark"];
    let highlighter = SyntectHighlighter::new(&syntax_set, "rs", theme).unwrap();

    let info = highlighter.highlight(&vec!["fn main() {}", ""]);
    assert_eq!(info.style_changes.len(), 2);
    // the keyword line is split into several styled runs, each with a color
    let first = &info.style_changes[0];
    assert!(first.len() > 1);
    for (_, style) in first.iter() {
        assert!(style.fg.is_some());
        assert!(style.bg.is_some());
    }
    // the theme supplies a default style with real colors
    assert_ne!(info.default_style, StyleMod::new());
    assert!(info.default_style.fg.is_some());
    assert!(info.default_style.bg.is_some());
}

#[test]
fn highlighting_an_empty_store_yields_no_entries() {
    let syntax_set = SyntaxSet::load_defaults_nonewlines();
    let theme_set = ThemeSet::load_defaults();
    let theme = &theme_set.themes["base16-ocean.dark"];
    let highlighter = SyntectHighlighter::new(&syntax_set, "txt", theme).unwrap();
    let info = highlighter.highlight(&Vec::new());
    assert_eq!(info.style_changes.len(), 0);
}

#[test]
fn unknown_extension_yields_no_highlighter() {
    let syntax_set = SyntaxSet::load_defaults_nonewlines();
    let theme_set = ThemeSet::load_defaults();
    let theme = &theme_set.themes["base16-ocean.dark"];
    assert!(SyntectHighlighter::new(&syntax_set, "no-such-extension", theme).is_none());
}
