use breadcrumbs::path_style::PathStyle;
use breadcrumbs::text::{
    apply_dirty_filename_style, dirty_filename_highlight_style, dirty_filename_offset,
    dirty_filename_text_style, flatten_text_for_single_line_display, FontWeight, Highlight,
    HighlightStyle, HighlightedText, StyledText, TextStyle,
};

const RED: u32 = 0xff00_00ff;

fn label(text: &str) -> HighlightedText {
    HighlightedText {
        text: text.to_string(),
        highlights: vec![],
    }
}

#[test]
fn test_flatten_text_for_single_line_display_preserves_byte_offsets() {
    // Byte-offset ranges must locate the same substring in both strings.
    let original = "fn outer() {\n    inner()\n}";
    let flattened = flatten_text_for_single_line_display(original);

    assert_eq!(flattened, "fn outer() {     inner() }");
    assert_eq!(flattened.len(), original.len());

    let inner_offset = original.find("inner").unwrap();
    assert_eq!(
        &flattened[inner_offset..inner_offset + "inner".len()],
        "inner",
    );
}

#[test]
fn flattening_leaves_wide_characters_alone() {
    assert_eq!(flatten_text_for_single_line_display("é\n⋯\n𝄞"), "é ⋯ 𝄞");
    assert_eq!(flatten_text_for_single_line_display(""), "");
}

#[test]
fn test_dirty_filename_styles_only_change_font_weight() {
    let base = TextStyle {
        color: RED,
        font_weight: FontWeight::Normal,
        rest: 7,
    };

    let dirty = dirty_filename_text_style(&base);
    assert_eq!(dirty.color, base.color, "the git status color must survive");
    assert_eq!(dirty.font_weight, FontWeight::Bold);
    assert_eq!(dirty.rest, base.rest);

    let highlight = dirty_filename_highlight_style();
    assert_eq!(
        highlight.color, None,
        "color must fall through to the base run's"
    );
    assert_eq!(highlight.font_weight, Some(FontWeight::Bold));
}

#[test]
fn the_file_name_starts_behind_the_last_separator_that_leads_to_a_name() {
    let cases = [
        ("main.rs", Some(0)),
        ("src/main.rs", Some(4)),
        ("src/é/main.rs", Some(7)),
        ("main/main", Some(5)),
        ("src/main/", Some(4)),
        ("src/main/.//.", Some(4)),
        ("/main", Some(1)),
        (".../.", Some(0)),
        ("src/.hidden", Some(4)),
        ("", None),
        ("/", None),
        (".", None),
        ("./", None),
        ("..", None),
        ("src/..", None),
        ("src/../", None),
    ];
    for (text, offset) in cases {
        assert_eq!(dirty_filename_offset(PathStyle::Posix, &label(text)), offset, "{text:?}");
        let by_std = std::path::Path::new(text)
            .file_name()
            .and_then(|name| text.rfind(name.to_str().unwrap()));
        assert_eq!(by_std, offset, "{text:?}");
    }
}

#[test]
fn the_file_name_follows_the_platform() {
    let cases = [
        (r"src\main.rs", Some(4), Some(0)),
        (r"src/lib\main.rs", Some(8), Some(4)),
        (r"C:\src\main.rs", Some(7), Some(0)),
        ("C:main.rs", Some(2), Some(0)),
        (r"src\main\.\", Some(4), Some(0)),
        (r"\\server\share\main.rs", Some(15), Some(0)),
        (r"\\server\share\", None, Some(0)),
        (r"\\server", Some(2), Some(0)),
        ("//server/share", None, Some(9)),
        (r"C:\", None, Some(0)),
        (r"\\?\C:\a/b", Some(7), Some(9)),
        (r"\\?\C:\src\main.rs", Some(11), Some(0)),
        (r"\\?\C:\src\\", Some(7), Some(0)),
        (r"\\?\C:\src\.", None, Some(0)),
        (r"\\?\C:\src\..", None, Some(0)),
        (r"\\?\C:\src\...", Some(11), Some(0)),
        (r"\\?\C:", None, Some(0)),
        (r"\\?\C:/a", Some(7), Some(7)),
        (r"\\?\pics", None, Some(0)),
        (r"\\?\pics\a.png", Some(9), Some(0)),
        (r"\\?\UNC\server\share", None, Some(0)),
        (r"\\?\UNC\server\share\a", Some(21), Some(0)),
        (r"\\.\COM42", None, Some(0)),
        (r"//?/C:/a/b", Some(9), Some(9)),
        ("C:", None, Some(0)),
        (r"src\..", None, Some(0)),
        ("src/main.rs", Some(4), Some(4)),
    ];
    for (text, windows, posix) in cases {
        let label = label(text);
        assert_eq!(dirty_filename_offset(PathStyle::Windows, &label), windows, "{text:?}");
        assert_eq!(dirty_filename_offset(PathStyle::Posix, &label), posix, "{text:?}");
    }
}

#[test]
fn a_dirty_file_name_is_bold() {
    let base = TextStyle {
        color: RED,
        font_weight: FontWeight::Normal,
        rest: 0,
    };
    assert_eq!(
        apply_dirty_filename_style(PathStyle::Posix, &label("main.rs"), &base),
        Some(StyledText {
            text: "main.rs".to_string(),
            style: TextStyle {
                font_weight: FontWeight::Bold,
                ..base
            },
            highlights: vec![],
        })
    );
    assert_eq!(
        apply_dirty_filename_style(PathStyle::Posix, &label("src/main.rs"), &base),
        Some(StyledText {
            text: "src/main.rs".to_string(),
            style: base,
            highlights: vec![Highlight {
                start: 4,
                end: 11,
                style: HighlightStyle {
                    font_weight: Some(FontWeight::Bold),
                    ..HighlightStyle::default()
                },
            }],
        })
    );
    assert_eq!(apply_dirty_filename_style(PathStyle::Posix, &label("src/.."), &base), None);
}
