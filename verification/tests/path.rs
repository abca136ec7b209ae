use breadcrumbs::path::{
    breadcrumb_path_prefixes, breadcrumb_path_segments, breadcrumb_segment_copy_path,
    resolve_breadcrumb_segment_copy_path,
};
use breadcrumbs::path_style::PathStyle;
use breadcrumbs::rel_path::RelPath;
use breadcrumbs::target::{
    AnchorRange, BreadcrumbSegmentTarget, BufferId, OutlineItem, WorktreeId,
};
use breadcrumbs::text::HighlightedText;

fn rel_path(text: &str) -> RelPath {
    RelPath::from_unix_str(text).unwrap()
}

fn sample_symbol_outline_item() -> OutlineItem {
    OutlineItem {
        depth: 0,
        range: AnchorRange { start: 7, end: 9 },
        selection_range: AnchorRange { start: 8, end: 9 },
        text: "method".to_string(),
        highlight_ranges: Vec::new(),
    }
}

fn texts(labels: &[HighlightedText]) -> Vec<&str> {
    labels.iter().map(|label| label.text.as_str()).collect()
}

#[test]
fn test_breadcrumb_segment_copy_path_per_segment_kind() {
    let directory = BreadcrumbSegmentTarget::Directory {
        worktree_id: WorktreeId(0),
        path: rel_path("src/main"),
        active_path: None,
        is_active_segment: false,
    };
    let copied = breadcrumb_segment_copy_path(PathStyle::Posix, &directory, Some("/root".to_string()), None, None);
    assert_eq!(
        copied.as_deref(),
        Some("/root/src/main"),
        "a directory segment joins the worktree root and the segment path"
    );

    let file_abs_path = Some("/root/src/main/Foo.kt".to_string());
    let file = BreadcrumbSegmentTarget::Symbol {
        buffer_id: BufferId(1),
        item: None,
        is_active_segment: false,
    };
    let copied = breadcrumb_segment_copy_path(PathStyle::Posix, &file, None, file_abs_path.clone(), None);
    assert_eq!(
        copied.as_deref(),
        Some("/root/src/main/Foo.kt"),
        "the file segment is the file's absolute path"
    );

    let symbol = BreadcrumbSegmentTarget::Symbol {
        buffer_id: BufferId(1),
        item: Some(sample_symbol_outline_item()),
        is_active_segment: false,
    };
    let copied = breadcrumb_segment_copy_path(PathStyle::Posix, &symbol, None, file_abs_path, Some(42));
    assert_eq!(
        copied,
        Some(format!("{}:42", "/root/src/main/Foo.kt")),
        "a symbol segment appends the line"
    );
}

#[test]
fn copying_yields_nothing_where_a_part_is_unknown() {
    let directory = BreadcrumbSegmentTarget::Directory {
        worktree_id: WorktreeId(0),
        path: rel_path("src"),
        active_path: None,
        is_active_segment: false,
    };
    let file = "/root/a.rs".to_string();
    assert_eq!(
        breadcrumb_segment_copy_path(PathStyle::Posix, &directory, None, Some(file.clone()), Some(1)),
        None
    );
    let symbol = BreadcrumbSegmentTarget::Symbol {
        buffer_id: BufferId(1),
        item: Some(sample_symbol_outline_item()),
        is_active_segment: false,
    };
    assert_eq!(breadcrumb_segment_copy_path(PathStyle::Posix, &symbol, None, None, Some(1)), None);
    assert_eq!(breadcrumb_segment_copy_path(PathStyle::Posix, &symbol, None, Some(file), None), None);
    let unnamed = BreadcrumbSegmentTarget::Symbol {
        buffer_id: BufferId(1),
        item: None,
        is_active_segment: false,
    };
    assert_eq!(breadcrumb_segment_copy_path(PathStyle::Posix, &unnamed, None, None, None), None);
}

#[test]
fn copied_directories_join_like_paths() {
    let cases = [
        ("/root", "src/main"),
        ("/root/", "src"),
        ("/", "src"),
        ("", "src"),
        ("/root", ""),
    ];
    for (root, path) in cases {
        let directory = BreadcrumbSegmentTarget::Directory {
            worktree_id: WorktreeId(0),
            path: rel_path(path),
            active_path: None,
            is_active_segment: false,
        };
        let copied = breadcrumb_segment_copy_path(PathStyle::Posix, &directory, Some(root.to_string()), None, None);
        let joined = std::path::PathBuf::from(root).join(path);
        assert_eq!(copied.as_deref(), joined.to_str(), "{root:?} {path:?}");
    }
}

#[test]
fn copied_directories_follow_the_platform() {
    let cases = [
        (r"C:\root", "src/main", r"C:\root\src\main"),
        (r"C:\root\", "src", r"C:\root\src"),
        ("C:/root/", "src", "C:/root/src"),
        (r"C:\root", "", r"C:\root\"),
        (r"C:\", "src", r"C:\src"),
        ("C:", "src/main", r"C:src\main"),
        ("1:", "src", r"1:\src"),
        (r"\\server\share", "src", r"\\server\share\src"),
        ("", "src/main", r"src\main"),
        (r"\\?\C:\root", "src/main", r"\\?\C:\root\src\main"),
        (r"\\?\C:\root\\a\\", "src", r"\\?\C:\root\a\src"),
        (r"\\?\C:\root/", "src", r"\\?\C:\root/\src"),
        (r"\\?\C:\root", "", r"\\?\C:\root\"),
        (r"\\?\C:", "src", r"\\?\C:\src"),
        (r"\\?\C:/root", "src", r"\\?\C:\root\src"),
        (r"\\?\pics", "src", r"\\?\pics\src"),
        (r"\\?\UNC\server\share\", "src", r"\\?\UNC\server\share\src"),
    ];
    for (root, path, expected) in cases {
        let directory = BreadcrumbSegmentTarget::Directory {
            worktree_id: WorktreeId(0),
            path: rel_path(path),
            active_path: None,
            is_active_segment: false,
        };
        let copied = breadcrumb_segment_copy_path(
            PathStyle::Windows,
            &directory,
            Some(root.to_string()),
            None,
            None,
        );
        assert_eq!(copied.as_deref(), Some(expected), "{root:?} {path:?}");
    }
    let directory = BreadcrumbSegmentTarget::Directory {
        worktree_id: WorktreeId(0),
        path: rel_path("src"),
        active_path: None,
        is_active_segment: false,
    };
    assert_eq!(
        breadcrumb_segment_copy_path(
            PathStyle::Posix,
            &directory,
            Some(r"C:\root\".to_string()),
            None,
            None,
        )
        .as_deref(),
        Some(r"C:\root\/src"),
        "a backslash is part of a name elsewhere"
    );
}

#[test]
fn a_path_reads_back_from_its_text() {
    for text in ["", "a", "a/b.rs", "é/.hidden"] {
        let path = rel_path(text);
        assert_eq!(path.as_unix_str(), text);
        assert_eq!(RelPath::from_unix_str(&path.as_unix_str()), Some(path));
    }
    assert_eq!(rel_path("a/b/c").joined_by('\\'), r"a\b\c");
}

#[test]
fn copied_lines_are_decimal() {
    for line in [0, 1, 9, 10, 42, 100, 1_000_000_007, u32::MAX] {
        let symbol = BreadcrumbSegmentTarget::Symbol {
            buffer_id: BufferId(1),
            item: Some(sample_symbol_outline_item()),
            is_active_segment: false,
        };
        assert_eq!(
            breadcrumb_segment_copy_path(PathStyle::Posix, &symbol, None, Some("a.rs".to_string()), Some(line)),
            Some(format!("a.rs:{line}"))
        );
    }
}

#[test]
fn resolving_a_copy_path_reads_only_what_the_segment_needs() {
    let directory = BreadcrumbSegmentTarget::Directory {
        worktree_id: WorktreeId(3),
        path: rel_path("src"),
        active_path: None,
        is_active_segment: false,
    };
    let copied = resolve_breadcrumb_segment_copy_path(
        PathStyle::Posix,
        &directory,
        |id| Some(format!("/worktree-{}", id.0)),
        None,
        |_| unreachable!(),
    );
    assert_eq!(copied.as_deref(), Some("/worktree-3/src"));

    let symbol = BreadcrumbSegmentTarget::Symbol {
        buffer_id: BufferId(1),
        item: Some(sample_symbol_outline_item()),
        is_active_segment: false,
    };
    let copied = resolve_breadcrumb_segment_copy_path(
        PathStyle::Posix,
        &symbol,
        |_| unreachable!(),
        Some("/root/a.rs".to_string()),
        |anchor| {
            assert_eq!(anchor, 7, "the row of a symbol is that of its start");
            Some(4)
        },
    );
    assert_eq!(copied.as_deref(), Some("/root/a.rs:5"), "lines count from one");
    let copied = resolve_breadcrumb_segment_copy_path(
        PathStyle::Posix,
        &symbol,
        |_| unreachable!(),
        Some("/root/a.rs".to_string()),
        |_| None,
    );
    assert_eq!(copied, None);
}

#[test]
fn test_breadcrumb_path_prefixes() {
    assert_eq!(
        breadcrumb_path_prefixes(&rel_path("a/b/c.rs")),
        vec![rel_path("a"), rel_path("a/b"), rel_path("a/b/c.rs")]
    );
    assert_eq!(
        breadcrumb_path_prefixes(&rel_path("file.rs")),
        vec![rel_path("file.rs")]
    );
    assert_eq!(
        breadcrumb_path_prefixes(&RelPath::empty()),
        Vec::<RelPath>::new()
    );
}

#[test]
fn test_breadcrumb_path_segments_nested() {
    let worktree_id = WorktreeId(0);
    let buffer_id = BufferId(1);
    let path = rel_path("src/main/kotlin/Foo.kt");

    let (labels, targets) = breadcrumb_path_segments(
        worktree_id,
        "my-project",
        &path,
        Some(path.clone()),
        Some(buffer_id),
        None,
        false,
    );

    assert_eq!(
        texts(&labels),
        vec!["my-project", "src", "main", "kotlin", "Foo.kt"]
    );
    assert_eq!(targets.len(), labels.len());

    match targets[0].as_ref().unwrap() {
        BreadcrumbSegmentTarget::Directory {
            worktree_id: id,
            path,
            active_path,
            is_active_segment,
        } => {
            assert_eq!(*id, worktree_id);
            assert_eq!(path.as_unix_str(), "");
            assert_eq!(
                active_path.as_ref(),
                Some(&rel_path("src/main/kotlin/Foo.kt"))
            );
            assert!(!is_active_segment);
        }
        other => panic!("expected root directory target, got {other:?}"),
    }

    for (index, expected_dir) in ["src", "src/main", "src/main/kotlin"]
        .into_iter()
        .enumerate()
    {
        match targets[index + 1].as_ref().unwrap() {
            BreadcrumbSegmentTarget::Directory { path, .. } => {
                assert_eq!(path.as_unix_str(), expected_dir);
            }
            other => panic!("expected directory target, got {other:?}"),
        }
    }

    match targets.last().unwrap().as_ref().unwrap() {
        BreadcrumbSegmentTarget::Symbol {
            buffer_id: id,
            item,
            is_active_segment,
        } => {
            assert_eq!(*id, buffer_id);
            assert!(item.is_none());
            assert!(!is_active_segment);
        }
        other => panic!("expected symbol target for the file segment, got {other:?}"),
    }
}

#[test]
fn test_breadcrumb_path_segments_top_level_file() {
    let worktree_id = WorktreeId(0);
    let buffer_id = BufferId(1);
    let path = rel_path("Foo.kt");

    let (labels, targets) = breadcrumb_path_segments(
        worktree_id,
        "my-project",
        &path,
        Some(path.clone()),
        Some(buffer_id),
        None,
        false,
    );

    assert_eq!(texts(&labels), vec!["my-project", "Foo.kt"]);
    assert!(matches!(
        targets[0].as_ref().unwrap(),
        BreadcrumbSegmentTarget::Directory { .. }
    ));
    assert!(matches!(
        targets[1].as_ref().unwrap(),
        BreadcrumbSegmentTarget::Symbol { item: None, .. }
    ));
}

#[test]
fn test_breadcrumb_path_segments_navigated_directory_marks_active_segment() {
    let worktree_id = WorktreeId(0);
    let path = rel_path("src/main");

    let (labels, targets) = breadcrumb_path_segments(
        worktree_id,
        "ihavenever",
        &path,
        None,
        None,
        Some(&rel_path("src/main")),
        false,
    );

    assert_eq!(texts(&labels), vec!["ihavenever", "src", "main"]);

    let active_flags: Vec<bool> = targets
        .iter()
        .map(|target| match target.as_ref().unwrap() {
            BreadcrumbSegmentTarget::Directory {
                is_active_segment, ..
            } => *is_active_segment,
            BreadcrumbSegmentTarget::Symbol { .. } => {
                panic!("navigated directory path should have no symbol target")
            }
        })
        .collect();
    assert_eq!(active_flags, vec![false, false, true]);
}

#[test]
fn test_breadcrumb_path_segments_drill_down_includes_root_and_lists_own_children() {
    let worktree_id = WorktreeId(0);
    let path = rel_path("src/main/Foo.kt");

    let (labels, targets) = breadcrumb_path_segments(
        worktree_id,
        "my-project",
        &path,
        Some(path.clone()),
        None,
        None,
        false,
    );

    assert_eq!(texts(&labels), vec!["my-project", "src", "main", "Foo.kt"]);

    let list_paths: Vec<String> = targets
        .iter()
        .map(|target| match target.as_ref().unwrap() {
            BreadcrumbSegmentTarget::Directory { path, .. } => path.as_unix_str().to_string(),
            BreadcrumbSegmentTarget::Symbol { .. } => "<symbol>".to_string(),
        })
        .collect();
    assert_eq!(list_paths, vec!["", "src", "src/main", "src/main/Foo.kt"]);
}

#[test]
fn the_root_segment_of_an_empty_path_is_active_for_the_root() {
    let (labels, targets) = breadcrumb_path_segments(
        WorktreeId(5),
        "root",
        &RelPath::empty(),
        None,
        Some(BufferId(1)),
        Some(&RelPath::empty()),
        true,
    );
    assert_eq!(texts(&labels), vec!["root"]);
    assert_eq!(
        targets,
        vec![Some(BreadcrumbSegmentTarget::Directory {
            worktree_id: WorktreeId(5),
            path: RelPath::empty(),
            active_path: None,
            is_active_segment: true,
        })]
    );
}

#[test]
fn paths_are_spelled_and_read_back() {
    for text in ["", "a", "a/b", "src/é/main.rs", "..."] {
        assert_eq!(rel_path(text).as_unix_str(), text);
    }
    for text in ["/", "/a", "a/", "a//b", "a/./b", "..", "a/.."] {
        assert_eq!(RelPath::from_unix_str(text), None, "{text:?}");
    }
}

#[test]
fn a_path_knows_its_name_its_parent_and_what_it_starts_with() {
    let path = rel_path("a/b/c.rs");
    assert_eq!(path.file_name().map(String::as_str), Some("c.rs"));
    assert_eq!(path.parent(), Some(rel_path("a/b")));
    assert_eq!(RelPath::empty().file_name(), None);
    assert_eq!(RelPath::empty().parent(), None);
    assert_eq!(rel_path("a").parent(), Some(RelPath::empty()));
    assert!(path.starts_with(&RelPath::empty()));
    assert!(path.starts_with(&rel_path("a/b")));
    assert!(path.starts_with(&path));
    assert!(!path.starts_with(&rel_path("a/bc")));
    assert!(!rel_path("a").starts_with(&path));
    assert!(!rel_path("ab").starts_with(&rel_path("a")));
    assert!(path.same(&path.clone()));
    assert!(!path.same(&rel_path("a/b")));
}
