//! The path part of the bar: its segments, and what copying one of them yields.

use vstd::prelude::*;

use crate::path_style::{PathStyle, Separators};
use crate::rel_path::{joined, led, lemma_led_concat, RelPath};
use crate::target::{
    clone_optional_path, BreadcrumbSegmentTarget, BufferId, SegmentTargetView, WorktreeId,
};
use crate::text::{bare_text, HighlightedText, HighlightedTextView};

verus! {

/// The ancestor prefixes of a path, root first and without the root itself.
pub open spec fn path_prefixes(path: Seq<Seq<char>>) -> Seq<Seq<Seq<char>>> {
    Seq::new(path.len(), |i: int| path.take(i + 1))
}

/// Splits `path` into ancestor prefixes, root first: `a/b/c.rs` becomes `[a, a/b, a/b/c.rs]`.
pub fn breadcrumb_path_prefixes(path: &RelPath) -> (prefixes: Vec<RelPath>)
    ensures
        prefixes.deep_view() == path_prefixes(path@),
{
    let mut prefixes: Vec<RelPath> = Vec::new();
    let depth: usize = path.depth();
    let mut index: usize = 0;
    while index < depth
        invariant
            index <= depth == path@.len(),
            prefixes@.len() == index,
            forall|i: int|
                0 <= i < index ==> (#[trigger] prefixes@[i])@ == path@.take(i + 1),
        decreases depth - index,
    {
        prefixes.push(path.prefix(index + 1));
        index = index + 1;
    }
    assert(prefixes.deep_view() =~= path_prefixes(path@));
    prefixes
}

/// The labels of a path: the name of the worktree's root, and then each name along the path.
pub open spec fn path_labels(root_name: Seq<char>, path: Seq<Seq<char>>) -> Seq<
    HighlightedTextView,
> {
    Seq::new(
        path.len() + 1,
        |i: int|
            bare_text(
                if i == 0 {
                    root_name
                } else {
                    path[i - 1]
                },
            ),
    )
}

/// What a path's segments stand for and which of them is active.
pub struct PathContext {
    pub worktree_id: WorktreeId,
    /// The file that the bar belongs to.
    pub active_path: Option<Seq<Seq<char>>>,
    /// The buffer that the last name stands for, where the path leads to a file.
    pub terminal_buffer_id: Option<BufferId>,
    /// The directory that a dropdown is open under.
    pub active_segment: Option<Seq<Seq<char>>>,
    /// A dropdown is open under the file.
    pub file_segment_active: bool,
}

impl PathContext {
    /// What the segment of the first `depth` names stands for.
    pub open spec fn target(self, path: Seq<Seq<char>>, depth: int) -> SegmentTargetView {
        if 0 < depth == path.len() && self.terminal_buffer_id is Some {
            SegmentTargetView::Symbol {
                buffer_id: self.terminal_buffer_id->0,
                item: None,
                is_active_segment: self.file_segment_active,
            }
        } else {
            SegmentTargetView::Directory {
                worktree_id: self.worktree_id,
                path: path.take(depth),
                active_path: self.active_path,
                is_active_segment: self.active_segment == Some(path.take(depth)),
            }
        }
    }

    /// What the segments of a path stand for, root first.
    pub open spec fn targets(self, path: Seq<Seq<char>>) -> Seq<Option<SegmentTargetView>> {
        Seq::new(path.len() + 1, |depth: int| Some(self.target(path, depth)))
    }
}

/// A path of the bar as labels and dropdowns, the worktree's root first.
pub fn breadcrumb_path_segments(
    worktree_id: WorktreeId,
    root_name: &str,
    path: &RelPath,
    active_path: Option<RelPath>,
    terminal_buffer_id: Option<BufferId>,
    active_segment: Option<&RelPath>,
    file_segment_active: bool,
) -> (segments: (Vec<HighlightedText>, Vec<Option<BreadcrumbSegmentTarget>>))
    ensures
        segments.0.deep_view() == path_labels(root_name@, path@),
        segments.1.deep_view() == (PathContext {
            worktree_id,
            active_path: active_path.deep_view(),
            terminal_buffer_id,
            active_segment: active_segment.deep_view(),
            file_segment_active,
        }).targets(path@),
{
    let ghost context = PathContext {
        worktree_id,
        active_path: active_path.deep_view(),
        terminal_buffer_id,
        active_segment: active_segment.deep_view(),
        file_segment_active,
    };
    let mut labels: Vec<HighlightedText> = Vec::new();
    labels.push(HighlightedText::bare(root_name.to_string()));
    let root: RelPath = RelPath::empty();
    let root_active: bool = match active_segment {
        Some(active) => active.same(&root),
        None => false,
    };
    let mut targets: Vec<Option<BreadcrumbSegmentTarget>> = Vec::new();
    assert(path@.take(0) =~= Seq::<Seq<char>>::empty());
    targets.push(
        Some(
            BreadcrumbSegmentTarget::Directory {
                worktree_id,
                path: root,
                active_path: clone_optional_path(&active_path),
                is_active_segment: root_active,
            },
        ),
    );
    let prefixes: Vec<RelPath> = breadcrumb_path_prefixes(path);
    let mut index: usize = 0;
    while index < prefixes.len()
        invariant
            index <= prefixes@.len(),
            prefixes.deep_view() == path_prefixes(path@),
            labels@.len() == index + 1,
            targets@.len() == index + 1,
            context == (PathContext {
                worktree_id,
                active_path: active_path.deep_view(),
                terminal_buffer_id,
                active_segment: active_segment.deep_view(),
                file_segment_active,
            }),
            forall|i: int|
                0 <= i <= index ==> (#[trigger] labels@[i])@ == path_labels(root_name@, path@)[i],
            forall|i: int|
                0 <= i <= index ==> (#[trigger] targets@[i]).deep_view() == Some(
                    context.target(path@, i),
                ),
        decreases prefixes@.len() - index,
    {
        let prefix: &RelPath = &prefixes[index];
        assert(prefixes.deep_view().len() == path@.len());
        assert(prefix@ == prefixes.deep_view()[index as int]);
        assert(prefix@.last() == path@[index as int]);
        let name: String = match prefix.file_name() {
            Some(name) => name.clone(),
            None => prefix.as_unix_str(),
        };
        labels.push(HighlightedText::bare(name));
        let last: bool = index == prefixes.len() - 1;
        let target: BreadcrumbSegmentTarget = match terminal_buffer_id {
            Some(buffer_id) if last => BreadcrumbSegmentTarget::Symbol {
                buffer_id,
                item: None,
                is_active_segment: file_segment_active,
            },
            _ => BreadcrumbSegmentTarget::Directory {
                worktree_id,
                path: prefix.clone(),
                active_path: clone_optional_path(&active_path),
                is_active_segment: match active_segment {
                    Some(active) => active.same(prefix),
                    None => false,
                },
            },
        };
        targets.push(Some(target));
        index = index + 1;
    }
    assert(prefixes.deep_view().len() == path@.len());
    assert(labels.deep_view() =~= path_labels(root_name@, path@));
    assert(targets.deep_view() =~= context.targets(path@));
    (labels, targets)
}

/// The digit of a number below ten.
pub open spec fn digit(value: int) -> char {
    seq!['0', '1', '2', '3', '4', '5', '6', '7', '8', '9'][value]
}

/// A number in decimal, without leading zeros.
pub open spec fn decimal(value: nat) -> Seq<char>
    decreases value,
{
    if value < 10 {
        seq![digit(value as int)]
    } else {
        decimal(value / 10).push(digit(value as int % 10))
    }
}

fn digit_char(value: u32) -> (ch: char)
    requires
        value < 10,
    ensures
        ch == digit(value as int),
{
    match value {
        0 => '0',
        1 => '1',
        2 => '2',
        3 => '3',
        4 => '4',
        5 => '5',
        6 => '6',
        7 => '7',
        8 => '8',
        _ => '9',
    }
}

/// Appends `value` in decimal.
fn push_decimal(text: &mut String, value: u32)
    ensures
        final(text)@ == old(text)@ + decimal(value as nat),
    decreases value,
{
    let ghost before = text@;
    if value >= 10 {
        push_decimal(text, value / 10);
    }
    text.push(digit_char(value % 10));
    assert(text@ =~= before + decimal(value as nat));
}

/// A separator goes between the path of a worktree and what lies under it: there is none yet, and a
/// path without one does not mean something else, as it does behind a bare drive.
pub open spec fn needs_separator(style: PathStyle, root: Seq<char>) -> bool {
    root.len() > 0 && !style.is_separator(root.last()) && !(style.has_drive(root, 0) && root.len()
        == 2)
}

/// The stretches that hold something.
pub open spec fn non_empty(parts: Seq<Seq<char>>) -> Seq<Seq<char>>
    decreases parts.len(),
{
    if parts.len() == 0 {
        parts
    } else if parts.last().len() == 0 {
        non_empty(parts.drop_last())
    } else {
        non_empty(parts.drop_last()).push(parts.last())
    }
}

/// The names along the path of a worktree that is taken as it is spelled.
pub open spec fn verbatim_names(style: PathStyle, root: Seq<char>) -> Seq<Seq<char>> {
    non_empty(Separators::Backslash.split(root.skip(style.names_start(root))))
}

/// The path of a directory under the one at `root`. A root that is taken as it is spelled is put
/// together anew, with one separator between each two names.
pub open spec fn under_root(style: PathStyle, root: Seq<char>, path: Seq<Seq<char>>) -> Seq<char> {
    if style.is_verbatim(root) && path.len() > 0 {
        root.take(style.prefix_length(root)) + led('\\', verbatim_names(style, root) + path)
    } else if needs_separator(style, root) {
        root + seq![style.main_separator()] + joined(style.main_separator(), path)
    } else {
        root + joined(style.main_separator(), path)
    }
}

/// What copying a segment yields: a directory's absolute path, the file's, or the file's with the
/// symbol's line. Nothing where a part of it is unknown.
pub open spec fn copy_path(
    style: PathStyle,
    target: SegmentTargetView,
    worktree_abs_path: Option<Seq<char>>,
    file_abs_path: Option<Seq<char>>,
    symbol_line: Option<u32>,
) -> Option<Seq<char>> {
    match target {
        SegmentTargetView::Directory { path, .. } => match worktree_abs_path {
            Some(root) => Some(under_root(style, root, path)),
            None => None,
        },
        SegmentTargetView::Symbol { item: None, .. } => file_abs_path,
        SegmentTargetView::Symbol { item: Some(_), .. } => match (file_abs_path, symbol_line) {
            (Some(file), Some(line)) => Some(file + seq![':'] + decimal(line as nat)),
            _ => None,
        },
    }
}

/// Appends the names between the backslashes of `names`, each with a backslash before it.
fn append_verbatim_names(text: &mut String, names: &str)
    ensures
        final(text)@ == old(text)@ + led('\\', non_empty(Separators::Backslash.split(names@))),
{
    let ghost before = text@;
    let ghost separators = Separators::Backslash;
    let mut current: String = String::new();
    assert(separators.split(names@.take(0)).drop_last() =~= Seq::<Seq<char>>::empty());
    assert(before + led('\\', Seq::<Seq<char>>::empty()) =~= before);
    for ch in chars: names.chars()
        invariant
            chars.seq() == names@,
            separators == Separators::Backslash,
            ({
                let parts = separators.split(names@.take(chars.index() as int));
                &&& parts.len() > 0
                &&& current@ == parts.last()
                &&& text@ == before + led('\\', non_empty(parts.drop_last()))
            }),
    {
        let ghost parts = separators.split(names@.take(chars.index() as int));
        let ghost written = text@;
        proof {
            let read = names@.take(chars.index() + 1);
            assert(read.drop_last() =~= names@.take(chars.index() as int));
            assert(read.last() == ch);
        }
        if ch == '\\' {
            append_name(text, &current);
            current = String::new();
            proof {
                let now = separators.split(names@.take(chars.index() + 1));
                assert(now.drop_last() =~= parts);
                lemma_led_non_empty(before, parts);
            }
        } else {
            current.push(ch);
            proof {
                let now = separators.split(names@.take(chars.index() + 1));
                assert(now.drop_last() =~= parts.drop_last());
            }
        }
    }
    assert(names@.take(names@.len() as int) =~= names@);
    append_name(text, &current);
    proof {
        lemma_led_non_empty(before, separators.split(names@));
    }
}

/// Appends a name with a backslash before it, where there is one.
fn append_name(text: &mut String, name: &String)
    ensures
        final(text)@ == if name@.len() == 0 {
            old(text)@
        } else {
            old(text)@ + seq!['\\'] + name@
        },
{
    if !name.as_str().is_empty() {
        text.push('\\');
        text.append(name.as_str());
        assert(text@ =~= old(text)@ + seq!['\\'] + name@);
    }
}

proof fn lemma_led_non_empty(before: Seq<char>, parts: Seq<Seq<char>>)
    requires
        parts.len() > 0,
    ensures
        before + led('\\', non_empty(parts)) == if parts.last().len() == 0 {
            before + led('\\', non_empty(parts.drop_last()))
        } else {
            before + led('\\', non_empty(parts.drop_last())) + seq!['\\'] + parts.last()
        },
{
    if parts.last().len() > 0 {
        let shorter = non_empty(parts.drop_last());
        assert(non_empty(parts).drop_last() =~= shorter);
        assert(before + led('\\', non_empty(parts)) =~= before + led('\\', shorter) + seq!['\\']
            + parts.last());
    }
}

/// Joins a directory's path onto the path of its worktree.
fn join_under_root(style: PathStyle, root: String, path: &RelPath) -> (text: String)
    ensures
        text@ == under_root(style, root@, path@),
{
    let length: usize = root.as_str().unicode_len();
    if !path.is_empty() && style.starts_verbatim(root.as_str()) {
        let prefix: usize = style.find_prefix(root.as_str());
        let start: usize = style.find_names(root.as_str());
        let mut text: String = root.as_str().substring_char(0, prefix).to_string();
        let names: &str = root.as_str().substring_char(start, length);
        append_verbatim_names(&mut text, names);
        path.append_led('\\', &mut text);
        proof {
            assert(root@.subrange(0, prefix as int) =~= root@.take(prefix as int));
            assert(root@.subrange(start as int, length as int) =~= root@.skip(start as int));
            lemma_led_concat('\\', verbatim_names(style, root@), path@);
            assert(text@ =~= under_root(style, root@, path@));
        }
        return text;
    }
    let mut text: String = root;
    if length > 0 {
        let bare_drive: bool = length == 2 && style.check_drive(text.as_str(), 0);
        if !bare_drive && !style.is_separator(text.as_str().get_char(length - 1)) {
            text.push(style.main_separator());
        }
    }
    let names: String = path.joined_by(style.main_separator());
    text.append(names.as_str());
    assert(text@ =~= under_root(style, root@, path@));
    text
}

/// What copying a segment yields, where paths are spelled as `style` says.
pub fn breadcrumb_segment_copy_path(
    style: PathStyle,
    target: &BreadcrumbSegmentTarget,
    worktree_abs_path: Option<String>,
    file_abs_path: Option<String>,
    symbol_line: Option<u32>,
) -> (copied: Option<String>)
    ensures
        copied.deep_view() == copy_path(
            style,
            target@,
            worktree_abs_path.deep_view(),
            file_abs_path.deep_view(),
            symbol_line,
        ),
{
    match target {
        BreadcrumbSegmentTarget::Directory { path, .. } => match worktree_abs_path {
            Some(root) => Some(join_under_root(style, root, path)),
            None => None,
        },
        BreadcrumbSegmentTarget::Symbol { item, .. } => match item {
            None => file_abs_path,
            Some(_) => match (file_abs_path, symbol_line) {
                (Some(file), Some(line)) => {
                    let mut text: String = file;
                    text.push(':');
                    push_decimal(&mut text, line);
                    assert(text@ =~= file@ + seq![':'] + decimal(line as nat));
                    Some(text)
                },
                _ => None,
            },
        },
    }
}

/// What copying a segment yields, given how to find the worktree's absolute path and the row of a
/// symbol in its own buffer: expanded diff hunks shift the rows of a multibuffer.
pub fn resolve_breadcrumb_segment_copy_path<
    W: Fn(WorktreeId) -> Option<String>,
    R: Fn(u64) -> Option<u32>,
>(
    style: PathStyle,
    target: &BreadcrumbSegmentTarget,
    worktree_abs_path: W,
    file_abs_path: Option<String>,
    symbol_row: R,
) -> (copied: Option<String>)
    requires
        forall|worktree_id: WorktreeId| #[trigger] call_requires(worktree_abs_path, (worktree_id,)),
        forall|anchor: u64| #[trigger] call_requires(symbol_row, (anchor,)),
        forall|anchor: u64, row: u32| #[trigger]
            call_ensures(symbol_row, (anchor,), Some(row)) ==> row < u32::MAX,
    ensures
        match *target {
            BreadcrumbSegmentTarget::Directory { worktree_id, .. } => exists|root: Option<String>|
                #[trigger]
                call_ensures(worktree_abs_path, (worktree_id,), root) && copied.deep_view()
                    == copy_path(style, target@, root.deep_view(), file_abs_path.deep_view(), None),
            BreadcrumbSegmentTarget::Symbol { item: None, .. } => copied.deep_view()
                == file_abs_path.deep_view(),
            BreadcrumbSegmentTarget::Symbol { item: Some(item), .. } => exists|row: Option<u32>|
                #[trigger]
                call_ensures(symbol_row, (item.range.start,), row) && copied.deep_view()
                    == copy_path(
                    style,
                    target@,
                    None,
                    file_abs_path.deep_view(),
                    line_of_row(row),
                ),
        },
{
    match target {
        BreadcrumbSegmentTarget::Directory { worktree_id, .. } => {
            let root: Option<String> = worktree_abs_path(*worktree_id);
            breadcrumb_segment_copy_path(style, target, root, file_abs_path, None)
        },
        BreadcrumbSegmentTarget::Symbol { item, .. } => match item {
            None => breadcrumb_segment_copy_path(style, target, None, file_abs_path, None),
            Some(item) => {
                let row: Option<u32> = symbol_row(item.range.start);
                let line: Option<u32> = match row {
                    Some(row) => Some(row + 1),
                    None => None,
                };
                assert(line == line_of_row(row));
                breadcrumb_segment_copy_path(style, target, None, file_abs_path, line)
            },
        },
    }
}

/// Lines count from one, rows from zero.
pub open spec fn line_of_row(row: Option<u32>) -> Option<u32> {
    match row {
        Some(row) => Some((row + 1) as u32),
        None => None,
    }
}

/// A path has one label and one dropdown for each name along it and one for the worktree's root.
/// Each directory's dropdown lists that directory itself, and at most one of them is open.
pub proof fn law_path_labels_and_targets_line_up(
    context: PathContext,
    root_name: Seq<char>,
    path: Seq<Seq<char>>,
    i: int,
    j: int,
)
    requires
        0 <= i <= path.len(),
        0 <= j <= path.len(),
    ensures
        path_labels(root_name, path).len() == path.len() + 1,
        context.targets(path).len() == path.len() + 1,
        path_labels(root_name, path)[i].text == if i == 0 {
            root_name
        } else {
            path[i - 1]
        },
        context.target(path, i) is Symbol <==> context.terminal_buffer_id is Some && i == path.len()
            && path.len() > 0,
        context.target(path, i) is Directory ==> context.target(path, i)->path == path.take(i),
        context.target(path, i) is Directory && context.target(path, j) is Directory
            && context.target(path, i).is_active() && context.target(path, j).is_active() ==> i
            == j,
{
    assert(path.take(i).len() == i);
    assert(path.take(j).len() == j);
}

/// The prefixes of a path grow by one name each, up to the whole path.
pub proof fn law_prefixes_grow_to_the_path(path: Seq<Seq<char>>, i: int)
    requires
        0 <= i < path.len(),
    ensures
        path_prefixes(path).len() == path.len(),
        path_prefixes(path)[i].len() == i + 1,
        path_prefixes(path)[i].is_prefix_of(path),
        path_prefixes(path)[i].last() == path[i],
        path_prefixes(path).last() == path,
{
    assert(path.take(path.len() as int) =~= path);
    assert(path.take(i + 1) =~= path.subrange(0, i + 1));
}

/// The number that decimal digits spell.
pub open spec fn decimal_value(digits: Seq<char>) -> int
    decreases digits.len(),
{
    if digits.len() == 0 {
        0
    } else {
        10 * decimal_value(digits.drop_last()) + (digits.last() as int - '0' as int)
    }
}

/// A number's digits spell that number, and the first of them is no zero unless it is the only
/// one.
pub proof fn law_decimal_spells_the_number(value: nat)
    ensures
        decimal_value(decimal(value)) == value,
        decimal(value).len() > 0,
        value > 0 ==> decimal(value)[0] != '0',
    decreases value,
{
    let digits = decimal(value);
    let last = value as int % 10;
    assert(digit(last) as int - '0' as int == last);
    if value < 10 {
        assert(digits.drop_last() =~= Seq::<char>::empty());
        assert(decimal_value(Seq::<char>::empty()) == 0);
    } else {
        law_decimal_spells_the_number(value / 10);
        assert(digits.drop_last() =~= decimal(value / 10));
        assert(digits[0] == decimal(value / 10)[0]);
    }
}

} // verus!
