//! What copying a segment's path gives, told from the segment, the root of its worktree and its
//! file.

use vstd::prelude::*;

use crate::path::{
    copy_path, decimal, decimal_value, digit, law_decimal_spells_the_number, line_of_row,
    needs_separator, non_empty, under_root, verbatim_names,
};
use crate::path_style::{lemma_names_start, lemma_split_parts, PathStyle, Separators};
use crate::rel_path::{joined, led, lemma_led_concat};
use crate::target::SegmentTargetView;

verus! {

/// One more name goes behind a separator, and the first behind none.
pub proof fn law_one_more_name_is_joined_behind_a_separator(
    separator: char,
    names: Seq<Seq<char>>,
    name: Seq<char>,
)
    ensures
        joined(separator, Seq::empty()) == Seq::<char>::empty(),
        joined(separator, seq![name]) == name,
        names.len() > 0 ==> joined(separator, names.push(name)) == joined(separator, names).push(
            separator,
        ) + name,
        led(separator, Seq::empty()) == Seq::<char>::empty(),
        led(separator, names.push(name)) == led(separator, names).push(separator) + name,
{
    assert(names.push(name).drop_last() =~= names);
    if names.len() > 0 {
        assert(joined(separator, names.push(name)) =~= joined(separator, names).push(separator)
            + name);
    }
    assert(led(separator, names.push(name)) =~= led(separator, names).push(separator) + name);
}

/// Text without a separator extends the last stretch.
pub proof fn lemma_split_extended(separators: Separators, base: Seq<char>, name: Seq<char>)
    requires
        separators.avoided_by(name),
    ensures
        separators.split(base).len() > 0,
        separators.split(base + name) == separators.split(base).drop_last().push(
            separators.split(base).last() + name,
        ),
    decreases name.len(),
{
    let parts = separators.split(base);
    lemma_split_parts(separators, base);
    if name.len() == 0 {
        assert(base + name =~= base);
        assert(parts.last() + name =~= parts.last());
        assert(parts =~= parts.drop_last().push(parts.last()));
    } else {
        let shorter = name.drop_last();
        lemma_split_extended(separators, base, shorter);
        assert((base + name).drop_last() =~= base + shorter);
        assert(!separators.contains(name[name.len() - 1]));
        assert((parts.last() + shorter).push(name.last()) =~= parts.last() + name);
        assert(separators.split(base + name) =~= parts.drop_last().push(parts.last() + name));
    }
}

/// Names behind separators are stretches of their own.
pub proof fn lemma_split_behind_separator(
    separators: Separators,
    base: Seq<char>,
    separator: char,
    names: Seq<Seq<char>>,
)
    requires
        separators.contains(separator),
        forall|i: int| 0 <= i < names.len() ==> separators.avoided_by(#[trigger] names[i]),
    ensures
        separators.split(base + led(separator, names)) == separators.split(base) + names,
    decreases names.len(),
{
    if names.len() == 0 {
        assert(base + led(separator, names) =~= base);
        assert(separators.split(base) + names =~= separators.split(base));
    } else {
        let shorter = names.drop_last();
        lemma_split_behind_separator(separators, base, separator, shorter);
        let front = base + led(separator, shorter) + seq![separator];
        assert(front.drop_last() =~= base + led(separator, shorter));
        assert(separators.split(front) =~= (separators.split(base) + shorter).push(Seq::empty()));
        assert(separators.avoided_by(names[names.len() - 1]));
        lemma_split_extended(separators, front, names.last());
        assert(base + led(separator, names) =~= front + names.last());
        assert(Seq::<char>::empty() + names.last() =~= names.last());
        assert(separators.split(base + led(separator, names)) =~= separators.split(base) + names);
    }
}

proof fn lemma_led_is_joined(separator: char, names: Seq<Seq<char>>)
    requires
        names.len() > 0,
    ensures
        led(separator, names) == seq![separator] + joined(separator, names),
    decreases names.len(),
{
    if names.len() == 1 {
        assert(led(separator, names.drop_last()) =~= Seq::empty());
        assert(names.last() == names[0]);
        assert(led(separator, names) =~= seq![separator] + joined(separator, names));
    } else {
        lemma_led_is_joined(separator, names.drop_last());
        assert(led(separator, names) =~= seq![separator] + joined(separator, names));
    }
}

/// Names without a separator come back from what they are joined to.
pub proof fn law_joined_names_split_again(
    separators: Separators,
    separator: char,
    names: Seq<Seq<char>>,
)
    requires
        separators.contains(separator),
        names.len() > 0,
        forall|i: int| 0 <= i < names.len() ==> separators.avoided_by(#[trigger] names[i]),
    ensures
        separators.split(joined(separator, names)) == names,
    decreases names.len(),
{
    if names.len() == 1 {
        assert(separators.avoided_by(names[0]));
        lemma_split_extended(separators, Seq::empty(), names[0]);
        assert(Seq::<char>::empty() + names[0] =~= names[0]);
        assert(separators.split(Seq::<char>::empty()) =~= seq![Seq::empty()]);
        assert(separators.split(joined(separator, names)) =~= names);
    } else {
        let first = names[0];
        let others = names.skip(1);
        assert(separators.avoided_by(names[0]));
        assert forall|i: int| 0 <= i < others.len() implies separators.avoided_by(
            #[trigger] others[i],
        ) by {
            assert(separators.avoided_by(names[i + 1]));
        }
        lemma_split_behind_separator(separators, first, separator, others);
        lemma_split_extended(separators, Seq::empty(), first);
        assert(Seq::<char>::empty() + first =~= first);
        assert(separators.split(Seq::<char>::empty()) =~= seq![Seq::empty()]);
        assert(separators.split(first) =~= seq![first]);
        lemma_led_is_joined(separator, names);
        lemma_led_concat(separator, seq![first], others);
        assert(seq![first] + others =~= names);
        assert(seq![first].drop_last() =~= Seq::empty());
        assert(led(separator, Seq::<Seq<char>>::empty()) =~= Seq::empty());
        assert(led(separator, seq![first]) =~= seq![separator] + first);
        assert(seq![separator] + joined(separator, names) =~= seq![separator] + (first + led(
            separator,
            others,
        )));
        assert(joined(separator, names) =~= (seq![separator] + joined(separator, names)).skip(1));
        assert(first + led(separator, others) =~= (seq![separator] + (first + led(
            separator,
            others,
        ))).skip(1));
        assert(separators.split(joined(separator, names)) =~= names);
    }
}

/// What a text splits into, joined again, is the text; and none of it holds a separator.
pub proof fn law_a_split_text_joins_again(separators: Separators, separator: char, text: Seq<char>)
    requires
        separators.contains(separator),
        forall|ch: char| #[trigger] separators.contains(ch) ==> ch == separator,
    ensures
        joined(separator, separators.split(text)) == text,
        forall|i: int, at: int|
            0 <= i < separators.split(text).len() && 0 <= at < separators.split(text)[i].len()
                ==> #[trigger] separators.split(text)[i][at] != separator,
    decreases text.len(),
{
    lemma_split_parts(separators, text);
    assert forall|i: int, at: int|
        0 <= i < separators.split(text).len() && 0 <= at < separators.split(text)[i].len() implies
        #[trigger] separators.split(text)[i][at] != separator by {
        assert(separators.avoided_by(separators.split(text)[i]));
    }
    if text.len() > 0 {
        let shorter = text.drop_last();
        let parts = separators.split(shorter);
        law_a_split_text_joins_again(separators, separator, shorter);
        lemma_split_parts(separators, shorter);
        assert(text =~= shorter.push(text.last()));
        if separators.contains(text.last()) {
            assert(separators.split(text).drop_last() =~= parts);
            assert(joined(separator, separators.split(text)) =~= joined(separator, parts) + seq![
                separator,
            ] + Seq::<char>::empty());
        } else {
            assert(separators.split(text).drop_last() =~= parts.drop_last());
            assert(joined(separator, separators.split(text)) =~= joined(separator, parts).push(
                text.last(),
            ));
        }
    }
}

/// Copying a directory with slashes gives the root and then the whole path, name by name: behind a
/// slash where the root does not end with one. The root itself gets that slash too.
pub proof fn law_a_directory_is_copied_whole(
    target: SegmentTargetView,
    root: Seq<char>,
    file_abs_path: Option<Seq<char>>,
    symbol_line: Option<u32>,
)
    requires
        target is Directory,
        forall|i: int|
            0 <= i < target->path.len() ==> !(#[trigger] target->path[i]).contains('/'),
    ensures
        ({
            let path = target->path;
            let copied = copy_path(
                PathStyle::Posix,
                target,
                Some(root),
                file_abs_path,
                symbol_line,
            );
            let text = copied->0;
            let start = if root.len() > 0 && root[root.len() - 1] != '/' {
                (root.len() + 1) as int
            } else {
                root.len() as int
            };
            &&& copied is Some
            &&& text.len() >= start
            &&& text.take(root.len() as int) == root
            &&& start > root.len() ==> text[root.len() as int] == '/'
            &&& path.len() == 0 ==> text.len() == start
            &&& path.len() > 0 ==> Separators::Slash.split(text.skip(start)) == path
        }),
{
    let path = target->path;
    let text = under_root(PathStyle::Posix, root, path);
    let start = if root.len() > 0 && root[root.len() - 1] != '/' {
        (root.len() + 1) as int
    } else {
        root.len() as int
    };
    assert(text.take(root.len() as int) =~= root);
    assert(text.skip(start) =~= joined('/', path));
    if path.len() > 0 {
        assert forall|i: int| 0 <= i < path.len() implies Separators::Slash.avoided_by(
            #[trigger] path[i],
        ) by {
            assert(!path[i].contains('/'));
        }
        law_joined_names_split_again(Separators::Slash, '/', path);
    }
}

/// Two directories of a worktree are never copied as the same text.
pub proof fn law_distinct_directories_are_copied_differently(
    target: SegmentTargetView,
    other: SegmentTargetView,
    root: Seq<char>,
)
    requires
        target is Directory,
        other is Directory,
        target->path != other->path,
        forall|i: int|
            0 <= i < target->path.len() ==> (#[trigger] target->path[i]).len() > 0
                && !target->path[i].contains('/'),
        forall|i: int|
            0 <= i < other->path.len() ==> (#[trigger] other->path[i]).len() > 0
                && !other->path[i].contains('/'),
    ensures
        copy_path(PathStyle::Posix, target, Some(root), None, None) != copy_path(
            PathStyle::Posix,
            other,
            Some(root),
            None,
            None,
        ),
{
    law_a_directory_is_copied_whole(target, root, None, None);
    law_a_directory_is_copied_whole(other, root, None, None);
    let text = under_root(PathStyle::Posix, root, target->path);
    let other_text = under_root(PathStyle::Posix, root, other->path);
    let start = if root.len() > 0 && root[root.len() - 1] != '/' {
        (root.len() + 1) as int
    } else {
        root.len() as int
    };
    if text == other_text {
        assert(Separators::Slash.split(Seq::<char>::empty()) =~= seq![Seq::<char>::empty()]);
        assert(text.len() == start ==> text.skip(start) =~= Seq::empty());
        if target->path.len() == 0 && other->path.len() > 0 {
            assert(other->path[0].len() == 0);
        } else if target->path.len() > 0 && other->path.len() == 0 {
            assert(target->path[0].len() == 0);
        } else if target->path.len() == 0 {
            assert(target->path =~= other->path);
        }
    }
}

/// Copying a directory with backslashes gives the root and then the whole path, name by name: behind
/// a backslash where the root neither ends with a separator nor is a bare drive. This is how it is
/// done where the root is not taken verbatim, and for the root itself.
pub proof fn law_a_directory_is_copied_whole_with_backslashes(
    target: SegmentTargetView,
    root: Seq<char>,
    file_abs_path: Option<Seq<char>>,
    symbol_line: Option<u32>,
)
    requires
        target is Directory,
        forall|i: int|
            0 <= i < target->path.len() ==> !(#[trigger] target->path[i]).contains('\\'),
        target->path.len() == 0 || !(root.len() >= 4 && root[0] == '\\' && root[1] == '\\'
            && root[2] == '?' && root[3] == '\\'),
    ensures
        ({
            let path = target->path;
            let copied = copy_path(
                PathStyle::Windows,
                target,
                Some(root),
                file_abs_path,
                symbol_line,
            );
            let text = copied->0;
            let is_drive = root.len() == 2 && ('a' <= root[0] <= 'z' || 'A' <= root[0] <= 'Z')
                && root[1] == ':';
            let ends_separated = root.len() > 0 && (root[root.len() - 1] == '/' || root[root.len()
                - 1] == '\\');
            let start = if root.len() > 0 && !ends_separated && !is_drive {
                (root.len() + 1) as int
            } else {
                root.len() as int
            };
            &&& copied is Some
            &&& text.len() >= start
            &&& text.take(root.len() as int) == root
            &&& start > root.len() ==> text[root.len() as int] == '\\'
            &&& path.len() == 0 ==> text.len() == start
            &&& path.len() > 0 ==> Separators::Backslash.split(text.skip(start)) == path
        }),
{
    let path = target->path;
    let text = under_root(PathStyle::Windows, root, path);
    let start = if needs_separator(PathStyle::Windows, root) {
        (root.len() + 1) as int
    } else {
        root.len() as int
    };
    assert(path.len() == 0 || !PathStyle::Windows.is_verbatim(root)) by {
        if path.len() > 0 && PathStyle::Windows.is_verbatim(root) {
            let lead = crate::path_style::verbatim_start();
            assert(lead.is_prefix_of(root));
            assert(root[0] == lead[0] && root[1] == lead[1] && root[2] == lead[2] && root[3]
                == lead[3]);
        }
    }
    assert(text.take(root.len() as int) =~= root);
    assert(text.skip(start) =~= joined('\\', path));
    if path.len() > 0 {
        assert forall|i: int| 0 <= i < path.len() implies Separators::Backslash.avoided_by(
            #[trigger] path[i],
        ) by {
            assert(!path[i].contains('\\'));
        }
        law_joined_names_split_again(Separators::Backslash, '\\', path);
    }
}

/// Copying a directory below a root that is taken verbatim keeps the root's prefix and goes on with
/// the root's own names, where it has any, and the whole path, each behind one backslash.
pub proof fn law_a_directory_below_a_verbatim_root_is_copied_whole(
    target: SegmentTargetView,
    root: Seq<char>,
    file_abs_path: Option<Seq<char>>,
    symbol_line: Option<u32>,
)
    requires
        target is Directory,
        target->path.len() > 0,
        forall|i: int|
            0 <= i < target->path.len() ==> !(#[trigger] target->path[i]).contains('\\'),
        root.len() >= 4,
        root[0] == '\\',
        root[1] == '\\',
        root[2] == '?',
        root[3] == '\\',
    ensures
        ({
            let path = target->path;
            let copied = copy_path(
                PathStyle::Windows,
                target,
                Some(root),
                file_abs_path,
                symbol_line,
            );
            let text = copied->0;
            let prefix = PathStyle::Windows.prefix_length(root);
            let names = Separators::Backslash.split(text.skip(prefix));
            &&& copied is Some
            &&& text.len() > prefix
            &&& text.take(prefix) == root.take(prefix)
            &&& text[prefix] == '\\'
            &&& names.len() > path.len()
            &&& names.skip(names.len() - path.len()) == path
            &&& forall|i: int| 0 < i < names.len() - path.len() ==> (#[trigger] names[i]).len() > 0
            &&& names.subrange(1, names.len() - path.len()) == non_empty(
                Separators::Backslash.split(root.skip(PathStyle::Windows.names_start(root))),
            )
        }),
{
    let path = target->path;
    let text = under_root(PathStyle::Windows, root, path);
    let prefix = PathStyle::Windows.prefix_length(root);
    let own = verbatim_names(PathStyle::Windows, root);
    lemma_names_start(PathStyle::Windows, root);
    assert(crate::path_style::verbatim_start().is_prefix_of(root)) by {
        assert(crate::path_style::verbatim_start() =~= root.take(4));
    }
    assert(text == root.take(prefix) + led('\\', own + path));
    assert(text.take(prefix) =~= root.take(prefix));
    assert(text.skip(prefix) =~= led('\\', own + path));
    let parts = Separators::Backslash.split(root.skip(PathStyle::Windows.names_start(root)));
    lemma_split_parts(Separators::Backslash, root.skip(PathStyle::Windows.names_start(root)));
    lemma_non_empty(parts);
    assert forall|i: int| 0 <= i < (own + path).len() implies Separators::Backslash.avoided_by(
        #[trigger] (own + path)[i],
    ) by {
        if i >= own.len() {
            assert(!path[i - own.len()].contains('\\'));
        }
    }
    lemma_split_behind_separator(Separators::Backslash, Seq::empty(), '\\', own + path);
    assert(Seq::<char>::empty() + led('\\', own + path) =~= led('\\', own + path));
    assert(Separators::Backslash.split(Seq::<char>::empty()) =~= seq![Seq::<char>::empty()]);
    let names = Separators::Backslash.split(text.skip(prefix));
    assert(names == seq![Seq::<char>::empty()] + (own + path));
    assert(names.skip(names.len() - path.len()) =~= path);
    assert(names.subrange(1, names.len() - path.len()) =~= own);
    lemma_led_is_joined('\\', own + path);
    assert(text[prefix] == led('\\', own + path)[0]);
}

proof fn lemma_non_empty(parts: Seq<Seq<char>>)
    requires
        forall|i: int|
            0 <= i < parts.len() ==> Separators::Backslash.avoided_by(#[trigger] parts[i]),
    ensures
        forall|i: int|
            0 <= i < non_empty(parts).len() ==> (#[trigger] non_empty(parts)[i]).len() > 0
                && Separators::Backslash.avoided_by(non_empty(parts)[i]),
    decreases parts.len(),
{
    if parts.len() > 0 {
        let shorter = parts.drop_last();
        assert forall|i: int| 0 <= i < shorter.len() implies Separators::Backslash.avoided_by(
            #[trigger] shorter[i],
        ) by {
            assert(Separators::Backslash.avoided_by(parts[i]));
        }
        lemma_non_empty(shorter);
        assert(Separators::Backslash.avoided_by(parts[parts.len() - 1]));
        assert forall|i: int| 0 <= i < non_empty(parts).len() implies (#[trigger] non_empty(
            parts,
        )[i]).len() > 0 && Separators::Backslash.avoided_by(non_empty(parts)[i]) by {
            if i < non_empty(shorter).len() {
                assert(non_empty(parts)[i] == non_empty(shorter)[i]);
            }
        }
    }
}

/// The names of a verbatim root are its stretches that are not empty, in their order.
pub proof fn law_empty_stretches_are_left_out(parts: Seq<Seq<char>>, part: Seq<char>)
    ensures
        non_empty(Seq::<Seq<char>>::empty()).len() == 0,
        part.len() == 0 ==> non_empty(parts.push(part)) == non_empty(parts),
        part.len() > 0 ==> non_empty(parts.push(part)) == non_empty(parts).push(part),
{
    assert(parts.push(part).drop_last() =~= parts);
}

/// A file is copied as its own path and a symbol as that path, a colon and its line; nothing is
/// copied where the path or the line is unknown, nor a directory without its worktree's root.
pub proof fn law_files_and_symbols_are_copied_by_the_files_path(
    style: PathStyle,
    target: SegmentTargetView,
    worktree_abs_path: Option<Seq<char>>,
    file_abs_path: Option<Seq<char>>,
    symbol_line: Option<u32>,
)
    ensures
        ({
            let copied = copy_path(
                style,
                target,
                worktree_abs_path,
                file_abs_path,
                symbol_line,
            );
            &&& target is Directory ==> (copied is None <==> worktree_abs_path is None)
            &&& target is Symbol && target->item is None ==> copied == file_abs_path
            &&& target is Symbol && target->item is Some ==> (copied is None <==> file_abs_path
                is None || symbol_line is None)
            &&& target is Symbol && target->item is Some && copied is Some ==> {
                let file = file_abs_path->0;
                let text = copied->0;
                let digits = text.skip(file.len() as int + 1);
                &&& text.len() > file.len() + 1
                &&& text.take(file.len() as int) == file
                &&& text[file.len() as int] == ':'
                &&& decimal_value(digits) == symbol_line->0
                &&& forall|i: int| 0 <= i < digits.len() ==> '0' <= #[trigger] digits[i] <= '9'
                &&& digits[0] == '0' ==> digits.len() == 1
            }
        }),
{
    if target is Symbol && target->item is Some && file_abs_path is Some && symbol_line is Some {
        let file = file_abs_path->0;
        let line = symbol_line->0 as nat;
        let text = copy_path(style, target, worktree_abs_path, file_abs_path, symbol_line)->0;
        law_decimal_spells_the_number(line);
        lemma_digits(line);
        assert(text.take(file.len() as int) =~= file);
        assert(text.skip(file.len() as int + 1) =~= decimal(line));
    }
}

proof fn lemma_digits(value: nat)
    ensures
        forall|i: int| 0 <= i < decimal(value).len() ==> '0' <= #[trigger] decimal(value)[i] <= '9',
        value == 0 ==> decimal(value).len() == 1,
    decreases value,
{
    let last = value as int % 10;
    assert('0' <= digit(last) <= '9');
    if value >= 10 {
        lemma_digits(value / 10);
        assert forall|i: int| 0 <= i < decimal(value).len() implies '0' <= #[trigger] decimal(
            value,
        )[i] <= '9' by {
            if i < decimal(value / 10).len() {
                assert(decimal(value)[i] == decimal(value / 10)[i]);
            }
        }
    }
}

/// Digits are read as they are written: each one more counts for one, and those before it for ten
/// times what they did.
pub proof fn law_digits_are_read_in_tens(digits: Seq<char>, value: int)
    requires
        0 <= value < 10,
    ensures
        decimal_value(Seq::<char>::empty()) == 0,
        decimal_value(digits.push(digit(value))) == 10 * decimal_value(digits) + value,
{
    assert(digits.push(digit(value)).drop_last() =~= digits);
    assert(digit(value) as int - '0' as int == value);
}

/// Lines are counted from one, rows from zero.
pub proof fn law_lines_are_counted_from_one(row: u32)
    requires
        row < u32::MAX,
    ensures
        line_of_row(Some(row)) == Some((row + 1) as u32),
        line_of_row(None) is None,
{
}

} // verus!
