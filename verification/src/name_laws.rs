//! Where the file name of a path stands, what a path starts with and what a text looks like on one
//! line, told from the text itself.

use vstd::prelude::*;
use vstd::utf8::encode_utf8;

use crate::copy_laws::lemma_split_extended;
use crate::path_style::{lemma_names_start, lemma_split_parts, PathStyle, Separators};
use crate::rel_path::{is_component, is_normalized};
use crate::text::{
    bytes_before, filename_offset, flattened, lemma_bytes_of_split, lemma_encode_concat,
    lemma_encode_separator, path_filename_offset,
};

verus! {

/// On one line every line break is a space and every other character is itself.
pub proof fn law_a_line_break_becomes_a_space(text: Seq<char>, at: int)
    requires
        0 <= at < text.len(),
    ensures
        flattened(text).len() == text.len(),
        text[at] == '\n' ==> flattened(text)[at] == ' ',
        text[at] != '\n' ==> flattened(text)[at] == text[at],
{
}

/// A name along a path is not empty, holds no slash and is neither dot nor dots; and every such name
/// is one.
pub proof fn law_what_can_stand_along_a_path(names: Seq<Seq<char>>)
    ensures
        is_normalized(names) <==> forall|i: int|
            0 <= i < names.len() ==> (#[trigger] names[i]).len() > 0 && !names[i].contains('/')
                && names[i] != seq!['.'] && names[i] != seq!['.', '.'],
{
    if is_normalized(names) {
        assert forall|i: int| 0 <= i < names.len() implies (#[trigger] names[i]).len() > 0
            && !names[i].contains('/') && names[i] != seq!['.'] && names[i] != seq!['.', '.'] by {
            assert(is_component(names[i]));
        }
    }
}

proof fn lemma_one_more_part(
    separators: Separators,
    text: Seq<char>,
    separator: char,
    part: Seq<char>,
)
    requires
        separators.contains(separator),
        separators.avoided_by(part),
    ensures
        separators.split(text.push(separator) + part) == separators.split(text).push(part),
{
    let base = text.push(separator);
    assert(base.drop_last() =~= text);
    lemma_split_parts(separators, text);
    lemma_split_extended(separators, base, part);
    assert(separators.split(base) =~= separators.split(text).push(Seq::empty()));
    assert(Seq::<char>::empty() + part =~= part);
    assert(separators.split(base + part) =~= separators.split(text).push(part));
}

/// One more part behind a separator decides where the file name stands: an empty part or a dot leaves
/// it where it was, two dots leave none, and any other part is the file name itself. A dot is a name
/// like any other where only backslashes separate. `text` and the longer path start alike.
pub proof fn law_the_last_part_decides_the_file_name(
    path_style: PathStyle,
    text: Seq<char>,
    separator: char,
    part: Seq<char>,
)
    requires
        ({
            let longer = text.push(separator) + part;
            let separators = path_style.separators(text);
            &&& path_style.separators(longer) == separators
            &&& path_style.names_start(longer) == path_style.names_start(text)
            &&& separators.contains(separator)
            &&& separators.avoided_by(part)
        }),
    ensures
        ({
            let found = path_filename_offset(path_style, text.push(separator) + part);
            let verbatim = path_style.separators(text) == Separators::Backslash;
            &&& part.len() == 0 || part == seq!['.'] && !verbatim ==> found
                == path_filename_offset(path_style, text)
            &&& part == seq!['.', '.'] || part == seq!['.'] && verbatim ==> found is None
            &&& part.len() > 0 && part != seq!['.'] && part != seq!['.', '.'] ==> found == Some(
                encode_utf8(text).len() + 1,
            )
        }),
{
    let longer = text.push(separator) + part;
    let separators = path_style.separators(text);
    let start = path_style.names_start(text);
    lemma_names_start(path_style, text);
    let names = text.skip(start);
    let parts = separators.split(names);
    assert(longer.skip(start) =~= names.push(separator) + part);
    assert(longer.take(start) =~= text.take(start));
    lemma_one_more_part(separators, names, separator, part);
    assert(parts.push(part).drop_last() =~= parts);
    lemma_bytes_of_split(separators, longer.skip(start));
    lemma_encode_concat(longer.take(start), longer.skip(start));
    assert(longer.take(start) + longer.skip(start) =~= longer);
    lemma_encode_concat(text.push(separator), part);
    lemma_encode_concat(text, seq![separator]);
    assert(text + seq![separator] =~= text.push(separator));
    lemma_encode_separator(separators, separator);
    let all = parts.push(part);
    let named = filename_offset(separators, all);
    assert(all.last() == part);
    if part.len() == 0 || part == seq!['.'] && separators != Separators::Backslash {
        assert(named == filename_offset(separators, parts));
    } else if part == seq!['.', '.'] || part == seq!['.'] {
        assert(named is None);
    } else {
        assert(separators.split(longer.skip(start)) == all);
        assert(named == Some(bytes_before(all, parts.len())));
        assert(bytes_before(all, parts.len()) + encode_utf8(part).len() == encode_utf8(
            longer.skip(start),
        ).len());
        assert(encode_utf8(text.push(separator)).len() == encode_utf8(text).len() + 1);
        assert(encode_utf8(longer).len() == encode_utf8(text).len() + 1 + encode_utf8(part).len());
        assert(encode_utf8(longer).len() == encode_utf8(text.take(start)).len() + encode_utf8(
            longer.skip(start),
        ).len());
    }
}

/// With slashes alone, a name is the file name of its own text, and one more part behind a slash
/// decides it: empty or a dot it leaves the file name where it was, two dots leave none, and else the
/// part itself is the file name.
pub proof fn law_the_file_name_follows_the_last_slash(text: Seq<char>, part: Seq<char>)
    requires
        !part.contains('/'),
    ensures
        ({
            let alone = path_filename_offset(PathStyle::Posix, part);
            let found = path_filename_offset(PathStyle::Posix, text.push('/') + part);
            let before = path_filename_offset(PathStyle::Posix, text);
            let names = part.len() > 0 && part != seq!['.'] && part != seq!['.', '.'];
            &&& !names ==> alone is None
            &&& names ==> alone == Some(0nat)
            &&& part.len() == 0 || part == seq!['.'] ==> found == before
            &&& part == seq!['.', '.'] ==> found is None
            &&& names ==> found == Some(encode_utf8(text).len() + 1)
        }),
{
    let style = PathStyle::Posix;
    let slash = Separators::Slash;
    let longer = text.push('/') + part;
    assert(slash.avoided_by(part)) by {
        assert forall|at: int| 0 <= at < part.len() implies !slash.contains(#[trigger] part[at]) by {
            assert(part.contains(part[at]));
        }
    }
    lemma_alone(part);
    if part.len() > 0 {
        assert(part.contains(part[0]));
    }
    assert(style.names_start(part) == 0);
    assert(part.skip(0) =~= part);
    assert(encode_utf8(part.take(0)).len() == 0) by {
        assert(part.take(0) =~= Seq::<char>::empty());
    }
    if text.len() > 0 {
        assert(longer[0] == text[0]);
        law_the_last_part_decides_the_file_name(style, text, '/', part);
    } else {
        assert(style.names_start(longer) == 1);
        assert(longer.skip(1) =~= part);
        assert(longer.take(1) =~= seq!['/']);
        lemma_encode_separator(slash, '/');
        assert(encode_utf8(text).len() == 0) by {
            assert(text =~= Seq::<char>::empty());
        }
        assert(text.skip(0) =~= Seq::<char>::empty());
        lemma_alone(Seq::empty());
    }
}

proof fn lemma_alone(part: Seq<char>)
    requires
        Separators::Slash.avoided_by(part),
    ensures
        Separators::Slash.split(part) == seq![part],
        filename_offset(Separators::Slash, seq![part]) == if part.len() == 0 || part == seq!['.']
            || part == seq!['.', '.'] {
            None
        } else {
            Some(0nat)
        },
{
    lemma_split_extended(Separators::Slash, Seq::empty(), part);
    assert(Seq::<char>::empty() + part =~= part);
    assert(Separators::Slash.split(Seq::<char>::empty()) =~= seq![Seq::empty()]);
    assert(Separators::Slash.split(part) =~= seq![part]);
    let parts = seq![part];
    assert(parts.drop_last() =~= Seq::empty());
    assert(filename_offset(Separators::Slash, parts.drop_last()) is None);
    assert(bytes_before(parts, 0) == 0);
}

/// Where one part alone follows what a path starts with, it is the file name, from its first byte,
/// unless it is empty, a dot or two dots.
pub proof fn law_a_single_part_is_the_file_name(path_style: PathStyle, text: Seq<char>)
    requires
        path_style.separators(text).avoided_by(text.skip(path_style.names_start(text))),
    ensures
        ({
            let start = path_style.names_start(text);
            let part = text.skip(start);
            path_filename_offset(path_style, text) == if part.len() == 0 || part == seq!['.']
                || part == seq!['.', '.'] {
                None
            } else {
                Some(encode_utf8(text.take(start)).len())
            }
        }),
{
    let separators = path_style.separators(text);
    let start = path_style.names_start(text);
    let part = text.skip(start);
    lemma_split_extended(separators, Seq::empty(), part);
    assert(Seq::<char>::empty() + part =~= part);
    assert(separators.split(Seq::<char>::empty()) =~= seq![Seq::empty()]);
    assert(separators.split(part) =~= seq![part]);
    let parts = seq![part];
    assert(parts.drop_last() =~= Seq::empty());
    assert(filename_offset(separators, parts.drop_last()) is None);
    assert(bytes_before(parts, 0) == 0);
    assert(parts.last() == part);
    if part.len() == 0 || part == seq!['.'] && separators != Separators::Backslash {
        assert(filename_offset(separators, parts) is None);
    } else if part == seq!['.', '.'] || part == seq!['.'] {
        assert(filename_offset(separators, parts) is None);
    } else {
        assert(filename_offset(separators, parts) == Some(0nat));
    }
}

/// A stretch ends at the first separator from where it starts, and else with the text.
pub proof fn law_a_stretch_ends_at_the_next_separator(
    separators: Separators,
    text: Seq<char>,
    from: int,
    end: int,
)
    requires
        0 <= from <= end <= text.len(),
        forall|i: int| from <= i < end ==> !separators.contains(#[trigger] text[i]),
        end < text.len() ==> separators.contains(text[end]),
    ensures
        separators.stretch_end(text, from) == end,
    decreases end - from,
{
    if from < end {
        assert(!separators.contains(text[from]));
        law_a_stretch_ends_at_the_next_separator(separators, text, from + 1, end);
    }
}

/// What separates names: the slash with slashes alone; with backslashes either, and backslashes alone
/// in a text that is taken verbatim.
pub proof fn law_what_separates_names(text: Seq<char>, ch: char)
    ensures
        ({
            let verbatim = text.len() >= 4 && text[0] == '\\' && text[1] == '\\' && text[2] == '?'
                && text[3] == '\\';
            &&& PathStyle::Posix.separators(text).contains(ch) <==> ch == '/'
            &&& PathStyle::Windows.separators(text).contains(ch) <==> ch == '\\' || ch == '/'
                && !verbatim
            &&& PathStyle::Windows.is_verbatim(text) <==> verbatim
            &&& !PathStyle::Posix.is_verbatim(text)
            &&& PathStyle::Posix.is_separator(ch) <==> ch == '/'
            &&& PathStyle::Windows.is_separator(ch) <==> ch == '/' || ch == '\\'
            &&& PathStyle::Posix.main_separator() == '/'
            &&& PathStyle::Windows.main_separator() == '\\'
        }),
{
    let lead = crate::path_style::verbatim_start();
    if lead.is_prefix_of(text) {
        assert(text[0] == lead[0] && text[1] == lead[1] && text[2] == lead[2] && text[3]
            == lead[3]);
    } else if text.len() >= 4 && text[0] == '\\' && text[1] == '\\' && text[2] == '?' && text[3]
        == '\\' {
        assert(lead =~= text.take(4));
    }
}

/// The names of a path start behind its prefix and one separator. With slashes alone there is no
/// prefix. With backslashes, in a text that is not taken verbatim, a drive is one, and so are a server
/// and a share behind two separators; any other text has none.
pub proof fn law_what_a_path_starts_with(
    path_style: PathStyle,
    text: Seq<char>,
    server_end: int,
    share_end: int,
)
    ensures
        ({
            let windows = path_style == PathStyle::Windows;
            let separates = |at: int| text[at] == '/' || windows && text[at] == '\\';
            let prefix = path_style.prefix_length(text);
            let drive = text.len() >= 2 && ('a' <= text[0] <= 'z' || 'A' <= text[0] <= 'Z')
                && text[1] == ':';
            let doubled = text.len() >= 2 && separates(0) && separates(1);
            &&& path_style.names_start(text) == if prefix < text.len() && separates(prefix) {
                prefix + 1
            } else {
                prefix
            }
            &&& !windows ==> prefix == 0
            &&& windows && drive ==> prefix == 2
            &&& windows && !drive && !doubled ==> prefix == 0
            &&& windows && doubled && !path_style.is_verbatim(text) && 2 < server_end
                && server_end + 1 < share_end <= text.len() && (forall|i: int|
                2 <= i < share_end && i != server_end ==> text[i] != '/' && text[i] != '\\')
                && separates(server_end) && (share_end < text.len() ==> separates(share_end))
                ==> prefix == share_end
        }),
{
    let either = Separators::Either;
    if path_style.is_verbatim(text) {
        law_what_separates_names(text, '/');
    }
    if path_style == PathStyle::Windows && text.len() >= 2 && 2 < server_end && server_end + 1
        < share_end <= text.len() && (forall|i: int|
        2 <= i < share_end && i != server_end ==> text[i] != '/' && text[i] != '\\')
        && either.contains(text[server_end]) && (share_end < text.len() ==> either.contains(
        text[share_end],
    )) {
        law_a_stretch_ends_at_the_next_separator(either, text, 2, server_end);
        law_a_stretch_ends_at_the_next_separator(either, text, server_end + 1, share_end);
    }
}

/// Two separators that no server and share follow are no prefix: where the server, which ends at
/// `server_end`, or the share behind it is empty.
pub proof fn law_a_server_without_a_share_is_no_prefix(text: Seq<char>, server_end: int)
    requires
        text.len() >= 2,
        text[0] == '/' || text[0] == '\\',
        text[1] == '/' || text[1] == '\\',
        !PathStyle::Windows.is_verbatim(text),
        2 <= server_end <= text.len(),
        forall|i: int| 2 <= i < server_end ==> text[i] != '/' && text[i] != '\\',
        server_end < text.len() ==> text[server_end] == '/' || text[server_end] == '\\',
        server_end == 2 || server_end + 1 >= text.len() || text[server_end + 1] == '/'
            || text[server_end + 1] == '\\',
    ensures
        PathStyle::Windows.prefix_length(text) == 0,
{
    let either = Separators::Either;
    law_a_stretch_ends_at_the_next_separator(either, text, 2, server_end);
    if server_end + 1 <= text.len() && server_end > 2 {
        law_a_stretch_ends_at_the_next_separator(either, text, server_end + 1, server_end + 1);
    }
}

/// In a text that is taken verbatim a server without a share is a prefix of its own.
pub proof fn law_a_verbatim_server_without_a_share_is_the_prefix(text: Seq<char>, server_end: int)
    requires
        PathStyle::Windows.is_verbatim(text),
        8 <= server_end <= text.len(),
        text[4] == 'U',
        text[5] == 'N',
        text[6] == 'C',
        text[7] == '\\',
        forall|i: int| 8 <= i < server_end ==> text[i] != '\\',
        server_end < text.len() ==> text[server_end] == '\\',
        server_end + 1 >= text.len() || text[server_end + 1] == '\\',
    ensures
        PathStyle::Windows.prefix_length(text) == server_end,
{
    let backslash = Separators::Backslash;
    let server_lead = crate::path_style::verbatim_server_start();
    law_what_separates_names(text, '/');
    assert(server_lead =~= text.take(8));
    law_a_stretch_ends_at_the_next_separator(backslash, text, 8, server_end);
    if server_end + 1 <= text.len() {
        law_a_stretch_ends_at_the_next_separator(backslash, text, server_end + 1, server_end + 1);
    }
}

/// In a text that is taken verbatim the prefix goes to the end of a drive that a separator or nothing
/// follows, to the end of the share behind a server, and else to the end of the first stretch.
pub proof fn law_what_a_verbatim_path_starts_with(text: Seq<char>, first_end: int, share_end: int)
    requires
        PathStyle::Windows.is_verbatim(text),
        4 <= first_end <= text.len(),
        forall|i: int| 4 <= i < first_end ==> text[i] != '\\',
        first_end < text.len() ==> text[first_end] == '\\',
    ensures
        ({
            let prefix = PathStyle::Windows.prefix_length(text);
            let drive = text.len() >= 6 && ('a' <= text[4] <= 'z' || 'A' <= text[4] <= 'Z')
                && text[5] == ':' && (text.len() == 6 || text[6] == '/' || text[6] == '\\');
            let server = text.len() >= 8 && text[4] == 'U' && text[5] == 'N' && text[6] == 'C'
                && text[7] == '\\';
            &&& drive ==> prefix == 6
            &&& !drive && !server ==> prefix == first_end
            &&& server && share_end <= text.len() && (exists|server_end: int|
                8 <= server_end && server_end + 1 < share_end && text[server_end] == '\\' && (
                forall|i: int|
                    8 <= i < share_end && i != server_end ==> #[trigger] text[i] != '\\')) && (
            share_end < text.len() ==> text[share_end] == '\\') ==> prefix == share_end
        }),
{
    let backslash = Separators::Backslash;
    let lead = crate::path_style::verbatim_start();
    let server_lead = crate::path_style::verbatim_server_start();
    law_what_separates_names(text, '/');
    law_a_stretch_ends_at_the_next_separator(backslash, text, 4, first_end);
    if server_lead.is_prefix_of(text) {
        assert(text[4] == server_lead[4] && text[5] == server_lead[5] && text[6] == server_lead[6]
            && text[7] == server_lead[7]);
    } else if text.len() >= 8 && text[4] == 'U' && text[5] == 'N' && text[6] == 'C' && text[7]
        == '\\' {
        assert(server_lead =~= text.take(8));
    }
    if server_lead.is_prefix_of(text) && share_end <= text.len() && (exists|server_end: int|
        8 <= server_end && server_end + 1 < share_end && text[server_end] == '\\' && (forall|i: int|
            8 <= i < share_end && i != server_end ==> #[trigger] text[i] != '\\')) && (share_end
        < text.len() ==> text[share_end] == '\\') {
        let server_end = choose|server_end: int|
            8 <= server_end && server_end + 1 < share_end && text[server_end] == '\\' && (forall|
                i: int,
            |
                8 <= i < share_end && i != server_end ==> #[trigger] text[i] != '\\');
        law_a_stretch_ends_at_the_next_separator(backslash, text, 8, server_end);
        law_a_stretch_ends_at_the_next_separator(backslash, text, server_end + 1, share_end);
    }
}

} // verus!
