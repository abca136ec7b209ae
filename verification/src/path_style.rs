//! How a platform spells paths.

use vstd::prelude::*;

verus! {

/// What stands between the names of a path.
#[derive(Clone, Copy, Debug, PartialEq, Eq, Structural)]
pub enum Separators {
    Slash,
    /// A slash or a backslash.
    Either,
    /// A backslash alone: the path is taken as it is spelled.
    Backslash,
}

impl Separators {
    /// The character is a separator.
    pub open spec fn spec_contains(self, ch: char) -> bool {
        match self {
            Separators::Slash => ch == '/',
            Separators::Either => ch == '/' || ch == '\\',
            Separators::Backslash => ch == '\\',
        }
    }

    #[verifier::when_used_as_spec(spec_contains)]
    pub fn contains(self, ch: char) -> (separates: bool)
        ensures
            separates == self.contains(ch),
    {
        match self {
            Separators::Slash => ch == '/',
            Separators::Either => ch == '/' || ch == '\\',
            Separators::Backslash => ch == '\\',
        }
    }

    /// No character of the text is a separator.
    pub open spec fn avoided_by(self, text: Seq<char>) -> bool {
        forall|at: int| 0 <= at < text.len() ==> !self.contains(#[trigger] text[at])
    }

    /// The stretches of `text` between its separators.
    pub open spec fn split(self, text: Seq<char>) -> Seq<Seq<char>>
        decreases text.len(),
    {
        if text.len() == 0 {
            seq![Seq::empty()]
        } else {
            let parts = self.split(text.drop_last());
            if self.contains(text.last()) {
                parts.push(Seq::empty())
            } else {
                parts.drop_last().push(parts.last().push(text.last()))
            }
        }
    }

    /// Where the stretch that starts at `from` ends.
    pub open spec fn stretch_end(self, text: Seq<char>, from: int) -> int
        decreases text.len() - from,
    {
        if from >= text.len() {
            text.len() as int
        } else if self.contains(text[from]) {
            from
        } else {
            self.stretch_end(text, from + 1)
        }
    }

    fn find_stretch_end(self, text: &str, length: usize, from: usize) -> (end: usize)
        requires
            from <= length == text@.len(),
        ensures
            end == self.stretch_end(text@, from as int),
            from <= end <= length,
    {
        let mut end: usize = from;
        while end < length
            invariant
                from <= end <= length == text@.len(),
                self.stretch_end(text@, from as int) == self.stretch_end(text@, end as int),
            decreases length - end,
        {
            if self.contains(text.get_char(end)) {
                return end;
            }
            end = end + 1;
        }
        end
    }
}

/// Nothing that lies between two separators holds one.
pub proof fn lemma_split_parts(separators: Separators, text: Seq<char>)
    ensures
        separators.split(text).len() > 0,
        forall|i: int|
            0 <= i < separators.split(text).len() ==> separators.avoided_by(
                #[trigger] separators.split(text)[i],
            ),
    decreases text.len(),
{
    let all = separators.split(text);
    if text.len() > 0 {
        lemma_split_parts(separators, text.drop_last());
        let parts = separators.split(text.drop_last());
        assert forall|i: int| 0 <= i < all.len() implies separators.avoided_by(
            #[trigger] all[i],
        ) by {
            assert(separators.avoided_by(parts[parts.len() - 1]));
            if i < parts.len() - 1 {
                assert(all[i] == parts[i]);
            }
        }
    }
}

/// The platform whose paths the bar shows.
#[derive(Clone, Copy, Debug, PartialEq, Eq, Structural)]
pub enum PathStyle {
    Posix,
    Windows,
}

/// An ASCII letter.
pub open spec fn is_letter(ch: char) -> bool {
    'a' <= ch <= 'z' || 'A' <= ch <= 'Z'
}

/// What a path starts with that is taken as it is spelled.
pub open spec fn verbatim_start() -> Seq<char> {
    seq!['\\', '\\', '?', '\\']
}

/// What stands before the server of a path that is taken as it is spelled.
pub open spec fn verbatim_server_start() -> Seq<char> {
    seq!['\\', '\\', '?', '\\', 'U', 'N', 'C', '\\']
}

impl PathStyle {
    /// The platform takes the character for a separator.
    pub open spec fn spec_is_separator(self, ch: char) -> bool {
        ch == '/' || self == PathStyle::Windows && ch == '\\'
    }

    #[verifier::when_used_as_spec(spec_is_separator)]
    pub fn is_separator(self, ch: char) -> (separates: bool)
        ensures
            separates == self.is_separator(ch),
    {
        ch == '/' || self == PathStyle::Windows && ch == '\\'
    }

    /// The separator that a path is put together with.
    pub open spec fn spec_main_separator(self) -> char {
        match self {
            PathStyle::Posix => '/',
            PathStyle::Windows => '\\',
        }
    }

    #[verifier::when_used_as_spec(spec_main_separator)]
    pub fn main_separator(self) -> (separator: char)
        ensures
            separator == self.main_separator(),
    {
        match self {
            PathStyle::Posix => '/',
            PathStyle::Windows => '\\',
        }
    }

    /// The path is taken as it is spelled: it starts with `\\?\`.
    pub open spec fn is_verbatim(self, text: Seq<char>) -> bool {
        self == PathStyle::Windows && verbatim_start().is_prefix_of(text)
    }

    /// What stands between the names of the path that `text` spells.
    pub open spec fn separators(self, text: Seq<char>) -> Separators {
        match self {
            PathStyle::Posix => Separators::Slash,
            PathStyle::Windows => if self.is_verbatim(text) {
                Separators::Backslash
            } else {
                Separators::Either
            },
        }
    }

    /// A drive stands at `at`: a letter and a colon.
    pub open spec fn has_drive(self, text: Seq<char>, at: int) -> bool {
        self == PathStyle::Windows && at + 2 <= text.len() && is_letter(text[at]) && text[at + 1]
            == ':'
    }

    /// How much of a path that is taken as it is spelled says where it starts: a drive, a server and
    /// its share, or a name, each behind `\\?\`.
    pub open spec fn verbatim_prefix_length(self, text: Seq<char>) -> int {
        let separators = Separators::Backslash;
        if verbatim_server_start().is_prefix_of(text) {
            let server_end = separators.stretch_end(text, 8);
            let share_end = separators.stretch_end(text, server_end + 1);
            if server_end + 1 < share_end {
                share_end
            } else {
                server_end
            }
        } else if self.has_drive(text, 4) && (text.len() == 6 || self.is_separator(text[6])) {
            6
        } else {
            separators.stretch_end(text, 4)
        }
    }

    /// How much of `text` says where a path starts and is no name along it: a drive, or a server
    /// and its share behind two separators, or what stands behind `\\?\`.
    pub open spec fn prefix_length(self, text: Seq<char>) -> int {
        if self.is_verbatim(text) {
            self.verbatim_prefix_length(text)
        } else if self.has_drive(text, 0) {
            2
        } else if self == PathStyle::Windows && text.len() >= 2 && self.is_separator(text[0])
            && self.is_separator(text[1]) {
            let server_end = Separators::Either.stretch_end(text, 2);
            let share_end = Separators::Either.stretch_end(text, server_end + 1);
            if 2 < server_end && server_end + 1 < share_end {
                share_end
            } else {
                0
            }
        } else {
            0
        }
    }

    /// Where the names of a path start: behind what says where it starts, and behind the separator
    /// there.
    pub open spec fn names_start(self, text: Seq<char>) -> int {
        let prefix = self.prefix_length(text);
        if prefix < text.len() && self.is_separator(text[prefix]) {
            prefix + 1
        } else {
            prefix
        }
    }

    /// Whether the path is taken as it is spelled.
    pub fn starts_verbatim(self, text: &str) -> (verbatim: bool)
        ensures
            verbatim == self.is_verbatim(text@),
    {
        if self == PathStyle::Posix || text.unicode_len() < 4 {
            return false;
        }
        let verbatim: bool = text.get_char(0) == '\\' && text.get_char(1) == '\\' && text.get_char(2)
            == '?' && text.get_char(3) == '\\';
        proof {
            let start = text@.subrange(0, 4);
            assert(start[0] == text@[0] && start[1] == text@[1] && start[2] == text@[2] && start[3]
                == text@[3]);
            if verbatim {
                assert(start =~= verbatim_start());
            }
        }
        verbatim
    }

    /// What stands between the names of the path.
    pub fn find_separators(self, text: &str) -> (separators: Separators)
        ensures
            separators == self.separators(text@),
    {
        match self {
            PathStyle::Posix => Separators::Slash,
            PathStyle::Windows => if self.starts_verbatim(text) {
                Separators::Backslash
            } else {
                Separators::Either
            },
        }
    }

    /// Whether a drive stands at `at`.
    pub fn check_drive(self, text: &str, at: usize) -> (drive: bool)
        ensures
            drive == self.has_drive(text@, at as int),
    {
        let length: usize = text.unicode_len();
        if self == PathStyle::Posix || length < 2 || length - 2 < at {
            return false;
        }
        let letter: char = text.get_char(at);
        ('a' <= letter && letter <= 'z' || 'A' <= letter && letter <= 'Z') && text.get_char(at + 1)
            == ':'
    }

    fn find_verbatim_prefix(self, text: &str, total: usize) -> (length: usize)
        requires
            total == text@.len(),
            self.is_verbatim(text@),
        ensures
            length == self.verbatim_prefix_length(text@),
            4 <= length <= text@.len(),
    {
        let separators: Separators = Separators::Backslash;
        assert(text@.len() >= 4);
        let server: bool = total >= 8 && text.get_char(4) == 'U' && text.get_char(5) == 'N'
            && text.get_char(6) == 'C' && text.get_char(7) == '\\';
        proof {
            let start = text@.subrange(0, 4);
            assert(start[0] == text@[0] && start[1] == text@[1] && start[2] == text@[2] && start[3]
                == text@[3]);
            if total >= 8 {
                let longer = text@.subrange(0, 8);
                assert(forall|i: int| 0 <= i < 8 ==> longer[i] == text@[i]);
                assert(longer[4] == text@[4] && longer[5] == text@[5] && longer[6] == text@[6]
                    && longer[7] == text@[7]);
                if server {
                    assert(longer =~= verbatim_server_start());
                }
            }
            assert(server == verbatim_server_start().is_prefix_of(text@));
        }
        if server {
            let server_end: usize = separators.find_stretch_end(text, total, 8);
            if server_end == total {
                return server_end;
            }
            let share_end: usize = separators.find_stretch_end(text, total, server_end + 1);
            return if server_end + 1 < share_end {
                share_end
            } else {
                server_end
            };
        }
        if self.check_drive(text, 4) && (total == 6 || self.is_separator(text.get_char(6))) {
            return 6;
        }
        separators.find_stretch_end(text, total, 4)
    }

    /// How much of `text` says where a path starts, in characters.
    pub fn find_prefix(self, text: &str) -> (length: usize)
        ensures
            length == self.prefix_length(text@),
            length <= text@.len(),
    {
        let total: usize = text.unicode_len();
        if self.starts_verbatim(text) {
            return self.find_verbatim_prefix(text, total);
        }
        if self.check_drive(text, 0) {
            return 2;
        }
        if self == PathStyle::Posix || total < 2 || !self.is_separator(text.get_char(0))
            || !self.is_separator(text.get_char(1)) {
            return 0;
        }
        let server_end: usize = Separators::Either.find_stretch_end(text, total, 2);
        if server_end == 2 || server_end == total {
            return 0;
        }
        let share_end: usize = Separators::Either.find_stretch_end(text, total, server_end + 1);
        if share_end == server_end + 1 {
            0
        } else {
            share_end
        }
    }

    /// Where the names of a path start, in characters.
    pub fn find_names(self, text: &str) -> (start: usize)
        ensures
            start == self.names_start(text@),
            start <= text@.len(),
    {
        let prefix: usize = self.find_prefix(text);
        if prefix < text.unicode_len() && self.is_separator(text.get_char(prefix)) {
            prefix + 1
        } else {
            prefix
        }
    }
}

proof fn lemma_stretch_end(separators: Separators, text: Seq<char>, from: int)
    requires
        0 <= from,
    ensures
        0 <= separators.stretch_end(text, from) <= text.len(),
    decreases text.len() - from,
{
    if from < text.len() && !separators.contains(text[from]) {
        lemma_stretch_end(separators, text, from + 1);
    }
}

/// The names of a path start within it.
pub proof fn lemma_names_start(path_style: PathStyle, text: Seq<char>)
    ensures
        0 <= path_style.prefix_length(text) <= path_style.names_start(text) <= text.len(),
{
    let either = Separators::Either;
    let backslash = Separators::Backslash;
    lemma_stretch_end(either, text, 2);
    lemma_stretch_end(either, text, either.stretch_end(text, 2) + 1);
    lemma_stretch_end(backslash, text, 4);
    lemma_stretch_end(backslash, text, 8);
    lemma_stretch_end(backslash, text, backslash.stretch_end(text, 8) + 1);
}

} // verus!
