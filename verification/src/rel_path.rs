//! Paths relative to the root of a worktree.

use vstd::prelude::*;

use crate::path_style::{lemma_split_parts, Separators};

verus! {

/// A normalized path relative to a worktree root, as the names along it; the root itself is the
/// empty path.
#[derive(Debug, PartialEq, Eq)]
pub struct RelPath {
    components: Vec<String>,
}

/// `name` can stand between two separators of a normalized path.
pub open spec fn is_component(name: Seq<char>) -> bool {
    &&& name.len() > 0
    &&& !name.contains('/')
    &&& name != seq!['.']
    &&& name != seq!['.', '.']
}

/// Every name along the path is a component.
pub open spec fn is_normalized(names: Seq<Seq<char>>) -> bool {
    forall|i: int| 0 <= i < names.len() ==> is_component(#[trigger] names[i])
}

/// The names with a separator between each two.
pub open spec fn joined(separator: char, names: Seq<Seq<char>>) -> Seq<char>
    decreases names.len(),
{
    if names.len() == 0 {
        Seq::empty()
    } else if names.len() == 1 {
        names[0]
    } else {
        joined(separator, names.drop_last()) + seq![separator] + names.last()
    }
}

/// The stretches of `text` between its slashes.
pub open spec fn split(text: Seq<char>) -> Seq<Seq<char>> {
    Separators::Slash.split(text)
}

/// Nothing that lies between two slashes holds one.
proof fn lemma_split_on_slashes(text: Seq<char>)
    ensures
        split(text).len() > 0,
        forall|i: int| 0 <= i < split(text).len() ==> !(#[trigger] split(text)[i]).contains('/'),
{
    lemma_split_parts(Separators::Slash, text);
    assert forall|i: int| 0 <= i < split(text).len() implies !(#[trigger] split(
        text,
    )[i]).contains('/') by {
        assert(Separators::Slash.avoided_by(Separators::Slash.split(text)[i]));
    }
}

/// Each name with a separator before it.
pub open spec fn led(separator: char, names: Seq<Seq<char>>) -> Seq<char>
    decreases names.len(),
{
    if names.len() == 0 {
        Seq::empty()
    } else {
        led(separator, names.drop_last()) + seq![separator] + names.last()
    }
}

/// What leads names in a row leads the first ones and then the others.
pub proof fn lemma_led_concat(separator: char, first: Seq<Seq<char>>, second: Seq<Seq<char>>)
    ensures
        led(separator, first + second) == led(separator, first) + led(separator, second),
    decreases second.len(),
{
    if second.len() == 0 {
        assert(first + second =~= first);
        assert(led(separator, first) + led(separator, second) =~= led(separator, first));
    } else {
        lemma_led_concat(separator, first, second.drop_last());
        assert((first + second).drop_last() =~= first + second.drop_last());
        assert(led(separator, first + second) =~= led(separator, first) + led(separator, second));
    }
}

/// Joining what a text splits into gives the text back.
pub proof fn law_joined_undoes_split(text: Seq<char>)
    ensures
        joined('/', split(text)) == text,
    decreases text.len(),
{
    lemma_split_on_slashes(text);
    if text.len() > 0 {
        let shorter = text.drop_last();
        law_joined_undoes_split(shorter);
        lemma_split_on_slashes(shorter);
        let parts = split(shorter);
        assert(text =~= shorter.push(text.last()));
        if text.last() == '/' {
            assert(split(text).drop_last() =~= parts);
            assert(joined('/', split(text)) =~= joined('/', parts) + seq!['/'] + Seq::<char>::empty());
        } else {
            assert(split(text).drop_last() =~= parts.drop_last());
            assert(joined('/', split(text)) =~= joined('/', parts).push(text.last()));
        }
    }
}

/// Splitting what normalized names join to gives the names back: distinct paths are spelled
/// differently.
pub proof fn law_split_undoes_joined(names: Seq<Seq<char>>)
    requires
        names.len() > 0,
        is_normalized(names),
    ensures
        split(joined('/', names)) == names,
    decreases names.len(),
{
    if names.len() == 1 {
        lemma_split_append(Seq::empty(), names[0]);
        assert(Seq::<char>::empty() + names[0] =~= names[0]);
        assert(split(joined('/', names)) =~= names);
    } else {
        law_split_undoes_joined(names.drop_last());
        let base = joined('/', names.drop_last()) + seq!['/'];
        assert(base.drop_last() =~= joined('/', names.drop_last()));
        assert(split(base) =~= names.drop_last().push(Seq::empty()));
        assert(is_component(names.last()));
        lemma_split_append(base, names.last());
        assert(split(joined('/', names)) =~= names);
    }
}

/// Text without a separator extends the last part.
proof fn lemma_split_append(base: Seq<char>, name: Seq<char>)
    requires
        !name.contains('/'),
    ensures
        split(base).len() > 0,
        split(base + name) == split(base).drop_last().push(split(base).last() + name),
    decreases name.len(),
{
    lemma_split_on_slashes(base);
    if name.len() == 0 {
        assert(base + name =~= base);
        assert(split(base).last() + name =~= split(base).last());
        assert(split(base) =~= split(base).drop_last().push(split(base).last()));
    } else {
        let shorter = name.drop_last();
        assert(!shorter.contains('/')) by {
            if shorter.contains('/') {
                let at = choose|at: int| 0 <= at < shorter.len() && shorter[at] == '/';
                assert(name[at] == '/');
            }
        }
        lemma_split_append(base, shorter);
        assert((base + name).drop_last() =~= base + shorter);
        assert(name[name.len() - 1] == name.last());
        assert((split(base).last() + shorter).push(name.last()) =~= split(base).last() + name);
        assert(split(base + name) =~= split(base).drop_last().push(split(base).last() + name));
    }
}

/// Whether a stretch without separators is a component.
fn is_valid_component(name: &str) -> (valid: bool)
    requires
        !name@.contains('/'),
    ensures
        valid == is_component(name@),
{
    let length: usize = name.unicode_len();
    if length == 0 {
        return false;
    }
    if length > 2 {
        return true;
    }
    if name.get_char(0) != '.' {
        return true;
    }
    if length == 1 {
        assert(name@ =~= seq!['.']);
        return false;
    }
    if name.get_char(1) != '.' {
        return true;
    }
    assert(name@ =~= seq!['.', '.']);
    false
}

impl View for RelPath {
    type V = Seq<Seq<char>>;

    closed spec fn view(&self) -> Seq<Seq<char>> {
        self.components.deep_view()
    }
}

impl DeepView for RelPath {
    type V = Seq<Seq<char>>;

    open spec fn deep_view(&self) -> Seq<Seq<char>> {
        self.view()
    }
}

impl RelPath {
    #[verifier::type_invariant]
    spec fn well_formed(self) -> bool {
        is_normalized(self.components.deep_view())
    }

    /// The worktree root.
    pub fn empty() -> (path: RelPath)
        ensures
            path@ == Seq::<Seq<char>>::empty(),
    {
        RelPath { components: Vec::new() }
    }

    pub fn is_empty(&self) -> (empty: bool)
        ensures
            empty == (self@.len() == 0),
    {
        self.components.len() == 0
    }

    /// The number of names along the path.
    pub fn depth(&self) -> (depth: usize)
        ensures
            depth == self@.len(),
    {
        self.components.len()
    }

    /// The path of the first `depth` names.
    pub fn prefix(&self, depth: usize) -> (path: RelPath)
        requires
            depth <= self@.len(),
        ensures
            path@ == self@.take(depth as int),
    {
        proof {
            use_type_invariant(self);
        }
        let mut components: Vec<String> = Vec::new();
        let mut index: usize = 0;
        while index < depth
            invariant
                index <= depth <= self.components@.len(),
                components@.len() == index,
                forall|i: int|
                    0 <= i < index ==> (#[trigger] components@[i])@ == self.components@[i]@,
            decreases depth - index,
        {
            components.push(self.components[index].clone());
            index = index + 1;
        }
        assert(components.deep_view() =~= self.components.deep_view().take(depth as int));
        RelPath { components }
    }

    /// The last name along the path; none for the root.
    pub fn file_name(&self) -> (name: Option<&String>)
        ensures
            name is None == (self@.len() == 0),
            name matches Some(name) ==> name@ == self@.last(),
    {
        if self.components.len() == 0 {
            None
        } else {
            Some(&self.components[self.components.len() - 1])
        }
    }

    /// The path without its last name; none for the root.
    pub fn parent(&self) -> (parent: Option<RelPath>)
        ensures
            parent is None == (self@.len() == 0),
            parent matches Some(parent) ==> parent@ == self@.drop_last(),
    {
        if self.components.len() == 0 {
            None
        } else {
            assert(self@.take(self@.len() - 1) =~= self@.drop_last());
            Some(self.prefix(self.components.len() - 1))
        }
    }

    /// Whether the names of `other` are the first ones along this path.
    pub fn starts_with(&self, other: &RelPath) -> (starts: bool)
        ensures
            starts == other@.is_prefix_of(self@),
    {
        if other.components.len() > self.components.len() {
            return false;
        }
        let mut index: usize = 0;
        while index < other.components.len()
            invariant
                index <= other.components@.len() <= self.components@.len(),
                forall|i: int|
                    0 <= i < index ==> (#[trigger] other.components@[i])@ == self.components@[i]@,
            decreases other.components@.len() - index,
        {
            if other.components[index] != self.components[index] {
                assert(other@[index as int] != self@[index as int]);
                assert(other@.is_prefix_of(self@) ==> other@[index as int]
                    == self@.subrange(0, other@.len() as int)[index as int]);
                return false;
            }
            index = index + 1;
        }
        assert(other@ =~= self@.subrange(0, other@.len() as int));
        true
    }

    /// Whether the two paths run along the same names.
    pub fn same(&self, other: &RelPath) -> (same: bool)
        ensures
            same == (self@ == other@),
    {
        if self.components.len() != other.components.len() {
            return false;
        }
        let starts: bool = self.starts_with(other);
        proof {
            assert(self@.subrange(0, self@.len() as int) =~= self@);
        }
        starts
    }

    /// The names with a separator between each two.
    pub fn joined_by(&self, separator: char) -> (text: String)
        ensures
            text@ == joined(separator, self@),
    {
        let mut text: String = String::new();
        let mut index: usize = 0;
        while index < self.components.len()
            invariant
                index <= self.components@.len(),
                text@ == joined(separator, self@.take(index as int)),
            decreases self.components@.len() - index,
        {
            if index > 0 {
                text.push(separator);
            }
            text.append(self.components[index].as_str());
            proof {
                let now = self@.take(index + 1);
                assert(now.drop_last() =~= self@.take(index as int));
                assert(now.last() == self.components@[index as int]@);
                assert(text@ =~= joined(separator, now));
            }
            index = index + 1;
        }
        assert(self@.take(index as int) =~= self@);
        text
    }

    /// Appends the names, each with a separator before it.
    pub fn append_led(&self, separator: char, text: &mut String)
        ensures
            final(text)@ == old(text)@ + led(separator, self@),
    {
        let ghost before = text@;
        let mut index: usize = 0;
        assert(before + led(separator, self@.take(0)) =~= before);
        while index < self.components.len()
            invariant
                index <= self.components@.len(),
                text@ == before + led(separator, self@.take(index as int)),
            decreases self.components@.len() - index,
        {
            text.push(separator);
            text.append(self.components[index].as_str());
            proof {
                let now = self@.take(index + 1);
                assert(now.drop_last() =~= self@.take(index as int));
                assert(now.last() == self.components@[index as int]@);
                assert(text@ =~= before + led(separator, now));
            }
            index = index + 1;
        }
        assert(self@.take(index as int) =~= self@);
    }

    /// The names joined by `/`, as [`Self::from_unix_str`] reads them back.
    pub fn as_unix_str(&self) -> (text: String)
        ensures
            text@ == joined('/', self@),
            is_normalized(self@),
            text@.len() == 0 <==> self@.len() == 0,
            self@.len() > 0 ==> split(text@) == self@,
    {
        proof {
            use_type_invariant(self);
            if self@.len() > 0 {
                law_split_undoes_joined(self@);
                assert(is_component(self@[0]));
            }
        }
        self.joined_by('/')
    }

    /// The path that `text` spells, where every stretch between two separators is a component.
    pub fn from_unix_str(text: &str) -> (path: Option<RelPath>)
        ensures
            text@.len() == 0 ==> path is Some && path->0@ == Seq::<Seq<char>>::empty(),
            text@.len() > 0 ==> (path is Some <==> is_normalized(split(text@))),
            text@.len() > 0 ==> (path matches Some(path) ==> path@ == split(text@)),
    {
        if text.is_empty() {
            return Some(RelPath::empty());
        }
        let mut components: Vec<String> = Vec::new();
        let mut current: String = String::new();
        for ch in chars: text.chars()
            invariant
                chars.seq() == text@,
                components.deep_view().push(current@) == split(text@.take(chars.index() as int)),
        {
            let ghost parts = components.deep_view().push(current@);
            proof {
                let read = text@.take(chars.index() + 1);
                assert(read.drop_last() =~= text@.take(chars.index() as int));
                assert(read.last() == ch);
                assert(parts.drop_last() =~= components.deep_view());
            }
            if ch == '/' {
                components.push(current);
                current = String::new();
                assert(components.deep_view() =~= parts);
            } else {
                current.push(ch);
            }
            assert(components.deep_view().push(current@) =~= split(text@.take(chars.index() + 1)));
        }
        assert(text@.take(text@.len() as int) =~= text@);
        let ghost parts = components.deep_view().push(current@);
        components.push(current);
        assert(components.deep_view() =~= parts);
        proof {
            lemma_split_on_slashes(text@);
        }
        let mut index: usize = 0;
        while index < components.len()
            invariant
                index <= components@.len(),
                text@.len() > 0,
                components.deep_view() == split(text@),
                forall|i: int|
                    0 <= i < split(text@).len() ==> !(#[trigger] split(text@)[i]).contains('/'),
                forall|i: int| 0 <= i < index ==> is_component((#[trigger] components@[i])@),
            decreases components@.len() - index,
        {
            assert(components@[index as int]@ == split(text@)[index as int]);
            if !is_valid_component(components[index].as_str()) {
                return None;
            }
            index = index + 1;
        }
        Some(RelPath { components })
    }
}

impl Clone for RelPath {
    fn clone(&self) -> (copy: RelPath)
        ensures
            copy@ == self@,
    {
        assert(self@.take(self@.len() as int) =~= self@);
        self.prefix(self.components.len())
    }
}

} // verus!
