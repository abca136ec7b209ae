//! The file name that a label is bolded at is the one it ends with.

use vstd::prelude::*;
use vstd::utf8::{decode_utf8, encode_scalar, encode_utf8, encode_utf8_decode_utf8};

use crate::path_style::{lemma_names_start, lemma_split_parts, PathStyle, Separators};
use crate::text::{
    filename_offset, lemma_bytes_of_split, lemma_encode_concat, names_nothing,
    path_filename_offset,
};

verus! {

/// The last stretch that names something.
pub open spec fn last_name(separators: Separators, parts: Seq<Seq<char>>) -> Seq<char>
    decreases parts.len(),
{
    if parts.len() == 0 {
        Seq::empty()
    } else if names_nothing(separators, parts.last()) {
        last_name(separators, parts.drop_last())
    } else {
        parts.last()
    }
}

/// The file name of a path.
pub open spec fn path_filename(path_style: PathStyle, text: Seq<char>) -> Seq<char> {
    let separators = path_style.separators(text);
    last_name(separators, separators.split(text.skip(path_style.names_start(text))))
}

/// Only separators and single dots, a separator first.
spec fn is_tail(separators: Separators, tail: Seq<char>) -> bool {
    &&& tail.len() > 0 ==> separators.contains(tail[0])
    &&& forall|i: int|
        0 <= i < tail.len() ==> separators.contains(#[trigger] tail[i]) || tail[i] == '.'
    &&& forall|i: int|
        0 < i < tail.len() && #[trigger] tail[i] == '.' ==> separators.contains(tail[i - 1])
}

/// The byte of a separator.
spec fn is_separator_byte(separators: Separators, byte: u8) -> bool {
    match separators {
        Separators::Slash => byte == 0x2fu8,
        Separators::Either => byte == 0x2fu8 || byte == 0x5cu8,
        Separators::Backslash => byte == 0x5cu8,
    }
}

/// A text ends with the last of its stretches, and a separator before it unless that is all.
proof fn lemma_last_stretch(separators: Separators, text: Seq<char>)
    ensures
        separators.split(text).len() > 0,
        separators.split(text).last().len() <= text.len(),
        text.skip(text.len() - separators.split(text).last().len()) == separators.split(text).last(),
        separators.split(text).last().len() == 0 && text.len() > 0 ==> separators.contains(
            text.last(),
        ),
    decreases text.len(),
{
    let all = separators.split(text);
    if text.len() > 0 {
        let shorter = text.drop_last();
        lemma_last_stretch(separators, shorter);
        if !separators.contains(text.last()) {
            let last = separators.split(shorter).last();
            assert(text.skip(text.len() - all.last().len()) =~= shorter.skip(
                shorter.len() - last.len(),
            ).push(text.last()));
        }
    }
    assert(text.skip(text.len() - all.last().len()) =~= all.last());
}

/// A path is what comes before its file name, the name, and what names nothing behind it.
proof fn lemma_around_filename(separators: Separators, text: Seq<char>) -> (start: int)
    requires
        filename_offset(separators, separators.split(text)) is Some,
    ensures
        ({
            let name = last_name(separators, separators.split(text));
            &&& 0 <= start <= start + name.len() <= text.len()
            &&& encode_utf8(text.take(start)).len() == filename_offset(separators, separators.split(text))->0
            &&& text.subrange(start, start + name.len()) == name
            &&& separators.avoided_by(name)
            &&& name.len() > 0
            &&& name != seq!['.']
            &&& is_tail(separators, text.skip(start + name.len()))
        }),
    decreases text.len(),
{
    let all = separators.split(text);
    let name = last_name(separators, all);
    if text.len() == 0 {
        assert(all.drop_last() =~= Seq::<Seq<char>>::empty());
        assert(filename_offset(separators, all.drop_last()) is None);
        0
    } else if names_nothing(separators, all.last()) {
        let shorter = text.drop_last();
        let parts = separators.split(shorter);
        lemma_last_stretch(separators, shorter);
        if separators.contains(text.last()) {
            assert(all.drop_last() =~= parts);
        } else {
            assert(all.last() == parts.last().push(text.last()));
            assert(all.last().len() == 1);
            assert(all.drop_last() =~= parts.drop_last());
        }
        let start = lemma_around_filename(separators, shorter);
        let end = start + name.len();
        let tail = text.skip(end);
        assert(text.take(start) =~= shorter.take(start));
        assert(text.subrange(start, end) =~= shorter.subrange(start, end));
        assert(tail =~= shorter.skip(end).push(text.last()));
        if !separators.contains(text.last()) {
            assert(all.last()[0] == text.last());
            assert(separators.contains(shorter.last()));
            assert(shorter.len() > end) by {
                if shorter.len() == end {
                    assert(name[name.len() - 1] == shorter.subrange(start, end)[name.len() - 1]);
                }
            }
            assert(shorter.skip(end)[shorter.len() - end - 1] == shorter.last());
        }
        assert forall|i: int| 0 < i < tail.len() && #[trigger] tail[i]
            == '.' implies separators.contains(tail[i - 1]) by {
            if i < tail.len() - 1 {
                assert(shorter.skip(end)[i] == '.');
                assert(shorter.skip(end)[i - 1] == tail[i - 1]);
            }
        }
        assert forall|i: int| 0 <= i < tail.len() implies separators.contains(
            #[trigger] tail[i],
        ) || tail[i] == '.' by {
            if i < tail.len() - 1 {
                assert(shorter.skip(end)[i] == tail[i]);
            }
        }
        assert(separators.contains(tail[0])) by {
            if tail.len() > 1 {
                assert(shorter.skip(end)[0] == tail[0]);
            }
        }
        start
    } else {
        let start = text.len() - name.len();
        lemma_split_parts(separators, text);
        lemma_last_stretch(separators, text);
        lemma_bytes_of_split(separators, text);
        assert(text.take(start) + text.skip(start) =~= text);
        lemma_encode_concat(text.take(start), text.skip(start));
        assert(text.subrange(start, start + name.len()) =~= text.skip(start));
        assert(separators.avoided_by(all[all.len() - 1]));
        start
    }
}

proof fn lemma_ascii_scalar(ch: char)
    requires
        ch as u32 <= 0x7f,
    ensures
        encode_scalar(ch as u32) == seq![ch as u8],
{
    let scalar = ch as u32;
    assert((scalar & 0x7F) as u8 == scalar as u8) by (bit_vector)
        requires
            scalar <= 0x7f,
    ;
    assert(encode_scalar(scalar) =~= seq![ch as u8]);
}

/// What names nothing takes a byte a character.
proof fn lemma_tail_bytes(separators: Separators, tail: Seq<char>)
    requires
        forall|i: int|
            0 <= i < tail.len() ==> separators.contains(#[trigger] tail[i]) || tail[i] == '.',
    ensures
        encode_utf8(tail).len() == tail.len(),
        forall|i: int| 0 <= i < tail.len() ==> #[trigger] encode_utf8(tail)[i] == tail[i] as u8,
    decreases tail.len(),
{
    if tail.len() > 0 {
        let rest = tail.drop_first();
        assert forall|i: int| 0 <= i < rest.len() implies separators.contains(#[trigger] rest[i])
            || rest[i] == '.' by {
            assert(rest[i] == tail[i + 1]);
        }
        lemma_tail_bytes(separators, rest);
        assert(separators.contains(tail[0]) || tail[0] == '.');
        lemma_ascii_scalar(tail[0]);
        assert(encode_utf8(tail) =~= seq![tail[0] as u8] + encode_utf8(rest));
        assert forall|i: int| 0 <= i < tail.len() implies #[trigger] encode_utf8(tail)[i]
            == tail[i] as u8 by {
            if i > 0 {
                assert(encode_utf8(tail)[i] == encode_utf8(rest)[i - 1]);
            }
        }
    }
}

proof fn lemma_scalar_without_separator(separators: Separators, ch: char)
    requires
        !separators.contains(ch),
    ensures
        forall|i: int|
            0 <= i < encode_scalar(ch as u32).len() ==> !is_separator_byte(
                separators,
                #[trigger] encode_scalar(ch as u32)[i],
            ),
{
    let scalar = ch as u32;
    assert(0x80u8 | (scalar & 0x3F) as u8 >= 0x80u8) by (bit_vector);
    assert(0x80u8 | ((scalar >> 6) & 0x3F) as u8 >= 0x80u8) by (bit_vector);
    assert(0x80u8 | ((scalar >> 12) & 0x3F) as u8 >= 0x80u8) by (bit_vector);
    assert(0xC0u8 | ((scalar >> 6) & 0x1F) as u8 >= 0x80u8) by (bit_vector);
    assert(0xE0u8 | ((scalar >> 12) & 0x0F) as u8 >= 0x80u8) by (bit_vector);
    assert(0xF0u8 | ((scalar >> 18) & 0x7) as u8 >= 0x80u8) by (bit_vector);
    if scalar <= 0x7f {
        lemma_ascii_scalar(ch);
    }
}

/// No byte of a name is that of a separator.
proof fn lemma_name_bytes(separators: Separators, name: Seq<char>)
    requires
        separators.avoided_by(name),
    ensures
        forall|i: int|
            0 <= i < encode_utf8(name).len() ==> !is_separator_byte(
                separators,
                #[trigger] encode_utf8(name)[i],
            ),
    decreases name.len(),
{
    if name.len() > 0 {
        let rest = name.drop_first();
        assert(separators.avoided_by(rest)) by {
            assert forall|at: int| 0 <= at < rest.len() implies !separators.contains(
                #[trigger] rest[at],
            ) by {
                assert(rest[at] == name[at + 1]);
            }
        }
        lemma_name_bytes(separators, rest);
        lemma_scalar_without_separator(separators, name[0]);
        let head = encode_scalar(name[0] as u32);
        assert forall|i: int| 0 <= i < encode_utf8(name).len() implies !is_separator_byte(
            separators,
            #[trigger] encode_utf8(name)[i],
        ) by {
            if i < head.len() {
                assert(encode_utf8(name)[i] == head[i]);
            } else {
                assert(encode_utf8(name)[i] == encode_utf8(rest)[i - head.len()]);
            }
        }
    }
}

/// Separators and single dots hold no name, nor does what starts inside the name before them.
proof fn lemma_no_later_occurrence(
    separators: Separators,
    before: Seq<u8>,
    name: Seq<u8>,
    trailing: Seq<u8>,
    later: int,
)
    requires
        name.len() > 0,
        name != seq![0x2eu8],
        forall|i: int| 0 <= i < name.len() ==> !is_separator_byte(separators, #[trigger] name[i]),
        trailing.len() > 0 ==> is_separator_byte(separators, trailing[0]),
        forall|i: int|
            0 <= i < trailing.len() ==> is_separator_byte(separators, #[trigger] trailing[i])
                || trailing[i] == 0x2eu8,
        forall|i: int|
            0 < i < trailing.len() && #[trigger] trailing[i] == 0x2eu8 ==> is_separator_byte(
                separators,
                trailing[i - 1],
            ),
        before.len() < later,
        later + name.len() <= before.len() + name.len() + trailing.len(),
    ensures
        (before + name + trailing).subrange(later, later + name.len()) != name,
{
    let bytes = before + name + trailing;
    let window = bytes.subrange(later, later + name.len());
    if window == name {
        let end = before.len() + name.len();
        if later < end {
            assert(window[end - later] == bytes[end as int]);
            assert(bytes[end as int] == trailing[0]);
            assert(!is_separator_byte(separators, name[end - later]));
        } else {
            let from = later - end;
            assert(window[0] == trailing[from]);
            assert(!is_separator_byte(separators, name[0]));
            if name.len() > 1 {
                assert(window[1] == trailing[from + 1]);
                assert(!is_separator_byte(separators, name[1]));
            } else {
                assert(name =~= seq![0x2eu8]);
            }
        }
    }
}

/// A label's file name stands at its offset, and nowhere behind it: it is where the name last
/// occurs.
#[verifier::rlimit(60)]
pub proof fn law_filename_offset_is_its_last_occurrence(path_style: PathStyle, text: Seq<char>)
    ensures
        path_filename_offset(path_style, text) matches Some(offset) ==> {
            let bytes = encode_utf8(text);
            let name = encode_utf8(path_filename(path_style, text));
            &&& name.len() > 0
            &&& offset + name.len() <= bytes.len()
            &&& bytes.subrange(offset as int, (offset + name.len()) as int) == name
            &&& forall|later: int|
                offset < later && later + name.len() <= bytes.len() ==> #[trigger] bytes.subrange(
                    later,
                    later + name.len(),
                ) != name
        },
{
    let separators = path_style.separators(text);
    let prefix = path_style.names_start(text);
    let names = text.skip(prefix);
    lemma_names_start(path_style, text);
    if let Some(offset) = path_filename_offset(path_style, text) {
        let bytes = encode_utf8(text);
        let word = path_filename(path_style, text);
        let start = lemma_around_filename(separators, names);
        let name = encode_utf8(word);
        let tail = names.skip(start + word.len());
        let trailing = encode_utf8(tail);
        let before = encode_utf8(text.take(prefix)) + encode_utf8(names.take(start));
        assert(text.take(prefix) + (names.take(start) + (word + tail)) =~= text) by {
            assert(names.take(start) + (word + tail) =~= names);
            assert(text.take(prefix) + names =~= text);
        }
        lemma_encode_concat(text.take(prefix), names.take(start) + (word + tail));
        lemma_encode_concat(names.take(start), word + tail);
        lemma_encode_concat(word, tail);
        assert(bytes =~= before + name + trailing);
        lemma_tail_bytes(separators, tail);
        lemma_name_bytes(separators, word);
        encode_utf8_decode_utf8(word);
        encode_utf8_decode_utf8(Seq::<char>::empty());
        encode_utf8_decode_utf8(seq!['.']);
        assert(encode_utf8(Seq::<char>::empty()) =~= Seq::<u8>::empty());
        assert(name.len() > 0) by {
            if name.len() == 0 {
                assert(name =~= Seq::<u8>::empty());
                assert(decode_utf8(name) == word);
            }
        }
        assert(name != seq![0x2eu8]) by {
            lemma_tail_bytes(separators, seq!['.']);
            assert(encode_utf8(seq!['.']) =~= seq![0x2eu8]);
        }
        assert(bytes.subrange(offset as int, (offset + name.len()) as int) =~= name);
        assert(forall|i: int|
            0 <= i < trailing.len() ==> #[trigger] trailing[i] == tail[i] as u8);
        assert(forall|i: int|
            0 <= i < trailing.len() ==> is_separator_byte(separators, #[trigger] trailing[i])
                || trailing[i] == 0x2eu8);
        assert forall|i: int| 0 < i < trailing.len() && #[trigger] trailing[i]
            == 0x2eu8 implies is_separator_byte(separators, trailing[i - 1]) by {
            assert(tail[i] == '.');
            assert(trailing[i - 1] == tail[i - 1] as u8);
        }
        assert forall|later: int|
            offset < later && later + name.len() <= bytes.len() implies #[trigger] bytes.subrange(
            later,
            later + name.len(),
        ) != name by {
            lemma_no_later_occurrence(separators, before, name, trailing, later);
        }
    }
}

} // verus!
