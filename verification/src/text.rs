//! Styled text: what a segment's label holds and how it is displayed on a single line.

use vstd::prelude::*;
use vstd::utf8::{encode_scalar, encode_utf8};

use crate::path_style::{lemma_names_start, lemma_split_parts, PathStyle, Separators};

verus! {

/// A color, as red, green, blue and alpha bytes.
pub type Rgba = u32;

#[derive(Clone, Copy, Debug, PartialEq, Eq, Structural)]
pub enum FontWeight {
    Normal,
    Bold,
    Other(u16),
}

/// How a whole text is drawn.
#[derive(Clone, Copy, Debug, PartialEq, Eq, Structural)]
pub struct TextStyle {
    pub color: Rgba,
    pub font_weight: FontWeight,
    /// Everything else about the style (font, size, slant, decoration), under the host's own key.
    pub rest: u64,
}

/// What a highlight changes about the style beneath it.
#[derive(Clone, Copy, Debug, PartialEq, Eq, Structural)]
pub struct HighlightStyle {
    pub color: Option<Rgba>,
    pub font_weight: Option<FontWeight>,
    /// Every other change, under the host's own key; zero changes nothing.
    pub rest: u64,
}

/// The highlight style that changes nothing.
pub open spec fn plain_highlight() -> HighlightStyle {
    HighlightStyle { color: None, font_weight: None, rest: 0 }
}

impl Default for HighlightStyle {
    fn default() -> (style: HighlightStyle)
        ensures
            style == plain_highlight(),
    {
        HighlightStyle { color: None, font_weight: None, rest: 0 }
    }
}

/// A highlighted stretch of a text, in bytes.
#[derive(Clone, Copy, Debug, PartialEq, Eq, Structural)]
pub struct Highlight {
    pub start: usize,
    pub end: usize,
    pub style: HighlightStyle,
}

/// A text and its highlights.
#[derive(Debug, PartialEq, Eq)]
pub struct HighlightedText {
    pub text: String,
    pub highlights: Vec<Highlight>,
}

/// What a [`HighlightedText`] holds.
#[verifier::ext_equal]
pub struct HighlightedTextView {
    pub text: Seq<char>,
    pub highlights: Seq<Highlight>,
}

impl View for HighlightedText {
    type V = HighlightedTextView;

    open spec fn view(&self) -> HighlightedTextView {
        HighlightedTextView { text: self.text@, highlights: self.highlights@ }
    }
}

impl DeepView for HighlightedText {
    type V = HighlightedTextView;

    open spec fn deep_view(&self) -> HighlightedTextView {
        self.view()
    }
}

impl Clone for HighlightedText {
    fn clone(&self) -> (copy: HighlightedText)
        ensures
            copy@ == self@,
    {
        let highlights = self.highlights.clone();
        assert(highlights@ =~= self.highlights@);
        HighlightedText { text: self.text.clone(), highlights }
    }
}

/// A text without highlights.
pub open spec fn bare_text(text: Seq<char>) -> HighlightedTextView {
    HighlightedTextView { text, highlights: Seq::empty() }
}

impl HighlightedText {
    /// A text without highlights.
    pub fn bare(text: String) -> (label: HighlightedText)
        ensures
            label@ == bare_text(text@),
    {
        HighlightedText { text, highlights: Vec::new() }
    }
}

/// Every line break turned into a space.
pub open spec fn flattened(text: Seq<char>) -> Seq<char> {
    text.map_values(
        |ch: char|
            if ch == '\n' {
                ' '
            } else {
                ch
            },
    )
}

/// The single-byte replacement keeps byte-offset highlight ranges valid.
pub fn flatten_text_for_single_line_display(text: &str) -> (flat: String)
    ensures
        flat@ == flattened(text@),
{
    let mut flat: String = String::new();
    for ch in chars: text.chars()
        invariant
            chars.seq() == text@,
            flat@ == flattened(text@.take(chars.index() as int)),
    {
        if ch == '\n' {
            flat.push(' ');
        } else {
            flat.push(ch);
        }
        proof {
            let read = text@.take(chars.index() + 1);
            assert(read.drop_last() =~= text@.take(chars.index() as int));
            assert(read.last() == ch);
            assert(flat@ =~= flattened(read));
        }
    }
    assert(text@.take(text@.len() as int) =~= text@);
    flat
}

proof fn lemma_continuation_bytes(scalar: u32)
    by (bit_vector)
    ensures
        0x80u8 | (scalar & 0x3F) as u8 != 0x0au8,
        0x80u8 | ((scalar >> 6) & 0x3F) as u8 != 0x0au8,
        0x80u8 | ((scalar >> 12) & 0x3F) as u8 != 0x0au8,
        0xC0u8 | ((scalar >> 6) & 0x1F) as u8 != 0x0au8,
        0xE0u8 | ((scalar >> 12) & 0x0F) as u8 != 0x0au8,
        0xF0u8 | ((scalar >> 18) & 0x7) as u8 != 0x0au8,
{
}

proof fn lemma_single_byte(scalar: u32)
    by (bit_vector)
    requires
        scalar <= 0x7f,
    ensures
        (scalar & 0x7F) as u8 == scalar as u8,
        scalar == 0x0a <==> (scalar & 0x7F) as u8 == 0x0au8,
{
}

/// The byte that a line break's byte turns into, and every other byte itself.
pub open spec fn flattened_byte(byte: u8) -> u8 {
    if byte == 0x0au8 {
        0x20u8
    } else {
        byte
    }
}

proof fn lemma_flattened_scalar(ch: char)
    ensures
        encode_scalar(flattened(seq![ch])[0] as u32) == encode_scalar(ch as u32).map_values(
            |byte: u8| flattened_byte(byte),
        ),
{
    let scalar = ch as u32;
    let bytes = encode_scalar(scalar);
    lemma_continuation_bytes(scalar);
    if scalar <= 0x7f {
        lemma_single_byte(scalar);
    }
    if ch == '\n' {
        lemma_single_byte(0x20);
        assert(bytes =~= seq![0x0au8]);
        assert(encode_scalar(' ' as u32) =~= seq![0x20u8]);
    } else {
        assert(forall|i: int| 0 <= i < bytes.len() ==> bytes[i] != 0x0au8);
    }
    assert(encode_scalar(flattened(seq![ch])[0] as u32) =~= bytes.map_values(
        |byte: u8| flattened_byte(byte),
    ));
}

/// Flattening keeps the byte length, and every byte but those of the line breaks: a byte range
/// locates the same stretch before and after.
pub proof fn law_flattening_keeps_byte_offsets(text: Seq<char>)
    ensures
        encode_utf8(flattened(text)).len() == encode_utf8(text).len(),
        encode_utf8(flattened(text)) == encode_utf8(text).map_values(
            |byte: u8| flattened_byte(byte),
        ),
    decreases text.len(),
{
    if text.len() > 0 {
        let rest = text.drop_first();
        law_flattening_keeps_byte_offsets(rest);
        assert(flattened(text).drop_first() =~= flattened(rest));
        lemma_flattened_scalar(text[0]);
        assert(encode_utf8(flattened(text)) =~= encode_utf8(text).map_values(
            |byte: u8| flattened_byte(byte),
        ));
    } else {
        assert(flattened(text) =~= text);
        assert(encode_utf8(flattened(text)) =~= encode_utf8(text).map_values(
            |byte: u8| flattened_byte(byte),
        ));
    }
}

/// The bytes of two texts in a row.
pub proof fn lemma_encode_concat(first: Seq<char>, second: Seq<char>)
    ensures
        encode_utf8(first + second) == encode_utf8(first) + encode_utf8(second),
    decreases first.len(),
{
    if first.len() == 0 {
        assert(first + second =~= second);
        assert(encode_utf8(first) + encode_utf8(second) =~= encode_utf8(second));
    } else {
        lemma_encode_concat(first.drop_first(), second);
        assert((first + second).drop_first() =~= first.drop_first() + second);
        assert(encode_utf8(first + second) =~= encode_utf8(first) + encode_utf8(second));
    }
}

/// The length of `text` in bytes.
pub fn byte_length(text: &str) -> (length: usize)
    ensures
        length == encode_utf8(text@).len(),
{
    text.as_bytes().len()
}

/// A stretch between two separators that names nothing: an empty one, or the directory itself,
/// unless the path is taken as it is spelled.
pub open spec fn names_nothing(separators: Separators, part: Seq<char>) -> bool {
    part.len() == 0 || part == seq!['.'] && separators != Separators::Backslash
}

/// A stretch that leads to a directory without naming it.
pub open spec fn is_dots(part: Seq<char>) -> bool {
    part == seq!['.'] || part == seq!['.', '.']
}

/// The bytes of the first `count` stretches and of the separators behind them.
pub open spec fn bytes_before(parts: Seq<Seq<char>>, count: nat) -> nat
    decreases count,
{
    if count == 0 {
        0
    } else {
        bytes_before(parts, (count - 1) as nat) + encode_utf8(parts[count - 1]).len() + 1
    }
}

/// Where the last stretch that names something starts, in bytes; there is no file name where it
/// leads to the directory itself or back to the one above.
pub open spec fn filename_offset(separators: Separators, parts: Seq<Seq<char>>) -> Option<nat>
    decreases parts.len(),
{
    if parts.len() == 0 {
        None
    } else if names_nothing(separators, parts.last()) {
        filename_offset(separators, parts.drop_last())
    } else if is_dots(parts.last()) {
        None
    } else {
        Some(bytes_before(parts, (parts.len() - 1) as nat))
    }
}

proof fn lemma_bytes_before_agree(parts: Seq<Seq<char>>, other: Seq<Seq<char>>, count: nat)
    requires
        count <= parts.len(),
        count <= other.len(),
        forall|i: int| 0 <= i < count ==> #[trigger] parts[i] == other[i],
    ensures
        bytes_before(parts, count) == bytes_before(other, count),
    decreases count,
{
    if count > 0 {
        lemma_bytes_before_agree(parts, other, (count - 1) as nat);
        assert(parts[count - 1] == other[count - 1]);
    }
}

/// The stretches before the last one, their separators and the last one are the whole text.
pub proof fn lemma_bytes_of_split(separators: Separators, text: Seq<char>)
    ensures
        separators.split(text).len() > 0,
        bytes_before(separators.split(text), (separators.split(text).len() - 1) as nat)
            + encode_utf8(separators.split(text).last()).len() == encode_utf8(text).len(),
    decreases text.len(),
{
    lemma_split_parts(separators, text);
    if text.len() > 0 {
        let shorter = text.drop_last();
        let all = separators.split(text);
        let parts = separators.split(shorter);
        lemma_bytes_of_split(separators, shorter);
        assert(text =~= shorter + seq![text.last()]);
        lemma_encode_concat(shorter, seq![text.last()]);
        if separators.contains(text.last()) {
            lemma_bytes_before_agree(all, parts, parts.len());
            lemma_encode_separator(separators, text.last());
        } else {
            lemma_bytes_before_agree(all, parts, (parts.len() - 1) as nat);
            assert(all.last() =~= parts.last() + seq![text.last()]);
            lemma_encode_concat(parts.last(), seq![text.last()]);
        }
    }
}

/// A separator takes one byte.
pub proof fn lemma_encode_separator(separators: Separators, ch: char)
    requires
        separators.contains(ch),
    ensures
        encode_utf8(seq![ch]).len() == 1,
{
    reveal_with_fuel(encode_utf8, 2);
}

/// Where the file name of a path starts, in bytes.
pub open spec fn path_filename_offset(path_style: PathStyle, text: Seq<char>) -> Option<nat> {
    let separators = path_style.separators(text);
    let start = path_style.names_start(text);
    match filename_offset(separators, separators.split(text.skip(start))) {
        Some(offset) => Some(encode_utf8(text.take(start)).len() + offset),
        None => None,
    }
}

/// The file name lies within the text.
pub proof fn lemma_filename_offset_bound(path_style: PathStyle, text: Seq<char>)
    ensures
        path_filename_offset(path_style, text) matches Some(offset) ==> offset <= encode_utf8(
            text,
        ).len(),
{
    let separators = path_style.separators(text);
    let start = path_style.names_start(text);
    lemma_names_start(path_style, text);
    lemma_bytes_of_split(separators, text.skip(start));
    lemma_filename_offset_bound_from(separators, separators.split(text.skip(start)));
    lemma_encode_concat(text.take(start), text.skip(start));
    assert(text.take(start) + text.skip(start) =~= text);
}

proof fn lemma_filename_offset_bound_from(separators: Separators, parts: Seq<Seq<char>>)
    ensures
        filename_offset(separators, parts) matches Some(offset) ==> parts.len() > 0 && offset <= bytes_before(
            parts,
            (parts.len() - 1) as nat,
        ),
    decreases parts.len(),
{
    if parts.len() > 0 && names_nothing(separators, parts.last()) {
        let shorter = parts.drop_last();
        lemma_filename_offset_bound_from(separators, shorter);
        if shorter.len() > 0 {
            lemma_bytes_before_agree(shorter, parts, (shorter.len() - 1) as nat);
        }
    }
}

/// Whether a stretch is a dot, or two of them.
fn check_dots(part: &str, length: usize) -> (dots: bool)
    requires
        length == part@.len(),
    ensures
        dots == is_dots(part@),
{
    if length == 1 {
        let dot: bool = part.get_char(0) == '.';
        assert(dot ==> part@ =~= seq!['.']);
        dot
    } else if length == 2 {
        let dots: bool = part.get_char(0) == '.' && part.get_char(1) == '.';
        assert(dots ==> part@ =~= seq!['.', '.']);
        dots
    } else {
        false
    }
}

/// Where the last stretch read so far leaves the search for the file name.
fn next_filename_offset(
    separators: Separators,
    found: Option<usize>,
    part: &str,
    start: usize,
) -> (offset: Option<usize>)
    ensures
        offset == if names_nothing(separators, part@) {
            found
        } else if is_dots(part@) {
            None
        } else {
            Some(start)
        },
{
    let length: usize = part.unicode_len();
    if length == 0 {
        return found;
    }
    if !check_dots(part, length) {
        return Some(start);
    }
    if length == 1 && separators != Separators::Backslash {
        found
    } else {
        None
    }
}

/// Where the last stretch that names something starts.
fn find_filename_offset(separators: Separators, text: &str) -> (offset: Option<usize>)
    ensures
        offset is Some == filename_offset(separators, separators.split(text@)) is Some,
        offset matches Some(at) ==> at == filename_offset(separators, separators.split(text@))->0,
{
    let total: usize = byte_length(text);
    let mut current: String = String::new();
    let mut start: usize = 0;
    let mut found: Option<usize> = None;
    for ch in chars: text.chars()
        invariant
            chars.seq() == text@,
            total == encode_utf8(text@).len(),
            ({
                let parts = separators.split(text@.take(chars.index() as int));
                &&& parts.len() > 0
                &&& current@ == parts.last()
                &&& start == bytes_before(parts, (parts.len() - 1) as nat)
                &&& found is Some == filename_offset(separators, parts.drop_last()) is Some
                &&& found matches Some(at) ==> at == filename_offset(separators, parts.drop_last())->0
            }),
    {
        let ghost before = text@.take(chars.index() as int);
        let ghost parts = separators.split(before);
        proof {
            let read = text@.take(chars.index() + 1);
            assert(read.drop_last() =~= before);
            assert(read.last() == ch);
            lemma_split_parts(separators, before);
            lemma_bytes_of_split(separators, before);
            lemma_encode_concat(read, text@.skip(chars.index() + 1));
            assert(read + text@.skip(chars.index() + 1) =~= text@);
            assert(read =~= before + seq![ch]);
            lemma_encode_concat(before, seq![ch]);
        }
        if separators.contains(ch) {
            proof {
                lemma_encode_separator(separators, ch);
            }
            found = next_filename_offset(separators, found, current.as_str(), start);
            start = start + byte_length(current.as_str()) + 1;
            current = String::new();
            proof {
                let now = separators.split(text@.take(chars.index() + 1));
                assert(now.drop_last() =~= parts);
                lemma_bytes_before_agree(now, parts, parts.len());
            }
        } else {
            current.push(ch);
            proof {
                let now = separators.split(text@.take(chars.index() + 1));
                assert(now.drop_last() =~= parts.drop_last());
                lemma_bytes_before_agree(now, parts, (parts.len() - 1) as nat);
            }
        }
    }
    assert(text@.take(text@.len() as int) =~= text@);
    proof {
        lemma_split_parts(separators, text@);
    }
    next_filename_offset(separators, found, current.as_str(), start)
}

/// Where the file name starts, shared between painting and measuring.
pub fn dirty_filename_offset(path_style: PathStyle, segment: &HighlightedText) -> (offset: Option<
    usize,
>)
    ensures
        offset is Some == path_filename_offset(path_style, segment.text@) is Some,
        offset matches Some(at) ==> at == path_filename_offset(path_style, segment.text@)->0,
{
    let text: &str = segment.text.as_str();
    let total: usize = byte_length(text);
    let start: usize = path_style.find_names(text);
    let names: &str = text.substring_char(start, text.unicode_len());
    let skipped: usize = byte_length(text.substring_char(0, start));
    proof {
        assert(text@.subrange(start as int, text@.len() as int) =~= text@.skip(start as int));
        assert(text@.subrange(0, start as int) =~= text@.take(start as int));
        lemma_filename_offset_bound(path_style, text@);
    }
    match find_filename_offset(path_style.find_separators(text), names) {
        Some(offset) => {
            assert(skipped + offset <= total);
            Some(skipped + offset)
        },
        None => None,
    }
}

/// Bolds the filename in place, keeping whatever color was already chosen for it.
pub fn dirty_filename_text_style(text_style: &TextStyle) -> (style: TextStyle)
    ensures
        style == (TextStyle { font_weight: FontWeight::Bold, ..*text_style }),
{
    TextStyle { color: text_style.color, font_weight: FontWeight::Bold, rest: text_style.rest }
}

/// The highlight style that makes text bold and changes nothing else.
pub open spec fn bold_highlight() -> HighlightStyle {
    HighlightStyle { color: None, font_weight: Some(FontWeight::Bold), rest: 0 }
}

pub fn dirty_filename_highlight_style() -> (style: HighlightStyle)
    ensures
        style == bold_highlight(),
{
    HighlightStyle { color: None, font_weight: Some(FontWeight::Bold), rest: 0 }
}

/// A text ready to be painted: its base style, and what its highlights change.
#[derive(Debug, PartialEq, Eq)]
pub struct StyledText {
    pub text: String,
    pub style: TextStyle,
    pub highlights: Vec<Highlight>,
}

/// What a [`StyledText`] holds.
#[verifier::ext_equal]
pub struct StyledTextView {
    pub text: Seq<char>,
    pub style: TextStyle,
    pub highlights: Seq<Highlight>,
}

impl View for StyledText {
    type V = StyledTextView;

    open spec fn view(&self) -> StyledTextView {
        StyledTextView { text: self.text@, style: self.style, highlights: self.highlights@ }
    }
}

/// How a dirty file's label is painted: its file name is bold. Nothing where it names no file.
pub open spec fn dirty_styled(
    path_style: PathStyle,
    label: HighlightedTextView,
    style: TextStyle,
) -> Option<StyledTextView> {
    match path_filename_offset(path_style, label.text) {
        None => None,
        Some(offset) => if offset == 0 {
            Some(
                StyledTextView {
                    text: flattened(label.text),
                    style: TextStyle { font_weight: FontWeight::Bold, ..style },
                    highlights: Seq::empty(),
                },
            )
        } else {
            Some(
                StyledTextView {
                    text: flattened(label.text),
                    style,
                    highlights: seq![
                        Highlight {
                            start: offset as usize,
                            end: encode_utf8(flattened(label.text)).len() as usize,
                            style: bold_highlight(),
                        },
                    ],
                },
            )
        },
    }
}

pub fn apply_dirty_filename_style(
    path_style: PathStyle,
    segment: &HighlightedText,
    text_style: &TextStyle,
) -> (styled: Option<StyledText>)
    ensures
        styled is Some == dirty_styled(path_style, segment@, *text_style) is Some,
        styled matches Some(styled) ==> styled@ == dirty_styled(path_style, segment@, *text_style)->0,
{
    let text: String = flatten_text_for_single_line_display(segment.text.as_str());
    match dirty_filename_offset(path_style, segment) {
        None => None,
        Some(offset) => if offset == 0 {
            Some(
                StyledText {
                    text,
                    style: dirty_filename_text_style(text_style),
                    highlights: Vec::new(),
                },
            )
        } else {
            let end: usize = byte_length(text.as_str());
            let mut highlights: Vec<Highlight> = Vec::new();
            highlights.push(
                Highlight { start: offset, end, style: dirty_filename_highlight_style() },
            );
            Some(StyledText { text, style: *text_style, highlights })
        },
    }
}

} // verus!
