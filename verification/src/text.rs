//! Text: lines, surrounding white space, prefixes and letter case.
use vstd::prelude::*;

verus! {

/// The characters that Unicode gives the property `White_Space`.
pub open spec fn is_white_space(c: char) -> bool {
    ||| '\u{9}' <= c <= '\u{d}'
    ||| c == '\u{20}'
    ||| c == '\u{85}'
    ||| c == '\u{a0}'
    ||| c == '\u{1680}'
    ||| '\u{2000}' <= c <= '\u{200a}'
    ||| c == '\u{2028}'
    ||| c == '\u{2029}'
    ||| c == '\u{202f}'
    ||| c == '\u{205f}'
    ||| c == '\u{3000}'
}

pub open spec fn trim_start(text: Seq<char>) -> Seq<char>
    decreases text.len(),
{
    if text.len() > 0 && is_white_space(text[0]) {
        trim_start(text.drop_first())
    } else {
        text
    }
}

pub open spec fn trim_end(text: Seq<char>) -> Seq<char>
    decreases text.len(),
{
    if text.len() > 0 && is_white_space(text.last()) {
        trim_end(text.drop_last())
    } else {
        text
    }
}

/// The text without the white space around it.
pub open spec fn trim(text: Seq<char>) -> Seq<char> {
    trim_end(trim_start(text))
}

/// What follows the prefix, if the text starts with it.
pub open spec fn strip_prefix(text: Seq<char>, prefix: Seq<char>) -> Option<Seq<char>> {
    if prefix.is_prefix_of(text) {
        Some(text.skip(prefix.len() as int))
    } else {
        None
    }
}

/// Where the first line feed stands; the length of the text if there is none.
pub open spec fn line_feed(text: Seq<char>) -> nat
    decreases text.len(),
{
    if text.len() == 0 || text[0] == '\n' {
        0
    } else {
        1 + line_feed(text.drop_first())
    }
}

/// A line without the carriage return that its line feed came with.
pub open spec fn without_return(line: Seq<char>) -> Seq<char> {
    if line.len() > 0 && line.last() == '\r' {
        line.drop_last()
    } else {
        line
    }
}

/// The lines of the text. Each ends at a line feed, with or without a carriage return before it;
/// the last one may also end with the text.
pub open spec fn lines(text: Seq<char>) -> Seq<Seq<char>>
    decreases text.len(),
{
    if text.len() == 0 {
        Seq::empty()
    } else {
        let end = line_feed(text) as int;
        if end >= text.len() {
            seq![text]
        } else {
            seq![without_return(text.take(end))] + lines(text.skip(end + 1))
        }
    }
}

/// Whether the characters are the same but for the case of an ASCII letter.
pub open spec fn same_letter(a: char, b: char) -> bool {
    ||| a == b
    ||| 'A' <= a <= 'Z' && b as int == a as int + 32
    ||| 'A' <= b <= 'Z' && a as int == b as int + 32
}

/// Whether the texts are the same but for the case of ASCII letters.
pub open spec fn same_ignoring_case(a: Seq<char>, b: Seq<char>) -> bool {
    &&& a.len() == b.len()
    &&& forall|i: int| 0 <= i < a.len() ==> same_letter(#[trigger] a[i], b[i])
}

/// The text with a backslash in place of every slash.
pub open spec fn backslashed(text: Seq<char>) -> Seq<char> {
    text.map_values(
        |c: char|
            if c == '/' {
                '\\'
            } else {
                c
            },
    )
}

/// Whether the text is one name on every host: nothing that separates names and nothing that stands
/// for another directory.
pub open spec fn is_plain_name(text: Seq<char>) -> bool {
    &&& text.len() > 0
    &&& text != "."@ && text != ".."@
    &&& forall|i: int|
        0 <= i < text.len() ==> #[trigger] text[i] != '/' && text[i] != '\\' && text[i] != ':'
}

/// What `String::from_utf8_lossy` makes of the bytes.
pub uninterp spec fn utf8_lossy(bytes: Seq<u8>) -> Seq<char>;

/// Calls `String::from_utf8_lossy`, which reads the bytes as UTF-8 and puts a replacement
/// character wherever they are not. What it returns depends on the bytes alone, and bytes that
/// are UTF-8 throughout come back as the text that they encode.
#[verifier::external_body]
fn from_utf8_lossy(bytes: &Vec<u8>) -> (text: String)
    ensures
        text@ == utf8_lossy(bytes@),
        vstd::utf8::valid_utf8(bytes@) ==> text@ == vstd::utf8::decode_utf8(bytes@),
{
    String::from_utf8_lossy(bytes).into_owned()
}

/// The text that bytes are read as: the one that they encode, if they are UTF-8 throughout, else
/// one with replacement characters.
pub open spec fn text_of(bytes: Seq<u8>) -> Seq<char> {
    if vstd::utf8::valid_utf8(bytes) {
        vstd::utf8::decode_utf8(bytes)
    } else {
        utf8_lossy(bytes)
    }
}

/// Reads bytes as text.
pub fn read_text(bytes: &Vec<u8>) -> (text: String)
    ensures
        text@ == text_of(bytes@),
{
    from_utf8_lossy(bytes)
}

fn white_space(c: char) -> (white: bool)
    ensures
        white == is_white_space(c),
{
    ('\u{9}' <= c && c <= '\u{d}') || c == '\u{20}' || c == '\u{85}' || c == '\u{a0}' || c
        == '\u{1680}' || ('\u{2000}' <= c && c <= '\u{200a}') || c == '\u{2028}' || c == '\u{2029}'
        || c == '\u{202f}' || c == '\u{205f}' || c == '\u{3000}'
}

fn characters(text: &str) -> (chars: Vec<char>)
    ensures
        chars@ == text@,
{
    let mut chars: Vec<char> = Vec::new();
    for c in iter: text.chars()
        invariant
            chars@ == text@.take(iter.index() as int),
            iter.seq() == text@,
    {
        chars.push(c);
        assert(chars@ =~= text@.take(iter.index() + 1));
    }
    assert(text@.take(text@.len() as int) =~= text@);
    chars
}

/// The text without the white space around it.
pub fn trimmed(text: &str) -> (rest: String)
    ensures
        rest@ == trim(text@),
{
    let chars = characters(text);
    let mut start: usize = 0;
    assert(text@.skip(0) =~= text@);
    while start < chars.len() && white_space(chars[start])
        invariant
            start <= chars@.len(),
            chars@ == text@,
            trim_start(text@) == trim_start(text@.skip(start as int)),
        decreases chars.len() - start,
    {
        assert(text@.skip(start as int).drop_first() =~= text@.skip(start + 1));
        start = start + 1;
    }
    let mut end: usize = chars.len();
    assert(text@.skip(start as int) =~= text@.subrange(start as int, end as int));
    while end > start && white_space(chars[end - 1])
        invariant
            start <= end <= chars@.len(),
            chars@ == text@,
            trim(text@) == trim_end(text@.subrange(start as int, end as int)),
        decreases end,
    {
        assert(text@.subrange(start as int, end as int).drop_last() =~= text@.subrange(
            start as int,
            end - 1,
        ));
        end = end - 1;
    }
    text.substring_char(start, end).to_owned()
}

/// What follows the prefix, if the text starts with it.
pub fn without_prefix(text: &str, prefix: &str) -> (rest: Option<String>)
    ensures
        rest.deep_view() == strip_prefix(text@, prefix@),
{
    let len = text.unicode_len();
    let cut = prefix.unicode_len();
    if cut > len {
        return None;
    }
    if crate::path::same_text(text.substring_char(0, cut), prefix) {
        assert(prefix@.is_prefix_of(text@));
        let rest = text.substring_char(cut, len).to_owned();
        assert(rest@ =~= text@.skip(cut as int));
        Some(rest)
    } else {
        None
    }
}

/// Whether the text starts with the prefix.
pub fn has_prefix(text: &str, prefix: &str) -> (has: bool)
    ensures
        has == prefix@.is_prefix_of(text@),
{
    without_prefix(text, prefix).is_some()
}

/// Whether the text is one name on every host.
pub fn is_single_name(text: &str) -> (single: bool)
    ensures
        single == is_plain_name(text@),
{
    let chars = characters(text);
    if chars.len() == 0 || crate::path::same_text(text, ".") || crate::path::same_text(text, "..") {
        return false;
    }
    let mut i: usize = 0;
    while i < chars.len()
        invariant
            i <= chars@.len(),
            chars@ == text@,
            forall|j: int|
                0 <= j < i ==> #[trigger] text@[j] != '/' && text@[j] != '\\' && text@[j] != ':',
        decreases chars.len() - i,
    {
        if chars[i] == '/' || chars[i] == '\\' || chars[i] == ':' {
            assert(text@[i as int] == chars@[i as int]);
            return false;
        }
        i = i + 1;
    }
    true
}

proof fn line_feed_steps(text: Seq<char>, n: int)
    requires
        0 <= n <= text.len(),
        forall|i: int| 0 <= i < n ==> text[i] != '\n',
    ensures
        line_feed(text) == n + line_feed(text.skip(n)),
    decreases n,
{
    if n == 0 {
        assert(text.skip(0) =~= text);
    } else {
        assert forall|i: int| 0 <= i < n - 1 implies text.drop_first()[i] != '\n' by {
            assert(text.drop_first()[i] == text[i + 1]);
        }
        line_feed_steps(text.drop_first(), n - 1);
        assert(text.drop_first().skip(n - 1) =~= text.skip(n));
    }
}

fn line_without_return(text: &str, chars: &Vec<char>, start: usize, end: usize) -> (line: String)
    requires
        chars@ == text@,
        start <= end <= text@.len(),
    ensures
        line@ == without_return(text@.subrange(start as int, end as int)),
{
    if end > start && chars[end - 1] == '\r' {
        assert(text@.subrange(start as int, end as int).drop_last() =~= text@.subrange(
            start as int,
            end - 1,
        ));
        text.substring_char(start, end - 1).to_owned()
    } else {
        text.substring_char(start, end).to_owned()
    }
}

/// The lines of the text.
pub fn split_lines(text: &str) -> (found: Vec<String>)
    ensures
        found.deep_view() == lines(text@),
{
    let chars = characters(text);
    let mut found: Vec<String> = Vec::new();
    let mut start: usize = 0;
    let mut i: usize = 0;
    assert(text@.skip(0) =~= text@);
    assert(found.deep_view() + lines(text@) =~= lines(text@));
    while i < chars.len()
        invariant
            start <= i <= chars@.len(),
            chars@ == text@,
            forall|j: int| start <= j < i ==> text@[j] != '\n',
            lines(text@) == found.deep_view() + lines(text@.skip(start as int)),
        decreases chars.len() - i,
    {
        if chars[i] == '\n' {
            let ghost rest = text@.skip(start as int);
            let ghost before = found.deep_view();
            let line = line_without_return(text, &chars, start, i);
            found.push(line);
            proof {
                line_feed_steps(rest, i - start);
                assert(rest.take(i - start) =~= text@.subrange(start as int, i as int));
                assert(rest.skip(i - start + 1) =~= text@.skip(i + 1));
                assert(found.deep_view() =~= before.push(line@));
                assert(before + lines(rest) =~= found.deep_view() + lines(text@.skip(i + 1)));
            }
            start = i + 1;
        }
        i = i + 1;
    }
    let ghost rest = text@.skip(start as int);
    if start < chars.len() {
        let ghost before = found.deep_view();
        let line = text.substring_char(start, chars.len()).to_owned();
        found.push(line);
        proof {
            line_feed_steps(rest, rest.len() as int);
            assert(line@ =~= rest);
            assert(found.deep_view() =~= before.push(line@));
            assert(before + lines(rest) =~= found.deep_view());
        }
    } else {
        assert(found.deep_view() + lines(rest) =~= found.deep_view());
    }
    found
}

fn same_letter_as(a: char, b: char) -> (same: bool)
    ensures
        same == same_letter(a, b),
{
    a == b || ('A' <= a && a <= 'Z' && b as u32 == a as u32 + 32) || ('A' <= b && b <= 'Z'
        && a as u32 == b as u32 + 32)
}

/// Whether the texts are the same but for the case of ASCII letters.
pub fn equal_ignoring_case(a: &str, b: &str) -> (same: bool)
    ensures
        same == same_ignoring_case(a@, b@),
{
    let a_chars = characters(a);
    let b_chars = characters(b);
    same_characters(&a_chars, &b_chars)
}

fn same_characters(a: &Vec<char>, b: &Vec<char>) -> (same: bool)
    ensures
        same == same_ignoring_case(a@, b@),
{
    if a.len() != b.len() {
        return false;
    }
    let mut i: usize = 0;
    while i < a.len()
        invariant
            i <= a.len(),
            a.len() == b.len(),
            forall|j: int| 0 <= j < i ==> same_letter(#[trigger] a@[j], b@[j]),
        decreases a.len() - i,
    {
        if !same_letter_as(a[i], b[i]) {
            assert(!same_letter(a@[i as int], b@[i as int]));
            return false;
        }
        i = i + 1;
    }
    true
}

fn with_backslashes(text: &str) -> (chars: Vec<char>)
    ensures
        chars@ == backslashed(text@),
{
    let plain = characters(text);
    let mut chars: Vec<char> = Vec::new();
    let mut i: usize = 0;
    while i < plain.len()
        invariant
            i <= plain@.len(),
            plain@ == text@,
            chars@ == backslashed(text@).take(i as int),
        decreases plain.len() - i,
    {
        chars.push(
            if plain[i] == '/' {
                '\\'
            } else {
                plain[i]
            },
        );
        i = i + 1;
        assert(chars@ =~= backslashed(text@).take(i as int));
    }
    assert(chars@ =~= backslashed(text@));
    chars
}

/// Whether the texts are the same but for the case of ASCII letters and the kind of slash.
pub fn equal_ignoring_case_and_slashes(a: &str, b: &str) -> (same: bool)
    ensures
        same == same_ignoring_case(backslashed(a@), backslashed(b@)),
{
    let a_chars = with_backslashes(a);
    let b_chars = with_backslashes(b);
    same_characters(&a_chars, &b_chars)
}

/// Where case is ignored, the order of two texts makes no difference.
pub proof fn case_is_ignored_both_ways(a: Seq<char>, b: Seq<char>)
    ensures
        same_ignoring_case(a, b) == same_ignoring_case(b, a),
{
    if same_ignoring_case(a, b) {
        assert forall|i: int| 0 <= i < b.len() implies same_letter(#[trigger] b[i], a[i]) by {
            assert(same_letter(a[i], b[i]));
        }
    }
    if same_ignoring_case(b, a) {
        assert forall|i: int| 0 <= i < a.len() implies same_letter(#[trigger] a[i], b[i]) by {
            assert(same_letter(b[i], a[i]));
        }
    }
}

/// The letter in lower case, if it is an ASCII letter, else the character itself.
pub open spec fn lower(c: char) -> char {
    if 'A' <= c <= 'Z' {
        (c as u32 + 32) as char
    } else {
        c
    }
}

/// The text with its ASCII letters in lower case.
pub open spec fn lowered(text: Seq<char>) -> Seq<char> {
    text.map_values(|c: char| lower(c))
}

/// To ignore case is to compare in lower case, over the whole length of both texts.
pub proof fn ignoring_case_is_comparing_in_lower_case(a: Seq<char>, b: Seq<char>)
    ensures
        same_ignoring_case(a, b) <==> lowered(a) == lowered(b),
{
    if same_ignoring_case(a, b) {
        assert forall|i: int| 0 <= i < a.len() implies lowered(a)[i] == lowered(b)[i] by {
            assert(same_letter(a[i], b[i]));
        }
        assert(lowered(a) =~= lowered(b));
    }
    if lowered(a) == lowered(b) {
        assert(lowered(a).len() == a.len() && lowered(b).len() == b.len());
        assert forall|i: int| 0 <= i < a.len() implies same_letter(#[trigger] a[i], b[i]) by {
            assert(lowered(a)[i] == lower(a[i]));
            assert(lowered(b)[i] == lower(b[i]));
        }
    }
}

/// Only slashes are turned, each where it stands.
pub proof fn only_slashes_are_turned(text: Seq<char>)
    ensures
        backslashed(text).len() == text.len(),
        forall|i: int|
            0 <= i < text.len() ==> #[trigger] backslashed(text)[i] == (if text[i] == '/' {
                '\\'
            } else {
                text[i]
            }),
{
}

/// What is trimmed off at either end is white space, and nothing more of it is left there.
pub proof fn only_white_space_is_trimmed(text: Seq<char>)
    ensures
        exists|before: Seq<char>, after: Seq<char>|
            text == #[trigger] (before + trim(text) + after) && (forall|i: int|
                0 <= i < before.len() ==> is_white_space(#[trigger] before[i])) && (forall|i: int|
                0 <= i < after.len() ==> is_white_space(#[trigger] after[i])),
        trim(text).len() > 0 ==> !is_white_space(trim(text)[0]) && !is_white_space(
            trim(text).last(),
        ),
{
    let from = trim_start(text);
    start_is_trimmed(text);
    end_is_trimmed(from);
    let before = text.take(text.len() - from.len());
    let after = from.skip(trim(text).len() as int);
    assert(text =~= before + trim(text) + after);
    assert forall|i: int| 0 <= i < after.len() implies is_white_space(#[trigger] after[i]) by {
        assert(is_white_space(from[trim(text).len() + i]));
    }
    if trim(text).len() > 0 {
        assert(trim(text)[0] == from[0]);
    }
}

proof fn start_is_trimmed(text: Seq<char>)
    ensures
        trim_start(text).len() <= text.len(),
        trim_start(text) == text.skip(text.len() - trim_start(text).len()),
        forall|i: int|
            0 <= i < text.len() - trim_start(text).len() ==> is_white_space(#[trigger] text[i]),
        trim_start(text).len() > 0 ==> !is_white_space(trim_start(text)[0]),
    decreases text.len(),
{
    if text.len() > 0 && is_white_space(text[0]) {
        let rest = text.drop_first();
        start_is_trimmed(rest);
        assert(trim_start(text) =~= text.skip(text.len() - trim_start(text).len()));
        assert forall|i: int| 0 <= i < text.len() - trim_start(text).len() implies is_white_space(
            #[trigger] text[i],
        ) by {
            if i > 0 {
                assert(is_white_space(rest[i - 1]));
            }
        }
    } else {
        assert(text.skip(0) =~= text);
    }
}

proof fn end_is_trimmed(text: Seq<char>)
    ensures
        trim_end(text).len() <= text.len(),
        trim_end(text) == text.take(trim_end(text).len() as int),
        forall|i: int|
            trim_end(text).len() <= i < text.len() ==> is_white_space(#[trigger] text[i]),
        trim_end(text).len() > 0 ==> !is_white_space(trim_end(text).last()),
    decreases text.len(),
{
    if text.len() > 0 && is_white_space(text.last()) {
        let rest = text.drop_last();
        end_is_trimmed(rest);
        assert(trim_end(text) =~= text.take(trim_end(text).len() as int));
        assert forall|i: int| trim_end(text).len() <= i < text.len() implies is_white_space(
            #[trigger] text[i],
        ) by {
            if i < rest.len() {
                assert(is_white_space(rest[i]));
            }
        }
    } else {
        assert(text.take(text.len() as int) =~= text);
    }
}

/// A text starts with a prefix exactly where it is the prefix and a rest, and that rest is what
/// follows.
pub proof fn a_prefix_and_the_rest_are_the_text(text: Seq<char>, prefix: Seq<char>)
    ensures
        forall|rest: Seq<char>| #[trigger]
            (prefix + rest) == text <==> strip_prefix(text, prefix) == Some(rest),
{
    assert forall|rest: Seq<char>| #[trigger]
        (prefix + rest) == text <==> strip_prefix(text, prefix) == Some(rest) by {
        if prefix + rest == text {
            assert(prefix =~= text.subrange(0, prefix.len() as int));
            assert(text.skip(prefix.len() as int) =~= rest);
        }
        if strip_prefix(text, prefix) == Some(rest) {
            assert(prefix + rest =~= text);
        }
    }
}

/// The lines of a text are cut at its line feeds and nowhere else. Before a line feed, one carriage
/// return is left out; what follows the last line feed is a line if it is not empty.
pub proof fn lines_are_cut_at_line_feeds(line: Seq<char>, rest: Seq<char>)
    requires
        !line.contains('\n'),
    ensures
        lines(line.push('\n') + rest) == seq![
            if line.len() > 0 && line.last() == '\r' {
                line.drop_last()
            } else {
                line
            },
        ] + lines(rest),
        lines(line) == (if line.len() == 0 {
            Seq::empty()
        } else {
            seq![line]
        }),
{
    let text = line.push('\n') + rest;
    assert forall|i: int| 0 <= i < line.len() implies text[i] != '\n' by {
        assert(line.contains(line[i]));
    }
    line_feed_steps(text, line.len() as int);
    assert(text.skip(line.len() as int)[0] == '\n');
    assert(text.take(line.len() as int) =~= line);
    assert(text.skip(line.len() as int + 1) =~= rest);
    assert forall|i: int| 0 <= i < line.len() implies line[i] != '\n' by {
        assert(line.contains(line[i]));
    }
    line_feed_steps(line, line.len() as int);
}

/// A plain name joined to a directory is one entry of it on every host: it is not empty, is not made
/// of one or two dots and has no character that separates names anywhere.
pub proof fn a_plain_name_separates_nothing(text: Seq<char>)
    ensures
        is_plain_name(text) <==> text.len() > 0 && text != seq!['.'] && text != seq!['.', '.']
            && !text.contains('/') && !text.contains('\\') && !text.contains(':'),
{
    reveal_strlit(".");
    reveal_strlit("..");
    assert("."@ =~= seq!['.']);
    assert(".."@ =~= seq!['.', '.']);
    if is_plain_name(text) {
        assert(forall|i: int| 0 <= i < text.len() ==> #[trigger] text[i] != '/');
    }
    if text.len() > 0 && !text.contains('/') && !text.contains('\\') && !text.contains(':') {
        assert forall|i: int| 0 <= i < text.len() implies #[trigger] text[i] != '/' && text[i]
            != '\\' && text[i] != ':' by {
            assert(text.contains(text[i]));
        }
    }
}

/// Bytes that are UTF-8 are read as what they encode, and all others as `String::from_utf8_lossy`
/// reads them.
pub proof fn utf8_is_read_as_what_it_encodes(bytes: Seq<u8>)
    ensures
        vstd::utf8::valid_utf8(bytes) ==> text_of(bytes) == vstd::utf8::decode_utf8(bytes),
        !vstd::utf8::valid_utf8(bytes) ==> text_of(bytes) == utf8_lossy(bytes),
{
}

} // verus!
