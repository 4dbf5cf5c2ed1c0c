//! Characters, words and decimal numbers: the text primitives the rest of the
//! library is stated over. A `&str` or `String` is viewed as its characters.

use vstd::prelude::*;
use vstd::utf8::{decode_utf8, valid_utf8};

verus! {

/// `String::push` appends one character.
pub assume_specification[ String::push ](text: &mut String, character: char)
    ensures
        final(text)@ == old(text)@.push(character),
;

/// The characters of `text`.
pub fn chars_of(text: &str) -> (result: Vec<char>)
    ensures
        result@ == text@,
{
    let mut result: Vec<char> = Vec::new();
    for character in walk: text.chars()
        invariant
            walk.seq() == text@,
            result@ == text@.take(walk.index() as int),
    {
        result.push(character);
        assert(text@.take(walk.index() + 1) =~= text@.take(walk.index() as int).push(character));
    }
    assert(text@.take(text@.len() as int) =~= text@);
    result
}

/// A string with exactly these characters.
pub fn string_of(characters: &[char]) -> (result: String)
    ensures
        result@ == characters@,
{
    let mut result = String::new();
    for index in 0..characters.len()
        invariant
            result@ == characters@.take(index as int),
    {
        result.push(characters[index]);
        assert(characters@.take(index + 1) =~= characters@.take(index as int).push(characters@[index as int]));
    }
    assert(characters@.take(characters@.len() as int) =~= characters@);
    result
}

/// The lower-case form of an ASCII letter; every other character unchanged.
pub open spec fn ascii_lower(character: char) -> char {
    if 'A' <= character && character <= 'Z' {
        (character as u32 + 32) as char
    } else {
        character
    }
}

pub fn to_ascii_lower(character: char) -> (result: char)
    ensures
        result == ascii_lower(character),
{
    if 'A' <= character && character <= 'Z' {
        ((character as u8) + 32) as char
    } else {
        character
    }
}

/// The ASCII lower-case form of a text, character by character.
pub open spec fn lowered(text: Seq<char>) -> Seq<char> {
    text.map_values(|character: char| ascii_lower(character))
}

pub fn to_lowered(characters: &[char]) -> (result: Vec<char>)
    ensures
        result@ == lowered(characters@),
{
    let mut result: Vec<char> = Vec::new();
    for index in 0..characters.len()
        invariant
            result@ == lowered(characters@).take(index as int),
    {
        result.push(to_ascii_lower(characters[index]));
        assert(lowered(characters@).take(index + 1) =~= lowered(characters@).take(index as int).push(
            lowered(characters@)[index as int],
        ));
    }
    assert(lowered(characters@).take(characters@.len() as int) =~= lowered(characters@));
    result
}

pub open spec fn is_digit(character: char) -> bool {
    '0' <= character && character <= '9'
}

pub open spec fn is_alphabetic(character: char) -> bool {
    ||| 'a' <= character && character <= 'z'
    ||| 'A' <= character && character <= 'Z'
}

pub open spec fn is_alphanumeric(character: char) -> bool {
    is_digit(character) || is_alphabetic(character)
}

/// Whether `character` is an ASCII digit.
pub fn ascii_digit(character: char) -> (result: bool)
    ensures
        result == is_digit(character),
{
    '0' <= character && character <= '9'
}

/// Whether `character` is an ASCII letter.
pub fn ascii_alphabetic(character: char) -> (result: bool)
    ensures
        result == is_alphabetic(character),
{
    ('a' <= character && character <= 'z') || ('A' <= character && character <= 'Z')
}

/// Whether `character` is an ASCII letter or digit.
pub fn ascii_alphanumeric(character: char) -> (result: bool)
    ensures
        result == is_alphanumeric(character),
{
    ascii_digit(character) || ascii_alphabetic(character)
}

/// Whether two slices hold the same characters.
pub fn same(left: &[char], right: &[char]) -> (result: bool)
    ensures
        result == (left@ == right@),
{
    if left.len() != right.len() {
        return false;
    }
    for index in 0..left.len()
        invariant
            left@.len() == right@.len(),
            left@.take(index as int) == right@.take(index as int),
    {
        if left[index] != right[index] {
            assert(left@[index as int] != right@[index as int]);
            return false;
        }
        assert(left@.take(index + 1) =~= left@.take(index as int).push(left@[index as int]));
        assert(right@.take(index + 1) =~= right@.take(index as int).push(right@[index as int]));
    }
    assert(left@.take(left@.len() as int) =~= left@);
    assert(right@.take(right@.len() as int) =~= right@);
    true
}

/// Whether two strings hold the same characters.
pub fn same_text(left: &str, right: &str) -> (result: bool)
    ensures
        result == (left@ == right@),
{
    let left = chars_of(left);
    let right = chars_of(right);
    same(&left, &right)
}

/// `prefix` stands at the front of `text`.
pub open spec fn has_prefix(text: Seq<char>, prefix: Seq<char>) -> bool {
    occurs_at(text, prefix, 0)
}

/// `suffix` stands at the end of `text`.
pub open spec fn has_suffix(text: Seq<char>, suffix: Seq<char>) -> bool {
    occurs_at(text, suffix, text.len() - suffix.len())
}

/// `part` stands in `text` from position `at` on.
pub open spec fn occurs_at(text: Seq<char>, part: Seq<char>, at: int) -> bool {
    &&& 0 <= at
    &&& at + part.len() <= text.len()
    &&& text.subrange(at, at + part.len()) == part
}

/// `part` stands somewhere in `text`.
pub open spec fn occurs(text: Seq<char>, part: Seq<char>) -> bool {
    exists|at: int| occurs_at(text, part, at)
}

/// Whether `part` stands in `text` at position `at`.
pub fn stands_at(text: &[char], part: &[char], at: usize) -> (result: bool)
    ensures
        result == occurs_at(text@, part@, at as int),
{
    if at > text.len() || text.len() - at < part.len() {
        return false;
    }
    for index in 0..part.len()
        invariant
            at + part@.len() <= text@.len() <= usize::MAX,
            text@.subrange(at as int, at + index) == part@.take(index as int),
    {
        if text[at + index] != part[index] {
            assert(text@.subrange(at as int, at + part@.len())[index as int] != part@[index as int]);
            return false;
        }
        assert(text@.subrange(at as int, at + index + 1) =~= text@.subrange(at as int, at + index).push(
            text@[at + index],
        ));
        assert(part@.take(index + 1) =~= part@.take(index as int).push(part@[index as int]));
    }
    assert(part@.take(part@.len() as int) =~= part@);
    true
}

/// The first position from `from` on at which `part` stands.
pub fn find(text: &[char], part: &[char], from: usize) -> (result: Option<usize>)
    ensures
        match result {
            Some(at) => {
                &&& from <= at
                &&& occurs_at(text@, part@, at as int)
                &&& forall|earlier: int| from <= earlier < at ==> !#[trigger] occurs_at(text@, part@, earlier)
            },
            None => forall|at: int| from <= at ==> !#[trigger] occurs_at(text@, part@, at),
        },
{
    let mut at: usize = from;
    while at <= text.len()
        invariant
            from <= at,
            forall|earlier: int| from <= earlier < at ==> !#[trigger] occurs_at(text@, part@, earlier),
        decreases text.len() + 1 - at,
    {
        if stands_at(text, part, at) {
            return Some(at);
        }
        if at == text.len() {
            return None;
        }
        at = at + 1;
    }
    None
}

/// Whether `part` stands somewhere in `text`.
pub fn contains(text: &[char], part: &[char]) -> (result: bool)
    ensures
        result == occurs(text@, part@),
{
    find(text, part, 0).is_some()
}

/// Whether `text` ends with `suffix`.
pub fn ends_with(text: &[char], suffix: &[char]) -> (result: bool)
    ensures
        result == has_suffix(text@, suffix@),
{
    suffix.len() <= text.len() && stands_at(text, suffix, text.len() - suffix.len())
}

/// The part of `text` from `from` up to, not counting, `to`.
pub fn part_of(text: &[char], from: usize, to: usize) -> (result: Vec<char>)
    requires
        from <= to <= text@.len(),
    ensures
        result@ == text@.subrange(from as int, to as int),
{
    let mut result: Vec<char> = Vec::new();
    for index in from..to
        invariant
            to <= text@.len(),
            result@ == text@.subrange(from as int, index as int),
    {
        result.push(text[index]);
        assert(text@.subrange(from as int, index + 1) =~= text@.subrange(from as int, index as int).push(
            text@[index as int],
        ));
    }
    result
}

/// The character that writes the decimal digit `value`.
pub open spec fn digit_char(value: nat) -> char {
    (48 + value) as char
}

/// The decimal form of `value`, without leading zeros.
pub open spec fn decimal(value: nat) -> Seq<char>
    decreases value,
{
    if value < 10 {
        seq![digit_char(value)]
    } else {
        decimal(value / 10).push(digit_char(value % 10))
    }
}

/// Appends the decimal form of `value`.
pub fn push_decimal(text: &mut String, value: u64)
    ensures
        final(text)@ == old(text)@ + decimal(value as nat),
    decreases value,
{
    if value >= 10 {
        push_decimal(text, value / 10);
    }
    let digit: u8 = 48 + (value % 10) as u8;
    text.push(digit as char);
    assert(text@ =~= old(text)@ + decimal(value as nat));
}

/// The decimal form of `value`.
pub fn decimal_of(value: u64) -> (result: String)
    ensures
        result@ == decimal(value as nat),
{
    let mut result = String::new();
    push_decimal(&mut result, value);
    assert(result@ =~= decimal(value as nat));
    result
}

/// Every character is an ASCII digit.
pub open spec fn all_digits(text: Seq<char>) -> bool {
    forall|index: int| 0 <= index < text.len() ==> is_digit(#[trigger] text[index])
}

/// The number that a run of digits writes.
pub open spec fn digits_value(text: Seq<char>) -> nat
    decreases text.len(),
{
    if text.len() == 0 {
        0
    } else {
        digits_value(text.drop_last()) * 10 + (text.last() as nat - 48) as nat
    }
}

/// A number as `str::parse` reads it into an unsigned type whose largest value
/// is `limit`: one optional `+`, then at least one digit.
pub open spec fn unsigned_number(text: Seq<char>, limit: nat) -> Option<nat> {
    let digits = if text.len() > 0 && text[0] == '+' {
        text.skip(1)
    } else {
        text
    };
    if digits.len() > 0 && all_digits(digits) && digits_value(digits) <= limit {
        Some(digits_value(digits))
    } else {
        None
    }
}

/// A number as `str::parse` reads it into a 64-bit signed type: one optional
/// sign, then at least one digit.
pub open spec fn signed_number(text: Seq<char>) -> Option<int> {
    if text.len() > 0 && text[0] == '-' {
        let digits = text.skip(1);
        if digits.len() > 0 && all_digits(digits) && digits_value(digits) <= 0x8000_0000_0000_0000 {
            Some(-(digits_value(digits) as int))
        } else {
            None
        }
    } else {
        match unsigned_number(text, 0x7fff_ffff_ffff_ffff) {
            Some(value) => Some(value as int),
            None => None,
        }
    }
}

/// Dropping the last characters of a run of digits does not make its number larger.
proof fn lemma_digits_value_grows(text: Seq<char>, kept: int)
    requires
        0 <= kept <= text.len(),
        all_digits(text),
    ensures
        digits_value(text.take(kept)) <= digits_value(text),
    decreases text.len() - kept,
{
    if kept < text.len() {
        lemma_digits_value_grows(text, kept + 1);
        assert(text.take(kept + 1).drop_last() =~= text.take(kept));
    } else {
        assert(text.take(kept) =~= text);
    }
}

/// The number that the digits from `from` on write, if it is at most `limit`.
fn read_digits(text: &[char], from: usize, limit: u64) -> (result: Option<u64>)
    requires
        from <= text@.len(),
    ensures
        ({
            let digits = text@.skip(from as int);
            match result {
                Some(value) => {
                    &&& digits.len() > 0 && all_digits(digits)
                    &&& digits_value(digits) == value
                    &&& value <= limit
                },
                None => digits.len() == 0 || !all_digits(digits) || digits_value(digits) > limit,
            }
        }),
{
    let ghost digits = text@.skip(from as int);
    if from == text.len() {
        return None;
    }
    let mut value: u64 = 0;
    let mut index: usize = from;
    while index < text.len()
        invariant
            from <= index <= text@.len(),
            digits == text@.skip(from as int),
            all_digits(digits.take(index - from)),
            value == digits_value(digits.take(index - from)),
            value <= limit,
        decreases text.len() - index,
    {
        let character = text[index];
        proof {
            assert(digits[index - from] == character);
            assert(digits.take(index - from + 1).drop_last() =~= digits.take(index - from));
            assert(digits.take(index - from + 1).last() == character);
        }
        if !ascii_digit(character) {
            return None;
        }
        proof {
            assert forall|place: int| 0 <= place < index - from + 1 implies is_digit(
                #[trigger] digits.take(index - from + 1)[place],
            ) by {
                if place < index - from {
                    assert(digits.take(index - from)[place] == digits.take(index - from + 1)[place]);
                }
            }
        }
        let digit: u64 = character as u64 - 48;
        if digit > limit || value > limit / 10 || value * 10 > limit - digit {
            proof {
                if all_digits(digits) {
                    lemma_digits_value_grows(digits, index - from + 1);
                }
            }
            return None;
        }
        value = value * 10 + digit;
        index = index + 1;
    }
    assert(digits.take(digits.len() as int) =~= digits);
    Some(value)
}

/// Reads an unsigned number that is at most `limit`.
pub fn parse_unsigned(text: &[char], limit: u64) -> (result: Option<u64>)
    ensures
        match result {
            Some(value) => unsigned_number(text@, limit as nat) == Some(value as nat),
            None => unsigned_number(text@, limit as nat) is None,
        },
{
    assert(text@.skip(0) =~= text@);
    if text.len() > 0 && text[0] == '+' {
        read_digits(text, 1, limit)
    } else {
        read_digits(text, 0, limit)
    }
}

/// Reads a 64-bit signed number.
pub fn parse_signed(text: &[char]) -> (result: Option<i64>)
    ensures
        match result {
            Some(value) => signed_number(text@) == Some(value as int),
            None => signed_number(text@) is None,
        },
{
    if text.len() > 0 && text[0] == '-' {
        match read_digits(text, 1, 0x8000_0000_0000_0000) {
            Some(value) => {
                if value == 0x8000_0000_0000_0000 {
                    Some(i64::MIN)
                } else {
                    Some(-(value as i64))
                }
            },
            None => None,
        }
    } else {
        match parse_unsigned(text, 0x7fff_ffff_ffff_ffff) {
            Some(value) => Some(value as i64),
            None => None,
        }
    }
}

/// The texts of a list of strings.
pub open spec fn texts(strings: Seq<String>) -> Seq<Seq<char>> {
    strings.map_values(|string: String| string@)
}

/// The texts of a list of character vectors.
pub open spec fn rows(vectors: Seq<Vec<char>>) -> Seq<Seq<char>> {
    vectors.map_values(|vector: Vec<char>| vector@)
}

/// The pieces of `text` between the separators `first` and `second`.
pub open spec fn split(text: Seq<char>, first: char, second: char) -> Seq<Seq<char>>
    decreases text.len(),
{
    if text.len() == 0 {
        seq![Seq::<char>::empty()]
    } else {
        let pieces = split(text.drop_last(), first, second);
        let character = text.last();
        if character == first || character == second {
            pieces.push(Seq::<char>::empty())
        } else {
            pieces.drop_last().push(pieces.last().push(character))
        }
    }
}

/// Cuts `text` at every `first` and `second`.
pub fn split_chars(text: &[char], first: char, second: char) -> (result: Vec<Vec<char>>)
    ensures
        rows(result@) == split(text@, first, second),
{
    let mut done: Vec<Vec<char>> = Vec::new();
    let mut current: Vec<char> = Vec::new();
    assert(rows(done@).push(current@) =~= seq![Seq::<char>::empty()]);
    for index in 0..text.len()
        invariant
            split(text@.take(index as int), first, second) == rows(done@).push(current@),
    {
        let character = text[index];
        let ghost before = rows(done@).push(current@);
        proof {
            assert(text@.take(index + 1).drop_last() =~= text@.take(index as int));
            assert(before.drop_last() =~= rows(done@));
        }
        if character == first || character == second {
            done.push(current);
            current = Vec::new();
            assert(rows(done@).push(current@) =~= before.push(Seq::<char>::empty()));
        } else {
            current.push(character);
        }
    }
    assert(text@.take(text@.len() as int) =~= text@);
    let ghost finished = rows(done@).push(current@);
    done.push(current);
    assert(rows(done@) =~= finished);
    done
}

/// Appends `part` to `text`.
pub fn push_text(text: &mut String, part: &str)
    ensures
        final(text)@ == old(text)@ + part@,
{
    text.append(part);
}

/// The two texts one after the other.
pub fn joined(first: &str, second: &str) -> (result: String)
    ensures
        result@ == first@ + second@,
{
    let mut text = first.to_owned();
    text.append(second);
    text
}

/// A character with the Unicode property `White_Space`.
pub open spec fn white_space(character: char) -> bool {
    let code = character as u32;
    ||| 0x09 <= code <= 0x0d
    ||| code == 0x20
    ||| code == 0x85
    ||| code == 0xa0
    ||| code == 0x1680
    ||| 0x2000 <= code <= 0x200a
    ||| code == 0x2028
    ||| code == 0x2029
    ||| code == 0x202f
    ||| code == 0x205f
    ||| code == 0x3000
}

pub fn is_white_space(character: char) -> (result: bool)
    ensures
        result == white_space(character),
{
    let code: u32 = character as u32;
    (0x09 <= code && code <= 0x0d) || code == 0x20 || code == 0x85 || code == 0xa0 || code == 0x1680 || (0x2000
        <= code && code <= 0x200a) || code == 0x2028 || code == 0x2029 || code == 0x202f || code == 0x205f
        || code == 0x3000
}

/// What `String::from_utf8_lossy` makes of bytes.
pub uninterp spec fn lossy_text(bytes: Seq<u8>) -> Seq<char>;

/// Calls `String::from_utf8_lossy`. Valid UTF-8 is decoded.
#[verifier::external_body]
pub(crate) fn text_from_bytes(bytes: &[u8]) -> (result: String)
    ensures
        result@ == lossy_text(bytes@),
        valid_utf8(bytes@) ==> result@ == decode_utf8(bytes@),
{
    String::from_utf8_lossy(bytes).into_owned()
}

/// `text` without the white space at its end.
pub open spec fn trimmed_end(text: Seq<char>) -> Seq<char>
    decreases text.len(),
{
    if text.len() > 0 && white_space(text.last()) {
        trimmed_end(text.drop_last())
    } else {
        text
    }
}

/// `text` without the white space at its start.
pub open spec fn trimmed_start(text: Seq<char>) -> Seq<char>
    decreases text.len(),
{
    if text.len() > 0 && white_space(text[0]) {
        trimmed_start(text.skip(1))
    } else {
        text
    }
}

/// `text` without the white space around it.
pub open spec fn trimmed(text: Seq<char>) -> Seq<char> {
    trimmed_end(trimmed_start(text))
}

/// `text` without the white space at its end.
pub fn trim_end(text: &[char]) -> (result: Vec<char>)
    ensures
        result@ == trimmed_end(text@),
{
    let mut end: usize = text.len();
    assert(text@.take(end as int) =~= text@);
    while end > 0 && is_white_space(text[end - 1])
        invariant
            end <= text@.len(),
            trimmed_end(text@) == trimmed_end(text@.take(end as int)),
        decreases end,
    {
        assert(text@.take(end as int).drop_last() =~= text@.take(end - 1));
        end = end - 1;
    }
    let result = part_of(text, 0, end);
    assert(result@ =~= text@.take(end as int));
    result
}

/// `text` without the white space around it.
pub fn trim(text: &[char]) -> (result: Vec<char>)
    ensures
        result@ == trimmed(text@),
{
    let mut start: usize = 0;
    assert(text@.skip(0) =~= text@);
    while start < text.len() && is_white_space(text[start])
        invariant
            start <= text@.len(),
            trimmed_start(text@) == trimmed_start(text@.skip(start as int)),
        decreases text@.len() - start,
    {
        assert(text@.skip(start as int).skip(1) =~= text@.skip(start + 1));
        start = start + 1;
    }
    let rest = part_of(text, start, text.len());
    assert(rest@ =~= text@.skip(start as int));
    trim_end(&rest)
}

/// A copy of a list of strings.
pub fn copy_texts(strings: &Vec<String>) -> (result: Vec<String>)
    ensures
        result@ == strings@,
{
    let mut result: Vec<String> = Vec::new();
    for index in 0..strings.len()
        invariant
            result@ == strings@.take(index as int),
    {
        result.push(strings[index].clone());
        assert(strings@.take(index + 1) =~= strings@.take(index as int).push(strings@[index as int]));
    }
    assert(strings@.take(strings@.len() as int) =~= strings@);
    result
}

/// Adds a text to a list.
pub fn add_text(list: &mut Vec<String>, text: &str)
    ensures
        texts(final(list)@) == texts(old(list)@).push(text@),
{
    let ghost before = texts(list@);
    let copy = text.to_owned();
    list.push(copy);
    assert(texts(list@) =~= before.push(text@));
}

/// What a debug print makes of a text.
pub uninterp spec fn debug_quoted(text: Seq<char>) -> Seq<char>;

/// Formats a text with the `Debug` implementation of `str`.
#[verifier::external_body]
pub(crate) fn debug_text(text: &str) -> (result: String)
    ensures
        result@ == debug_quoted(text@),
{
    format!("{text:?}")
}

/// What `str::to_lowercase` makes of a text.
pub uninterp spec fn lowercase(text: Seq<char>) -> Seq<char>;

/// Calls `str::to_lowercase`. Of a text of ASCII characters it is stated that only
/// letters change.
#[verifier::external_body]
pub(crate) fn to_lowercase(text: &str) -> (result: String)
    ensures
        result@ == lowercase(text@),
        (forall|index: int| 0 <= index < text@.len() ==> (#[trigger] text@[index] as u32) < 128) ==> result@
            == lowered(text@),
{
    text.to_lowercase()
}

} // verus!
