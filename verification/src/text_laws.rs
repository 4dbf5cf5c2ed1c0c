//! What the text primitives promise of every text.

use vstd::prelude::*;

use crate::text::{
    all_digits, ascii_lower, decimal, digits_value, has_prefix, has_suffix, is_alphabetic, is_alphanumeric, is_digit,
    lowered, occurs, occurs_at, signed_number, split, trimmed, trimmed_end, trimmed_start, unsigned_number,
    white_space,
};
use crate::wsl::process::lemma_decimal_reads_back;

verus! {

/// Capital letters become small ones and nothing else changes; to do it again
/// changes nothing.
pub proof fn law_small_letters(character: char)
    ensures
        'A' <= character <= 'Z' ==> 'a' <= ascii_lower(character) <= 'z' && ascii_lower(character) as int - 'a' as int
            == character as int - 'A' as int,
        !('A' <= character <= 'Z') ==> ascii_lower(character) == character,
        ascii_lower(ascii_lower(character)) == ascii_lower(character),
{
}

/// A text in small letters has the letters of the text, one for one.
pub proof fn law_small_letters_of_a_text(text: Seq<char>, more: Seq<char>)
    ensures
        lowered(text).len() == text.len(),
        lowered(text + more) == lowered(text) + lowered(more),
        lowered(lowered(text)) == lowered(text),
        forall|index: int| 0 <= index < text.len() ==> #[trigger] lowered(text)[index] == ascii_lower(text[index]),
{
    assert(lowered(text + more) =~= lowered(text) + lowered(more));
    assert(lowered(lowered(text)) =~= lowered(text));
}

/// Letters and digits are those of ASCII.
pub proof fn law_letters_and_digits(character: char)
    ensures
        is_digit(character) <==> '0' <= character <= '9',
        is_alphabetic(character) <==> 'a' <= character <= 'z' || 'A' <= character <= 'Z',
        is_alphanumeric(character) <==> is_digit(character) || is_alphabetic(character),
{
}

/// A text begins with its first part, ends with its last, and holds what stands in
/// between.
pub proof fn law_parts_occur(before: Seq<char>, part: Seq<char>, after: Seq<char>)
    ensures
        has_prefix(part + after, part),
        has_suffix(before + part, part),
        occurs(before + part + after, part),
        part.len() > before.len() ==> !occurs(before, part) && !has_prefix(before, part) && !has_suffix(before, part),
{
    assert((part + after).subrange(0, part.len() as int) =~= part);
    assert((before + part).subrange(before.len() as int, (before + part).len() as int) =~= part);
    let whole = before + part + after;
    assert(whole.subrange(before.len() as int, before.len() as int + part.len()) =~= part);
    assert(occurs_at(whole, part, before.len() as int));
}

/// Where a text begins with a part, every character of the part is the text's own.
pub proof fn law_prefix_is_the_beginning(text: Seq<char>, prefix: Seq<char>)
    requires
        has_prefix(text, prefix),
    ensures
        text == prefix + text.skip(prefix.len() as int),
{
    assert(text.subrange(0, prefix.len() as int) == prefix);
    assert(text =~= prefix + text.skip(prefix.len() as int)) by {
        assert forall|index: int| 0 <= index < prefix.len() implies text[index] == prefix[index] by {
            assert(text.subrange(0, prefix.len() as int)[index] == text[index]);
        }
    }
}

/// A number is read back from its decimal form, with or without a plus, up to the
/// limit.
pub proof fn law_numbers_are_read_back(value: nat, limit: nat)
    ensures
        all_digits(decimal(value)),
        digits_value(decimal(value)) == value,
        unsigned_number(decimal(value), limit) == (if value <= limit {
            Some(value)
        } else {
            None
        }),
        unsigned_number(seq!['+'] + decimal(value), limit) == unsigned_number(decimal(value), limit),
        value <= 0x7fff_ffff_ffff_ffff ==> signed_number(decimal(value)) == Some(value as int),
        value <= 0x8000_0000_0000_0000 ==> signed_number(seq!['-'] + decimal(value)) == Some(-(value as int)),
        value > 0x8000_0000_0000_0000 ==> signed_number(seq!['-'] + decimal(value)) is None,
{
    lemma_decimal_reads_back(value);
    let text = decimal(value);
    assert(is_digit(text[0]));
    assert((seq!['+'] + text).skip(1) =~= text);
    assert((seq!['-'] + text).skip(1) =~= text);
}

/// The value of digits counts each by its place.
pub proof fn law_digits_count_by_place(digits: Seq<char>, last: char)
    requires
        is_digit(last),
    ensures
        digits_value(digits.push(last)) == digits_value(digits) * 10 + (last as int - '0' as int),
        digits_value(Seq::empty()) == 0,
{
    assert(digits.push(last).drop_last() =~= digits);
}

/// Nothing but digits is read as a number.
pub proof fn law_only_digits_are_numbers(text: Seq<char>, at: int, limit: nat)
    requires
        0 < at < text.len(),
        !is_digit(text[at]),
    ensures
        unsigned_number(text, limit) is None,
        signed_number(text) is None,
        unsigned_number(Seq::empty(), limit) is None,
        signed_number(Seq::empty()) is None,
{
    assert(text.skip(1)[at - 1] == text[at]);
}

proof fn lemma_end_is_trimmed(text: Seq<char>)
    ensures
        trimmed_end(text).len() <= text.len(),
        text.take(trimmed_end(text).len() as int) == trimmed_end(text),
        trimmed_end(text).len() > 0 ==> !white_space(trimmed_end(text).last()),
        forall|index: int| trimmed_end(text).len() <= index < text.len() ==> white_space(#[trigger] text[index]),
    decreases text.len(),
{
    if text.len() > 0 && white_space(text.last()) {
        let front = text.drop_last();
        lemma_end_is_trimmed(front);
        assert(text.take(trimmed_end(front).len() as int) =~= front.take(trimmed_end(front).len() as int));
        assert forall|index: int| trimmed_end(text).len() <= index < text.len() implies white_space(
            #[trigger] text[index],
        ) by {
            if index < front.len() {
                assert(front[index] == text[index]);
            }
        }
    } else {
        assert(text.take(text.len() as int) =~= text);
    }
}

proof fn lemma_start_is_trimmed(text: Seq<char>)
    ensures
        trimmed_start(text).len() <= text.len(),
        text.skip(text.len() - trimmed_start(text).len()) == trimmed_start(text),
        trimmed_start(text).len() > 0 ==> !white_space(trimmed_start(text)[0]),
        forall|index: int|
            0 <= index < text.len() - trimmed_start(text).len() ==> white_space(#[trigger] text[index]),
    decreases text.len(),
{
    if text.len() > 0 && white_space(text[0]) {
        let rest = text.skip(1);
        lemma_start_is_trimmed(rest);
        let kept = trimmed_start(rest);
        assert(text.skip(text.len() - kept.len()) =~= rest.skip(rest.len() - kept.len()));
        assert forall|index: int| 0 <= index < text.len() - kept.len() implies white_space(#[trigger] text[index]) by {
            if index > 0 {
                assert(rest[index - 1] == text[index]);
            }
        }
    } else {
        assert(text.skip(0) =~= text);
    }
}

/// What is left of a text without the white space around it neither begins nor ends
/// with white space, and nothing else was lost.
pub proof fn law_white_space_around_is_dropped(text: Seq<char>)
    ensures
        trimmed(text).len() > 0 ==> !white_space(trimmed(text)[0]) && !white_space(trimmed(text).last()),
        exists|before: Seq<char>, after: Seq<char>| #[trigger] (before + trimmed(text) + after) == text && (forall|index: int|
            0 <= index < before.len() ==> white_space(#[trigger] before[index])) && (forall|index: int|
            0 <= index < after.len() ==> white_space(#[trigger] after[index])),
{
    lemma_start_is_trimmed(text);
    let rest = trimmed_start(text);
    lemma_end_is_trimmed(rest);
    let kept = trimmed_end(rest);
    let before = text.take(text.len() - rest.len());
    let after = rest.skip(kept.len() as int);
    if kept.len() > 0 {
        assert(rest.take(kept.len() as int)[0] == rest[0]);
    }
    assert(kept + after =~= rest);
    assert(before + rest =~= text);
    assert(before + kept + after =~= before + (kept + after));
    assert forall|index: int| 0 <= index < after.len() implies white_space(#[trigger] after[index]) by {
        assert(rest[kept.len() + index] == after[index]);
    }
    assert forall|index: int| 0 <= index < before.len() implies white_space(#[trigger] before[index]) by {
        assert(text[index] == before[index]);
    }
    assert(before + trimmed(text) + after == text);
}

/// Which characters are white space.
pub proof fn law_white_space_characters(character: char)
    ensures
        character == ' ' || character == '\t' || character == '\n' || character == '\r' ==> white_space(character),
        is_alphanumeric(character) ==> !white_space(character),
        '!' <= character <= '~' ==> !white_space(character),
{
}

/// A text is cut at its separators and nowhere else.
pub proof fn law_text_is_cut_at_separators(text: Seq<char>, first: char, second: char, character: char)
    ensures
        split(Seq::empty(), first, second) == seq![Seq::<char>::empty()],
        split(text, first, second).len() > 0,
        character == first || character == second ==> split(text.push(character), first, second) == split(
            text,
            first,
            second,
        ).push(Seq::empty()),
        character != first && character != second ==> split(text.push(character), first, second).len() == split(
            text,
            first,
            second,
        ).len() && split(text.push(character), first, second).last() == split(text, first, second).last().push(
            character,
        ) && split(text.push(character), first, second).drop_last() == split(text, first, second).drop_last(),
    decreases text.len(),
{
    if text.len() > 0 {
        law_text_is_cut_at_separators(text.drop_last(), first, second, text.last());
    }
    let pushed = text.push(character);
    let pieces = split(text, first, second);
    assert(pushed.drop_last() =~= text);
    assert(pushed.last() == character);
    if character != first && character != second {
        let last = pieces.last().push(character);
        assert(pieces.drop_last().push(last).drop_last() =~= pieces.drop_last());
    }
}

/// A text without separators is one piece.
pub proof fn law_text_without_separators_is_one_piece(text: Seq<char>, first: char, second: char)
    requires
        !text.contains(first),
        !text.contains(second),
    ensures
        split(text, first, second) == seq![text],
    decreases text.len(),
{
    if text.len() > 0 {
        let front = text.drop_last();
        assert(text[text.len() - 1] != first && text[text.len() - 1] != second);
        assert forall|wanted: char| #[trigger] front.contains(wanted) implies text.contains(wanted) by {
            let at = choose|at: int| 0 <= at < front.len() && front[at] == wanted;
            assert(text[at] == wanted);
        }
        law_text_without_separators_is_one_piece(front, first, second);
        assert(front.push(text.last()) =~= text);
        assert(seq![front].drop_last().push(text) =~= seq![text]);
    } else {
        assert(text =~= Seq::empty());
    }
}

/// What stands behind the last separator is the last piece.
pub proof fn law_last_piece_stands_behind_a_separator(
    text: Seq<char>,
    separator: char,
    name: Seq<char>,
    first: char,
    second: char,
)
    requires
        separator == first || separator == second,
        !name.contains(first),
        !name.contains(second),
    ensures
        split(text + seq![separator] + name, first, second) == split(text, first, second).push(name),
    decreases name.len(),
{
    let whole = text + seq![separator] + name;
    if name.len() == 0 {
        assert(whole.drop_last() =~= text);
        assert(whole.last() == separator);
        assert(name =~= Seq::empty());
    } else {
        let front = name.drop_last();
        assert(name[name.len() - 1] != first && name[name.len() - 1] != second);
        assert forall|wanted: char| #[trigger] front.contains(wanted) implies name.contains(wanted) by {
            let at = choose|at: int| 0 <= at < front.len() && front[at] == wanted;
            assert(name[at] == wanted);
        }
        law_last_piece_stands_behind_a_separator(text, separator, front, first, second);
        assert(whole.drop_last() =~= text + seq![separator] + front);
        assert(whole.last() == name.last());
        assert(front.push(name.last()) =~= name);
        assert(split(text, first, second).push(front).drop_last() =~= split(text, first, second));
    }
}

} // verus!
