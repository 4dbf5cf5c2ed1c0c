//! Keeping secrets out of the log: the values of authorization headers and
//! bearer tokens never reach a record.

use vstd::prelude::*;

use super::pattern::{bearer_tokens_concealed, regex_replace_all, replaced_all, BEARER_PATTERN};
use crate::text::{
    ascii_alphanumeric, chars_of, is_alphanumeric, is_white_space, lowered, part_of, string_of, to_ascii_lower,
    white_space,
};

verus! {

/// A character that can stand in the name of an HTTP header.
pub open spec fn header_char(character: char) -> bool {
    ||| is_alphanumeric(character)
    ||| seq!['!', '#', '$', '%', '&', '\'', '*', '+', '-', '.', '^', '_', '`', '|', '~'].contains(character)
}

pub fn is_header_char(character: char) -> (result: bool)
    ensures
        result == header_char(character),
{
    let listed = character == '!' || character == '#' || character == '$' || character == '%' || character == '&'
        || character == '\'' || character == '*' || character == '+' || character == '-' || character == '.'
        || character == '^' || character == '_' || character == '`' || character == '|' || character == '~';
    proof {
        let marks = seq!['!', '#', '$', '%', '&', '\'', '*', '+', '-', '.', '^', '_', '`', '|', '~'];
        assert(marks[0] == '!' && marks[1] == '#' && marks[2] == '$' && marks[3] == '%' && marks[4] == '&');
        assert(marks[5] == '\'' && marks[6] == '*' && marks[7] == '+' && marks[8] == '-' && marks[9] == '.');
        assert(marks[10] == '^' && marks[11] == '_' && marks[12] == '`' && marks[13] == '|' && marks[14] == '~');
        assert(listed == marks.contains(character));
    }
    ascii_alphanumeric(character) || listed
}

pub open spec fn line_break(character: char) -> bool {
    character == '\r' || character == '\n'
}

/// Where the line that `from` stands in ends.
pub open spec fn line_end(text: Seq<char>, from: int) -> int
    decreases text.len() - from,
{
    if 0 <= from < text.len() && !line_break(text[from]) {
        line_end(text, from + 1)
    } else {
        from
    }
}

/// How long the line break at `at` is.
pub open spec fn break_length(text: Seq<char>, at: int) -> int {
    if at >= text.len() {
        0
    } else if text[at] == '\r' && at + 1 < text.len() && text[at + 1] == '\n' {
        2
    } else {
        1
    }
}

/// The first place from `from` on that holds no white space.
pub open spec fn after_space(line: Seq<char>, from: int) -> int
    decreases line.len() - from,
{
    if 0 <= from < line.len() && white_space(line[from]) {
        after_space(line, from + 1)
    } else {
        from
    }
}

/// The name of the header whose values are secret, in lower case.
pub open spec fn secret_header() -> Seq<char> {
    seq!['a', 'u', 't', 'h', 'o', 'r', 'i', 'z', 'a', 't', 'i', 'o', 'n']
}

/// The secret header's name starts at `start`, stands on its own and is followed
/// by a colon.
pub open spec fn header_at(line: Seq<char>, start: int) -> bool {
    let colon = after_space(line, start + 13);
    &&& 0 <= start && start + 13 <= line.len()
    &&& lowered(line.subrange(start, start + 13)) == secret_header()
    &&& start == 0 || !header_char(line[start - 1])
    &&& colon < line.len() && line[colon] == ':'
}

/// The place of the colon of the first secret header from `start` on.
pub open spec fn header_colon_from(line: Seq<char>, start: int) -> Option<int>
    decreases line.len() - start,
{
    if start < 0 || start + 13 > line.len() {
        None
    } else if header_at(line, start) {
        Some(after_space(line, start + 13))
    } else {
        header_colon_from(line, start + 1)
    }
}

pub open spec fn header_colon(line: Seq<char>) -> Option<int> {
    header_colon_from(line, 0)
}

/// The header's value from `from` on names the bearer scheme.
pub open spec fn bearer_scheme(line: Seq<char>, from: int) -> bool {
    let start = after_space(line, from);
    &&& start + 6 < line.len()
    &&& lowered(line.subrange(start, start + 6)) == seq!['b', 'e', 'a', 'r', 'e', 'r']
    &&& white_space(line[start + 6])
}

/// What stands in place of the header's value.
pub open spec fn concealed(line: Seq<char>, colon: int) -> Seq<char> {
    if bearer_scheme(line, colon + 1) {
        " Bearer [REDACTED]"@
    } else {
        " [REDACTED]"@
    }
}

/// Whether a line goes on with the value of the secret header before it.
pub open spec fn continues(line: Seq<char>, folded: bool) -> bool {
    folded && line.len() > 0 && white_space(line[0])
}

/// Whether a line is a secret header or goes on with one.
pub open spec fn secret_line(line: Seq<char>, folded: bool) -> bool {
    continues(line, folded) || header_colon(line) is Some
}

/// A line with the value of its secret header concealed. `folded` says whether
/// the line before was secret: its value goes on in lines that start with white
/// space.
pub open spec fn line_concealed(line: Seq<char>, folded: bool) -> Seq<char> {
    if continues(line, folded) {
        line.take(after_space(line, 0)) + "[REDACTED]"@
    } else {
        match header_colon(line) {
            Some(colon) => line.take(colon + 1) + concealed(line, colon),
            None => line,
        }
    }
}

/// A text with the values of its secret headers concealed, from `from` on.
pub open spec fn concealed_from(text: Seq<char>, from: int, folded: bool) -> Seq<char>
    decreases text.len() - from,
{
    let end = line_end(text, from);
    let next = end + break_length(text, end);
    if 0 <= from < next <= text.len() {
        let line = text.subrange(from, end);
        line_concealed(line, folded) + text.subrange(end, next) + concealed_from(
            text,
            next,
            secret_line(line, folded),
        )
    } else {
        Seq::empty()
    }
}

pub open spec fn headers_concealed(text: Seq<char>) -> Seq<char> {
    concealed_from(text, 0, false)
}

/// A text without the values of its secret headers and without bearer tokens.
pub open spec fn redacted(text: Seq<char>) -> Seq<char> {
    replaced_all(BEARER_PATTERN@, headers_concealed(text), "Bearer [REDACTED]"@)
}

proof fn lemma_line_end_bounds(text: Seq<char>, from: int)
    requires
        0 <= from <= text.len(),
    ensures
        from <= line_end(text, from) <= text.len(),
        line_end(text, from) < text.len() ==> line_break(text[line_end(text, from)]),
        forall|place: int| from <= place < line_end(text, from) ==> !line_break(#[trigger] text[place]),
    decreases text.len() - from,
{
    if from < text.len() && !line_break(text[from]) {
        lemma_line_end_bounds(text, from + 1);
    }
}

proof fn lemma_after_space_bounds(line: Seq<char>, from: int)
    requires
        0 <= from <= line.len(),
    ensures
        from <= after_space(line, from) <= line.len(),
        forall|place: int| from <= place < after_space(line, from) ==> white_space(#[trigger] line[place]),
        after_space(line, from) < line.len() ==> !white_space(line[after_space(line, from)]),
    decreases line.len() - from,
{
    if from < line.len() && white_space(line[from]) {
        lemma_after_space_bounds(line, from + 1);
    }
}

fn find_line_end(text: &[char], from: usize) -> (result: usize)
    requires
        from <= text@.len(),
    ensures
        result == line_end(text@, from as int),
        from <= result <= text@.len(),
{
    let mut end: usize = from;
    while end < text.len() && text[end] != '\r' && text[end] != '\n'
        invariant
            from <= end <= text@.len(),
            line_end(text@, from as int) == line_end(text@, end as int),
        decreases text@.len() - end,
    {
        end = end + 1;
    }
    end
}

fn find_after_space(line: &[char], from: usize) -> (result: usize)
    requires
        from <= line@.len(),
    ensures
        result == after_space(line@, from as int),
        from <= result <= line@.len(),
{
    let mut place: usize = from;
    while place < line.len() && is_white_space(line[place])
        invariant
            from <= place <= line@.len(),
            after_space(line@, from as int) == after_space(line@, place as int),
        decreases line@.len() - place,
    {
        place = place + 1;
    }
    place
}

/// Whether `word`, in lower case, stands at `start` in whatever case.
fn word_at(line: &[char], start: usize, word: &[char]) -> (result: bool)
    requires
        start + word@.len() <= line@.len(),
    ensures
        result == (lowered(line@.subrange(start as int, start + word@.len())) == word@),
{
    let ghost part = lowered(line@.subrange(start as int, start + word@.len()));
    let total: usize = line.len();
    for index in 0..word.len()
        invariant
            start + word@.len() <= line@.len(),
            total == line@.len(),
            part == lowered(line@.subrange(start as int, start + word@.len())),
            forall|earlier: int| 0 <= earlier < index ==> part[earlier] == #[trigger] word@[earlier],
    {
        if to_ascii_lower(line[start + index]) != word[index] {
            assert(part[index as int] != word@[index as int]);
            return false;
        }
    }
    assert(part =~= word@);
    true
}

/// The place of the colon of the first secret header in `line`.
pub fn authorization_colon(line: &[char]) -> (result: Option<usize>)
    ensures
        match result {
            Some(colon) => header_colon(line@) == Some(colon as int) && colon < line@.len() <= usize::MAX,
            None => header_colon(line@) is None,
        },
{
    let name: [char; 13] = ['a', 'u', 't', 'h', 'o', 'r', 'i', 'z', 'a', 't', 'i', 'o', 'n'];
    assert(name@ =~= secret_header());
    let mut start: usize = 0;
    while start < line.len() && line.len() - start >= 13
        invariant
            start <= line@.len(),
            name@ == secret_header(),
            name@.len() == 13,
            header_colon(line@) == header_colon_from(line@, start as int),
        decreases line@.len() - start,
    {
        if (start == 0 || !is_header_char(line[start - 1])) && word_at(line, start, &name) {
            let colon = find_after_space(line, start + 13);
            if colon < line.len() && line[colon] == ':' {
                return Some(colon);
            }
        }
        start = start + 1;
    }
    None
}

fn names_bearer_scheme(line: &[char], from: usize) -> (result: bool)
    requires
        from <= line@.len(),
    ensures
        result == bearer_scheme(line@, from as int),
{
    let word: [char; 6] = ['b', 'e', 'a', 'r', 'e', 'r'];
    assert(word@ =~= seq!['b', 'e', 'a', 'r', 'e', 'r']);
    let start = find_after_space(line, from);
    line.len() - start > 6 && word_at(line, start, &word) && is_white_space(line[start + 6])
}

fn push_chars(text: &mut Vec<char>, part: &[char])
    ensures
        final(text)@ == old(text)@ + part@,
{
    let ghost before = text@;
    for index in 0..part.len()
        invariant
            text@ == before + part@.take(index as int),
    {
        text.push(part[index]);
        assert(part@.take(index + 1) =~= part@.take(index as int).push(part@[index as int]));
    }
    assert(part@.take(part@.len() as int) =~= part@);
}

/// Appends `line` with the value of its secret header concealed, and tells
/// whether it had one.
fn push_concealed(output: &mut Vec<char>, line: &[char], folded: bool) -> (result: bool)
    ensures
        final(output)@ == old(output)@ + line_concealed(line@, folded),
        result == secret_line(line@, folded),
{
    let ghost before = output@;
    if folded && line.len() > 0 && is_white_space(line[0]) {
        let indent = find_after_space(line, 0);
        let kept = part_of(line, 0, indent);
        assert(kept@ =~= line@.take(indent as int));
        push_chars(output, &kept);
        push_chars(output, &chars_of("[REDACTED]"));
        assert(output@ =~= before + line_concealed(line@, folded));
        return true;
    }
    match authorization_colon(line) {
        Some(colon) => {
            let kept = part_of(line, 0, colon + 1);
            assert(kept@ =~= line@.take(colon + 1));
            push_chars(output, &kept);
            if names_bearer_scheme(line, colon + 1) {
                push_chars(output, &chars_of(" Bearer [REDACTED]"));
            } else {
                push_chars(output, &chars_of(" [REDACTED]"));
            }
            assert(output@ =~= before + line_concealed(line@, folded));
            true
        },
        None => {
            push_chars(output, line);
            false
        },
    }
}

/// `message` with the values of its authorization headers concealed, lines folded
/// into such a header included.
pub fn redact_authorization_headers(message: &str) -> (result: String)
    ensures
        result@ == headers_concealed(message@),
{
    let text = chars_of(message);
    let mut output: Vec<char> = Vec::new();
    let mut from: usize = 0;
    let mut folded = false;
    assert(output@ + headers_concealed(message@) =~= headers_concealed(message@));
    while from < text.len()
        invariant
            from <= text@.len(),
            text@ == message@,
            output@ + concealed_from(text@, from as int, folded) == headers_concealed(message@),
        decreases text@.len() - from,
    {
        let ghost before = output@;
        let ghost was_folded = folded;
        let end = find_line_end(&text, from);
        proof {
            lemma_line_end_bounds(text@, from as int);
        }
        let length: usize = if end >= text.len() {
            0
        } else if text[end] == '\r' && text.len() - end > 1 && text[end + 1] == '\n' {
            2
        } else {
            1
        };
        let next = end + length;
        assert(next == end + break_length(text@, end as int));
        let line = part_of(&text, from, end);
        let ending = part_of(&text, end, next);
        folded = push_concealed(&mut output, &line, folded);
        push_chars(&mut output, &ending);
        let ghost rest = concealed_from(text@, next as int, folded);
        assert(output@ + rest =~= before + (line_concealed(line@, was_folded) + ending@ + rest));
        from = next;
    }
    assert(output@ + Seq::<char>::empty() =~= output@);
    string_of(&output)
}

/// `message` as it may be kept and shown.
pub fn redact(message: &str) -> (result: String)
    ensures
        result@ == redacted(message@),
        bearer_tokens_concealed(result@),
{
    let concealed_headers = redact_authorization_headers(message);
    regex_replace_all(BEARER_PATTERN, concealed_headers.as_str(), "Bearer [REDACTED]")
}

proof fn lemma_after_space_agrees(line: Seq<char>, other: Seq<char>, from: int, kept: int)
    requires
        0 <= from <= kept < line.len(),
        kept < other.len(),
        line.take(kept + 1) == other.take(kept + 1),
        !white_space(line[kept]),
    ensures
        after_space(line, from) == after_space(other, from),
        after_space(line, from) <= kept,
    decreases kept - from,
{
    assert(line.take(kept + 1)[from] == line[from]);
    assert(other.take(kept + 1)[from] == other[from]);
    if white_space(line[from]) {
        lemma_after_space_agrees(line, other, from + 1, kept);
    }
}

proof fn lemma_header_colon_agrees(line: Seq<char>, other: Seq<char>, start: int, colon: int)
    requires
        0 <= start,
        header_colon_from(line, start) == Some(colon),
        colon < other.len(),
        line.take(colon + 1) == other.take(colon + 1),
    ensures
        header_colon_from(other, start) == Some(colon),
        start + 13 <= colon < line.len(),
    decreases line.len() - start,
{
    if header_at(line, start) {
        lemma_after_space_bounds(line, start + 13);
        lemma_after_space_agrees(line, other, start + 13, colon);
    } else {
        lemma_header_colon_agrees(line, other, start + 1, colon);
        assert(line.take(colon + 1)[colon] == line[colon]);
        lemma_colon_holds_no_space(line, start + 1, colon);
        lemma_after_space_agrees(line, other, start + 13, colon);
    }
    let colon_here = after_space(line, start + 13);
    lemma_after_space_bounds(line, start + 13);
    assert(line.take(colon + 1)[colon_here] == line[colon_here]);
    assert(other.take(colon + 1)[colon_here] == other[colon_here]);
    assert(line.subrange(start, start + 13) =~= line.take(colon + 1).subrange(start, start + 13));
    assert(other.subrange(start, start + 13) =~= other.take(colon + 1).subrange(start, start + 13));
    if start > 0 {
        assert(line.take(colon + 1)[start - 1] == line[start - 1]);
        assert(other.take(colon + 1)[start - 1] == other[start - 1]);
    }
    assert(header_at(line, start) == header_at(other, start));
}

proof fn lemma_colon_holds_no_space(line: Seq<char>, start: int, colon: int)
    requires
        0 <= start,
        header_colon_from(line, start) == Some(colon),
    ensures
        0 <= colon < line.len(),
        line[colon] == ':',
        !white_space(line[colon]),
    decreases line.len() - start,
{
    if header_at(line, start) {
        lemma_after_space_bounds(line, start + 13);
    } else {
        lemma_colon_holds_no_space(line, start + 1, colon);
    }
}

/// Two lines that differ at most in what is secret of them: in what follows the
/// indentation where both go on with the value of a secret header, and in what
/// follows the colon of a secret header, but for whether the bearer scheme is named.
pub open spec fn alike(line: Seq<char>, other: Seq<char>, folded: bool) -> bool {
    ||| line == other
    ||| {
        &&& continues(line, folded)
        &&& continues(other, folded)
        &&& line.take(after_space(line, 0)) == other.take(after_space(other, 0))
    }
    ||| {
        &&& !continues(line, folded)
        &&& header_colon(line) matches Some(colon) && {
            &&& colon < other.len()
            &&& line.take(colon + 1) == other.take(colon + 1)
            &&& bearer_scheme(line, colon + 1) == bearer_scheme(other, colon + 1)
        }
    }
}

/// Two texts, one from `from` and one from `at` on, that have the same lines but for
/// what is secret of them. `folded` says whether the line before was secret.
pub open spec fn alike_from(text: Seq<char>, from: int, other: Seq<char>, at: int, folded: bool) -> bool
    decreases text.len() - from,
{
    let end = line_end(text, from);
    let next = end + break_length(text, end);
    let other_end = line_end(other, at);
    let other_next = other_end + break_length(other, other_end);
    if 0 <= from < next <= text.len() {
        let line = text.subrange(from, end);
        &&& 0 <= at < other_next <= other.len()
        &&& alike(line, other.subrange(at, other_end), folded)
        &&& text.subrange(end, next) == other.subrange(other_end, other_next)
        &&& alike_from(text, next, other, other_next, secret_line(line, folded))
    } else {
        !(0 <= at < other_next <= other.len())
    }
}

/// Two texts that differ at most in the values of their secret headers.
pub open spec fn differ_in_secrets_only(text: Seq<char>, other: Seq<char>) -> bool {
    alike_from(text, 0, other, 0, false)
}

proof fn lemma_alike_lines(line: Seq<char>, other: Seq<char>, folded: bool)
    requires
        alike(line, other, folded),
    ensures
        line_concealed(line, folded) == line_concealed(other, folded),
        secret_line(line, folded) == secret_line(other, folded),
{
    if line != other && !continues(line, folded) {
        let colon = header_colon(line)->0;
        lemma_header_colon_agrees(line, other, 0, colon);
        assert(line.take(colon + 1)[0] == line[0]);
        assert(other.take(colon + 1)[0] == other[0]);
    }
}

proof fn lemma_alike_texts(text: Seq<char>, from: int, other: Seq<char>, at: int, folded: bool)
    requires
        alike_from(text, from, other, at, folded),
    ensures
        concealed_from(text, from, folded) == concealed_from(other, at, folded),
    decreases text.len() - from,
{
    let end = line_end(text, from);
    let next = end + break_length(text, end);
    if 0 <= from < next <= text.len() {
        let line = text.subrange(from, end);
        let other_end = line_end(other, at);
        let other_next = other_end + break_length(other, other_end);
        lemma_alike_lines(line, other.subrange(at, other_end), folded);
        lemma_alike_texts(text, next, other, other_next, secret_line(line, folded));
    }
}

/// The values of secret headers cannot be told from the redacted text, on whichever
/// line the headers stand and however many lines are folded into them: two texts
/// that differ in them only are redacted to the same.
pub proof fn law_header_values_are_concealed(text: Seq<char>, other: Seq<char>)
    requires
        differ_in_secrets_only(text, other),
    ensures
        headers_concealed(text) == headers_concealed(other),
        redacted(text) == redacted(other),
{
    lemma_alike_texts(text, 0, other, 0, false);
}

/// A text of one line.
pub open spec fn one_line(text: Seq<char>) -> bool {
    forall|place: int| 0 <= place < text.len() ==> #[trigger] text[place] != '\n' && text[place] != '\r'
}

proof fn lemma_one_line_ends_at_its_end(text: Seq<char>, from: int)
    requires
        one_line(text),
        0 <= from <= text.len(),
    ensures
        line_end(text, from) == text.len(),
    decreases text.len() - from,
{
    if from < text.len() {
        assert(text[from] != '\n' && text[from] != '\r');
        lemma_one_line_ends_at_its_end(text, from + 1);
    }
}

proof fn lemma_one_line_is_concealed(line: Seq<char>)
    requires
        one_line(line),
    ensures
        headers_concealed(line) == line_concealed(line, false),
{
    lemma_one_line_ends_at_its_end(line, 0);
    if line.len() > 0 {
        let end = line.len() as int;
        assert(line.subrange(0, end) =~= line);
        assert(line.subrange(end, end) =~= Seq::empty());
        assert(line_end(line, end) == end);
        assert(concealed_from(line, end, secret_line(line, false)) =~= Seq::empty());
        assert(headers_concealed(line) =~= line_concealed(line, false));
    } else {
        assert(header_colon(line) is None);
        assert(headers_concealed(line) =~= line);
    }
}

/// Of a header that authorizes a client only its name is left, and the name of its scheme
/// if that is the bearer scheme; nothing of the value is, in whatever case the name is
/// written.
pub proof fn law_authorization_is_concealed(name: Seq<char>, value: Seq<char>)
    requires
        lowered(name) == "authorization"@,
        one_line(name + seq![':'] + value),
    ensures
        ({
            let shown = headers_concealed(name + seq![':'] + value);
            shown == name + seq![':'] + " [REDACTED]"@ || shown == name + seq![':'] + " Bearer [REDACTED]"@
        }),
        ({
            let start = after_space(value, 0);
            let bearer = start + 6 < value.len() && lowered(value.subrange(start, start + 6)) == "bearer"@
                && white_space(value[start + 6]);
            !bearer ==> headers_concealed(name + seq![':'] + value) == name + seq![':'] + " [REDACTED]"@
        }),
{
    let line = name + seq![':'] + value;
    reveal_strlit("authorization");
    reveal_strlit("bearer");
    assert("authorization"@ =~= secret_header());
    assert("bearer"@ =~= seq!['b', 'e', 'a', 'r', 'e', 'r']);
    assert(name.len() == lowered(name).len());
    assert(line.subrange(0, 13) =~= name);
    assert(line[13] == ':');
    assert(!white_space(':'));
    assert(after_space(line, 13) == 13);
    assert(header_at(line, 0));
    assert(header_colon(line) == Some(13int));
    lemma_one_line_is_concealed(line);
    assert(line.take(14) =~= name + seq![':']);
    lemma_space_behind(line, value, 14, 0);
    let start = after_space(value, 0);
    lemma_after_space_bounds(value, 0);
    if start + 6 < value.len() {
        assert(line.subrange(14 + start, 14 + start + 6) =~= value.subrange(start, start + 6));
    }
}

proof fn lemma_space_behind(line: Seq<char>, value: Seq<char>, from: int, at: int)
    requires
        0 <= at <= value.len(),
        0 <= from,
        line.len() == from + value.len(),
        forall|place: int| 0 <= place < value.len() ==> #[trigger] value[place] == line[from + place],
    ensures
        after_space(line, from + at) == from + after_space(value, at),
    decreases value.len() - at,
{
    if at < value.len() {
        assert(value[at] == line[from + at]);
        if white_space(value[at]) {
            lemma_space_behind(line, value, from, at + 1);
        }
    }
}

proof fn lemma_no_header(line: Seq<char>, start: int)
    requires
        0 <= start,
        forall|place: int|
            start <= place && place + 13 <= line.len() ==> lowered(#[trigger] line.subrange(place, place + 13))
                != "authorization"@,
    ensures
        header_colon_from(line, start) is None,
    decreases line.len() - start,
{
    reveal_strlit("authorization");
    assert("authorization"@ =~= secret_header());
    if start + 13 <= line.len() {
        assert(lowered(line.subrange(start, start + 13)) != "authorization"@);
        assert(!header_at(line, start));
        lemma_no_header(line, start + 1);
    }
}

/// A line that names no such header keeps all of its text.
pub proof fn law_other_lines_are_kept(line: Seq<char>)
    requires
        one_line(line),
        forall|place: int|
            0 <= place && place + 13 <= line.len() ==> lowered(#[trigger] line.subrange(place, place + 13))
                != "authorization"@,
    ensures
        headers_concealed(line) == line,
{
    lemma_no_header(line, 0);
    lemma_one_line_is_concealed(line);
}

/// A line that goes on with a concealed value is concealed too, up to the space that it
/// starts with; another one is not on that account.
pub proof fn law_folded_lines_are_concealed(line: Seq<char>)
    requires
        line.len() > 0,
    ensures
        white_space(line[0]) ==> line_concealed(line, true) == line.take(after_space(line, 0)) + "[REDACTED]"@,
        !white_space(line[0]) ==> line_concealed(line, true) == line_concealed(line, false),
        header_colon(line) is Some ==> secret_line(line, false),
        header_colon(line) is None ==> line_concealed(line, false) == line,
{
}

/// What is redacted are the values of headers first, then the tokens behind the bearer
/// scheme wherever they stand.
pub proof fn law_tokens_are_redacted_everywhere(text: Seq<char>)
    ensures
        redacted(text) == replaced_all(BEARER_PATTERN@, headers_concealed(text), "Bearer [REDACTED]"@),
{
}

proof fn lemma_no_header_stands_alone(line: Seq<char>, start: int)
    requires
        0 <= start,
        forall|place: int|
            start <= place && place + 13 <= line.len() ==> lowered(#[trigger] line.subrange(place, place + 13))
                != "authorization"@ || (place > 0 && is_part_of_name(line[place - 1])) || place + 13 == line.len() || !(
            white_space(line[place + 13]) || line[place + 13] == ':'),
    ensures
        header_colon_from(line, start) is None,
    decreases line.len() - start,
{
    reveal_strlit("authorization");
    assert("authorization"@ =~= secret_header());
    if start + 13 <= line.len() {
        assert(lowered(line.subrange(start, start + 13)) != "authorization"@ || (start > 0 && is_part_of_name(
            line[start - 1],
        )) || start + 13 == line.len() || !(white_space(line[start + 13]) || line[start + 13] == ':'));
        if start > 0 && is_part_of_name(line[start - 1]) {
            let marks = seq!['!', '#', '$', '%', '&', '\'', '*', '+', '-', '.', '^', '_', '`', '|', '~'];
            assert(marks[8] == '-' && marks[11] == '_' && marks[9] == '.');
            assert(header_char(line[start - 1]));
        }
        assert(!header_at(line, start));
        lemma_no_header_stands_alone(line, start + 1);
    }
}

/// A character that goes on with the name of a header.
pub open spec fn is_part_of_name(character: char) -> bool {
    ||| 'a' <= character <= 'z'
    ||| 'A' <= character <= 'Z'
    ||| '0' <= character <= '9'
    ||| character == '-'
    ||| character == '_'
    ||| character == '.'
}

/// The name within a longer name, or with neither space nor colon behind it, is no such
/// header: the line keeps all of its text.
pub proof fn law_longer_names_are_kept(line: Seq<char>)
    requires
        one_line(line),
        forall|place: int|
            0 <= place && place + 13 <= line.len() ==> lowered(#[trigger] line.subrange(place, place + 13))
                != "authorization"@ || (place > 0 && is_part_of_name(line[place - 1])) || place + 13 == line.len() || !(
            white_space(line[place + 13]) || line[place + 13] == ':'),
    ensures
        headers_concealed(line) == line,
{
    lemma_no_header_stands_alone(line, 0);
    lemma_one_line_is_concealed(line);
}

} // verus!
