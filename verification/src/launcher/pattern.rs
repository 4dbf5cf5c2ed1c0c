//! Regular expressions: the calls into the `regex` crate and the shape of a
//! sharded file name.

use vstd::prelude::*;

use crate::text::{is_alphanumeric, is_digit, lowered, occurs, occurs_at, texts};

verus! {

/// The name of one file of a model that is split into shards.
pub const SHARD_PATTERN: &'static str = r"(?i)^(.*)-(\d{5})-of-(\d{5})\.gguf$";

/// The end of the stem of such a name.
pub const SHARD_STEM_PATTERN: &'static str = r"(?i)-\d{5}-of-\d{5}$";

/// A bearer token in running text.
pub const BEARER_PATTERN: &'static str = r"(?i)\bbearer\s+([^\s,;]+)";

/// What `regex::Regex::captures` finds of a pattern in a text: the whole match,
/// then its groups; an absent group is empty.
pub uninterp spec fn matched_groups(pattern: Seq<char>, text: Seq<char>) -> Option<Seq<Seq<char>>>;

/// What `regex::Regex::replace` makes of a text.
pub uninterp spec fn replaced_first(pattern: Seq<char>, text: Seq<char>, with: Seq<char>) -> Seq<char>;

/// What `regex::Regex::replace_all` makes of a text.
pub uninterp spec fn replaced_all(pattern: Seq<char>, text: Seq<char>, with: Seq<char>) -> Seq<char>;

/// Every character is an ASCII character.
pub open spec fn ascii(text: Seq<char>) -> bool {
    forall|index: int| 0 <= index < text.len() ==> (#[trigger] text[index] as u32) < 128
}

/// `-of-` between two numbers of five digits, after a hyphen, from `at` on.
pub open spec fn shard_numbers_at(text: Seq<char>, at: int) -> bool {
    &&& 0 <= at && at + 15 <= text.len()
    &&& text[at] == '-'
    &&& lowered(text).subrange(at + 6, at + 10) == seq!['-', 'o', 'f', '-']
    &&& forall|index: int|
        (at < index < at + 6 || at + 10 <= index < at + 15) && (text[index] as u32) < 128 ==> is_digit(
            #[trigger] text[index],
        )
}

/// The shape of a shard's name, whose suffix `-NNNNN-of-NNNNN.gguf` has twenty
/// characters.
pub open spec fn shard_shape(text: Seq<char>) -> bool {
    let at = text.len() - 20;
    &&& text.len() >= 20
    &&& shard_numbers_at(text, at)
    &&& lowered(text).subrange(at + 15, at + 20) == seq!['.', 'g', 'g', 'u', 'f']
    &&& !text.take(at).contains('\n')
}

/// The groups of a shard's name: all of it, its prefix, its number and its total.
pub open spec fn shard_groups(text: Seq<char>) -> Seq<Seq<char>> {
    let at = text.len() - 20;
    seq![text, text.take(at), text.subrange(at + 1, at + 6), text.subrange(at + 10, at + 15)]
}

/// Calls `regex::Regex::captures`. Of the pattern of a shard's name it is stated
/// that a match has the shape and the groups above, and that an ASCII text with
/// the shape matches.
#[verifier::external_body]
pub(crate) fn regex_captures(pattern: &str, text: &str) -> (result: Option<Vec<String>>)
    ensures
        match result {
            Some(groups) => matched_groups(pattern@, text@) == Some(texts(groups@)),
            None => matched_groups(pattern@, text@) is None,
        },
        pattern@ == SHARD_PATTERN@ ==> match result {
            Some(groups) => shard_shape(text@) && texts(groups@) == shard_groups(text@),
            None => ascii(text@) ==> !shard_shape(text@),
        },
{
    let found = regex::Regex::new(pattern).ok()?.captures(text)?;
    Some(found.iter().map(|group| group.map_or(String::new(), |part| part.as_str().to_owned())).collect())
}

/// Calls `regex::Regex::replace`. Of the end of a shard's stem it is stated that
/// in an ASCII text the last fifteen characters are replaced where they have its
/// shape, and nothing otherwise.
#[verifier::external_body]
pub(crate) fn regex_replace(pattern: &str, text: &str, with: &str) -> (result: String)
    ensures
        result@ == replaced_first(pattern@, text@, with@),
        pattern@ == SHARD_STEM_PATTERN@ && ascii(text@) && with@.len() == 0 ==> result@ == (
        if shard_numbers_at(text@, text@.len() - 15) {
            text@.take(text@.len() - 15)
        } else {
            text@
        }),
{
    match regex::Regex::new(pattern) {
        Ok(regex) => regex.replace(text, with).into_owned(),
        Err(_) => text.to_owned(),
    }
}

/// Wherever the word `bearer` stands on its own before a space and a printable
/// ASCII character that can start a token, the mark of a redacted token follows.
pub open spec fn bearer_tokens_concealed(text: Seq<char>) -> bool {
    forall|at: int|
        #![trigger text[at]]
        0 <= at && at + 7 < text.len() && (at == 0 || ((text[at - 1] as u32) < 128 && !is_alphanumeric(text[at - 1])
            && text[at - 1] != '_')) && occurs_at(lowered(text), seq!['b', 'e', 'a', 'r', 'e', 'r'], at) && text[at
            + 6] == ' ' && 32 < text[at + 7] as u32 && (text[at + 7] as u32) < 127 && text[at + 7] != ',' && text[at
            + 7] != ';' ==> occurs_at(text, "[REDACTED]"@, at + 7)
}

/// Calls `regex::Regex::replace_all`. Of the pattern of a bearer token it is
/// stated that a text without the word is left as it is, and that every token is
/// gone once the pattern has been replaced by the mark of a redacted one.
#[verifier::external_body]
pub(crate) fn regex_replace_all(pattern: &str, text: &str, with: &str) -> (result: String)
    ensures
        result@ == replaced_all(pattern@, text@, with@),
        pattern@ == BEARER_PATTERN@ && !occurs(lowered(text@), seq!['b', 'e', 'a', 'r', 'e', 'r']) ==> result@
            == text@,
        pattern@ == BEARER_PATTERN@ && with@ == "Bearer [REDACTED]"@ ==> bearer_tokens_concealed(result@),
{
    match regex::Regex::new(pattern) {
        Ok(regex) => regex.replace_all(text, with).into_owned(),
        Err(_) => text.to_owned(),
    }
}

} // verus!
