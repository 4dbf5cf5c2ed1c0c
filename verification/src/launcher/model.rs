//! Models, their identifiers and their keys.

use vstd::arithmetic::power::pow;
use vstd::prelude::*;

use super::capability::LaunchSettings;
use super::catalog::{CatalogIdentity, CatalogMetadata};
use super::error::AppError;
use crate::text::{ascii_alphanumeric, chars_of, is_alphanumeric, rows, split, split_chars};

verus! {

/// The lower-case hexadecimal digit of `value`.
pub open spec fn hex_digit(value: int) -> char {
    if value < 10 {
        (48 + value) as char
    } else {
        (87 + value) as char
    }
}

/// The hyphenated form of a 128-bit identifier: 32 hexadecimal digits in groups
/// of 8, 4, 4, 4 and 12.
pub open spec fn uuid_text(value: u128) -> Seq<char> {
    Seq::new(
        36,
        |place: int|
            if place == 8 || place == 13 || place == 18 || place == 23 {
                '-'
            } else {
                let hyphens: int = if place < 8 {
                    0
                } else if place < 13 {
                    1
                } else if place < 18 {
                    2
                } else if place < 23 {
                    3
                } else {
                    4
                };
                hex_digit((value as int / pow(16, (31 - (place - hyphens)) as nat)) % 16)
            },
    )
}

/// What `uuid::Uuid::parse_str` reads from a text.
pub uninterp spec fn parsed_uuid(text: Seq<char>) -> Option<u128>;

/// Calls `uuid::Uuid::new_v4`: a random identifier, of which only the version and
/// the variant are known.
#[verifier::external_body]
fn random_uuid() -> (result: u128)
    ensures
        (result as int / pow(2, 76)) % 16 == 4,
        (result as int / pow(2, 62)) % 4 == 2,
{
    uuid::Uuid::new_v4().as_u128()
}

/// Calls `uuid::Uuid::parse_str`, which reads the hyphenated form among others.
#[verifier::external_body]
pub(crate) fn parse_uuid(text: &str) -> (result: Option<u128>)
    ensures
        result == parsed_uuid(text@),
{
    match uuid::Uuid::parse_str(text) {
        Ok(uuid) => Some(uuid.as_u128()),
        Err(_) => None,
    }
}

/// Calls `to_string` of `uuid::Uuid`: the hyphenated lower-case form, which
/// `parse_str` reads back as the same identifier.
#[verifier::external_body]
pub(crate) fn format_uuid(value: u128) -> (result: String)
    ensures
        result@ == uuid_text(value),
        parsed_uuid(result@) == Some(value),
{
    uuid::Uuid::from_u128(value).to_string()
}

/// The stable identifier of a model.
#[derive(Clone, Copy, Debug, PartialEq, Eq, Hash, Structural)]
pub struct ModelId {
    value: u128,
}

impl ModelId {
    /// The identifier as a number.
    pub closed spec fn number(self) -> u128 {
        self.value
    }

    /// A new random identifier.
    pub fn new() -> (result: Self)
        ensures
            (result.number() as int / pow(2, 76)) % 16 == 4,
            (result.number() as int / pow(2, 62)) % 4 == 2,
    {
        Self { value: random_uuid() }
    }

    pub fn from_uuid(uuid: u128) -> (result: Self)
        ensures
            result.number() == uuid,
    {
        Self { value: uuid }
    }

    pub fn as_uuid(self) -> (result: u128)
        ensures
            result == self.number(),
    {
        self.value
    }

    /// The hyphenated text of the identifier.
    pub fn to_string(self) -> (result: String)
        ensures
            result@ == uuid_text(self.number()),
            parsed_uuid(result@) == Some(self.number()),
    {
        format_uuid(self.value)
    }

    /// The identifier that `text` writes.
    pub fn parse(text: &str) -> (result: Option<Self>)
        ensures
            match result {
                Some(id) => parsed_uuid(text@) == Some(id.number()),
                None => parsed_uuid(text@) is None,
            },
    {
        match parse_uuid(text) {
            Some(value) => Some(Self { value }),
            None => None,
        }
    }
}

/// Two identifiers with the same number are the same.
pub proof fn lemma_id_is_its_number(left: ModelId, right: ModelId)
    ensures
        left.number() == right.number() <==> left == right,
{
}

impl Default for ModelId {
    fn default() -> (result: Self)
        ensures
            (result.number() as int / pow(2, 76)) % 16 == 4,
            (result.number() as int / pow(2, 62)) % 4 == 2,
    {
        Self::new()
    }
}

/// A character that may stand in a segment of a key.
pub open spec fn key_char(character: char) -> bool {
    is_alphanumeric(character) || character == '-' || character == '_' || character == '.'
}

/// One segment of a key: not empty, no path step, only key characters.
pub open spec fn valid_segment(segment: Seq<char>) -> bool {
    &&& segment.len() > 0
    &&& segment != seq!['.']
    &&& segment != seq!['.', '.']
    &&& forall|index: int| 0 <= index < segment.len() ==> key_char(#[trigger] segment[index])
}

/// A model key: at most 255 characters, made of valid segments between slashes.
pub open spec fn valid_key(text: Seq<char>) -> bool {
    &&& text.len() <= 255
    &&& forall|index: int|
        0 <= index < split(text, '/', '/').len() ==> valid_segment(#[trigger] split(text, '/', '/')[index])
}

/// A name for a model that is safe in a URL and in a path.
#[derive(Debug, PartialEq, Eq, Hash)]
pub struct ModelKey {
    value: String,
}

impl View for ModelKey {
    type V = Seq<char>;

    closed spec fn view(&self) -> Seq<char> {
        self.value@
    }
}

impl Clone for ModelKey {
    fn clone(&self) -> (result: Self)
        ensures
            result == *self,
    {
        proof {
            use_type_invariant(self);
        }
        ModelKey { value: self.value.clone() }
    }
}

fn segment_is_valid(segment: &[char]) -> (result: bool)
    ensures
        result == valid_segment(segment@),
{
    if segment.len() == 0 {
        return false;
    }
    if segment.len() == 1 && segment[0] == '.' {
        assert(segment@ =~= seq!['.']);
        return false;
    }
    if segment.len() == 2 && segment[0] == '.' && segment[1] == '.' {
        assert(segment@ =~= seq!['.', '.']);
        return false;
    }
    for index in 0..segment.len()
        invariant
            forall|earlier: int| 0 <= earlier < index ==> key_char(#[trigger] segment@[earlier]),
    {
        let character = segment[index];
        if !(ascii_alphanumeric(character) || character == '-' || character == '_' || character == '.') {
            assert(!key_char(segment@[index as int]));
            return false;
        }
    }
    true
}

impl ModelKey {
    #[verifier::type_invariant]
    spec fn valid(self) -> bool {
        valid_key(self.value@)
    }

    pub fn parse(value: String) -> (result: Result<Self, AppError>)
        ensures
            match result {
                Ok(key) => valid_key(value@) && key@ == value@,
                Err(error) => !valid_key(value@) && error == AppError::InvalidModelKey,
            },
    {
        let characters = chars_of(value.as_str());
        if characters.len() > 255 {
            return Err(AppError::InvalidModelKey);
        }
        let segments = split_chars(&characters, '/', '/');
        let ghost pieces = split(value@, '/', '/');
        for index in 0..segments.len()
            invariant
                rows(segments@) == pieces,
                pieces == split(value@, '/', '/'),
                forall|earlier: int| 0 <= earlier < index ==> valid_segment(#[trigger] pieces[earlier]),
        {
            assert(pieces[index as int] == segments@[index as int]@);
            if !segment_is_valid(&segments[index]) {
                return Err(AppError::InvalidModelKey);
            }
        }
        Ok(ModelKey { value })
    }

    pub fn as_str(&self) -> (result: &str)
        ensures
            result@ == self@,
            valid_key(result@),
    {
        proof {
            use_type_invariant(self);
        }
        self.value.as_str()
    }

    pub fn to_string(&self) -> (result: String)
        ensures
            result@ == self@,
    {
        self.value.clone()
    }

    /// Whether the key is written `text`.
    pub fn is(&self, text: &str) -> (result: bool)
        ensures
            result == (self@ == text@),
    {
        crate::text::same_text(self.as_str(), text)
    }
}

/// Whether a model can be launched.
#[derive(Debug, PartialEq, Eq)]
pub enum ModelState {
    Available,
    Missing,
    Unlaunchable { reason: String },
}

impl Clone for ModelState {
    fn clone(&self) -> (result: Self)
        ensures
            result == *self,
    {
        match self {
            ModelState::Available => ModelState::Available,
            ModelState::Missing => ModelState::Missing,
            ModelState::Unlaunchable { reason } => ModelState::Unlaunchable { reason: reason.clone() },
        }
    }
}

/// How a model is launched.
#[derive(Debug)]
pub struct LaunchProfile {
    pub settings: LaunchSettings,
}

impl Clone for LaunchProfile {
    fn clone(&self) -> (result: Self)
        ensures
            result == *self,
    {
        LaunchProfile { settings: self.settings.clone() }
    }
}

impl Default for LaunchProfile {
    fn default() -> (result: Self)
        ensures
            result.settings == LaunchSettings::unset(),
    {
        LaunchProfile { settings: LaunchSettings::default() }
    }
}

/// A model as the launcher knows it.
#[derive(Debug)]
pub struct ModelRecord {
    pub id: ModelId,
    pub key: ModelKey,
    pub display_name: String,
    pub path: String,
    /// Reconnects a file that was moved, without reading it.
    pub file_identity: CatalogIdentity,
    pub size_bytes: u64,
    pub metadata: CatalogMetadata,
    pub state: ModelState,
    pub launch_profile: LaunchProfile,
}

impl Clone for ModelRecord {
    fn clone(&self) -> (result: Self)
        ensures
            result == *self,
    {
        ModelRecord {
            id: self.id,
            key: self.key.clone(),
            display_name: self.display_name.clone(),
            path: self.path.clone(),
            file_identity: self.file_identity,
            size_bytes: self.size_bytes,
            metadata: self.metadata.clone(),
            state: self.state.clone(),
            launch_profile: self.launch_profile.clone(),
        }
    }
}

} // verus!
