//! Access tokens. Only their hashes are kept; a token itself is shown once, when
//! it is made.

use argon2::password_hash::SaltString;
use argon2::{Argon2, PasswordHash, PasswordHasher, PasswordVerifier};
use rand::rngs::OsRng;
use rand::RngCore;
use vstd::prelude::*;
use vstd::utf8::{encode_utf8, is_ascii_chars, is_ascii_chars_encode_utf8};

use crate::launcher::model::hex_digit;
use crate::text::{copy_texts, joined, push_decimal, push_text, same_text, texts, decimal};

verus! {

/// The most tokens that can exist.
pub const MAX_TOKENS: usize = 16;

/// The longest hash that is read, in bytes.
pub const MAX_HASH_BYTES: usize = 256;

/// How many random bytes a token has.
pub const TOKEN_BYTES: usize = 24;

/// Why a token could not be made, or stored hashes not be used.
#[derive(Debug, PartialEq, Eq)]
pub enum AuthError {
    /// There are too many tokens, or a hash asks for too much work.
    LimitExceeded,
    /// A hash cannot be read, for this reason.
    Unreadable(String),
    /// A hash is too long, or its salt or its output is missing or of no useful length.
    Malformed,
    /// A hash is of another algorithm.
    Algorithm,
    /// A hash is of another version.
    Version,
    /// A hash does not say how it was made.
    MissingParameter,
    /// The machine gave no random bytes, or could not compute a hash.
    Unavailable,
}

pub enum AuthErrorView {
    LimitExceeded,
    Unreadable(Seq<char>),
    Malformed,
    Algorithm,
    Version,
    MissingParameter,
    Unavailable,
}

impl View for AuthError {
    type V = AuthErrorView;

    open spec fn view(&self) -> AuthErrorView {
        match *self {
            AuthError::LimitExceeded => AuthErrorView::LimitExceeded,
            AuthError::Unreadable(reason) => AuthErrorView::Unreadable(reason@),
            AuthError::Malformed => AuthErrorView::Malformed,
            AuthError::Algorithm => AuthErrorView::Algorithm,
            AuthError::Version => AuthErrorView::Version,
            AuthError::MissingParameter => AuthErrorView::MissingParameter,
            AuthError::Unavailable => AuthErrorView::Unavailable,
        }
    }
}

/// The outcome of a check.
pub open spec fn check_view(result: Result<(), AuthError>) -> Result<(), AuthErrorView> {
    match result {
        Ok(_) => Ok(()),
        Err(error) => Err(error@),
    }
}

/// What a hash says of how it was made.
#[derive(Debug)]
pub struct PhcFields {
    pub algorithm: String,
    pub version: Option<u32>,
    pub memory: Option<u32>,
    pub passes: Option<u32>,
    pub lanes: Option<u32>,
    pub salt_length: Option<usize>,
    pub output_length: Option<usize>,
}

pub struct PhcView {
    pub algorithm: Seq<char>,
    pub version: Option<u32>,
    pub memory: Option<u32>,
    pub passes: Option<u32>,
    pub lanes: Option<u32>,
    pub salt_length: Option<usize>,
    pub output_length: Option<usize>,
}

impl View for PhcFields {
    type V = PhcView;

    open spec fn view(&self) -> PhcView {
        PhcView {
            algorithm: self.algorithm@,
            version: self.version,
            memory: self.memory,
            passes: self.passes,
            lanes: self.lanes,
            salt_length: self.salt_length,
            output_length: self.output_length,
        }
    }
}

/// What `argon2::PasswordHash::new` reads from a hash, or the text of its error.
pub uninterp spec fn parsed_phc(encoded: Seq<char>) -> Result<PhcView, Seq<char>>;

/// Whether `verify_password` of `argon2::Argon2` accepts a password for a hash.
pub uninterp spec fn password_matches(encoded: Seq<char>, password: Seq<char>) -> bool;

/// Calls `argon2::PasswordHash::new` and takes the fields out of what it read, or
/// the text out of its error.
#[verifier::external_body]
fn parse_phc(encoded: &str) -> (result: Result<PhcFields, String>)
    ensures
        match result {
            Ok(fields) => parsed_phc(encoded@) is Ok && parsed_phc(encoded@)->Ok_0 == fields@,
            Err(reason) => parsed_phc(encoded@) is Err && parsed_phc(encoded@)->Err_0 == reason@,
        },
{
    let parsed = PasswordHash::new(encoded).map_err(|error| error.to_string())?;
    Ok(PhcFields {
        algorithm: parsed.algorithm.as_str().to_owned(),
        version: parsed.version,
        memory: parsed.params.get_decimal("m"),
        passes: parsed.params.get_decimal("t"),
        lanes: parsed.params.get_decimal("p"),
        salt_length: parsed.salt.map(|salt| salt.len()),
        output_length: parsed.hash.map(|output| output.len()),
    })
}

/// Calls `verify_password` of `argon2::Argon2` with its standard parameters; a
/// hash that cannot be read accepts nothing.
#[verifier::external_body]
fn verify_password(encoded: &str, password: &str) -> (result: bool)
    ensures
        result == password_matches(encoded@, password@),
        parsed_phc(encoded@) is Err ==> !result,
{
    match PasswordHash::new(encoded) {
        Ok(parsed) => Argon2::default().verify_password(password.as_bytes(), &parsed).is_ok(),
        Err(_) => false,
    }
}

/// What a hash made here says of itself.
pub open spec fn standard_phc() -> PhcView {
    PhcView {
        algorithm: "argon2id"@,
        version: Some(19),
        memory: Some(19_456),
        passes: Some(2),
        lanes: Some(1),
        salt_length: Some(22),
        output_length: Some(32),
    }
}

/// Calls `hash_password` of `argon2::Argon2` with its standard parameters and a
/// random salt. With these it refuses only a password whose length takes more than
/// 32 bits. The hash accepts the password that it was made of, and says of itself
/// how it was made.
#[verifier::external_body]
fn hash_password(password: &str) -> (result: Option<String>)
    ensures
        result is Some <==> encode_utf8(password@).len() <= u32::MAX,
        result is Some ==> password_matches(result->0@, password@) && parsed_phc(result->0@) is Ok && parsed_phc(
            result->0@,
        )->Ok_0 == standard_phc() && encode_utf8(result->0@).len() <= 256,
{
    let salt = SaltString::generate(&mut OsRng);
    Some(Argon2::default().hash_password(password.as_bytes(), &salt).ok()?.to_string())
}

/// Calls `try_fill_bytes` of `rand::rngs::OsRng`: so many random bytes, if the
/// machine has them.
#[verifier::external_body]
fn random_bytes(count: usize) -> (result: Option<Vec<u8>>)
    requires
        count <= MAX_HASH_BYTES,
    ensures
        result is Some ==> result->0@.len() == count,
{
    let mut bytes = vec![0_u8; count];
    OsRng.try_fill_bytes(&mut bytes).ok()?;
    Some(bytes)
}

/// What is asked of a stored hash.
pub open spec fn phc_check(encoded: Seq<char>) -> Result<(), AuthErrorView> {
    if encode_utf8(encoded).len() > MAX_HASH_BYTES {
        Err(AuthErrorView::Malformed)
    } else {
        match parsed_phc(encoded) {
            Err(reason) => Err(AuthErrorView::Unreadable(reason)),
            Ok(fields) => fields_check(fields),
        }
    }
}

/// What is asked of what a hash says of itself: the algorithm and its version,
/// then its parameters within limits, then a salt and an output of useful length.
pub open spec fn fields_check(fields: PhcView) -> Result<(), AuthErrorView> {
    if fields.algorithm != "argon2id"@ {
        Err(AuthErrorView::Algorithm)
    } else if fields.version != Some(19u32) {
        Err(AuthErrorView::Version)
    } else if fields.memory is None || fields.passes is None || fields.lanes is None {
        Err(AuthErrorView::MissingParameter)
    } else if !(8_192 <= fields.memory->0 <= 65_536 && 1 <= fields.passes->0 <= 10 && 1 <= fields.lanes->0 <= 8) {
        Err(AuthErrorView::LimitExceeded)
    } else if fields.salt_length is None || fields.output_length is None {
        Err(AuthErrorView::Malformed)
    } else if !(8 <= fields.salt_length->0 <= 64 && 16 <= fields.output_length->0 <= 64) {
        Err(AuthErrorView::Malformed)
    } else {
        Ok(())
    }
}

/// Checks what a hash says of itself.
pub fn validate_fields(fields: &PhcFields) -> (result: Result<(), AuthError>)
    ensures
        check_view(result) == fields_check(fields@),
{
    if !same_text(fields.algorithm.as_str(), "argon2id") {
        return Err(AuthError::Algorithm);
    }
    match fields.version {
        Some(version) if version == 19 => {},
        _ => {
            return Err(AuthError::Version);
        },
    }
    let (memory, passes, lanes) = match (fields.memory, fields.passes, fields.lanes) {
        (Some(memory), Some(passes), Some(lanes)) => (memory, passes, lanes),
        _ => {
            return Err(AuthError::MissingParameter);
        },
    };
    if memory < 8_192 || memory > 65_536 || passes < 1 || passes > 10 || lanes < 1 || lanes > 8 {
        return Err(AuthError::LimitExceeded);
    }
    match (fields.salt_length, fields.output_length) {
        (Some(salt), Some(output)) => if salt < 8 || salt > 64 || output < 16 || output > 64 {
            Err(AuthError::Malformed)
        } else {
            Ok(())
        },
        _ => Err(AuthError::Malformed),
    }
}

/// Checks a stored hash.
pub fn validate_phc(encoded: &str) -> (result: Result<(), AuthError>)
    ensures
        check_view(result) == phc_check(encoded@),
{
    if encoded.as_bytes().len() > MAX_HASH_BYTES {
        return Err(AuthError::Malformed);
    }
    match parse_phc(encoded) {
        Ok(fields) => validate_fields(&fields),
        Err(reason) => Err(AuthError::Unreadable(reason)),
    }
}

/// Two hexadecimal digits for every byte.
pub open spec fn hex_text(bytes: Seq<u8>) -> Seq<char>
    decreases bytes.len(),
{
    if bytes.len() == 0 {
        Seq::empty()
    } else {
        hex_text(bytes.drop_last()) + seq![hex_digit(bytes.last() as int / 16), hex_digit(bytes.last() as int % 16)]
    }
}

fn digit_of(value: u8) -> (result: char)
    requires
        value < 16,
    ensures
        result == hex_digit(value as int),
{
    if value < 10 {
        (48 + value) as char
    } else {
        (87 + value) as char
    }
}

/// Two lower-case hexadecimal digits for every byte.
pub fn hex(bytes: &[u8]) -> (result: String)
    ensures
        result@ == hex_text(bytes@),
{
    let mut text = String::new();
    assert(bytes@.take(0) =~= Seq::empty());
    assert(text@ =~= hex_text(bytes@.take(0)));
    for index in 0..bytes.len()
        invariant
            text@ == hex_text(bytes@.take(index as int)),
    {
        let ghost before = text@;
        assert(bytes@.take(index + 1).drop_last() =~= bytes@.take(index as int));
        text.push(digit_of(bytes[index] / 16));
        text.push(digit_of(bytes[index] % 16));
        assert(text@ =~= before + seq![
            hex_digit(bytes@[index as int] as int / 16),
            hex_digit(bytes@[index as int] as int % 16),
        ]);
    }
    assert(bytes@.take(bytes@.len() as int) =~= bytes@);
    text
}

proof fn lemma_hex_text_is_ascii(bytes: Seq<u8>)
    ensures
        is_ascii_chars(hex_text(bytes)),
        hex_text(bytes).len() == 2 * bytes.len(),
    decreases bytes.len(),
{
    if bytes.len() > 0 {
        lemma_hex_text_is_ascii(bytes.drop_last());
    }
}

/// The text whose hash is tried where there is no token is short.
proof fn lemma_dummy_fits()
    ensures
        encode_utf8("invalid-token"@).len() <= u32::MAX,
{
    reveal_strlit("invalid-token");
    is_ascii_chars_encode_utf8("invalid-token"@);
}

/// A token, as it is shown once.
pub struct CreatedToken {
    pub plaintext: String,
}

/// The hashes of the tokens.
pub struct TokenStore {
    hashes: Vec<String>,
    dummy_hash: String,
}

/// The hashes of a store, and the one that is tried where there is none.
pub struct TokenStoreView {
    pub hashes: Seq<Seq<char>>,
    pub dummy: Seq<char>,
}

impl View for TokenStore {
    type V = TokenStoreView;

    closed spec fn view(&self) -> TokenStoreView {
        TokenStoreView { hashes: texts(self.hashes@), dummy: self.dummy_hash@ }
    }
}

/// The hashes that a candidate is tried on. Where there are none, a stand-in is tried,
/// so that refusing takes as long; what the stand-in was made of is then accepted.
pub open spec fn tried(store: TokenStoreView) -> Seq<Seq<char>> {
    if store.hashes.len() == 0 {
        seq![store.dummy]
    } else {
        store.hashes
    }
}

pub open spec fn accepted(store: TokenStoreView, candidate: Seq<char>) -> bool {
    exists|index: int|
        0 <= index < tried(store).len() && password_matches(#[trigger] tried(store)[index], candidate)
}

/// The first stored hash that cannot be used, from `from` on, and why.
pub open spec fn first_refused(hashes: Seq<Seq<char>>, from: int) -> Option<AuthErrorView>
    decreases hashes.len() - from,
{
    if from < 0 || from >= hashes.len() {
        None
    } else {
        match phc_check(hashes[from]) {
            Err(error) => Some(error),
            Ok(_) => first_refused(hashes, from + 1),
        }
    }
}

/// The text of a new token.
pub open spec fn token_text(bytes: Seq<u8>) -> Seq<char> {
    "ml_"@ + hex_text(bytes)
}

proof fn lemma_token_text_is_ascii(bytes: Seq<u8>)
    ensures
        encode_utf8(token_text(bytes)).len() == token_text(bytes).len(),
        token_text(bytes).len() == 3 + 2 * bytes.len(),
{
    reveal_strlit("ml_");
    lemma_hex_text_is_ascii(bytes);
    assert(is_ascii_chars(token_text(bytes)));
    is_ascii_chars_encode_utf8(token_text(bytes));
}

impl TokenStore {
    #[verifier::type_invariant]
    spec fn bounded(self) -> bool {
        self.hashes@.len() <= MAX_TOKENS
    }

    /// A store without tokens.
    pub fn empty() -> (result: Option<Self>)
        ensures
            result is Some,
            result->0@.hashes.len() == 0,
            password_matches(result->0@.dummy, "invalid-token"@),
    {
        proof {
            lemma_dummy_fits();
        }
        match hash_password("invalid-token") {
            Some(dummy_hash) => Some(TokenStore { hashes: Vec::new(), dummy_hash }),
            None => None,
        }
    }

    /// A store of hashes that were kept. Each of them must be one that could have
    /// been made here.
    pub fn from_phc_hashes(hashes: Vec<String>) -> (result: Result<Self, AuthError>)
        ensures
            match result {
                Ok(store) => {
                    &&& hashes@.len() <= MAX_TOKENS
                    &&& first_refused(texts(hashes@), 0) is None
                    &&& store@.hashes == texts(hashes@)
                    &&& password_matches(store@.dummy, "invalid-token"@)
                },
                Err(error) => if hashes@.len() > MAX_TOKENS {
                    error == AuthError::LimitExceeded
                } else {
                    first_refused(texts(hashes@), 0) == Some(error@)
                },
            },
    {
        proof {
            lemma_dummy_fits();
        }
        match hash_password("invalid-token") {
            Some(dummy_hash) => TokenStore::with_dummy(hashes, dummy_hash),
            None => Err(AuthError::Unavailable),
        }
    }

    fn check(hashes: &Vec<String>) -> (result: Result<(), AuthError>)
        ensures
            match result {
                Ok(_) => hashes@.len() <= MAX_TOKENS && first_refused(texts(hashes@), 0) is None,
                Err(error) => if hashes@.len() > MAX_TOKENS {
                    error == AuthError::LimitExceeded
                } else {
                    first_refused(texts(hashes@), 0) == Some(error@)
                },
            },
    {
        if hashes.len() > MAX_TOKENS {
            return Err(AuthError::LimitExceeded);
        }
        for index in 0..hashes.len()
            invariant
                hashes@.len() <= MAX_TOKENS,
                first_refused(texts(hashes@), 0) == first_refused(texts(hashes@), index as int),
        {
            assert(texts(hashes@)[index as int] == hashes@[index as int]@);
            if let Err(error) = validate_phc(hashes[index].as_str()) {
                return Err(error);
            }
        }
        Ok(())
    }

    /// A store of kept hashes, with the hash that is tried where there is none.
    pub fn with_dummy(hashes: Vec<String>, dummy_hash: String) -> (result: Result<Self, AuthError>)
        ensures
            match result {
                Ok(store) => {
                    &&& hashes@.len() <= MAX_TOKENS
                    &&& first_refused(texts(hashes@), 0) is None
                    &&& store@.hashes == texts(hashes@)
                    &&& store@.dummy == dummy_hash@
                },
                Err(error) => if hashes@.len() > MAX_TOKENS {
                    error == AuthError::LimitExceeded
                } else {
                    first_refused(texts(hashes@), 0) == Some(error@)
                },
            },
    {
        match TokenStore::check(&hashes) {
            Ok(_) => Ok(TokenStore { hashes, dummy_hash }),
            Err(error) => Err(error),
        }
    }

    /// The hashes, to be kept.
    pub fn phc_hashes(&self) -> (result: Vec<String>)
        ensures
            texts(result@) == self@.hashes,
    {
        copy_texts(&self.hashes)
    }

    /// What may be shown of a store: how many tokens there are.
    pub fn describe(&self) -> (result: String)
        ensures
            result@ == "TokenStore { token_count: "@ + decimal(self@.hashes.len()) + " }"@,
    {
        let mut text = "TokenStore { token_count: ".to_owned();
        assert(self@.hashes.len() == self.hashes@.len());
        push_decimal(&mut text, self.hashes.len() as u64);
        push_text(&mut text, " }");
        text
    }

    /// Makes a token of random bytes. Only its hash is kept. Bytes whose token is too
    /// long for a hash are refused.
    pub fn create_from(&mut self, bytes: &[u8]) -> (result: Result<CreatedToken, AuthError>)
        ensures
            final(self)@.dummy == old(self)@.dummy,
            match result {
                Ok(created) => {
                    &&& old(self)@.hashes.len() < MAX_TOKENS
                    &&& created.plaintext@ == token_text(bytes@)
                    &&& final(self)@.hashes.len() == old(self)@.hashes.len() + 1
                    &&& final(self)@.hashes.drop_last() == old(self)@.hashes
                    &&& password_matches(final(self)@.hashes.last(), created.plaintext@)
                    &&& phc_check(final(self)@.hashes.last()) is Ok
                },
                Err(error) => {
                    &&& final(self)@.hashes == old(self)@.hashes
                    &&& if old(self)@.hashes.len() >= MAX_TOKENS {
                        error == AuthError::LimitExceeded
                    } else {
                        error == AuthError::Unavailable && 3 + 2 * bytes@.len() > u32::MAX
                    }
                },
            },
    {
        proof {
            use_type_invariant(&*self);
        }
        assert(self@.hashes.len() == self.hashes@.len());
        if self.hashes.len() >= MAX_TOKENS {
            return Err(AuthError::LimitExceeded);
        }
        let plaintext = joined("ml_", hex(bytes).as_str());
        proof {
            lemma_token_text_is_ascii(bytes@);
        }
        let hash = match hash_password(plaintext.as_str()) {
            Some(hash) => hash,
            None => {
                return Err(AuthError::Unavailable);
            },
        };
        let ghost kept = hash@;
        let mut hashes: Vec<String> = Vec::new();
        core::mem::swap(&mut hashes, &mut self.hashes);
        let ghost before = texts(hashes@);
        hashes.push(hash);
        assert(texts(hashes@) =~= before.push(kept));
        self.hashes = hashes;
        assert(self@.hashes.drop_last() =~= before);
        Ok(CreatedToken { plaintext })
    }

    /// Makes a random token. Only its hash is kept.
    pub fn create(&mut self) -> (result: Result<CreatedToken, AuthError>)
        ensures
            final(self)@.dummy == old(self)@.dummy,
            match result {
                Ok(created) => {
                    &&& old(self)@.hashes.len() < MAX_TOKENS
                    &&& exists|bytes: Seq<u8>|
                        bytes.len() == TOKEN_BYTES && created.plaintext@ == #[trigger] token_text(bytes)
                    &&& final(self)@.hashes.len() == old(self)@.hashes.len() + 1
                    &&& final(self)@.hashes.drop_last() == old(self)@.hashes
                    &&& password_matches(final(self)@.hashes.last(), created.plaintext@)
                    &&& phc_check(final(self)@.hashes.last()) is Ok
                },
                Err(error) => {
                    &&& final(self)@.hashes == old(self)@.hashes
                    &&& error == (if old(self)@.hashes.len() >= MAX_TOKENS {
                        AuthError::LimitExceeded
                    } else {
                        AuthError::Unavailable
                    })
                },
            },
    {
        proof {
            use_type_invariant(&*self);
        }
        assert(self@.hashes.len() == self.hashes@.len());
        if self.hashes.len() >= MAX_TOKENS {
            return Err(AuthError::LimitExceeded);
        }
        match random_bytes(TOKEN_BYTES) {
            Some(bytes) => self.create_from(bytes.as_slice()),
            None => Err(AuthError::Unavailable),
        }
    }

    /// Replaces all hashes by ones that were kept; nothing changes where one of them
    /// cannot be used.
    pub fn replace_phc_hashes(&mut self, hashes: Vec<String>) -> (result: Result<(), AuthError>)
        ensures
            final(self)@.dummy == old(self)@.dummy,
            match result {
                Ok(_) => {
                    &&& hashes@.len() <= MAX_TOKENS
                    &&& first_refused(texts(hashes@), 0) is None
                    &&& final(self)@.hashes == texts(hashes@)
                },
                Err(error) => final(self)@.hashes == old(self)@.hashes && (if hashes@.len() > MAX_TOKENS {
                    error == AuthError::LimitExceeded
                } else {
                    first_refused(texts(hashes@), 0) == Some(error@)
                }),
            },
    {
        match TokenStore::check(&hashes) {
            Ok(_) => {
                self.hashes = hashes;
                Ok(())
            },
            Err(error) => Err(error),
        }
    }

    /// Takes back the newest token.
    pub fn remove_last(&mut self)
        ensures
            final(self)@.dummy == old(self)@.dummy,
            old(self)@.hashes.len() > 0 ==> final(self)@.hashes == old(self)@.hashes.drop_last(),
            old(self)@.hashes.len() == 0 ==> final(self)@.hashes == old(self)@.hashes,
    {
        proof {
            use_type_invariant(&*self);
        }
        let mut hashes: Vec<String> = Vec::new();
        core::mem::swap(&mut hashes, &mut self.hashes);
        let ghost before = texts(hashes@);
        let removed = hashes.pop();
        if removed.is_some() {
            assert(texts(hashes@) =~= before.drop_last());
        }
        self.hashes = hashes;
    }

    /// Whether `candidate` is one of the tokens. Every hash is tried, whichever
    /// matches.
    pub fn verify(&self, candidate: &str) -> (result: bool)
        ensures
            result == accepted(self@, candidate@),
    {
        if self.hashes.len() == 0 {
            let valid = verify_password(self.dummy_hash.as_str(), candidate);
            assert(tried(self@)[0] == self@.dummy);
            return valid;
        }
        let mut valid = false;
        let ghost all = self@.hashes;
        for index in 0..self.hashes.len()
            invariant
                all == texts(self.hashes@),
                valid == exists|earlier: int|
                    0 <= earlier < index && password_matches(#[trigger] all[earlier], candidate@),
        {
            assert(all[index as int] == self.hashes@[index as int]@);
            let matches = verify_password(self.hashes[index].as_str(), candidate);
            valid = valid || matches;
        }
        assert(tried(self@) == all);
        valid
    }
}

/// A token that was just made is accepted, and its hash can be kept and read back.
pub proof fn law_new_token_is_accepted(before: TokenStoreView, after: TokenStoreView, token: Seq<char>)
    requires
        after.hashes.len() == before.hashes.len() + 1,
        after.hashes.drop_last() == before.hashes,
        password_matches(after.hashes.last(), token),
        phc_check(after.hashes.last()) is Ok,
        first_refused(before.hashes, 0) is None,
    ensures
        accepted(after, token),
        first_refused(after.hashes, 0) is None,
{
    assert(tried(after)[after.hashes.len() - 1] == after.hashes.last());
    lemma_one_more_is_usable(before.hashes, after.hashes, 0);
}

proof fn lemma_one_more_is_usable(before: Seq<Seq<char>>, after: Seq<Seq<char>>, from: int)
    requires
        0 <= from <= before.len(),
        after.len() == before.len() + 1,
        after.drop_last() == before,
        phc_check(after.last()) is Ok,
        first_refused(before, from) is None,
    ensures
        first_refused(after, from) is None,
    decreases before.len() - from,
{
    if from < before.len() {
        assert(after.drop_last()[from] == after[from]);
        lemma_one_more_is_usable(before, after, from + 1);
    } else {
        assert(after[from] == after.last());
        assert(first_refused(after, from + 1) is None);
    }
}

/// Tokens that were accepted stay accepted when another one is made, but for what
/// an empty store accepted.
pub proof fn law_earlier_tokens_stay_accepted(before: TokenStoreView, after: TokenStoreView, token: Seq<char>)
    requires
        before.hashes.len() > 0,
        after.hashes.len() == before.hashes.len() + 1,
        after.hashes.drop_last() == before.hashes,
        accepted(before, token),
    ensures
        accepted(after, token),
{
    let index = choose|index: int|
        0 <= index < tried(before).len() && password_matches(#[trigger] tried(before)[index], token);
    assert(after.hashes.drop_last()[index] == after.hashes[index]);
    assert(tried(after)[index] == tried(before)[index]);
}

} // verus!
