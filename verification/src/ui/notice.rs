//! Things that are shown once: the notice about closing the window, and a new
//! token. And what was used lately.

use vstd::prelude::*;
use vstd::utf8::encode_utf8;

use crate::launcher::capability::{EngineCapabilities, LaunchSettings};
use crate::launcher::model::ModelId;
use crate::service::models::{move_to_front, moved_to_front};

verus! {

/// The notice that the launcher keeps running when its window is closed.
#[derive(Clone, Copy, Debug, PartialEq, Eq, Structural)]
pub struct CloseNotice {
    pub shown: bool,
}

impl Default for CloseNotice {
    fn default() -> (result: Self)
        ensures
            !result.shown,
    {
        CloseNotice { shown: false }
    }
}

impl CloseNotice {
    pub fn from_persisted(shown: bool) -> (result: Self)
        ensures
            result.shown == shown,
    {
        CloseNotice { shown }
    }

    /// The notice, the first time.
    pub fn take(&mut self) -> (result: Option<&'static str>)
        ensures
            final(self).shown,
            match result {
                Some(text) => !old(self).shown && text@ == "Model Launcher keeps running in the notification area."@,
                None => old(self).shown,
            },
    {
        if self.shown {
            None
        } else {
            self.shown = true;
            Some("Model Launcher keeps running in the notification area.")
        }
    }

    pub fn was_shown(&self) -> (result: bool)
        ensures
            result == self.shown,
    {
        self.shown
    }
}

/// Where it is kept that the notice was shown: by a file that exists.
#[derive(Debug)]
pub struct CloseNoticeStore {
    pub path: String,
}

impl CloseNoticeStore {
    pub fn new(path: String) -> (result: Self)
        ensures
            result.path == path,
    {
        CloseNoticeStore { path }
    }

    /// The notice, given whether the file exists.
    pub fn load(&self, exists: bool) -> (result: CloseNotice)
        ensures
            result.shown == exists,
    {
        CloseNotice::from_persisted(exists)
    }

    /// What is written to the file, if anything.
    pub fn save(&self, notice: &CloseNotice) -> (result: Option<&'static str>)
        ensures
            match result {
                Some(text) => notice.shown && text@ == "shown"@,
                None => !notice.shown,
            },
    {
        if notice.was_shown() {
            Some("shown")
        } else {
            None
        }
    }
}

/// Calls `String::into_bytes`: the bytes are those of the text in UTF-8.
pub assume_specification[ String::into_bytes ](text: String) -> (bytes: Vec<u8>)
    ensures
        bytes@ == encode_utf8(text@),
;

/// Overwrites the bytes of a text with zeros, where they stand.
pub fn wiped(text: String) -> (result: Vec<u8>)
    ensures
        result@ == Seq::new(encode_utf8(text@).len(), |index: int| 0u8),
{
    let mut bytes = text.into_bytes();
    let ghost length = bytes@.len();
    let mut index: usize = 0;
    while index < bytes.len()
        invariant
            index <= bytes@.len(),
            bytes@.len() == length,
            forall|earlier: int| 0 <= earlier < index ==> #[trigger] bytes@[earlier] == 0u8,
        decreases length - index,
    {
        bytes.set(index, 0);
        index = index + 1;
    }
    assert(bytes@ =~= Seq::new(length, |index: int| 0u8));
    bytes
}

/// A new token that can be seen until it is taken or cleared. Its bytes are overwritten
/// when it is cleared; a reveal that goes out of scope uncleared gives them back as
/// they are.
pub struct TokenReveal {
    token: Option<String>,
}

impl View for TokenReveal {
    type V = Option<Seq<char>>;

    closed spec fn view(&self) -> Option<Seq<char>> {
        match self.token {
            Some(token) => Some(token@),
            None => None,
        }
    }
}

impl TokenReveal {
    pub fn new(token: String) -> (result: Self)
        ensures
            result@ == Some(token@),
    {
        TokenReveal { token: Some(token) }
    }

    /// The token, once.
    pub fn take(&mut self) -> (result: Option<String>)
        ensures
            final(self)@ is None,
            match result {
                Some(token) => old(self)@ == Some(token@),
                None => old(self)@ is None,
            },
    {
        self.token.take()
    }

    pub fn expose(&self) -> (result: Option<&str>)
        ensures
            match result {
                Some(token) => self@ == Some(token@),
                None => self@ is None,
            },
    {
        match &self.token {
            Some(token) => Some(token.as_str()),
            None => None,
        }
    }

    /// Forgets the token. Its bytes are overwritten before they are given back.
    pub fn clear(&mut self)
        ensures
            final(self)@ is None,
    {
        if let Some(token) = self.token.take() {
            let _overwritten = wiped(token);
        }
    }

    /// What may be shown of it in a diagnostic: never the token.
    pub fn describe(&self) -> (result: &'static str)
        ensures
            result@ == (if self@ is Some {
                "TokenReveal(Some(\"[REDACTED]\"))"@
            } else {
                "TokenReveal(None)"@
            }),
    {
        match &self.token {
            Some(_) => "TokenReveal(Some(\"[REDACTED]\"))",
            None => "TokenReveal(None)",
        }
    }
}

/// The engine and the launcher's settings as a user edits them.
#[derive(Debug)]
pub struct EngineSettings {
    pub distribution: String,
    pub executable: String,
    pub model_directory: String,
    pub defaults: LaunchSettings,
}

impl Default for EngineSettings {
    fn default() -> (result: Self)
        ensures
            result.distribution@.len() == 0,
            result.executable@.len() == 0,
            result.model_directory@.len() == 0,
            result.defaults == LaunchSettings::unset(),
    {
        EngineSettings {
            distribution: String::new(),
            executable: String::new(),
            model_directory: String::new(),
            defaults: LaunchSettings::default(),
        }
    }
}

/// Saving an engine: it is validated first, and asked for its options only then.
pub struct SaveSettings<V, P> {
    pub validate: V,
    pub probe: P,
}

impl<V, P> SaveSettings<V, P> where
    V: Fn(&EngineSettings) -> Result<(), String>,
    P: Fn() -> Result<EngineCapabilities, String>,
 {
    pub fn new(validate: V, probe: P) -> (result: Self)
        ensures
            result.validate == validate,
            result.probe == probe,
    {
        SaveSettings { validate, probe }
    }

    /// The options of the engine, if it is valid and answers. The engine may be one
    /// that can be asked only once it was found valid.
    pub fn run(&self, settings: &EngineSettings) -> (result: Result<EngineCapabilities, String>)
        requires
            call_requires(self.validate, (settings,)),
            (exists|checked: Result<(), String>| #[trigger]
                call_ensures(self.validate, (settings,), checked) && checked is Ok) ==> call_requires(self.probe, ()),
        ensures
            exists|checked: Result<(), String>| #[trigger]
                call_ensures(self.validate, (settings,), checked) && match checked {
                    Ok(_) => call_ensures(self.probe, (), result),
                    Err(reason) => result == Err::<EngineCapabilities, String>(reason),
                },
    {
        let checked = (self.validate)(settings);
        match checked {
            Ok(_) => (self.probe)(),
            Err(reason) => Err(reason),
        }
    }
}

/// The models used lately, the latest first.
#[derive(Debug)]
pub struct RecentModels {
    pub limit: usize,
    pub ids: Vec<ModelId>,
}

impl RecentModels {
    pub fn new(limit: usize) -> (result: Self)
        ensures
            result.limit == limit,
            result.ids@.len() == 0,
    {
        RecentModels { limit, ids: Vec::new() }
    }

    /// Notes that a model was used.
    pub fn record(&mut self, id: ModelId)
        ensures
            final(self).limit == old(self).limit,
            final(self).ids@ == moved_to_front(old(self).ids@, id, old(self).limit as nat),
    {
        move_to_front(&mut self.ids, id, self.limit);
    }

    pub fn ids(&self) -> (result: &Vec<ModelId>)
        ensures
            result@ == self.ids@,
    {
        &self.ids
    }
}

} // verus!
