//! The icon in the notification area and its menu.

use vstd::prelude::*;

use crate::launcher::model::{parsed_uuid, uuid_text, ModelId};
use crate::text::{chars_of, has_prefix, joined, part_of, same_text, stands_at, string_of};

verus! {

/// What a user can ask for from the menu.
#[derive(Clone, Copy, Debug, PartialEq, Eq, Structural)]
pub enum TrayCommand {
    Open,
    Eject,
    LoadRecent(ModelId),
    Quit,
}

/// The start of the names of entries for models.
pub open spec fn recent_prefix() -> Seq<char> {
    seq!['r', 'e', 'c', 'e', 'n', 't', ':']
}

/// A text without all the prefixes at its start.
pub open spec fn unprefixed(text: Seq<char>) -> Seq<char>
    decreases text.len(),
{
    if has_prefix(text, recent_prefix()) {
        unprefixed(text.skip(7))
    } else {
        text
    }
}

/// The command of an entry, by the entry's name.
pub open spec fn command_of(name: Seq<char>) -> Option<TrayCommandView> {
    if name == "open"@ {
        Some(TrayCommandView::Open)
    } else if name == "eject"@ {
        Some(TrayCommandView::Eject)
    } else if has_prefix(name, recent_prefix()) {
        match parsed_uuid(unprefixed(name)) {
            Some(number) => Some(TrayCommandView::LoadRecent(number)),
            None => None,
        }
    } else if name == "quit"@ {
        Some(TrayCommandView::Quit)
    } else {
        None
    }
}

pub enum TrayCommandView {
    Open,
    Eject,
    LoadRecent(u128),
    Quit,
}

impl View for TrayCommand {
    type V = TrayCommandView;

    open spec fn view(&self) -> TrayCommandView {
        match *self {
            TrayCommand::Open => TrayCommandView::Open,
            TrayCommand::Eject => TrayCommandView::Eject,
            TrayCommand::LoadRecent(id) => TrayCommandView::LoadRecent(id.number()),
            TrayCommand::Quit => TrayCommandView::Quit,
        }
    }
}

fn strip_prefixes(text: &[char]) -> (result: Vec<char>)
    ensures
        result@ == unprefixed(text@),
{
    let prefix: [char; 7] = ['r', 'e', 'c', 'e', 'n', 't', ':'];
    assert(prefix@ =~= recent_prefix());
    let total: usize = text.len();
    let mut start: usize = 0;
    assert(text@.skip(0) =~= text@);
    while stands_at(text, &prefix, start)
        invariant
            prefix@ == recent_prefix(),
            start <= text@.len() == total,
            unprefixed(text@) == unprefixed(text@.skip(start as int)),
        decreases text@.len() - start,
    {
        let ghost rest = text@.skip(start as int);
        assert(rest.subrange(0, 7) =~= text@.subrange(start as int, start + 7));
        assert(rest.skip(7) =~= text@.skip(start + 7));
        start = start + 7;
    }
    let ghost rest = text@.skip(start as int);
    proof {
        if rest.len() >= 7 {
            assert(rest.subrange(0, 7) =~= text@.subrange(start as int, start + 7));
        }
    }
    let result = part_of(text, start, total);
    assert(result@ =~= rest);
    result
}

/// The command of an entry, by the entry's name.
pub fn map_command(name: &str) -> (result: Option<TrayCommand>)
    ensures
        match result {
            Some(command) => command_of(name@) == Some(command@),
            None => command_of(name@) is None,
        },
{
    if same_text(name, "open") {
        return Some(TrayCommand::Open);
    }
    if same_text(name, "eject") {
        return Some(TrayCommand::Eject);
    }
    let text = chars_of(name);
    let prefix: [char; 7] = ['r', 'e', 'c', 'e', 'n', 't', ':'];
    assert(prefix@ =~= recent_prefix());
    if stands_at(&text, &prefix, 0) {
        let id = string_of(&strip_prefixes(&text));
        return match ModelId::parse(id.as_str()) {
            Some(id) => Some(TrayCommand::LoadRecent(id)),
            None => None,
        };
    }
    if same_text(name, "quit") {
        return Some(TrayCommand::Quit);
    }
    None
}

/// The name of the entry for a model.
pub fn recent_entry(id: ModelId) -> (result: String)
    ensures
        result@ == recent_prefix() + uuid_text(id.number()),
        parsed_uuid(uuid_text(id.number())) == Some(id.number()),
{
    let prefix: [char; 7] = ['r', 'e', 'c', 'e', 'n', 't', ':'];
    assert(prefix@ =~= recent_prefix());
    joined(string_of(&prefix).as_str(), id.to_string().as_str())
}

/// The entry for a model leads back to that model.
pub proof fn law_recent_entries_lead_back(number: u128)
    requires
        parsed_uuid(uuid_text(number)) == Some(number),
    ensures
        command_of(recent_prefix() + uuid_text(number)) == Some(TrayCommandView::LoadRecent(number)),
{
    let text = uuid_text(number);
    let name = recent_prefix() + text;
    reveal_strlit("open");
    reveal_strlit("eject");
    assert(name.len() == 43);
    assert(name.subrange(0, 7) =~= recent_prefix());
    assert(unprefixed(name) == unprefixed(text)) by {
        assert(name.skip(7) =~= text);
    }
    assert(name != "open"@ && name != "eject"@) by {
        assert("open"@.len() == 4);
        assert("eject"@.len() == 5);
    }
    assert(name.skip(7) =~= text);
    assert(text[0] != 'r') by {
        assert(text.len() == 36);
    }
    if has_prefix(text, recent_prefix()) {
        assert(text.subrange(0, 7)[0] == recent_prefix()[0]);
    }
}

/// The icon: what opens the window, and whether it is open.
pub struct TrayController<F> {
    pub on_open: F,
    pub window: bool,
}

impl<F: Fn()> TrayController<F> {
    pub fn new(on_open: F) -> (result: Self)
        ensures
            result.on_open == on_open,
            !result.window,
    {
        TrayController { on_open, window: false }
    }

    pub fn map_command(&self, command: &str) -> (result: Option<TrayCommand>)
        ensures
            match result {
                Some(mapped) => command_of(command@) == Some(mapped@),
                None => command_of(command@) is None,
            },
    {
        map_command(command)
    }

    /// Opens the window on `Open`, and says whether it did.
    pub fn dispatch(&self, command: TrayCommand) -> (result: bool)
        requires
            command == TrayCommand::Open ==> call_requires(self.on_open, ()),
        ensures
            result == (command == TrayCommand::Open),
            result ==> call_ensures(self.on_open, (), ()),
    {
        if command == TrayCommand::Open {
            (self.on_open)();
            true
        } else {
            false
        }
    }

    pub fn open_for_test(&mut self)
        ensures
            final(self).window,
            final(self).on_open == old(self).on_open,
    {
        self.window = true;
    }

    pub fn close_for_test(&mut self)
        ensures
            !final(self).window,
            final(self).on_open == old(self).on_open,
    {
        self.window = false;
    }

    pub fn has_window(&self) -> (result: bool)
        ensures
            result == self.window,
    {
        self.window
    }

    /// How many windows are there; one that was closed is gone.
    pub fn live_window_count(&self) -> (result: usize)
        ensures
            result == (if self.window {
                1usize
            } else {
                0
            }),
    {
        if self.window {
            1
        } else {
            0
        }
    }
}

/// How many models the menu offers.
pub const MAX_RECENT_ENTRIES: usize = 8;

/// An entry for a model.
#[derive(Debug, PartialEq, Eq)]
pub struct RecentEntry {
    pub name: String,
    pub label: String,
}

/// The menu of the icon.
#[derive(Debug)]
pub struct TrayMenu {
    pub tooltip: String,
    pub status: String,
    pub active: String,
    pub eject_enabled: bool,
    pub recent: Vec<RecentEntry>,
    pub recent_enabled: bool,
}

/// The entry is for this model.
pub open spec fn entry_for(entry: RecentEntry, model: (ModelId, String)) -> bool {
    entry.name@ == recent_prefix() + uuid_text(model.0.number()) && entry.label@ == model.1@
}

/// The menu for a status, the model that is active, and the models used lately.
pub fn build_menu(status: &str, active: Option<&str>, recent: &Vec<(ModelId, String)>) -> (result: TrayMenu)
    ensures
        result.tooltip@ == "Model Launcher \u{2014} "@ + status@,
        result.status@ == status@,
        result.active@ == (match active {
            Some(name) => name@,
            None => "No model loaded"@,
        }),
        result.eject_enabled == (active is Some),
        result.recent_enabled == (recent@.len() > 0),
        result.recent@.len() == (if recent@.len() <= MAX_RECENT_ENTRIES {
            recent@.len()
        } else {
            MAX_RECENT_ENTRIES as nat
        }),
        forall|index: int|
            0 <= index < result.recent@.len() ==> entry_for(#[trigger] result.recent@[index], recent@[index]),
{
    let count: usize = if recent.len() <= MAX_RECENT_ENTRIES {
        recent.len()
    } else {
        MAX_RECENT_ENTRIES
    };
    let mut entries: Vec<RecentEntry> = Vec::new();
    for index in 0..count
        invariant
            count <= recent@.len(),
            entries@.len() == index,
            forall|earlier: int|
                0 <= earlier < index ==> entry_for(#[trigger] entries@[earlier], recent@[earlier]),
    {
        let (id, label) = &recent[index];
        entries.push(RecentEntry { name: recent_entry(*id), label: label.clone() });
    }
    TrayMenu {
        tooltip: joined("Model Launcher \u{2014} ", status),
        status: status.to_owned(),
        active: match active {
            Some(name) => name.to_owned(),
            None => "No model loaded".to_owned(),
        },
        eject_enabled: active.is_some(),
        recent: entries,
        recent_enabled: recent.len() > 0,
    }
}

} // verus!
