//! The configuration of the launcher: what it holds, how its file is read and how
//! it is replaced without ever losing the last good one.

use vstd::prelude::*;

use super::capability::LaunchSettings;
use super::error::AppError;
use super::model::ModelRecord;
use super::path_order::{join_path, joined_path, PathStyle};
use crate::text::{chars_of, copy_texts, decimal, has_prefix, joined, push_decimal, push_text, stands_at};

verus! {

/// The version of the configuration file that is written.
pub const CURRENT_VERSION: u32 = 1;

pub const CONFIG_FILE: &'static str = "config.json";

pub const BACKUP_FILE: &'static str = "config.json.backup";

pub const QUARANTINE_PREFIX: &'static str = "config.json.quarantine-";

/// The configuration of the launcher.
#[derive(Debug)]
pub struct LauncherConfig {
    pub models: Vec<ModelRecord>,
    pub catalog_directory: Option<String>,
    pub engine_distribution: Option<String>,
    pub engine_executable: Option<String>,
    pub default_launch_settings: LaunchSettings,
    pub auth_token_hashes: Vec<String>,
    pub bind_address: String,
    pub port: u16,
    pub auth_enabled: bool,
}

impl LauncherConfig {
    /// Two configurations that hold the same.
    pub open spec fn same_as(self, other: LauncherConfig) -> bool {
        self.models@ == other.models@ && self.same_but_models(other)
    }

    /// Two configurations that hold the same, but for their models.
    pub open spec fn same_but_models(self, other: LauncherConfig) -> bool {
        &&& self.catalog_directory == other.catalog_directory
        &&& self.engine_distribution == other.engine_distribution
        &&& self.engine_executable == other.engine_executable
        &&& self.default_launch_settings == other.default_launch_settings
        &&& self.auth_token_hashes@ == other.auth_token_hashes@
        &&& self.bind_address == other.bind_address
        &&& self.port == other.port
        &&& self.auth_enabled == other.auth_enabled
    }
}

/// A copy of a list of models.
pub fn clone_models(models: &Vec<ModelRecord>) -> (result: Vec<ModelRecord>)
    ensures
        result@ == models@,
{
    let mut result: Vec<ModelRecord> = Vec::new();
    for index in 0..models.len()
        invariant
            result@ == models@.take(index as int),
    {
        result.push(models[index].clone());
        assert(models@.take(index + 1) =~= models@.take(index as int).push(models@[index as int]));
    }
    assert(models@.take(models@.len() as int) =~= models@);
    result
}

impl Clone for LauncherConfig {
    fn clone(&self) -> (result: Self)
        ensures
            result.same_as(*self),
    {
        LauncherConfig {
            models: clone_models(&self.models),
            catalog_directory: self.catalog_directory.clone(),
            engine_distribution: self.engine_distribution.clone(),
            engine_executable: self.engine_executable.clone(),
            default_launch_settings: self.default_launch_settings.clone(),
            auth_token_hashes: copy_texts(&self.auth_token_hashes),
            bind_address: self.bind_address.clone(),
            port: self.port,
            auth_enabled: self.auth_enabled,
        }
    }
}

impl Default for LauncherConfig {
    fn default() -> (result: Self)
        ensures
            result.models@.len() == 0,
            result.catalog_directory is None,
            result.engine_distribution is None,
            result.engine_executable is None,
            result.default_launch_settings == LaunchSettings::unset(),
            result.auth_token_hashes@.len() == 0,
            result.bind_address@ == "127.0.0.1"@,
            result.port == 1234,
            !result.auth_enabled,
    {
        LauncherConfig {
            models: Vec::new(),
            catalog_directory: None,
            engine_distribution: None,
            engine_executable: None,
            default_launch_settings: LaunchSettings::default(),
            auth_token_hashes: Vec::new(),
            bind_address: "127.0.0.1".to_owned(),
            port: 1234,
            auth_enabled: false,
        }
    }
}

/// Which form a configuration file has.
#[derive(Clone, Copy, Debug, PartialEq, Eq, Structural)]
pub enum ConfigForm {
    /// An envelope around the configuration.
    Current,
    /// A bare list of models; it is written anew once it was read.
    VersionZero,
    /// A form that this version does not know.
    Unsupported,
}

/// The form of a file with this version number.
pub open spec fn form_of(version: u32) -> ConfigForm {
    if version == CURRENT_VERSION {
        ConfigForm::Current
    } else if version == 0 {
        ConfigForm::VersionZero
    } else {
        ConfigForm::Unsupported
    }
}

pub fn config_form(version: u32) -> (result: ConfigForm)
    ensures
        result == form_of(version),
{
    if version == CURRENT_VERSION {
        ConfigForm::Current
    } else if version == 0 {
        ConfigForm::VersionZero
    } else {
        ConfigForm::Unsupported
    }
}

/// The configuration of a file of version zero: its models and nothing else.
pub fn migrate(models: Vec<ModelRecord>) -> (result: LauncherConfig)
    ensures
        result.models == models,
        result.catalog_directory is None,
        result.engine_distribution is None,
        result.engine_executable is None,
        result.default_launch_settings == LaunchSettings::unset(),
        result.auth_token_hashes@.len() == 0,
        result.bind_address@ == "127.0.0.1"@,
        result.port == 1234,
        !result.auth_enabled,
{
    let mut config = LauncherConfig::default();
    config.models = models;
    config
}

/// Why a configuration file was set aside.
#[derive(Clone, Copy, Debug, PartialEq, Eq, Structural)]
pub enum ConfigDiagnosticKind {
    Corrupt,
    UnsupportedVersion { version: u32 },
}

/// A configuration file that was set aside, and where to.
#[derive(Debug, PartialEq, Eq)]
pub struct ConfigDiagnostic {
    pub kind: ConfigDiagnosticKind,
    pub quarantine_path: String,
}

impl Clone for ConfigDiagnostic {
    fn clone(&self) -> (result: Self)
        ensures
            result == *self,
    {
        ConfigDiagnostic { kind: self.kind, quarantine_path: self.quarantine_path.clone() }
    }
}

impl ConfigDiagnostic {
    pub open spec fn code_text(self) -> Seq<char> {
        match self.kind {
            ConfigDiagnosticKind::Corrupt => "config_corrupt"@,
            ConfigDiagnosticKind::UnsupportedVersion { version } => "config_unsupported_version"@,
        }
    }

    pub fn code(&self) -> (result: &'static str)
        ensures
            result@ == self.code_text(),
    {
        match self.kind {
            ConfigDiagnosticKind::Corrupt => "config_corrupt",
            ConfigDiagnosticKind::UnsupportedVersion { version } => "config_unsupported_version",
        }
    }

    /// What a user is told. It never quotes the file.
    pub open spec fn message_text(self) -> Seq<char> {
        match self.kind {
            ConfigDiagnosticKind::Corrupt => "Configuration was corrupt and has been quarantined."@,
            ConfigDiagnosticKind::UnsupportedVersion { version } => "Configuration version "@ + decimal(
                version as nat,
            ) + " is unsupported and has been quarantined."@,
        }
    }

    pub fn to_string(&self) -> (result: String)
        ensures
            result@ == self.message_text(),
    {
        match self.kind {
            ConfigDiagnosticKind::Corrupt => "Configuration was corrupt and has been quarantined.".to_owned(),
            ConfigDiagnosticKind::UnsupportedVersion { version } => {
                let mut text = "Configuration version ".to_owned();
                push_decimal(&mut text, version as u64);
                push_text(&mut text, " is unsupported and has been quarantined.");
                text
            },
        }
    }
}

/// What reading a configuration file came to.
#[derive(Debug)]
pub enum Decoded {
    /// It holds this configuration; `migrated` tells that it has an old form.
    Config { config: LauncherConfig, migrated: bool },
    /// It holds no configuration.
    Corrupt { message: String },
    /// It has a version that is not known.
    Unsupported { version: u32 },
    /// It could not be read.
    Unreadable { message: String },
}

/// What to do with a configuration file that was read.
#[derive(Debug)]
pub enum LoadAction {
    /// Use this configuration; where `save` is set, write it anew first.
    Use { config: LauncherConfig, save: bool },
    /// Set the file aside, then start from the default configuration.
    Quarantine { kind: ConfigDiagnosticKind },
    /// Report the error and touch nothing.
    Fail { error: AppError },
}

/// Decides on a configuration file: `None` stands for one that does not exist. Only
/// a file that holds no known configuration is set aside; one that cannot be read
/// stays where it is.
pub fn load_action(decoded: Option<Decoded>) -> (result: LoadAction)
    ensures
        match decoded {
            None => result matches LoadAction::Use { config, save } && !save && config.models@.len() == 0
                && config.catalog_directory is None && config.engine_distribution is None
                && config.engine_executable is None && config.default_launch_settings
                == LaunchSettings::unset() && config.auth_token_hashes@.len() == 0 && config.bind_address@
                == "127.0.0.1"@ && config.port == 1234 && !config.auth_enabled,
            Some(Decoded::Config { config, migrated }) => result == (LoadAction::Use { config, save: migrated }),
            Some(Decoded::Corrupt { message }) => result == (LoadAction::Quarantine {
                kind: ConfigDiagnosticKind::Corrupt,
            }),
            Some(Decoded::Unsupported { version }) => result == (LoadAction::Quarantine {
                kind: ConfigDiagnosticKind::UnsupportedVersion { version },
            }),
            Some(Decoded::Unreadable { message }) => result == (LoadAction::Fail {
                error: AppError::ConfigIo(message),
            }),
        },
{
    match decoded {
        None => LoadAction::Use { config: LauncherConfig::default(), save: false },
        Some(Decoded::Config { config, migrated }) => LoadAction::Use { config, save: migrated },
        Some(Decoded::Corrupt { message }) => LoadAction::Quarantine { kind: ConfigDiagnosticKind::Corrupt },
        Some(Decoded::Unsupported { version }) => LoadAction::Quarantine {
            kind: ConfigDiagnosticKind::UnsupportedVersion { version },
        },
        Some(Decoded::Unreadable { message }) => LoadAction::Fail { error: AppError::ConfigIo(message) },
    }
}

/// The message about a version that is not known.
pub open spec fn unsupported_text(version: u32) -> Seq<char> {
    "unsupported configuration version "@ + decimal(version as nat)
}

/// What stands in the way of saving over an existing file.
#[derive(Debug)]
pub enum SaveBlock {
    /// Nothing: the file may be replaced.
    Clear,
    /// The file is set aside, and the error reported; nothing is saved.
    Quarantine { error: AppError },
    /// The error is reported and nothing is touched.
    Fail { error: AppError },
}

/// Decides whether an existing file may be replaced. A file that holds no known
/// configuration is never overwritten.
pub fn save_block(decoded: Option<Decoded>) -> (result: SaveBlock)
    ensures
        match decoded {
            None => result is Clear,
            Some(Decoded::Config { config, migrated }) => result is Clear,
            Some(Decoded::Corrupt { message }) => result == (SaveBlock::Quarantine {
                error: AppError::ConfigFormat(message),
            }),
            Some(Decoded::Unsupported { version }) => result matches SaveBlock::Quarantine {
                error: AppError::ConfigFormat(message),
            } && message@ == unsupported_text(version),
            Some(Decoded::Unreadable { message }) => result == (SaveBlock::Fail {
                error: AppError::ConfigIo(message),
            }),
        },
{
    match decoded {
        None => SaveBlock::Clear,
        Some(Decoded::Config { config, migrated }) => SaveBlock::Clear,
        Some(Decoded::Corrupt { message }) => SaveBlock::Quarantine { error: AppError::ConfigFormat(message) },
        Some(Decoded::Unsupported { version }) => {
            let mut message = "unsupported configuration version ".to_owned();
            push_decimal(&mut message, version as u64);
            SaveBlock::Quarantine { error: AppError::ConfigFormat(message) }
        },
        Some(Decoded::Unreadable { message }) => SaveBlock::Fail { error: AppError::ConfigIo(message) },
    }
}

/// A step of a save that touches the disk.
#[derive(Clone, Copy, Debug, PartialEq, Eq, Structural)]
pub enum ConfigIoStage {
    WriteMainTemp,
    SyncMainTemp,
    CopyBackupTemp,
    SyncBackupTemp,
    ReplaceBackup,
    ReplaceMain,
    ReadDirectoryEntry,
}

/// The steps of a save, in order. The backup is written only where there is
/// something to back up.
pub open spec fn save_stages(main_exists: bool) -> Seq<ConfigIoStage> {
    if main_exists {
        seq![
            ConfigIoStage::WriteMainTemp,
            ConfigIoStage::SyncMainTemp,
            ConfigIoStage::CopyBackupTemp,
            ConfigIoStage::SyncBackupTemp,
            ConfigIoStage::ReplaceBackup,
            ConfigIoStage::ReplaceMain,
        ]
    } else {
        seq![ConfigIoStage::WriteMainTemp, ConfigIoStage::SyncMainTemp, ConfigIoStage::ReplaceMain]
    }
}

/// A save in progress.
pub struct SaveTransaction {
    main_exists: bool,
    done: usize,
}

/// What a save does next.
#[derive(Debug)]
pub enum SaveStep {
    Perform(ConfigIoStage),
    /// Everything is in place.
    Finished,
}

/// What is on disk while a save goes on: numbers stand for versions of the file.
pub struct SaveDisk {
    pub main: Option<int>,
    pub backup: Option<int>,
    pub main_temp: Option<int>,
    pub backup_temp: Option<int>,
}

/// What one step does to the disk when the version `new` is saved.
pub open spec fn disk_after(disk: SaveDisk, stage: ConfigIoStage, new: int) -> SaveDisk {
    match stage {
        ConfigIoStage::WriteMainTemp => SaveDisk { main_temp: Some(new), ..disk },
        ConfigIoStage::CopyBackupTemp => SaveDisk { backup_temp: disk.main, ..disk },
        ConfigIoStage::ReplaceBackup => SaveDisk { backup: disk.backup_temp, backup_temp: None, ..disk },
        ConfigIoStage::ReplaceMain => SaveDisk { main: disk.main_temp, main_temp: None, ..disk },
        _ => disk,
    }
}

/// What the first `count` steps do to the disk.
pub open spec fn disk_after_steps(disk: SaveDisk, stages: Seq<ConfigIoStage>, count: nat, new: int) -> SaveDisk
    decreases count,
{
    if count == 0 {
        disk
    } else {
        disk_after(disk_after_steps(disk, stages, (count - 1) as nat, new), stages[count - 1], new)
    }
}

/// However far a save gets, the main file holds either the old version or the new
/// one, and it holds the new one only at the end.
pub proof fn law_main_file_is_replaced_last(disk: SaveDisk, new: int, count: nat)
    requires
        count <= save_stages(disk.main is Some).len(),
    ensures
        disk_after_steps(disk, save_stages(disk.main is Some), count, new).main == (if count == save_stages(
            disk.main is Some,
        ).len() {
            Some(new)
        } else {
            disk.main
        }),
{
    reveal_with_fuel(disk_after_steps, 7);
}

/// A finished save leaves the version that it replaced as the backup, and no
/// temporary file.
pub proof fn law_backup_holds_the_replaced_version(disk: SaveDisk, new: int)
    requires
        disk.backup_temp is None,
    ensures
        ({
            let after = disk_after_steps(
                disk,
                save_stages(disk.main is Some),
                save_stages(disk.main is Some).len(),
                new,
            );
            &&& after.main_temp is None && after.backup_temp is None
            &&& disk.main is Some ==> after.backup == disk.main
            &&& disk.main is None ==> after.backup == disk.backup
        }),
{
    reveal_with_fuel(disk_after_steps, 7);
}

impl SaveTransaction {
    pub closed spec fn stages(self) -> Seq<ConfigIoStage> {
        save_stages(self.main_exists)
    }

    /// How many steps were performed.
    pub closed spec fn performed(self) -> nat {
        self.done as nat
    }

    pub closed spec fn wf(self) -> bool {
        self.done <= save_stages(self.main_exists).len()
    }

    pub fn new(main_exists: bool) -> (result: Self)
        ensures
            result.wf(),
            result.stages() == save_stages(main_exists),
            result.performed() == 0,
    {
        SaveTransaction { main_exists, done: 0 }
    }

    /// The step that is due.
    pub fn due(&self) -> (result: SaveStep)
        requires
            self.wf(),
        ensures
            match result {
                SaveStep::Perform(stage) => self.performed() < self.stages().len() && stage
                    == self.stages()[self.performed() as int],
                SaveStep::Finished => self.performed() == self.stages().len(),
            },
    {
        if self.main_exists {
            match self.done {
                0 => SaveStep::Perform(ConfigIoStage::WriteMainTemp),
                1 => SaveStep::Perform(ConfigIoStage::SyncMainTemp),
                2 => SaveStep::Perform(ConfigIoStage::CopyBackupTemp),
                3 => SaveStep::Perform(ConfigIoStage::SyncBackupTemp),
                4 => SaveStep::Perform(ConfigIoStage::ReplaceBackup),
                5 => SaveStep::Perform(ConfigIoStage::ReplaceMain),
                _ => SaveStep::Finished,
            }
        } else {
            match self.done {
                0 => SaveStep::Perform(ConfigIoStage::WriteMainTemp),
                1 => SaveStep::Perform(ConfigIoStage::SyncMainTemp),
                2 => SaveStep::Perform(ConfigIoStage::ReplaceMain),
                _ => SaveStep::Finished,
            }
        }
    }

    /// The step that was due is done. A failed step ends the save: the transaction
    /// is dropped and the temporary files removed.
    pub fn advance(&mut self)
        requires
            old(self).wf(),
            old(self).performed() < old(self).stages().len(),
        ensures
            final(self).wf(),
            final(self).stages() == old(self).stages(),
            final(self).performed() == old(self).performed() + 1,
    {
        self.done = self.done + 1;
    }
}

/// The name of the temporary file of the main file.
pub open spec fn main_temp_name(unique: Seq<char>) -> Seq<char> {
    "config.json."@ + unique + ".tmp"@
}

/// The name of the temporary file of the backup.
pub open spec fn backup_temp_name(unique: Seq<char>) -> Seq<char> {
    "config.json.backup."@ + unique + ".tmp"@
}

/// Where the configuration is kept.
#[derive(Debug)]
pub struct ConfigStore {
    directory: String,
    style: PathStyle,
}

impl View for ConfigStore {
    type V = Seq<char>;

    /// The directory of the store.
    closed spec fn view(&self) -> Seq<char> {
        self.directory@
    }
}

impl ConfigStore {
    /// How the paths of the store are written.
    pub closed spec fn path_style(self) -> PathStyle {
        self.style
    }

    pub fn new(directory: String, style: PathStyle) -> (result: Self)
        ensures
            result@ == directory@,
            result.path_style() == style,
    {
        ConfigStore { directory, style }
    }

    pub fn config_path(&self) -> (result: String)
        ensures
            result@ == joined_path(self@, CONFIG_FILE@, self.path_style()),
    {
        join_path(&chars_of(self.directory.as_str()), &chars_of(CONFIG_FILE), self.style)
    }

    pub fn backup_path(&self) -> (result: String)
        ensures
            result@ == joined_path(self@, BACKUP_FILE@, self.path_style()),
    {
        join_path(&chars_of(self.directory.as_str()), &chars_of(BACKUP_FILE), self.style)
    }

    /// Where a new version of the file is written first, under a unique word.
    pub fn main_temp_path(&self, unique: &str) -> (result: String)
        ensures
            result@ == joined_path(self@, main_temp_name(unique@), self.path_style()),
    {
        let name = joined(joined("config.json.", unique).as_str(), ".tmp");
        join_path(&chars_of(self.directory.as_str()), &chars_of(name.as_str()), self.style)
    }

    /// Where the version that is replaced is copied first, under a unique word.
    pub fn backup_temp_path(&self, unique: &str) -> (result: String)
        ensures
            result@ == joined_path(self@, backup_temp_name(unique@), self.path_style()),
    {
        let name = joined(joined("config.json.backup.", unique).as_str(), ".tmp");
        join_path(&chars_of(self.directory.as_str()), &chars_of(name.as_str()), self.style)
    }

    /// Where a file is set aside under a unique word.
    pub fn quarantine_path(&self, unique: &str) -> (result: String)
        ensures
            result@ == joined_path(self@, QUARANTINE_PREFIX@ + unique@, self.path_style()),
    {
        let name = joined(QUARANTINE_PREFIX, unique);
        join_path(&chars_of(self.directory.as_str()), &chars_of(name.as_str()), self.style)
    }

    /// Whether a file with this name was set aside.
    pub fn is_quarantined(name: &str) -> (result: bool)
        ensures
            result == has_prefix(name@, QUARANTINE_PREFIX@),
    {
        stands_at(&chars_of(name), &chars_of(QUARANTINE_PREFIX), 0)
    }
}

/// A file that was set aside is recognised by its name.
pub proof fn law_quarantined_names_are_recognised(unique: Seq<char>)
    ensures
        has_prefix(QUARANTINE_PREFIX@ + unique, QUARANTINE_PREFIX@),
{
    let name = QUARANTINE_PREFIX@ + unique;
    assert(name.subrange(0, QUARANTINE_PREFIX@.len() as int) =~= QUARANTINE_PREFIX@);
}

} // verus!
