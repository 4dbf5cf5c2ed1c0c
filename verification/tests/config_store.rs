//! The configuration file: what is read, set aside and replaced.

use model_launcher::launcher::config::{
    clone_models, config_form, load_action, migrate, save_block, ConfigDiagnostic, ConfigDiagnosticKind, ConfigForm,
    ConfigIoStage, ConfigStore, Decoded, LauncherConfig, LoadAction, SaveBlock, SaveStep, SaveTransaction,
};
use model_launcher::launcher::catalog::{CatalogIdentity, CatalogMetadata};
use model_launcher::launcher::model::{LaunchProfile, ModelId, ModelKey, ModelRecord, ModelState};
use model_launcher::launcher::path_order::PathStyle;

fn model(state: ModelState) -> ModelRecord {
    ModelRecord {
        id: ModelId::parse("f91eaee1-7914-4eb9-a633-663f691fab41").expect("fixture UUID"),
        key: ModelKey::parse("Qwen/qwen3-8b-q4".to_owned()).expect("fixture key"),
        display_name: "Qwen 3 8B".to_owned(),
        path: "models/qwen.gguf".to_owned(),
        file_identity: CatalogIdentity::Unavailable,
        size_bytes: 4_294_967_296,
        metadata: CatalogMetadata::default(),
        state,
        launch_profile: LaunchProfile::default(),
    }
}

fn config(state: ModelState) -> LauncherConfig {
    let mut config = LauncherConfig::default();
    config.models = vec![model(state)];
    config
}

#[test]
fn missing_config_loads_as_default() {
    match load_action(None) {
        LoadAction::Use { config, save } => {
            assert!(!save);
            assert!(config.models.is_empty());
            assert_eq!(config.bind_address, "127.0.0.1");
            assert_eq!(config.port, 1234);
            assert!(!config.auth_enabled);
        }
        other => panic!("{other:?}"),
    }
    assert!(matches!(save_block(None), SaveBlock::Clear));
}

#[test]
fn model_uuid_and_key_survive_persistence() {
    let expected = model(ModelState::Available);
    let decoded = Decoded::Config { config: config(ModelState::Available), migrated: false };
    match load_action(Some(decoded)) {
        LoadAction::Use { config, save } => {
            assert!(!save);
            assert_eq!(config.models[0].id, expected.id);
            assert_eq!(config.models[0].key, expected.key);
        }
        other => panic!("{other:?}"),
    }
}

#[test]
fn missing_models_are_not_discarded() {
    let copied = clone_models(&config(ModelState::Missing).models);
    assert_eq!(copied.len(), 1);
    assert_eq!(copied[0].state, ModelState::Missing);
}

#[test]
fn corrupt_file_is_quarantined_without_being_overwritten() {
    let corrupt = || Decoded::Corrupt { message: "expected value".to_owned() };
    assert!(matches!(
        load_action(Some(corrupt())),
        LoadAction::Quarantine { kind: ConfigDiagnosticKind::Corrupt }
    ));
    match save_block(Some(corrupt())) {
        SaveBlock::Quarantine { error } => assert_eq!(error.code(), "config_format"),
        other => panic!("{other:?}"),
    }
}

#[test]
fn corrupt_load_exposes_a_typed_quarantine_diagnostic() {
    let store = ConfigStore::new("/config".to_owned(), PathStyle::Unix);
    let diagnostic = ConfigDiagnostic {
        kind: ConfigDiagnosticKind::Corrupt,
        quarantine_path: store.quarantine_path("7"),
    };
    assert_eq!(diagnostic.code(), "config_corrupt");
    assert_eq!(diagnostic.quarantine_path, "/config/config.json.quarantine-7");
    assert_eq!(diagnostic.to_string(), "Configuration was corrupt and has been quarantined.");
}

#[test]
fn unsupported_load_diagnostic_includes_the_version() {
    assert_eq!(config_form(99), ConfigForm::Unsupported);
    assert!(matches!(
        load_action(Some(Decoded::Unsupported { version: 99 })),
        LoadAction::Quarantine { kind: ConfigDiagnosticKind::UnsupportedVersion { version: 99 } }
    ));
    match save_block(Some(Decoded::Unsupported { version: 99 })) {
        SaveBlock::Quarantine { error } => assert_eq!(error.source().unwrap(), "unsupported configuration version 99"),
        other => panic!("{other:?}"),
    }
    let diagnostic = ConfigDiagnostic {
        kind: ConfigDiagnosticKind::UnsupportedVersion { version: 99 },
        quarantine_path: String::new(),
    };
    assert_eq!(diagnostic.code(), "config_unsupported_version");
}

#[test]
fn migrates_a_version_zero_fixture() {
    assert_eq!(config_form(0), ConfigForm::VersionZero);
    assert_eq!(config_form(1), ConfigForm::Current);
    let migrated = migrate(vec![model(ModelState::Missing)]);
    assert_eq!(migrated.models[0].state, ModelState::Missing);
    assert!(matches!(
        load_action(Some(Decoded::Config { config: migrated, migrated: true })),
        LoadAction::Use { save: true, .. }
    ));
}

#[test]
fn a_file_that_cannot_be_read_is_left_alone() {
    let unreadable = || Decoded::Unreadable { message: "denied".to_owned() };
    match load_action(Some(unreadable())) {
        LoadAction::Fail { error } => assert_eq!(error.code(), "config_io"),
        other => panic!("{other:?}"),
    }
    match save_block(Some(unreadable())) {
        SaveBlock::Fail { error } => assert_eq!(error.source().unwrap(), "denied"),
        other => panic!("{other:?}"),
    }
}

fn stages(main_exists: bool) -> Vec<ConfigIoStage> {
    let mut transaction = SaveTransaction::new(main_exists);
    let mut stages = Vec::new();
    while let SaveStep::Perform(stage) = transaction.due() {
        stages.push(stage);
        transaction.advance();
    }
    stages
}

#[test]
fn save_atomically_replaces_the_main_file() {
    assert_eq!(
        stages(true),
        [
            ConfigIoStage::WriteMainTemp,
            ConfigIoStage::SyncMainTemp,
            ConfigIoStage::CopyBackupTemp,
            ConfigIoStage::SyncBackupTemp,
            ConfigIoStage::ReplaceBackup,
            ConfigIoStage::ReplaceMain,
        ]
    );
    assert_eq!(
        stages(false),
        [ConfigIoStage::WriteMainTemp, ConfigIoStage::SyncMainTemp, ConfigIoStage::ReplaceMain]
    );
}

#[test]
fn files_of_the_store_have_their_names() {
    let store = ConfigStore::new("/config".to_owned(), PathStyle::Unix);
    assert_eq!(store.config_path(), "/config/config.json");
    assert_eq!(store.backup_path(), "/config/config.json.backup");
    assert_eq!(store.main_temp_path("7"), "/config/config.json.7.tmp");
    assert_eq!(store.backup_temp_path("7"), "/config/config.json.backup.7.tmp");
    let windows = ConfigStore::new(r"C:\data".to_owned(), PathStyle::Windows);
    assert_eq!(windows.config_path(), r"C:\data\config.json");
    assert_eq!(windows.quarantine_path("7"), r"C:\data\config.json.quarantine-7");
    assert!(ConfigStore::is_quarantined("config.json.quarantine-fixture"));
    assert!(!ConfigStore::is_quarantined("config.json.backup"));
}

/// What the main file and its backup hold after the version `new` was saved.
fn saved(main: Option<u32>, backup: Option<u32>, new: u32) -> (Option<u32>, Option<u32>) {
    let (mut main, mut backup) = (main, backup);
    let (mut main_temp, mut backup_temp) = (None, None);
    for stage in stages(main.is_some()) {
        match stage {
            ConfigIoStage::WriteMainTemp => main_temp = Some(new),
            ConfigIoStage::CopyBackupTemp => backup_temp = main,
            ConfigIoStage::ReplaceBackup => backup = backup_temp.take(),
            ConfigIoStage::ReplaceMain => main = main_temp.take(),
            ConfigIoStage::SyncMainTemp | ConfigIoStage::SyncBackupTemp | ConfigIoStage::ReadDirectoryEntry => {}
        }
    }
    assert_eq!((main_temp, backup_temp), (None, None));
    (main, backup)
}

#[test]
fn replacement_retains_the_last_valid_backup() {
    let (main, backup) = saved(None, None, 1);
    assert_eq!((main, backup), (Some(1), None));
    let (main, backup) = saved(main, backup, 2);
    assert_eq!((main, backup), (Some(2), Some(1)));
    assert_eq!(saved(main, backup, 3), (Some(3), Some(2)));
}
