//! Finding models, reading what they state, and keeping the list up to date.

use std::collections::BTreeMap;
use std::io::{Cursor, ErrorKind};

use gguf_rs_lib::builder::GGUFBuilder;
use gguf_rs_lib::format::MetadataValue;
use gguf_rs_lib::reader::{GGUFFileReader, GGUFReaderConfig};
use gguf_rs_lib::GGUFError;
use model_launcher::launcher::capability::{ContextLength, LaunchSettings};
use model_launcher::launcher::catalog::{
    catalog_header_limit, is_gguf, llama_file_type, push_scan_diagnostic, scan_diagnostic, stable_fingerprint,
    CatalogDiagnosticKind, CatalogHeaderLimit, CatalogIdentity, CatalogMetadata, ScanBudgets, ScanResult,
    ScannedModel, MAX_CATALOG_DECODED_METADATA_BYTES, MAX_CATALOG_DIAGNOSTICS, MAX_CATALOG_METADATA_BYTES,
    MAX_DISCOVERED_GGUF_FILES, MAX_DISCOVERED_MODELS, MAX_TOTAL_CATALOG_TENSORS,
};
use model_launcher::launcher::config::{ConfigStore, LauncherConfig};
use model_launcher::launcher::gguf::{
    fallback_name, limited_model, read_model, MetadataEntry, MetadataItem, ModelReading, ReadFailure,
};
use model_launcher::launcher::model::{ModelId, ModelKey, ModelState};
use model_launcher::launcher::reconcile::{
    normalized_catalog_path, reconcile_catalog, try_reconcile, unique_key, ReconcileOptions,
};
use model_launcher::launcher::scan::{
    add_part_size, canonical_within, check_root, refused_scan, CatalogScan, DiscoveredFile, Discovery, FileSnapshot,
    RootKind, RootSnapshot, ScanStep,
};
use model_launcher::launcher::watch::{
    close_batch, retain_watch_event, BatchTimer, CatalogDebouncer, CatalogService, CatalogWatchEvent,
    WATCH_MAX_BATCH_DIAGNOSTICS,
};
use model_launcher::launcher::path_order::{join_path, order_of, PathOrder, PathStyle};

/// Files of a directory, by their paths below it.
type Files = BTreeMap<String, Vec<u8>>;

fn tiny_gguf(name: &str) -> Vec<u8> {
    GGUFBuilder::new()
        .add_metadata("general.name", MetadataValue::String(name.into()))
        .add_metadata("general.architecture", MetadataValue::String("llama".into()))
        .build_to_bytes()
        .unwrap()
        .0
}

fn metadata_gguf(name: MetadataValue) -> Vec<u8> {
    GGUFBuilder::new()
        .add_metadata("general.name", name)
        .add_metadata("general.architecture", MetadataValue::String("llama".into()))
        .add_metadata("general.parameter_count", MetadataValue::U64(7_000_000_000))
        .add_metadata("general.file_type", MetadataValue::U32(15))
        .add_metadata("general.quantization_version", MetadataValue::U32(2))
        .add_metadata("llama.context_length", MetadataValue::U32(8192))
        .build_to_bytes()
        .unwrap()
        .0
}

fn header(tensors: u64, metadata: u64) -> Vec<u8> {
    let mut bytes = Vec::new();
    bytes.extend_from_slice(&0x4655_4747_u32.to_le_bytes());
    bytes.extend_from_slice(&3_u32.to_le_bytes());
    bytes.extend_from_slice(&tensors.to_le_bytes());
    bytes.extend_from_slice(&metadata.to_le_bytes());
    bytes
}

fn reading(bytes: &[u8]) -> ModelReading {
    let config = GGUFReaderConfig {
        validate_integrity: true,
        eager_load_tensors: false,
        max_file_size: 0,
        max_metadata_size: MAX_CATALOG_METADATA_BYTES,
        max_decoded_metadata_size: MAX_CATALOG_DECODED_METADATA_BYTES,
        buffer_size: 64 * 1024,
        use_mmap: false,
    };
    let failed = |failure: ReadFailure, message: String| ModelReading::Failed {
        failure,
        message,
        current_size: Some(bytes.len() as u64),
    };
    match GGUFFileReader::with_config(Cursor::new(bytes), config) {
        Ok(reader) => ModelReading::Entries(
            reader
                .metadata()
                .iter()
                .map(|(key, value)| MetadataEntry {
                    key: key.clone(),
                    item: match value {
                        MetadataValue::String(text) => MetadataItem::Text(text.clone()),
                        MetadataValue::U64(number) => MetadataItem::Unsigned(*number),
                        MetadataValue::U32(number) => MetadataItem::Unsigned(u64::from(*number)),
                        _ => MetadataItem::Other,
                    },
                })
                .collect(),
        ),
        Err(GGUFError::Io(error)) if error.kind() != ErrorKind::UnexpectedEof => {
            failed(ReadFailure::Io, error.to_string())
        }
        Err(error @ GGUFError::Io(_)) | Err(error @ GGUFError::UnexpectedEof) => {
            failed(ReadFailure::Truncated, error.to_string())
        }
        Err(error) => failed(ReadFailure::Format, error.to_string()),
    }
}

fn scan(files: &Files) -> ScanResult {
    scan_with_sizes(files, &|_, actual| actual)
}

fn scan_with_sizes(files: &Files, size: &dyn Fn(&str, u64) -> u64) -> ScanResult {
    let mut discovery = Discovery::new("/models".to_owned());
    let mut found = Vec::new();
    for path in files.keys() {
        if !is_gguf(path.rsplit_once('.').map(|(_, extension)| extension)) {
            continue;
        }
        if !discovery.has_room() {
            break;
        }
        discovery.take();
        let full = format!("/models/{path}");
        let (parent, name) = full.rsplit_once('/').unwrap();
        found.push(DiscoveredFile::new(full.clone(), parent, Some(name)));
    }
    let paths: Vec<String> = found.iter().map(|file| file.path().to_owned()).collect();
    let mut scan = CatalogScan::new("/models".to_owned(), found, discovery.finish(), PathStyle::Unix);
    let mut budgets = ScanBudgets::new();
    loop {
        let opened = match scan.step() {
            ScanStep::Done => break,
            ScanStep::Skip => continue,
            ScanStep::Open(opened) => opened,
        };
        let mut total = 0;
        let mut failure = None;
        for index in &opened {
            let path = &paths[*index];
            let actual = files[path.strip_prefix("/models/").unwrap()].len() as u64;
            match add_part_size(path, total, size(path, actual)) {
                Ok(sum) => total = sum,
                Err(diagnostic) => {
                    failure = Some(diagnostic);
                    break;
                }
            }
        }
        if let Some(diagnostic) = failure {
            scan.fail(diagnostic);
            continue;
        }
        let path = &paths[opened[0]];
        let bytes = &files[path.strip_prefix("/models/").unwrap()];
        let stem = path.rsplit_once('/').unwrap().1.rsplit_once('.').map(|(stem, _)| stem);
        let identity = CatalogIdentity::Unix { device: 1, inode_fingerprint: stable_fingerprint(&[opened[0] as u64]) };
        let mut diagnostics = Vec::new();
        let parsed = match catalog_header_limit(&bytes[..bytes.len().min(24)], &mut budgets) {
            Some(limit) => limited_model(path, stem, total, identity, limit, &mut diagnostics),
            None => read_model(path, stem, total, bytes.len() as u64, identity, reading(bytes), &mut diagnostics),
        };
        scan.conclude(diagnostics, None, parsed);
    }
    scan.finish(None)
}

fn one(path: &str, bytes: Vec<u8>) -> Files {
    Files::from([(path.to_owned(), bytes)])
}

fn tells(result: &ScanResult, text: &str) -> bool {
    result.diagnostics.iter().any(|item| item.message.contains(text))
}

#[test]
fn scan_recurses_and_matches_extension_case_insensitively() {
    let mut files = one("nested/Alpha.GGuF", tiny_gguf("Alpha"));
    files.insert("ignored.bin".to_owned(), b"not a model".to_vec());
    let result = scan(&files);
    assert_eq!(result.models.len(), 1);
    assert_eq!(result.models[0].display_name, "Alpha");
    assert!(result.diagnostics.is_empty());
    assert!(result.complete);
}

#[test]
fn valid_gguf_extracts_metadata_and_missing_name_uses_filename() {
    let mut files = one("metadata.gguf", metadata_gguf(MetadataValue::String("Seven".into())));
    files.insert(
        "filename-only.gguf".to_owned(),
        GGUFBuilder::new()
            .add_metadata("general.architecture", MetadataValue::String("llama".into()))
            .build_to_bytes()
            .unwrap()
            .0,
    );
    let result = scan(&files);
    let metadata = result.models.iter().find(|model| model.display_name == "Seven").unwrap();
    assert_eq!(metadata.metadata.architecture.as_deref(), Some("llama"));
    assert_eq!(metadata.metadata.parameter_count, Some(7_000_000_000));
    assert_eq!(metadata.metadata.quantization.as_deref(), Some("Q4_K_M"));
    assert_eq!(metadata.metadata.quantization_version, Some(2));
    assert_eq!(metadata.metadata.context_length, Some(8192));
    assert!(result.models.iter().any(|model| model.display_name == "filename-only"));
    assert!(result.complete);
}

#[test]
fn wrong_type_name_falls_back_with_metadata_diagnostic() {
    let result = scan(&one("typed.gguf", metadata_gguf(MetadataValue::U32(42))));
    assert_eq!(result.models[0].display_name, "typed");
    assert!(result.complete, "a per-file metadata problem does not invalidate traversal");
    assert!(result.diagnostics.iter().any(|item| item.kind == CatalogDiagnosticKind::Metadata));
}

#[test]
fn unknown_standard_file_type_is_retained_with_diagnostic() {
    let bytes = GGUFBuilder::new()
        .add_metadata("general.name", MetadataValue::String("Future".into()))
        .add_metadata("general.file_type", MetadataValue::U32(999))
        .build_to_bytes()
        .unwrap()
        .0;
    let result = scan(&one("future.gguf", bytes));
    assert_eq!(result.models[0].metadata.quantization.as_deref(), Some("FILE_TYPE_999"));
    assert!(result.complete);
    assert!(result.diagnostics.iter().any(|item| item.kind == CatalogDiagnosticKind::Metadata));
}

#[test]
fn standard_file_types_have_stable_display_names() {
    let cases = [
        (0, "F32"),
        (1, "F16"),
        (2, "Q4_0"),
        (3, "Q4_1"),
        (4, "Q4_1_SOME_F16"),
        (7, "Q8_0"),
        (8, "Q5_0"),
        (9, "Q5_1"),
        (10, "Q2_K"),
        (12, "Q3_K_M"),
        (15, "Q4_K_M"),
        (17, "Q5_K_M"),
        (18, "Q6_K"),
        (19, "IQ2_XXS"),
        (23, "IQ3_XXS"),
        (31, "IQ1_M"),
        (32, "BF16"),
        (36, "TQ1_0"),
        (37, "TQ2_0"),
        (38, "MXFP4_MOE"),
    ];
    let mut files = Files::new();
    for (value, expected) in cases {
        let bytes = GGUFBuilder::new()
            .add_metadata("general.name", MetadataValue::String(expected.into()))
            .add_metadata("general.file_type", MetadataValue::U32(value))
            .build_to_bytes()
            .unwrap()
            .0;
        files.insert(format!("{value}.gguf"), bytes);
    }
    let result = scan(&files);
    for (value, expected) in cases {
        let model = result.models.iter().find(|model| model.display_name == expected).unwrap();
        assert_eq!(model.metadata.quantization.as_deref(), Some(expected));
        assert_eq!(llama_file_type(u64::from(value)), (expected.to_owned(), true));
    }
    assert_eq!(llama_file_type(u64::MAX), ("FILE_TYPE_18446744073709551615".to_owned(), false));
}

#[test]
fn scan_groups_only_complete_recognized_shard_sets() {
    let mut files = one("orca-00001-of-00002.gguf", tiny_gguf("Orca"));
    files.insert("orca-00002-of-00002.gguf".to_owned(), b"second shard".to_vec());
    files.insert("ordinary-hyphen-name.gguf".to_owned(), tiny_gguf("Ordinary"));
    files.insert("broken-00001-of-00003.gguf".to_owned(), tiny_gguf("Broken"));
    let result = scan(&files);
    let orca = result.models.iter().find(|model| model.display_name == "Orca").unwrap();
    assert_eq!(orca.path, "/models/orca-00001-of-00002.gguf");
    assert_eq!(orca.size_bytes, (tiny_gguf("Orca").len() + b"second shard".len()) as u64);
    assert_eq!(
        result.models.len(),
        3,
        "incomplete shards stay independent and unrelated names never group"
    );
}

#[test]
fn mixed_case_shard_extensions_group_using_actual_paths() {
    let mut files = one("Mix-00001-of-00002.GGUF", tiny_gguf("Mixed"));
    files.insert("Mix-00002-of-00002.gGuF".to_owned(), b"payload".to_vec());
    let result = scan(&files);
    assert_eq!(result.models.len(), 1);
    assert_eq!(result.models[0].path, "/models/Mix-00001-of-00002.GGUF");
    assert_eq!(result.models[0].size_bytes, (tiny_gguf("Mixed").len() + b"payload".len()) as u64);
}

#[test]
fn excessive_declared_shard_total_is_rejected_without_expansion() {
    let result = scan(&one("huge-00001-of-99999.gguf", tiny_gguf("Huge")));
    assert!(!result.complete);
    assert!(result.models.is_empty());
    assert!(tells(&result, "shard total"));
}

#[test]
fn injected_sparse_shard_sizes_cannot_overflow_total() {
    let mut files = one("overflow-00001-of-00002.gguf", tiny_gguf("Overflow"));
    files.insert("overflow-00002-of-00002.gguf".to_owned(), b"payload".to_vec());
    let result = scan_with_sizes(&files, &|path, actual| {
        if path.contains("00001-of") {
            u64::MAX
        } else {
            actual
        }
    });
    assert!(!result.complete);
    assert!(result.models.is_empty());
    assert!(tells(&result, "overflow"));
}

#[test]
fn normalized_filename_collision_is_incomplete_and_ambiguous_group_is_skipped() {
    let mut files = one("Mix-00001-of-00002.GGUF", tiny_gguf("One"));
    files.insert("mix-00001-of-00002.gguf".to_owned(), tiny_gguf("Other one"));
    files.insert("Mix-00002-of-00002.GGUF".to_owned(), b"payload".to_vec());
    let result = scan(&files);
    assert!(!result.complete);
    assert!(result.models.is_empty());
    assert!(tells(
        &result,
        "ambiguous case-insensitive GGUF filenames: [\"/models/Mix-00001-of-00002.GGUF\", \"/models/mix-00001-of-00002.gguf\"]"
    ));
}

#[test]
fn invalid_roots_are_incomplete_and_visible() {
    assert!(check_root("/models", RootKind::Directory).is_none());
    let missing = scan_diagnostic("/models", "No such file or directory (os error 2)");
    let mut refusals = vec![missing];
    for kind in [RootKind::Symlink, RootKind::Other] {
        let diagnostic = check_root("/models", kind).unwrap();
        assert_eq!(diagnostic.path, "/models");
        assert_eq!(diagnostic.kind, CatalogDiagnosticKind::Scan);
        refusals.push(diagnostic);
    }
    for diagnostic in refusals {
        let message = diagnostic.message.clone();
        let result = refused_scan(diagnostic);
        assert!(!result.complete);
        assert!(result.models.is_empty());
        assert!(tells(&result, &message));
    }
}

#[test]
fn unreadable_discovered_file_makes_scan_incomplete_without_partial_model() {
    let file = DiscoveredFile::new("/models/a.gguf".to_owned(), "/models", Some("a.gguf"));
    let mut scan = CatalogScan::new("/models".to_owned(), vec![file], Discovery::new("/models".to_owned()).finish(), PathStyle::Unix);
    assert!(matches!(scan.step(), ScanStep::Open(files) if files == [0]));
    scan.fail(scan_diagnostic("/models/a.gguf", "permission denied"));
    assert!(matches!(scan.step(), ScanStep::Done));
    let result = scan.finish(None);
    assert!(!result.complete);
    assert!(result.models.is_empty());
    assert!(tells(&result, "permission denied"));
}

#[test]
fn models_are_listed_in_the_order_of_their_paths() {
    let file = |parent: &str, name: &str| DiscoveredFile::new(format!("{parent}/{name}"), parent, Some(name));
    let files = vec![
        file("/models/b", "z.gguf"),
        file("/models", "b.gguf"),
        file("/models/b", "a.gguf"),
        file("/models", "a.gguf"),
        file("/models", "b.gguf"),
    ];
    let mut scan = CatalogScan::new("/models".to_owned(), files, Discovery::new("/models".to_owned()).finish(), PathStyle::Unix);
    while let ScanStep::Open(indices) = scan.step() {
        let path = scan.file(indices[0]).path().to_owned();
        scan.conclude(vec![], None, Ok(scanned(&path, CatalogIdentity::Unavailable)));
    }
    let result = scan.finish(None);
    let paths: Vec<&str> = result.models.iter().map(|model| model.path.as_str()).collect();
    assert_eq!(paths, vec!["/models/a.gguf", "/models/b/a.gguf", "/models/b/z.gguf", "/models/b.gguf"]);
    assert!(result.complete);
}

#[test]
fn atomic_replacement_after_open_is_incomplete_and_never_saved() {
    let before = FileSnapshot {
        size: 7,
        modified_seconds: 100,
        modified_nanos: 5,
        identity: CatalogIdentity::Unix { device: 1, inode_fingerprint: 2 },
    };
    let replaced = CatalogIdentity::Unix { device: 1, inode_fingerprint: 3 };
    assert!(before.validate_unchanged("/m.gguf", &before, before.identity).is_none());
    let diagnostic = before.validate_unchanged("/m.gguf", &before, replaced).unwrap();
    assert_eq!(diagnostic.message, "model shard changed while it was being scanned");
    let grown = FileSnapshot { size: 8, ..before };
    assert!(before.validate_unchanged("/m.gguf", &grown, before.identity).is_some());
    let touched = FileSnapshot { modified_nanos: 6, ..before };
    assert!(before.validate_unchanged("/m.gguf", &touched, before.identity).is_some());
}

#[test]
fn root_swap_to_outside_symlink_is_rejected_before_outside_open() {
    let steps = |path: &str| -> Vec<String> { path.split('/').map(str::to_owned).collect() };
    assert!(canonical_within("/models/a.gguf", &steps("/models/a.gguf"), &steps("/models")).is_ok());
    let diagnostic = canonical_within("/models/a.gguf", &steps("/outside/a.gguf"), &steps("/models")).unwrap_err();
    assert_eq!(diagnostic.message, "catalog entry resolves outside the configured root");
    assert!(canonical_within("/m", &steps("/modelsX/a.gguf"), &steps("/models")).is_err());
    let root = RootSnapshot { canonical: "/models".to_owned(), device: 1, inode: 2 };
    let same = RootSnapshot { canonical: "/models".to_owned(), device: 1, inode: 2 };
    let other = RootSnapshot { canonical: "/models".to_owned(), device: 1, inode: 3 };
    assert!(root.validate("/models", false, &same).is_ok());
    assert!(root.validate("/models", true, &same).is_err());
    let diagnostic = root.validate("/models", false, &other).unwrap_err();
    assert_eq!(diagnostic.message, "catalog root changed while it was being scanned");
    let scan = CatalogScan::new("/models".to_owned(), vec![], Discovery::new("/models".to_owned()).finish(), PathStyle::Unix);
    let result = scan.finish(Some(diagnostic));
    assert!(!result.complete && result.models.is_empty());
}

#[test]
fn malformed_metadata_falls_back_to_filename_with_visible_diagnostic() {
    let result = scan(&one("read-me.gguf", b"GGUF not really a model file".to_vec()));
    assert_eq!(result.models[0].display_name, "read-me");
    assert_eq!(result.diagnostics[0].kind, CatalogDiagnosticKind::Metadata);
    assert_eq!(result.diagnostics[0].path, result.models[0].path);
}

#[test]
fn malicious_gguf_header_counts_are_rejected_by_catalog_budgets() {
    let mut files = one("metadata-bomb.gguf", header(0, u64::MAX));
    files.insert("tensor-bomb.gguf".to_owned(), header(u64::MAX, 0));
    let result = scan(&files);
    assert!(result.complete, "stable malicious files degrade without invalidating traversal");
    assert_eq!(result.models.len(), 2);
    assert!(tells(&result, "catalog metadata entry limit"));
    assert!(tells(&result, "catalog tensor count limit"));
}

#[test]
fn total_metadata_budget_and_diagnostic_count_are_bounded() {
    let mut files = Files::new();
    for index in 0..5 {
        files.insert(format!("budget-{index}.gguf"), header(0, 16_000));
    }
    for index in 0..(MAX_CATALOG_DIAGNOSTICS + 20) {
        files.insert(format!("diagnostic-{index}.gguf"), metadata_gguf(MetadataValue::U32(index as u32)));
    }
    let result = scan(&files);
    assert!(!result.complete);
    assert_eq!(result.diagnostics.len(), MAX_CATALOG_DIAGNOSTICS);
    assert!(tells(&result, "total metadata entry budget"));
}

#[test]
fn cumulative_tensor_budget_is_incomplete_and_preserves_saved_config() {
    let files = one("existing.gguf", tiny_gguf("Existing"));
    let initial = reconcile_catalog(&LauncherConfig::default(), scan(&files), ReconcileOptions::default()).config;
    let mut grown = files.clone();
    for index in 0..4 {
        grown.insert(format!("tensor-budget-{index}.gguf"), header(MAX_TOTAL_CATALOG_TENSORS / 3, 0));
    }
    let scanned = scan(&grown);
    assert!(!scanned.complete);
    assert!(tells(&scanned, "total tensor descriptor budget"));
    let output = reconcile_catalog(&initial, scanned, ReconcileOptions::default());
    assert_eq!(output.config.models.len(), 1);
    assert_eq!(output.config.models[0].id, initial.models[0].id);
    assert_eq!(output.config.models[0].state, ModelState::Available);
}

#[test]
fn discovered_file_and_model_counts_are_globally_bounded() {
    let mut files = Files::new();
    for index in 0..=MAX_DISCOVERED_GGUF_FILES {
        files.insert(format!("model-{index:05}.gguf"), b"x".to_vec());
    }
    let result = scan(&files);
    assert!(!result.complete);
    assert!(result.models.len() <= MAX_DISCOVERED_MODELS);
    assert!(result.diagnostics.len() <= MAX_CATALOG_DIAGNOSTICS);
    assert!(tells(&result, "catalog file limit of 1024 was reached"));
}

#[test]
fn headers_take_from_the_budgets() {
    let mut budgets = ScanBudgets::new();
    assert!(catalog_header_limit(b"short", &mut budgets).is_none());
    assert!(catalog_header_limit(&header(10, 20), &mut budgets).is_none());
    assert_eq!(budgets.remaining_tensors, MAX_TOTAL_CATALOG_TENSORS - 10);
    assert_eq!(budgets.remaining_metadata_entries, 65_536 - 20);
    budgets.remaining_tensors = 5;
    assert!(matches!(
        catalog_header_limit(&header(6, 0), &mut budgets),
        Some(CatalogHeaderLimit::Incomplete(message))
            if message == "catalog total tensor descriptor budget 250000 exhausted"
    ));
}

#[test]
fn files_that_are_not_read_reliably_fail_the_scan() {
    let read = |failure: ReadFailure, current_size: Option<u64>| {
        let mut diagnostics = Vec::new();
        let reading = ModelReading::Failed { failure, message: "why".to_owned(), current_size };
        read_model("/m.gguf", Some("m"), 9, 9, CatalogIdentity::Unavailable, reading, &mut diagnostics)
    };
    assert_eq!(read(ReadFailure::Io, Some(9)).unwrap_err().message, "why");
    assert!(read(ReadFailure::Truncated, Some(8)).is_err());
    assert!(read(ReadFailure::Truncated, None).is_err());
    assert_eq!(read(ReadFailure::Truncated, Some(9)).unwrap().display_name, "m");
    assert_eq!(read(ReadFailure::Format, None).unwrap().size_bytes, 9);
    assert_eq!(fallback_name(Some("orca-00001-OF-00002")), "orca");
    assert_eq!(fallback_name(None), "model");
}

#[test]
fn diagnostics_beyond_the_limit_make_a_scan_incomplete() {
    let mut result = ScanResult { models: vec![], diagnostics: vec![], complete: true };
    for _ in 0..MAX_CATALOG_DIAGNOSTICS {
        push_scan_diagnostic(&mut result, scan_diagnostic("/m", "x"));
    }
    assert!(result.complete);
    push_scan_diagnostic(&mut result, scan_diagnostic("/m", "x"));
    assert!(!result.complete);
    assert_eq!(result.diagnostics.len(), MAX_CATALOG_DIAGNOSTICS);
}

#[test]
fn reconciliation_generates_unique_url_safe_keys_for_duplicates() {
    let mut files = one("a/model.gguf", tiny_gguf("Same name!"));
    files.insert("b/model.gguf".to_owned(), tiny_gguf("Same name!"));
    let output = reconcile_catalog(&LauncherConfig::default(), scan(&files), ReconcileOptions::default());
    let keys: Vec<&str> = output.config.models.iter().map(|record| record.key.as_str()).collect();
    assert_eq!(keys, vec!["same-name", "same-name-2"]);
    assert!(keys.iter().all(|key| ModelKey::parse((*key).to_owned()).is_ok()));
}

#[test]
fn keys_are_made_of_names() {
    let mut used = vec![];
    assert_eq!(unique_key("  Qwen 3 8B (Q4) ", &mut used).unwrap().as_str(), "qwen-3-8b-q4");
    assert_eq!(unique_key("\u{6a21}\u{578b}", &mut used).unwrap().as_str(), "model");
    assert_eq!(unique_key("model", &mut used).unwrap().as_str(), "model-2");
    assert_eq!(unique_key("MODEL", &mut used).unwrap().as_str(), "model-3");
    assert_eq!(normalized_catalog_path("C:\\A\\b", true).iter().collect::<String>(), "c:/a/b");
    assert_eq!(normalized_catalog_path("/A/b", false).iter().collect::<String>(), "/A/b");
}

#[test]
fn reconciliation_retains_user_key_and_reconnects_a_moved_file() {
    let first = reconcile_catalog(
        &LauncherConfig::default(),
        scan(&one("old/model.gguf", tiny_gguf("Movable"))),
        ReconcileOptions::default(),
    );
    let mut saved = first.config;
    let id = saved.models[0].id;
    saved.models[0].key = ModelKey::parse("my-custom-key".to_owned()).unwrap();
    let moved = scan(&one("new/model.gguf", tiny_gguf("Movable")));
    let second = reconcile_catalog(&saved, moved, ReconcileOptions::default());
    assert_eq!(second.config.models[0].id, id);
    assert_eq!(second.config.models[0].key.as_str(), "my-custom-key");
    assert_eq!(second.config.models[0].path, "/models/new/model.gguf");
}

fn scanned(path: &str, identity: CatalogIdentity) -> ScannedModel {
    ScannedModel {
        display_name: "Model".to_owned(),
        path: path.to_owned(),
        size_bytes: 3,
        identity,
        metadata: CatalogMetadata::default(),
    }
}

fn complete(models: Vec<ScannedModel>) -> ScanResult {
    ScanResult { models, diagnostics: vec![], complete: true }
}

#[test]
fn the_same_scan_again_changes_no_record() {
    let found = || {
        complete(vec![
            scanned("/b.gguf", CatalogIdentity::Unix { device: 1, inode_fingerprint: 1 }),
            scanned("/a.gguf", CatalogIdentity::Unix { device: 1, inode_fingerprint: 2 }),
        ])
    };
    let saved = reconcile_catalog(
        &LauncherConfig::default(),
        complete(vec![
            scanned("/gone.gguf", CatalogIdentity::Unavailable),
            scanned("/a.gguf", CatalogIdentity::Unavailable),
        ]),
        ReconcileOptions::default(),
    )
    .config;
    let first = reconcile_catalog(&saved, found(), ReconcileOptions::default()).config;
    let again = reconcile_catalog(&first, found(), ReconcileOptions::default()).config;
    let paths: Vec<&str> = first.models.iter().map(|record| record.path.as_str()).collect();
    assert_eq!(paths, vec!["/gone.gguf", "/a.gguf", "/b.gguf"]);
    assert_eq!(format!("{:?}", again.models), format!("{:?}", first.models));
}

#[test]
fn hardlinks_are_distinct_records_and_do_not_reuse_new_uuid() {
    let identity = CatalogIdentity::Unix { device: 1, inode_fingerprint: 9 };
    let output = reconcile_catalog(
        &LauncherConfig::default(),
        complete(vec![scanned("/first.gguf", identity), scanned("/second.gguf", identity)]),
        ReconcileOptions::default(),
    );
    assert_eq!(output.config.models.len(), 2);
    assert_ne!(output.config.models[0].id, output.config.models[1].id);
    assert_ne!(output.config.models[0].key, output.config.models[1].key);
}

#[test]
fn identity_fingerprint_changes_when_same_inode_contents_change() {
    assert_ne!(stable_fingerprint(&[5, 100, 7]), stable_fingerprint(&[5, 101, 7]));
    assert_ne!(stable_fingerprint(&[1, 2]), stable_fingerprint(&[2, 1]));
    assert_eq!(stable_fingerprint(&[]), 0xcbf2_9ce4_8422_2325);
}

#[test]
fn reused_inode_with_changed_fingerprint_does_not_inherit_saved_settings() {
    let mut saved = reconcile_catalog(
        &LauncherConfig::default(),
        scan(&one("old.gguf", tiny_gguf("Old"))),
        ReconcileOptions::default(),
    )
    .config;
    saved.models[0].key = ModelKey::parse("old-user-key".to_owned()).unwrap();
    let old_id = saved.models[0].id;
    let changed_identity = match saved.models[0].file_identity {
        CatalogIdentity::Unix { device, inode_fingerprint } => CatalogIdentity::Unix {
            device,
            inode_fingerprint: inode_fingerprint.wrapping_add(1),
        },
        CatalogIdentity::Unavailable | CatalogIdentity::Windows { .. } => unreachable!(),
    };
    let replacement = ScannedModel {
        display_name: "Replacement".to_owned(),
        path: "/models/new.gguf".to_owned(),
        size_bytes: saved.models[0].size_bytes + 1,
        identity: changed_identity,
        metadata: CatalogMetadata::default(),
    };
    let output = reconcile_catalog(&saved, complete(vec![replacement]), ReconcileOptions::default());
    assert_eq!(output.config.models.len(), 2);
    assert_eq!(output.config.models[0].id, old_id);
    assert_eq!(output.config.models[0].state, ModelState::Missing);
    assert_ne!(output.config.models[1].id, old_id);
    assert_ne!(output.config.models[1].key.as_str(), "old-user-key");
}

#[test]
fn missing_records_are_preserved_until_explicitly_removed() {
    let first = reconcile_catalog(
        &LauncherConfig::default(),
        scan(&one("gone.gguf", tiny_gguf("Gone"))),
        ReconcileOptions::default(),
    );
    let missing = reconcile_catalog(&first.config, complete(vec![]), ReconcileOptions::default());
    assert_eq!(missing.config.models[0].state, ModelState::Missing);
    let removed = reconcile_catalog(
        &missing.config,
        complete(vec![]),
        ReconcileOptions { remove_missing: vec![missing.config.models[0].id], ..ReconcileOptions::default() },
    );
    assert!(removed.config.models.is_empty());
}

#[test]
fn incomplete_scan_preserves_existing_availability() {
    let first = reconcile_catalog(
        &LauncherConfig::default(),
        scan(&one("model.gguf", tiny_gguf("Existing"))),
        ReconcileOptions::default(),
    );
    let failed = ScanResult {
        models: vec![],
        diagnostics: vec![scan_diagnostic("/missing", "no such directory")],
        complete: false,
    };
    let output = reconcile_catalog(&first.config, failed, ReconcileOptions::default());
    assert_eq!(output.config.models.len(), 1);
    assert_eq!(output.config.models[0].state, ModelState::Available);
    assert_eq!(output.config.models[0].id, first.config.models[0].id);
    assert_eq!(output.diagnostics[0].message, "no such directory");
}

#[test]
fn newly_discovered_models_inherit_global_launch_defaults() {
    let mut saved = LauncherConfig::default();
    saved.default_launch_settings = LaunchSettings {
        context_length: Some(ContextLength::new(8192).unwrap()),
        flash_attention: Some(true),
        ..LaunchSettings::default()
    };
    let output = reconcile_catalog(
        &saved,
        scan(&one("model.gguf", tiny_gguf("Defaults"))),
        ReconcileOptions::default(),
    );
    let settings = &output.config.models[0].launch_profile.settings;
    assert_eq!(settings.context_length.unwrap().get(), 8192);
    assert_eq!(settings.flash_attention, Some(true));
    assert!(settings.gpu_layers.is_none());
}

#[test]
fn new_models_get_the_identifiers_that_are_given() {
    let id = ModelId::new();
    let output = try_reconcile(
        &LauncherConfig::default(),
        complete(vec![scanned("/a.gguf", CatalogIdentity::Unavailable)]),
        ReconcileOptions::default(),
        &vec![id],
    );
    assert_eq!(output.unwrap().config.models[0].id, id);
    let mut long = scanned("/a.gguf", CatalogIdentity::Unavailable);
    long.display_name = "k".repeat(300);
    let output = try_reconcile(&LauncherConfig::default(), complete(vec![long]), ReconcileOptions::default(), &vec![id]);
    assert!(output.is_none());
}

#[test]
fn debounce_coalesces_changes_deterministically() {
    let mut debounce = CatalogDebouncer::new(250, PathStyle::Unix);
    debounce.changed("two.gguf".to_owned());
    debounce.changed("one.gguf".to_owned());
    debounce.changed("two.gguf".to_owned());
    assert_eq!(debounce.delay_ms(), 250);
    assert_eq!(debounce.take(), vec!["one.gguf".to_owned(), "two.gguf".to_owned()]);
    assert!(debounce.take().is_empty());
}

fn order(left: &str, right: &str, style: PathStyle) -> PathOrder {
    let (left, right): (Vec<char>, Vec<char>) = (left.chars().collect(), right.chars().collect());
    order_of(&left, &right, style)
}

fn native(left: &str, right: &str) -> PathOrder {
    let (left, right) = (std::path::Path::new(left), std::path::Path::new(right));
    if left < right {
        PathOrder::Before
    } else if left == right {
        PathOrder::Same
    } else {
        PathOrder::After
    }
}

#[test]
fn paths_are_compared_step_by_step() {
    let paths = [
        "", "/", ".", "..", "a", "a/", "a/b", "a//b", "a/./b", "./a/b", "/a/b", "/a/./b/", "a-b", "a/b/../c", "-x", "\u{e9}",
        "a.gguf", "../a", "//a", "/.", "a/.", "b",
    ];
    for left in paths {
        for right in paths {
            assert_eq!(order(left, right, PathStyle::Unix), native(left, right), "{left:?} {right:?}");
        }
    }
    assert_eq!(order(r"a\b", "a-b", PathStyle::Unix), PathOrder::After);
    assert_eq!(order(r"a\b", "a-b", PathStyle::Windows), PathOrder::Before);
    assert_eq!(order(r"a\b", "a/b", PathStyle::Windows), PathOrder::Same);
    assert_eq!(order(r"c:\m\.\x", r"C:/m//x", PathStyle::Windows), PathOrder::Same);
    assert_eq!(order(r"C:m", r"C:\m", PathStyle::Windows), PathOrder::After);
    assert_eq!(order(r"C:\m", r"D:\a", PathStyle::Windows), PathOrder::Before);
}

#[test]
fn names_are_put_into_directories() {
    let joined = |parent: &str, name: &str, style| {
        join_path(&parent.chars().collect::<Vec<_>>(), &name.chars().collect::<Vec<_>>(), style)
    };
    for parent in ["", "/", "a", "a/", "a//", "C:"] {
        assert_eq!(joined(parent, "b", PathStyle::Unix), std::path::Path::new(parent).join("b").to_str().unwrap());
    }
    assert_eq!(joined("a", "b", PathStyle::Windows), r"a\b");
    assert_eq!(joined("a/", "b", PathStyle::Windows), "a/b");
    assert_eq!(joined(r"C:\", "b", PathStyle::Windows), r"C:\b");
    assert_eq!(joined("C:", "b", PathStyle::Windows), "C:b");
}

#[test]
fn a_changed_path_is_noted_once_however_it_is_written() {
    let mut debounce = CatalogDebouncer::new(250, PathStyle::Windows);
    for path in [r"m\a-b.gguf", r"m\a\z.gguf", "m/a/z.gguf", r"m\\a-b.gguf"] {
        debounce.changed(path.to_owned());
    }
    assert_eq!(debounce.take(), vec![r"m\a\z.gguf".to_owned(), r"m\a-b.gguf".to_owned()]);
}

#[test]
fn service_resets_quiet_period_then_scans_saves_and_reloads_once() {
    let mut timer = BatchTimer::start(0, 250, 2_000);
    let mut errors = Vec::new();
    let mut dropped = 0;
    retain_watch_event(CatalogWatchEvent::Changed("one.gguf".to_owned()), &mut errors, &mut dropped);
    timer.event(200);
    retain_watch_event(CatalogWatchEvent::Rescan, &mut errors, &mut dropped);
    assert!(!timer.is_due(449), "timer resets when an event arrives during the quiet period");
    assert!(timer.is_due(450));
    let batch = close_batch(errors, dropped, 0);
    assert!(batch.rescan_required);
    let service = CatalogService::new("/models".to_owned(), ConfigStore::new("/config".to_owned(), PathStyle::Unix));
    assert!(service.process_batch(batch, vec![]).is_empty());
    let found = scan(&one("model.gguf", tiny_gguf("Persisted")));
    let output = reconcile_catalog(&LauncherConfig::default(), found, ReconcileOptions::default());
    assert_eq!(output.config.models.len(), 1);
    assert_eq!(output.config.models[0].display_name, "Persisted");
}

#[test]
fn watcher_errors_reach_service_diagnostics() {
    let service = CatalogService::new("/models".to_owned(), ConfigStore::new("/config".to_owned(), PathStyle::Unix));
    let mut errors = Vec::new();
    let mut dropped = 0;
    retain_watch_event(CatalogWatchEvent::Error("backend stopped".to_owned()), &mut errors, &mut dropped);
    let diagnostics = service.process_batch(close_batch(errors, dropped, 0), vec![]);
    assert!(diagnostics.iter().any(|item| item.message.contains("backend stopped")));
    assert_eq!(service.root(), "/models");
}

#[test]
fn watch_storm_returns_at_hard_latency_even_without_quiet() {
    let mut timer = BatchTimer::start(0, 100, 350);
    for now in [90, 180, 270] {
        timer.event(now);
    }
    assert!(!timer.is_due(349));
    assert!(timer.is_due(350));
}

#[test]
fn bounded_watch_channel_reports_overflow_and_caps_diagnostics() {
    let service = CatalogService::new("/models".to_owned(), ConfigStore::new("/config".to_owned(), PathStyle::Unix));
    let batch = close_batch(vec!["watch error 0".to_owned(), "watch error 1".to_owned()], 0, 98);
    let diagnostics = service.process_batch(batch, vec![]);
    assert!(diagnostics.iter().any(|item| item.message.contains("dropped 98")));
    let mut errors = Vec::new();
    let mut dropped = 0;
    for index in 0..100 {
        retain_watch_event(CatalogWatchEvent::Error(format!("watch error {index}")), &mut errors, &mut dropped);
    }
    assert_eq!(errors.len(), WATCH_MAX_BATCH_DIAGNOSTICS);
    assert_eq!(dropped, 100 - WATCH_MAX_BATCH_DIAGNOSTICS as u64);
    let diagnostics = service.process_batch(close_batch(errors, dropped, 0), vec![]);
    assert!(diagnostics.len() <= WATCH_MAX_BATCH_DIAGNOSTICS + 1);
}
