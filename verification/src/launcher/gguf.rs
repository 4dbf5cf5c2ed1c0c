//! What a model file says of itself, as the catalog records it.

use vstd::prelude::*;

use super::catalog::{
    diagnostic_views, known_file_type, llama_file_type, metadata_diagnostic, scan_diagnostic, CatalogDiagnostic,
    CatalogDiagnosticKind, CatalogHeaderLimit, CatalogIdentity, CatalogMetadata, DiagnosticView, ScannedModel,
};
use super::pattern::{regex_replace, replaced_first, SHARD_STEM_PATTERN};
use crate::domain::error::optional_text;
use crate::text::{decimal, decimal_of, joined, same_text};

verus! {

/// A metadata value, as far as the catalog reads it.
#[derive(Debug, PartialEq, Eq)]
pub enum MetadataItem {
    Text(String),
    Unsigned(u64),
    Other,
}

/// One entry of the metadata of a file.
#[derive(Debug, PartialEq, Eq)]
pub struct MetadataEntry {
    pub key: String,
    pub item: MetadataItem,
}

/// The item under a key; of several entries with one key the last one counts.
pub open spec fn item_under(entries: Seq<MetadataEntry>, key: Seq<char>) -> Option<MetadataItem>
    decreases entries.len(),
{
    if entries.len() == 0 {
        None
    } else if entries.last().key@ == key {
        Some(entries.last().item)
    } else {
        item_under(entries.drop_last(), key)
    }
}

/// The text under a key, where a text stands there.
pub open spec fn text_under(entries: Seq<MetadataEntry>, key: Seq<char>) -> Option<Seq<char>> {
    match item_under(entries, key) {
        Some(MetadataItem::Text(text)) => Some(text@),
        _ => None,
    }
}

/// The number under a key, where an unsigned number stands there.
pub open spec fn number_under(entries: Seq<MetadataEntry>, key: Seq<char>) -> Option<u64> {
    match item_under(entries, key) {
        Some(MetadataItem::Unsigned(number)) => Some(number),
        _ => None,
    }
}

fn find_item<'a>(entries: &'a [MetadataEntry], key: &str) -> (result: Option<&'a MetadataItem>)
    ensures
        match result {
            Some(item) => item_under(entries@, key@) == Some(*item),
            None => item_under(entries@, key@) is None,
        },
{
    let mut left: usize = entries.len();
    assert(entries@.take(left as int) =~= entries@);
    while left > 0
        invariant
            left <= entries@.len(),
            item_under(entries@, key@) == item_under(entries@.take(left as int), key@),
        decreases left,
    {
        assert(entries@.take(left as int).drop_last() =~= entries@.take(left - 1));
        assert(entries@.take(left as int).last() == entries@[left - 1]);
        if same_text(entries[left - 1].key.as_str(), key) {
            return Some(&entries[left - 1].item);
        }
        left = left - 1;
    }
    None
}

fn find_text(entries: &[MetadataEntry], key: &str) -> (result: Option<String>)
    ensures
        optional_text(result) == text_under(entries@, key@),
{
    match find_item(entries, key) {
        Some(MetadataItem::Text(text)) => Some(text.clone()),
        _ => None,
    }
}

fn find_number(entries: &[MetadataEntry], key: &str) -> (result: Option<u64>)
    ensures
        result == number_under(entries@, key@),
{
    match find_item(entries, key) {
        Some(MetadataItem::Unsigned(number)) => Some(*number),
        _ => None,
    }
}

/// The number under a key of the architecture's own section.
pub open spec fn section_number(
    entries: Seq<MetadataEntry>,
    architecture: Option<Seq<char>>,
    key: Seq<char>,
) -> Option<u64> {
    match architecture {
        Some(name) => number_under(entries, name + key),
        None => None,
    }
}

fn find_section_number(entries: &[MetadataEntry], architecture: &Option<String>, key: &str) -> (result: Option<u64>)
    ensures
        result == section_number(entries@, optional_text(*architecture), key@),
{
    match architecture {
        Some(name) => find_number(entries, joined(name.as_str(), key).as_str()),
        None => None,
    }
}

/// The display name of a file type: its known name, or one made of its number.
pub open spec fn file_type_text(value: u64) -> Seq<char> {
    match known_file_type(value) {
        Some(name) => name,
        None => "FILE_TYPE_"@ + decimal(value as nat),
    }
}

/// `metadata` records what the entries of a file state.
pub open spec fn records_entries(metadata: CatalogMetadata, entries: Seq<MetadataEntry>) -> bool {
    let architecture = text_under(entries, "general.architecture"@);
    &&& optional_text(metadata.architecture) == architecture
    &&& metadata.parameter_count == number_under(entries, "general.parameter_count"@)
    &&& optional_text(metadata.quantization) == (match number_under(entries, "general.file_type"@) {
        Some(value) => Some(file_type_text(value)),
        None => None,
    })
    &&& metadata.quantization_version == number_under(entries, "general.quantization_version"@)
    &&& metadata.context_length == section_number(entries, architecture, ".context_length"@)
    &&& metadata.block_count == section_number(entries, architecture, ".block_count"@)
    &&& metadata.embedding_length == section_number(entries, architecture, ".embedding_length"@)
    &&& metadata.attention_head_count == section_number(entries, architecture, ".attention.head_count"@)
    &&& metadata.attention_head_count_kv == section_number(entries, architecture, ".attention.head_count_kv"@)
    &&& metadata.attention_key_length == section_number(entries, architecture, ".attention.key_length"@)
    &&& metadata.attention_value_length == section_number(entries, architecture, ".attention.value_length"@)
    &&& metadata.full_attention_interval == section_number(entries, architecture, ".full_attention_interval"@)
}

/// What a user is told of the entries of the file at `path`: a name that is no
/// text, then a file type that is not known.
pub open spec fn entry_diagnostics(entries: Seq<MetadataEntry>, path: Seq<char>) -> Seq<DiagnosticView> {
    (if item_under(entries, "general.name"@) is Some && text_under(entries, "general.name"@) is None {
        seq![
            DiagnosticView {
                kind: CatalogDiagnosticKind::Metadata,
                path,
                message: "general.name has the wrong metadata type"@,
            },
        ]
    } else {
        seq![]
    }) + (match number_under(entries, "general.file_type"@) {
        Some(value) => if known_file_type(value) is None {
            seq![
                DiagnosticView {
                    kind: CatalogDiagnosticKind::Metadata,
                    path,
                    message: "unknown general.file_type value "@ + decimal(value as nat),
                },
            ]
        } else {
            seq![]
        },
        None => seq![],
    })
}

/// The name of a model that does not state one: the stem of its file without the
/// numbers of a shard.
pub open spec fn fallback_text(stem: Option<&str>) -> Seq<char> {
    replaced_first(
        SHARD_STEM_PATTERN@,
        match stem {
            Some(text) => text@,
            None => "model"@,
        },
        ""@,
    )
}

pub fn fallback_name(stem: Option<&str>) -> (result: String)
    ensures
        result@ == fallback_text(stem),
{
    match stem {
        Some(text) => regex_replace(SHARD_STEM_PATTERN, text, ""),
        None => regex_replace(SHARD_STEM_PATTERN, "model", ""),
    }
}

/// Why the metadata of a file could not be read.
#[derive(Clone, Copy, Debug, PartialEq, Eq, Structural)]
pub enum ReadFailure {
    /// The file could not be read.
    Io,
    /// Reading ended before the metadata did.
    Truncated,
    /// The file holds no valid metadata.
    Format,
}

/// The metadata of a file, or why there is none. `current_size` is the size of the
/// file after the attempt, where it is known.
#[derive(Debug)]
pub enum ModelReading {
    Entries(Vec<MetadataEntry>),
    Failed { failure: ReadFailure, message: String, current_size: Option<u64> },
}

impl ModelReading {
    /// The file was not read reliably: it could not be read, or it ended early and
    /// no longer has the size it had.
    pub open spec fn unreliable(self, expected_size: u64) -> bool {
        match self {
            ModelReading::Entries(_) => false,
            ModelReading::Failed { failure, message, current_size } => {
                ||| failure == ReadFailure::Io
                ||| failure == ReadFailure::Truncated && current_size != Some(expected_size)
            },
        }
    }
}

/// A file that exceeds a limit: it is listed by its file name alone, or the scan
/// fails for it.
pub fn limited_model(
    path: &str,
    stem: Option<&str>,
    size_bytes: u64,
    identity: CatalogIdentity,
    limit: CatalogHeaderLimit,
    diagnostics: &mut Vec<CatalogDiagnostic>,
) -> (result: Result<ScannedModel, CatalogDiagnostic>)
    ensures
        match limit {
            CatalogHeaderLimit::Metadata(message) => {
                &&& diagnostic_views(final(diagnostics)@) == diagnostic_views(old(diagnostics)@).push(
                    DiagnosticView { kind: CatalogDiagnosticKind::Metadata, path: path@, message: message@ },
                )
                &&& result matches Ok(model) && {
                    &&& model.display_name@ == fallback_text(stem)
                    &&& model.path@ == path@
                    &&& model.size_bytes == size_bytes
                    &&& model.identity == identity
                    &&& model.metadata == CatalogMetadata::unknown()
                }
            },
            CatalogHeaderLimit::Incomplete(message) => {
                &&& final(diagnostics)@ == old(diagnostics)@
                &&& result matches Err(diagnostic) && diagnostic@ == (DiagnosticView {
                    kind: CatalogDiagnosticKind::Scan,
                    path: path@,
                    message: message@,
                })
            },
        },
{
    match limit {
        CatalogHeaderLimit::Metadata(message) => {
            let diagnostic = metadata_diagnostic(path, message.as_str());
            let ghost told = diagnostic@;
            diagnostics.push(diagnostic);
            assert(diagnostic_views(diagnostics@) =~= diagnostic_views(old(diagnostics)@).push(told));
            Ok(
                ScannedModel {
                    display_name: fallback_name(stem),
                    path: path.to_owned(),
                    size_bytes,
                    identity,
                    metadata: CatalogMetadata::default(),
                },
            )
        },
        CatalogHeaderLimit::Incomplete(message) => Err(scan_diagnostic(path, message.as_str())),
    }
}

fn record_entries(entries: &[MetadataEntry], path: &str, diagnostics: &mut Vec<CatalogDiagnostic>) -> (result:
    CatalogMetadata)
    ensures
        records_entries(result, entries@),
        diagnostic_views(final(diagnostics)@) == diagnostic_views(old(diagnostics)@) + entry_diagnostics(
            entries@,
            path@,
        ),
{
    let ghost before = diagnostic_views(diagnostics@);
    let architecture = find_text(entries, "general.architecture");
    let name = find_item(entries, "general.name");
    let wrong_name = match name {
        Some(MetadataItem::Text(_)) => false,
        Some(_) => true,
        None => false,
    };
    if wrong_name {
        diagnostics.push(metadata_diagnostic(path, "general.name has the wrong metadata type"));
    }
    let quantization = match find_number(entries, "general.file_type") {
        Some(value) => {
            let (display, known) = llama_file_type(value);
            if !known {
                let number = decimal_of(value);
                diagnostics.push(
                    metadata_diagnostic(
                        path,
                        joined("unknown general.file_type value ", number.as_str()).as_str(),
                    ),
                );
            }
            Some(display)
        },
        None => None,
    };
    assert(diagnostic_views(diagnostics@) =~= before + entry_diagnostics(entries@, path@));
    let context_length = find_section_number(entries, &architecture, ".context_length");
    let block_count = find_section_number(entries, &architecture, ".block_count");
    let embedding_length = find_section_number(entries, &architecture, ".embedding_length");
    let attention_head_count = find_section_number(entries, &architecture, ".attention.head_count");
    let attention_head_count_kv = find_section_number(entries, &architecture, ".attention.head_count_kv");
    let attention_key_length = find_section_number(entries, &architecture, ".attention.key_length");
    let attention_value_length = find_section_number(entries, &architecture, ".attention.value_length");
    let full_attention_interval = find_section_number(entries, &architecture, ".full_attention_interval");
    CatalogMetadata {
        architecture,
        parameter_count: find_number(entries, "general.parameter_count"),
        quantization,
        quantization_version: find_number(entries, "general.quantization_version"),
        context_length,
        block_count,
        embedding_length,
        attention_head_count,
        attention_head_count_kv,
        attention_key_length,
        attention_value_length,
        full_attention_interval,
    }
}

/// A file whose metadata was read, or could not be: it is listed with what it
/// states, or by its file name with a diagnostic, or the scan fails for it.
pub fn read_model(
    path: &str,
    stem: Option<&str>,
    size_bytes: u64,
    expected_launch_size: u64,
    identity: CatalogIdentity,
    reading: ModelReading,
    diagnostics: &mut Vec<CatalogDiagnostic>,
) -> (result: Result<ScannedModel, CatalogDiagnostic>)
    ensures
        result is Err <==> reading.unreliable(expected_launch_size),
        match result {
            Ok(model) => {
                &&& model.path@ == path@
                &&& model.size_bytes == size_bytes
                &&& model.identity == identity
                &&& match reading {
                    ModelReading::Entries(entries) => {
                        &&& records_entries(model.metadata, entries@)
                        &&& model.display_name@ == (match text_under(entries@, "general.name"@) {
                            Some(name) => name,
                            None => fallback_text(stem),
                        })
                        &&& diagnostic_views(final(diagnostics)@) == diagnostic_views(old(diagnostics)@)
                            + entry_diagnostics(entries@, path@)
                    },
                    ModelReading::Failed { failure, message, current_size } => {
                        &&& model.metadata == CatalogMetadata::unknown()
                        &&& model.display_name@ == fallback_text(stem)
                        &&& diagnostic_views(final(diagnostics)@) == diagnostic_views(old(diagnostics)@).push(
                            DiagnosticView {
                                kind: CatalogDiagnosticKind::Metadata,
                                path: path@,
                                message: message@,
                            },
                        )
                    },
                }
            },
            Err(diagnostic) => {
                &&& final(diagnostics)@ == old(diagnostics)@
                &&& reading matches ModelReading::Failed { failure, message, current_size } && diagnostic@ == (
                DiagnosticView { kind: CatalogDiagnosticKind::Scan, path: path@, message: message@ })
            },
        },
{
    match reading {
        ModelReading::Entries(entries) => {
            let metadata = record_entries(&entries, path, diagnostics);
            let display_name = match find_text(&entries, "general.name") {
                Some(name) => name,
                None => fallback_name(stem),
            };
            Ok(ScannedModel { display_name, path: path.to_owned(), size_bytes, identity, metadata })
        },
        ModelReading::Failed { failure, message, current_size } => {
            let same_size = match current_size {
                Some(size) => size == expected_launch_size,
                None => false,
            };
            let unreliable = match failure {
                ReadFailure::Io => true,
                ReadFailure::Truncated => !same_size,
                ReadFailure::Format => false,
            };
            if unreliable {
                return Err(scan_diagnostic(path, message.as_str()));
            }
            let diagnostic = metadata_diagnostic(path, message.as_str());
            let ghost told = diagnostic@;
            diagnostics.push(diagnostic);
            assert(diagnostic_views(diagnostics@) =~= diagnostic_views(old(diagnostics)@).push(told));
            Ok(
                ScannedModel {
                    display_name: fallback_name(stem),
                    path: path.to_owned(),
                    size_bytes,
                    identity,
                    metadata: CatalogMetadata::default(),
                },
            )
        },
    }
}

/// The entry at `index` is the one that counts under its key.
pub open spec fn counts(entries: Seq<MetadataEntry>, index: int) -> bool {
    &&& 0 <= index < entries.len()
    &&& forall|later: int| index < later < entries.len() ==> (#[trigger] entries[later]).key@ != entries[index].key@
}

proof fn lemma_item_that_counts(entries: Seq<MetadataEntry>, index: int)
    requires
        counts(entries, index),
    ensures
        item_under(entries, entries[index].key@) == Some(entries[index].item),
    decreases entries.len(),
{
    if index < entries.len() - 1 {
        let rest = entries.drop_last();
        assert forall|later: int| index < later < rest.len() implies (#[trigger] rest[later]).key@
            != rest[index].key@ by {
            assert(rest[later] == entries[later]);
        }
        assert(entries[entries.len() - 1].key@ != entries[index].key@);
        lemma_item_that_counts(rest, index);
    }
}

proof fn lemma_no_item(entries: Seq<MetadataEntry>, key: Seq<char>)
    requires
        forall|index: int| 0 <= index < entries.len() ==> (#[trigger] entries[index]).key@ != key,
    ensures
        item_under(entries, key) is None,
    decreases entries.len(),
{
    if entries.len() > 0 {
        let rest = entries.drop_last();
        assert forall|index: int| 0 <= index < rest.len() implies (#[trigger] rest[index]).key@ != key by {
            assert(rest[index] == entries[index]);
        }
        assert(entries[entries.len() - 1].key@ != key);
        lemma_no_item(rest, key);
    }
}

/// Every number of the metadata is the one of its own entry: that under the name of
/// the quantity in the section of the model's architecture, or under its general
/// name. A value of another kind is no number.
pub proof fn law_numbers_come_from_their_own_entries(
    metadata: CatalogMetadata,
    entries: Seq<MetadataEntry>,
    architecture: Seq<char>,
    index: int,
)
    requires
        records_entries(metadata, entries),
        optional_text(metadata.architecture) == Some(architecture),
        counts(entries, index),
    ensures
        ({
            let key = entries[index].key@;
            let number = match entries[index].item {
                MetadataItem::Unsigned(value) => Some(value),
                _ => None,
            };
            &&& key == architecture + ".context_length"@ ==> metadata.context_length == number
            &&& key == architecture + ".block_count"@ ==> metadata.block_count == number
            &&& key == architecture + ".embedding_length"@ ==> metadata.embedding_length == number
            &&& key == architecture + ".attention.head_count"@ ==> metadata.attention_head_count == number
            &&& key == architecture + ".attention.head_count_kv"@ ==> metadata.attention_head_count_kv == number
            &&& key == architecture + ".attention.key_length"@ ==> metadata.attention_key_length == number
            &&& key == architecture + ".attention.value_length"@ ==> metadata.attention_value_length == number
            &&& key == architecture + ".full_attention_interval"@ ==> metadata.full_attention_interval == number
            &&& key == "general.parameter_count"@ ==> metadata.parameter_count == number
            &&& key == "general.quantization_version"@ ==> metadata.quantization_version == number
            &&& key == "general.file_type"@ ==> (metadata.quantization is Some <==> number is Some)
        }),
{
    lemma_item_that_counts(entries, index);
}

/// Without an architecture no section is read; without its entry a quantity is not
/// known.
pub proof fn law_missing_entries_are_not_known(
    metadata: CatalogMetadata,
    entries: Seq<MetadataEntry>,
    architecture: Seq<char>,
    key: Seq<char>,
)
    requires
        records_entries(metadata, entries),
        optional_text(metadata.architecture) == Some(architecture) || metadata.architecture is None,
        forall|index: int| 0 <= index < entries.len() ==> (#[trigger] entries[index]).key@ != key,
    ensures
        ({
            let unread = metadata.architecture is None;
            &&& unread || key == architecture + ".context_length"@ ==> metadata.context_length is None
            &&& unread || key == architecture + ".block_count"@ ==> metadata.block_count is None
            &&& unread || key == architecture + ".embedding_length"@ ==> metadata.embedding_length is None
            &&& unread || key == architecture + ".attention.head_count"@ ==> metadata.attention_head_count is None
            &&& unread || key == architecture + ".attention.head_count_kv"@ ==> metadata.attention_head_count_kv
                is None
            &&& unread || key == architecture + ".attention.key_length"@ ==> metadata.attention_key_length is None
            &&& unread || key == architecture + ".attention.value_length"@ ==> metadata.attention_value_length
                is None
            &&& unread || key == architecture + ".full_attention_interval"@ ==> metadata.full_attention_interval
                is None
            &&& key == "general.parameter_count"@ ==> metadata.parameter_count is None
            &&& key == "general.quantization_version"@ ==> metadata.quantization_version is None
            &&& key == "general.file_type"@ ==> metadata.quantization is None
            &&& key == "general.architecture"@ ==> metadata.architecture is None
        }),
{
    lemma_no_item(entries, key);
}

/// The architecture and the name are the texts that stand under them.
pub proof fn law_texts_come_from_their_own_entries(
    metadata: CatalogMetadata,
    entries: Seq<MetadataEntry>,
    index: int,
    path: Seq<char>,
)
    requires
        records_entries(metadata, entries),
        counts(entries, index),
    ensures
        ({
            let key = entries[index].key@;
            let told = entry_diagnostics(entries, path);
            match entries[index].item {
                MetadataItem::Text(text) => {
                    &&& key == "general.architecture"@ ==> optional_text(metadata.architecture) == Some(text@)
                    &&& key == "general.name"@ ==> text_under(entries, "general.name"@) == Some(text@)
                    &&& key == "general.name"@ ==> told.len() <= 1
                },
                _ => {
                    &&& key == "general.architecture"@ ==> metadata.architecture is None
                    &&& key == "general.name"@ ==> text_under(entries, "general.name"@) is None
                    &&& key == "general.name"@ ==> told.len() > 0 && told[0].path == path && told[0].message
                        == "general.name has the wrong metadata type"@
                },
            }
        }),
{
    lemma_item_that_counts(entries, index);
}

/// A file type is named by its known name, or by its number, and then reported too.
pub proof fn law_file_type_is_named(
    metadata: CatalogMetadata,
    entries: Seq<MetadataEntry>,
    index: int,
    value: u64,
    path: Seq<char>,
)
    requires
        records_entries(metadata, entries),
        counts(entries, index),
        entries[index].key@ == "general.file_type"@,
        entries[index].item == MetadataItem::Unsigned(value),
    ensures
        match known_file_type(value) {
            Some(name) => optional_text(metadata.quantization) == Some(name),
            None => {
                &&& optional_text(metadata.quantization) == Some("FILE_TYPE_"@ + decimal(value as nat))
                &&& entry_diagnostics(entries, path).len() > 0
                &&& entry_diagnostics(entries, path).last().message == "unknown general.file_type value "@ + decimal(
                    value as nat,
                )
                &&& entry_diagnostics(entries, path).last().path == path
            },
        },
{
    lemma_item_that_counts(entries, index);
}

/// A file that could not be read, or that grew or shrank while it ended early, was not
/// read reliably; one that was read, or that holds no valid metadata, was.
pub proof fn law_changed_files_are_read_again(reading: ModelReading, expected_size: u64)
    ensures
        reading is Entries ==> !reading.unreliable(expected_size),
        reading is Failed && reading->failure == ReadFailure::Io ==> reading.unreliable(expected_size),
        reading is Failed && reading->failure == ReadFailure::Format ==> !reading.unreliable(expected_size),
        reading is Failed && reading->failure == ReadFailure::Truncated ==> (reading.unreliable(expected_size)
            <==> reading->current_size is None || reading->current_size->0 != expected_size),
{
}

/// A model that does not name itself is called by its file's name, without what numbers
/// its part.
pub proof fn law_models_are_named_by_their_files(stem: &str, named: String, unnamed: String)
    requires
        call_ensures(fallback_name, (Some(stem),), named),
        call_ensures(fallback_name, (None::<&str>,), unnamed),
    ensures
        named@ == replaced_first(SHARD_STEM_PATTERN@, stem@, ""@),
        unnamed@ == replaced_first(SHARD_STEM_PATTERN@, "model"@, ""@),
{
}

} // verus!
