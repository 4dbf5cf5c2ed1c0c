//! The catalog of models on disk.

use vstd::prelude::*;

use crate::text::{
    chars_of, decimal, decimal_of, joined, lowered, push_decimal, push_text, same, to_lowered,
};

verus! {

/// What identifies a file on its file system. No model contents are hashed, so
/// the cost does not depend on the size of a model.
#[derive(Clone, Copy, Debug, PartialEq, Eq, Hash, Structural)]
pub enum CatalogIdentity {
    Unix { device: u64, inode_fingerprint: u64 },
    Windows { volume: u64, file_fingerprint: u64 },
    Unavailable,
}

impl Default for CatalogIdentity {
    fn default() -> (result: Self)
        ensures
            result == CatalogIdentity::Unavailable,
    {
        CatalogIdentity::Unavailable
    }
}

/// What a model file says of itself.
#[derive(Debug, PartialEq, Eq)]
pub struct CatalogMetadata {
    pub architecture: Option<String>,
    pub parameter_count: Option<u64>,
    pub quantization: Option<String>,
    pub quantization_version: Option<u64>,
    pub context_length: Option<u64>,
    pub block_count: Option<u64>,
    pub embedding_length: Option<u64>,
    pub attention_head_count: Option<u64>,
    pub attention_head_count_kv: Option<u64>,
    pub attention_key_length: Option<u64>,
    pub attention_value_length: Option<u64>,
    pub full_attention_interval: Option<u64>,
}

impl Clone for CatalogMetadata {
    fn clone(&self) -> (result: Self)
        ensures
            result == *self,
    {
        CatalogMetadata {
            architecture: self.architecture.clone(),
            parameter_count: self.parameter_count,
            quantization: self.quantization.clone(),
            quantization_version: self.quantization_version,
            context_length: self.context_length,
            block_count: self.block_count,
            embedding_length: self.embedding_length,
            attention_head_count: self.attention_head_count,
            attention_head_count_kv: self.attention_head_count_kv,
            attention_key_length: self.attention_key_length,
            attention_value_length: self.attention_value_length,
            full_attention_interval: self.full_attention_interval,
        }
    }
}

impl CatalogMetadata {
    /// Metadata that states nothing.
    pub open spec fn unknown() -> Self {
        CatalogMetadata {
            architecture: None,
            parameter_count: None,
            quantization: None,
            quantization_version: None,
            context_length: None,
            block_count: None,
            embedding_length: None,
            attention_head_count: None,
            attention_head_count_kv: None,
            attention_key_length: None,
            attention_value_length: None,
            full_attention_interval: None,
        }
    }
}

impl Default for CatalogMetadata {
    fn default() -> (result: Self)
        ensures
            result == CatalogMetadata::unknown(),
    {
        CatalogMetadata {
            architecture: None,
            parameter_count: None,
            quantization: None,
            quantization_version: None,
            context_length: None,
            block_count: None,
            embedding_length: None,
            attention_head_count: None,
            attention_head_count_kv: None,
            attention_key_length: None,
            attention_value_length: None,
            full_attention_interval: None,
        }
    }
}

/// A model that a scan found.
#[derive(Debug, PartialEq, Eq)]
pub struct ScannedModel {
    pub display_name: String,
    pub path: String,
    pub size_bytes: u64,
    pub identity: CatalogIdentity,
    pub metadata: CatalogMetadata,
}

/// What a diagnostic is about.
#[derive(Clone, Copy, Debug, PartialEq, Eq, Structural)]
pub enum CatalogDiagnosticKind {
    Scan,
    Metadata,
}

/// Something that a user should know of a scan.
#[derive(Debug, PartialEq, Eq)]
pub struct CatalogDiagnostic {
    pub kind: CatalogDiagnosticKind,
    pub path: String,
    pub message: String,
}

/// The texts of a diagnostic.
pub struct DiagnosticView {
    pub kind: CatalogDiagnosticKind,
    pub path: Seq<char>,
    pub message: Seq<char>,
}

impl View for CatalogDiagnostic {
    type V = DiagnosticView;

    open spec fn view(&self) -> DiagnosticView {
        DiagnosticView { kind: self.kind, path: self.path@, message: self.message@ }
    }
}

/// The texts of a list of diagnostics.
pub open spec fn diagnostic_views(diagnostics: Seq<CatalogDiagnostic>) -> Seq<DiagnosticView> {
    diagnostics.map_values(|diagnostic: CatalogDiagnostic| diagnostic@)
}

/// A diagnostic about the scan of `path`.
pub fn scan_diagnostic(path: &str, message: &str) -> (result: CatalogDiagnostic)
    ensures
        result@ == (DiagnosticView { kind: CatalogDiagnosticKind::Scan, path: path@, message: message@ }),
{
    CatalogDiagnostic {
        kind: CatalogDiagnosticKind::Scan,
        path: path.to_owned(),
        message: message.to_owned(),
    }
}

/// A diagnostic about the metadata of `path`.
pub fn metadata_diagnostic(path: &str, message: &str) -> (result: CatalogDiagnostic)
    ensures
        result@ == (DiagnosticView { kind: CatalogDiagnosticKind::Metadata, path: path@, message: message@ }),
{
    CatalogDiagnostic {
        kind: CatalogDiagnosticKind::Metadata,
        path: path.to_owned(),
        message: message.to_owned(),
    }
}

/// What a scan found. It is complete only where the whole root was read reliably.
#[derive(Debug, PartialEq, Eq)]
pub struct ScanResult {
    pub models: Vec<ScannedModel>,
    pub diagnostics: Vec<CatalogDiagnostic>,
    pub complete: bool,
}

impl Default for ScanResult {
    fn default() -> (result: Self)
        ensures
            result.models@.len() == 0,
            result.diagnostics@.len() == 0,
            !result.complete,
    {
        ScanResult { models: Vec::new(), diagnostics: Vec::new(), complete: false }
    }
}

/// The most files that one scan considers.
pub const MAX_DISCOVERED_GGUF_FILES: usize = 1_024;

/// The most models that one scan reports.
pub const MAX_DISCOVERED_MODELS: usize = 1_024;

/// The most diagnostics that one scan keeps.
pub const MAX_CATALOG_DIAGNOSTICS: usize = 256;

/// The most shards of one model.
pub const MAX_LOGICAL_MODEL_SHARDS: usize = 1_024;

/// The most metadata entries of one file.
pub const MAX_CATALOG_METADATA_ENTRIES: u64 = 16_384;

/// The most metadata entries of one scan.
pub const MAX_TOTAL_CATALOG_METADATA_ENTRIES: u64 = 65_536;

/// The most tensor descriptors of one file.
pub const MAX_CATALOG_TENSORS: u64 = 100_000;

/// The most tensor descriptors of one scan.
pub const MAX_TOTAL_CATALOG_TENSORS: u64 = 250_000;

/// The most serialised metadata bytes that are read of one file.
pub const MAX_CATALOG_METADATA_BYTES: usize = 16_777_216;

/// The most memory that decoded metadata of one file may take.
pub const MAX_CATALOG_DECODED_METADATA_BYTES: usize = 33_554_432;

/// A scan with one more diagnostic. Where there is no room for it, it is dropped
/// and the scan is no longer complete.
pub fn push_scan_diagnostic(result: &mut ScanResult, diagnostic: CatalogDiagnostic)
    ensures
        final(result).models == old(result).models,
        old(result).diagnostics@.len() < MAX_CATALOG_DIAGNOSTICS ==> {
            &&& final(result).diagnostics@ == old(result).diagnostics@.push(diagnostic)
            &&& final(result).complete == old(result).complete
        },
        old(result).diagnostics@.len() >= MAX_CATALOG_DIAGNOSTICS ==> {
            &&& final(result).diagnostics@ == old(result).diagnostics@
            &&& !final(result).complete
        },
{
    if result.diagnostics.len() < MAX_CATALOG_DIAGNOSTICS {
        result.diagnostics.push(diagnostic);
    } else {
        result.complete = false;
    }
}

/// Whether a file with this extension is a model file.
pub fn is_gguf(extension: Option<&str>) -> (result: bool)
    ensures
        result == (extension matches Some(text) && lowered(text@) == seq!['g', 'g', 'u', 'f']),
{
    match extension {
        Some(text) => {
            let wanted: Vec<char> = vec!['g', 'g', 'u', 'f'];
            assert(wanted@ =~= seq!['g', 'g', 'u', 'f']);
            same(&to_lowered(&chars_of(text)), &wanted)
        },
        None => false,
    }
}

/// One step of the fingerprint: the byte is mixed in, then the hash is multiplied
/// modulo 2^64.
pub open spec fn fingerprint_step(hash: u64, byte: u8) -> u64 {
    (((hash ^ (byte as u64)) as int * 0x0000_0100_0000_01b3) % 0x1_0000_0000_0000_0000) as u64
}

/// `value` without its `places` lowest bytes.
pub open spec fn without_low_bytes(value: u64, places: nat) -> u64
    decreases places,
{
    if places == 0 {
        value
    } else {
        without_low_bytes(value, (places - 1) as nat) / 256
    }
}

/// The byte of `value` with weight `256^place`.
pub open spec fn byte_at(value: u64, place: nat) -> u8 {
    (without_low_bytes(value, place) % 256) as u8
}

/// The fingerprint after the `count` lowest bytes of `value`.
pub open spec fn fingerprint_value(hash: u64, value: u64, count: nat) -> u64
    decreases count,
{
    if count == 0 {
        hash
    } else {
        fingerprint_step(
            fingerprint_value(hash, value, (count - 1) as nat),
            byte_at(value, (count - 1) as nat),
        )
    }
}

/// The fingerprint of a list of numbers, each as eight bytes from the lowest to
/// the highest.
pub open spec fn fingerprint(values: Seq<u64>) -> u64
    decreases values.len(),
{
    if values.len() == 0 {
        0xcbf2_9ce4_8422_2325
    } else {
        fingerprint_value(fingerprint(values.drop_last()), values.last(), 8)
    }
}

/// A stable fingerprint of a list of numbers.
pub fn stable_fingerprint(values: &[u64]) -> (result: u64)
    ensures
        result == fingerprint(values@),
{
    let mut hash: u64 = 0xcbf2_9ce4_8422_2325;
    for index in 0..values.len()
        invariant
            hash == fingerprint(values@.take(index as int)),
    {
        let ghost start = hash;
        let value: u64 = values[index];
        let mut rest: u64 = value;
        for place in 0u64..8
            invariant
                hash == fingerprint_value(start, value, place as nat),
                rest == without_low_bytes(value, place as nat),
        {
            let byte: u64 = rest % 256;
            hash = (hash ^ byte).wrapping_mul(0x0000_0100_0000_01b3);
            rest = rest / 256;
        }
        assert(values@.take(index + 1).drop_last() =~= values@.take(index as int));
    }
    assert(values@.take(values@.len() as int) =~= values@);
    hash
}

/// The name of a known model file type.
pub open spec fn known_file_type(value: u64) -> Option<Seq<char>> {
    match value {
        0 => Some("F32"@),
        1 => Some("F16"@),
        2 => Some("Q4_0"@),
        3 => Some("Q4_1"@),
        4 => Some("Q4_1_SOME_F16"@),
        7 => Some("Q8_0"@),
        8 => Some("Q5_0"@),
        9 => Some("Q5_1"@),
        10 => Some("Q2_K"@),
        11 => Some("Q3_K_S"@),
        12 => Some("Q3_K_M"@),
        13 => Some("Q3_K_L"@),
        14 => Some("Q4_K_S"@),
        15 => Some("Q4_K_M"@),
        16 => Some("Q5_K_S"@),
        17 => Some("Q5_K_M"@),
        18 => Some("Q6_K"@),
        19 => Some("IQ2_XXS"@),
        20 => Some("IQ2_XS"@),
        21 => Some("Q2_K_S"@),
        22 => Some("IQ3_XS"@),
        23 => Some("IQ3_XXS"@),
        24 => Some("IQ1_S"@),
        25 => Some("IQ4_NL"@),
        26 => Some("IQ3_S"@),
        27 => Some("IQ3_M"@),
        28 => Some("IQ2_S"@),
        29 => Some("IQ2_M"@),
        30 => Some("IQ4_XS"@),
        31 => Some("IQ1_M"@),
        32 => Some("BF16"@),
        36 => Some("TQ1_0"@),
        37 => Some("TQ2_0"@),
        38 => Some("MXFP4_MOE"@),
        39 => Some("NVFP4"@),
        40 => Some("Q1_0"@),
        41 => Some("Q2_0"@),
        _ => None,
    }
}

/// The display name of a model file type and whether it is a known one. The
/// numbers are those of the model file, not of a tensor.
pub fn llama_file_type(value: u64) -> (result: (String, bool))
    ensures
        match known_file_type(value) {
            Some(name) => result.1 && result.0@ == name,
            None => !result.1 && result.0@ == "FILE_TYPE_"@ + decimal(value as nat),
        },
{
    let display = match value {
        0 => "F32",
        1 => "F16",
        2 => "Q4_0",
        3 => "Q4_1",
        4 => "Q4_1_SOME_F16",
        7 => "Q8_0",
        8 => "Q5_0",
        9 => "Q5_1",
        10 => "Q2_K",
        11 => "Q3_K_S",
        12 => "Q3_K_M",
        13 => "Q3_K_L",
        14 => "Q4_K_S",
        15 => "Q4_K_M",
        16 => "Q5_K_S",
        17 => "Q5_K_M",
        18 => "Q6_K",
        19 => "IQ2_XXS",
        20 => "IQ2_XS",
        21 => "Q2_K_S",
        22 => "IQ3_XS",
        23 => "IQ3_XXS",
        24 => "IQ1_S",
        25 => "IQ4_NL",
        26 => "IQ3_S",
        27 => "IQ3_M",
        28 => "IQ2_S",
        29 => "IQ2_M",
        30 => "IQ4_XS",
        31 => "IQ1_M",
        32 => "BF16",
        36 => "TQ1_0",
        37 => "TQ2_0",
        38 => "MXFP4_MOE",
        39 => "NVFP4",
        40 => "Q1_0",
        41 => "Q2_0",
        _ => {
            return (joined("FILE_TYPE_", decimal_of(value).as_str()), false);
        },
    };
    (display.to_owned(), true)
}

/// What a scan may still read.
#[derive(Clone, Copy, Debug, PartialEq, Eq, Structural)]
pub struct ScanBudgets {
    pub remaining_metadata_entries: u64,
    pub remaining_tensors: u64,
}

impl ScanBudgets {
    /// The budgets of a new scan.
    pub fn new() -> (result: Self)
        ensures
            result.remaining_metadata_entries == MAX_TOTAL_CATALOG_METADATA_ENTRIES,
            result.remaining_tensors == MAX_TOTAL_CATALOG_TENSORS,
    {
        ScanBudgets {
            remaining_metadata_entries: MAX_TOTAL_CATALOG_METADATA_ENTRIES,
            remaining_tensors: MAX_TOTAL_CATALOG_TENSORS,
        }
    }
}

/// Why a file is not read any further.
#[derive(Debug, PartialEq, Eq)]
pub enum CatalogHeaderLimit {
    /// The file is listed without its metadata.
    Metadata(String),
    /// The scan cannot be complete.
    Incomplete(String),
}

/// The number that the bytes from `at` on write, lowest byte first.
pub open spec fn little_endian(bytes: Seq<u8>, at: int, count: nat) -> nat
    decreases count,
{
    if count == 0 {
        0
    } else {
        bytes[at] as nat + 256 * little_endian(bytes, at + 1, (count - 1) as nat)
    }
}

fn read_u64(bytes: &[u8], at: usize) -> (result: u64)
    requires
        at + 8 <= bytes@.len(),
    ensures
        result == little_endian(bytes@, at as int, 8),
{
    reveal_with_fuel(little_endian, 9);
    let low: u64 = bytes[at] as u64 + 256 * (bytes[at + 1] as u64) + 65_536 * (bytes[at + 2] as u64)
        + 16_777_216 * (bytes[at + 3] as u64);
    let high: u64 = bytes[at + 4] as u64 + 256 * (bytes[at + 5] as u64) + 65_536 * (bytes[at + 6] as u64)
        + 16_777_216 * (bytes[at + 7] as u64);
    low + 4_294_967_296 * high
}

/// The first four bytes of a model file.
pub open spec fn has_magic(header: Seq<u8>) -> bool {
    &&& header.len() >= 24
    &&& header[0] == 0x47 && header[1] == 0x47 && header[2] == 0x55 && header[3] == 0x46
}

/// What a header with these counts does to the budgets, and the limit it exceeds.
/// A file that is refused for its tensors takes nothing from the budgets; one that
/// is refused for its metadata has paid for its tensors.
pub open spec fn header_limit(
    tensors: nat,
    entries: nat,
    budgets: ScanBudgets,
) -> (Option<(bool, Seq<char>)>, ScanBudgets) {
    let paid = ScanBudgets {
        remaining_tensors: (budgets.remaining_tensors - tensors) as u64,
        ..budgets
    };
    if tensors > MAX_CATALOG_TENSORS {
        (
            Some(
                (
                    false,
                    "catalog tensor count limit "@ + decimal(MAX_CATALOG_TENSORS as nat) + " exceeded by "@
                        + decimal(tensors),
                ),
            ),
            budgets,
        )
    } else if tensors > budgets.remaining_tensors {
        (
            Some(
                (
                    true,
                    "catalog total tensor descriptor budget "@ + decimal(MAX_TOTAL_CATALOG_TENSORS as nat)
                        + " exhausted"@,
                ),
            ),
            budgets,
        )
    } else if entries > MAX_CATALOG_METADATA_ENTRIES {
        (
            Some(
                (
                    false,
                    "catalog metadata entry limit "@ + decimal(MAX_CATALOG_METADATA_ENTRIES as nat)
                        + " exceeded by "@ + decimal(entries),
                ),
            ),
            paid,
        )
    } else if entries > budgets.remaining_metadata_entries {
        (
            Some(
                (
                    false,
                    "catalog total metadata entry budget "@ + decimal(
                        MAX_TOTAL_CATALOG_METADATA_ENTRIES as nat,
                    ) + " exhausted"@,
                ),
            ),
            paid,
        )
    } else {
        (
            None,
            ScanBudgets {
                remaining_metadata_entries: (budgets.remaining_metadata_entries - entries) as u64,
                ..paid
            },
        )
    }
}

impl CatalogHeaderLimit {
    /// Whether the scan stays incomplete, and the message.
    pub open spec fn parts(self) -> (bool, Seq<char>) {
        match self {
            CatalogHeaderLimit::Metadata(message) => (false, message@),
            CatalogHeaderLimit::Incomplete(message) => (true, message@),
        }
    }
}

fn limit_message(front: &str, limit: u64, middle: &str, value: Option<u64>) -> (result: String)
    ensures
        result@ == front@ + decimal(limit as nat) + middle@ + (match value {
            Some(number) => decimal(number as nat),
            None => Seq::<char>::empty(),
        }),
{
    let mut message = front.to_owned();
    push_decimal(&mut message, limit);
    push_text(&mut message, middle);
    if let Some(number) = value {
        push_decimal(&mut message, number);
    }
    assert(message@ =~= front@ + decimal(limit as nat) + middle@ + (match value {
        Some(number) => decimal(number as nat),
        None => Seq::<char>::empty(),
    }));
    message
}

/// Checks the counts in the first 24 bytes of a file against the limits, and takes
/// them from the budgets. A file that is too short or does not start as a model
/// file is not limited here.
pub fn catalog_header_limit(header: &[u8], budgets: &mut ScanBudgets) -> (result: Option<CatalogHeaderLimit>)
    ensures
        !has_magic(header@) ==> result is None && *final(budgets) == *old(budgets),
        has_magic(header@) ==> {
            let expected = header_limit(
                little_endian(header@, 8, 8),
                little_endian(header@, 16, 8),
                *old(budgets),
            );
            &&& *final(budgets) == expected.1
            &&& match result {
                Some(limit) => expected.0 == Some(limit.parts()),
                None => expected.0 is None,
            }
        },
{
    if header.len() < 24 || header[0] != 0x47 || header[1] != 0x47 || header[2] != 0x55 || header[3] != 0x46 {
        return None;
    }
    let tensor_count: u64 = read_u64(header, 8);
    let metadata_count: u64 = read_u64(header, 16);
    if tensor_count > MAX_CATALOG_TENSORS {
        return Some(
            CatalogHeaderLimit::Metadata(
                limit_message(
                    "catalog tensor count limit ",
                    MAX_CATALOG_TENSORS,
                    " exceeded by ",
                    Some(tensor_count),
                ),
            ),
        );
    }
    if tensor_count > budgets.remaining_tensors {
        let message = limit_message(
            "catalog total tensor descriptor budget ",
            MAX_TOTAL_CATALOG_TENSORS,
            " exhausted",
            None,
        );
        assert(message@ =~= "catalog total tensor descriptor budget "@ + decimal(
            MAX_TOTAL_CATALOG_TENSORS as nat,
        ) + " exhausted"@);
        return Some(CatalogHeaderLimit::Incomplete(message));
    }
    budgets.remaining_tensors = budgets.remaining_tensors - tensor_count;
    if metadata_count > MAX_CATALOG_METADATA_ENTRIES {
        return Some(
            CatalogHeaderLimit::Metadata(
                limit_message(
                    "catalog metadata entry limit ",
                    MAX_CATALOG_METADATA_ENTRIES,
                    " exceeded by ",
                    Some(metadata_count),
                ),
            ),
        );
    }
    if metadata_count > budgets.remaining_metadata_entries {
        let message = limit_message(
            "catalog total metadata entry budget ",
            MAX_TOTAL_CATALOG_METADATA_ENTRIES,
            " exhausted",
            None,
        );
        assert(message@ =~= "catalog total metadata entry budget "@ + decimal(
            MAX_TOTAL_CATALOG_METADATA_ENTRIES as nat,
        ) + " exhausted"@);
        return Some(CatalogHeaderLimit::Metadata(message));
    }
    budgets.remaining_metadata_entries = budgets.remaining_metadata_entries - metadata_count;
    None
}

/// The budgets of a scan only shrink, and a file that passes is charged exactly
/// for what it declares.
pub proof fn law_budgets_are_charged_exactly(tensors: nat, entries: nat, budgets: ScanBudgets)
    ensures
        header_limit(tensors, entries, budgets).1.remaining_tensors <= budgets.remaining_tensors,
        header_limit(tensors, entries, budgets).1.remaining_metadata_entries
            <= budgets.remaining_metadata_entries,
        header_limit(tensors, entries, budgets).0 is None ==> {
            &&& header_limit(tensors, entries, budgets).1.remaining_tensors + tensors
                == budgets.remaining_tensors
            &&& header_limit(tensors, entries, budgets).1.remaining_metadata_entries + entries
                == budgets.remaining_metadata_entries
            &&& tensors <= MAX_CATALOG_TENSORS
            &&& entries <= MAX_CATALOG_METADATA_ENTRIES
        },
{
}

} // verus!
