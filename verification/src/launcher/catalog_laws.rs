//! What the catalog keeps to: how it reads headers, puts files together, limits
//! what it takes, and writes down what it knows.

use vstd::arithmetic::power::pow;
use vstd::prelude::*;

use super::catalog::{
    byte_at, fingerprint, fingerprint_step, fingerprint_value, has_magic, header_limit, known_file_type, little_endian,
    without_low_bytes, CatalogDiagnostic, CatalogDiagnosticKind, CatalogIdentity, DiagnosticView, ScanBudgets,
};
use super::config::{
    backup_temp_name, disk_after_steps, form_of, load_action, main_temp_name, migrate, save_block, save_stages,
    ConfigDiagnostic, ConfigDiagnosticKind,
    ConfigForm, ConfigIoStage, Decoded, LauncherConfig, LoadAction, SaveBlock, SaveDisk,
};
use super::error::{AppError, ErrorSource};
use super::model::{hex_digit, key_char, uuid_text, valid_key, valid_segment, ModelRecord};
use super::path_order::{
    inner_steps, joined_path, rooted, same_path, step_before, steps, steps_before, text_before, PathStyle, StepKind, StepView,
};
use super::pattern::{shard_groups, shard_shape};
use super::scan::{
    add_part_size, ambiguities, ambiguity, ambiguous, declares_too_many, first_at_its_place, kept, left_out, model_files, padded,
    part_name, paths_sharing, root_refusal, same_group, same_place, shard_value, starts_set, within, FileSnapshot,
    FileView, RootKind, RootSnapshot, ScanView,
};
use super::watch::{batch_diagnostics, close_batch, BatchTimer, CatalogWatchBatch};
use crate::text::{ascii_lower, decimal, digit_char, is_alphanumeric, is_digit, lowered, split, texts};
use crate::text_laws::{
    law_last_piece_stands_behind_a_separator, law_text_is_cut_at_separators, law_text_without_separators_is_one_piece,
};

verus! {

/// A header is read where the file begins with the letters GGUF and holds the
/// whole header.
pub proof fn law_header_begins_with_its_mark(header: Seq<u8>)
    ensures
        has_magic(header) <==> header.len() >= 24 && header.take(4) == seq![71u8, 71u8, 85u8, 70u8],
{
    if header.len() >= 24 && header.take(4) == seq![71u8, 71u8, 85u8, 70u8] {
        assert(header[0] == header.take(4)[0] && header[1] == header.take(4)[1]);
        assert(header[2] == header.take(4)[2] && header[3] == header.take(4)[3]);
    }
    if has_magic(header) {
        assert(header.take(4) =~= seq![71u8, 71u8, 85u8, 70u8]);
    }
}

/// The first byte of a number is its lowest.
pub proof fn law_numbers_have_their_lowest_byte_first(bytes: Seq<u8>, at: int, count: nat)
    requires
        count > 0,
    ensures
        little_endian(bytes, at, count) % 256 == bytes[at] as nat,
        little_endian(bytes, at, count) / 256 == little_endian(bytes, at + 1, (count - 1) as nat),
        count == 1 ==> little_endian(bytes, at, count) == bytes[at] as nat,
{
    if count == 1 {
        assert(little_endian(bytes, at + 1, 0) == 0);
    }
}

/// A file may declare a hundred thousand tensors and 16384 entries; all files of a
/// scan together no more than what is left. Tensors are charged before entries
/// are looked at.
pub proof fn law_headers_are_limited(tensors: nat, entries: nat, budgets: ScanBudgets)
    ensures
        header_limit(tensors, entries, budgets).0 is None <==> {
            &&& tensors <= 100_000 && tensors <= budgets.remaining_tensors
            &&& entries <= 16_384 && entries <= budgets.remaining_metadata_entries
        },
        tensors > 100_000 ==> header_limit(tensors, entries, budgets) == (
            Some((false, "catalog tensor count limit "@ + decimal(100_000) + " exceeded by "@ + decimal(tensors))),
            budgets,
        ),
        budgets.remaining_tensors < tensors <= 100_000 ==> header_limit(tensors, entries, budgets) == (
            Some((true, "catalog total tensor descriptor budget "@ + decimal(250_000) + " exhausted"@)),
            budgets,
        ),
        tensors <= 100_000 && tensors <= budgets.remaining_tensors ==> header_limit(
            tensors,
            entries,
            budgets,
        ).1.remaining_tensors == budgets.remaining_tensors - tensors,
        tensors <= 100_000 && tensors <= budgets.remaining_tensors && entries > 16_384 ==> header_limit(
            tensors,
            entries,
            budgets,
        ).0 == Some((false, "catalog metadata entry limit "@ + decimal(16_384) + " exceeded by "@ + decimal(entries)))
            && header_limit(tensors, entries, budgets).1.remaining_metadata_entries
            == budgets.remaining_metadata_entries,
        tensors <= 100_000 && tensors <= budgets.remaining_tensors && budgets.remaining_metadata_entries < entries
            <= 16_384 ==> header_limit(tensors, entries, budgets).0 == Some(
            (false, "catalog total metadata entry budget "@ + decimal(65_536) + " exhausted"@),
        ) && header_limit(tensors, entries, budgets).1.remaining_metadata_entries
            == budgets.remaining_metadata_entries,
{
}

/// The names of the kinds of files that are known.
pub proof fn law_file_types_have_their_names(value: u64)
    ensures
        value == 0 ==> known_file_type(value) == Some("F32"@),
        value == 1 ==> known_file_type(value) == Some("F16"@),
        value == 2 ==> known_file_type(value) == Some("Q4_0"@),
        value == 3 ==> known_file_type(value) == Some("Q4_1"@),
        value == 4 ==> known_file_type(value) == Some("Q4_1_SOME_F16"@),
        value == 7 ==> known_file_type(value) == Some("Q8_0"@),
        value == 8 ==> known_file_type(value) == Some("Q5_0"@),
        value == 9 ==> known_file_type(value) == Some("Q5_1"@),
        value == 10 ==> known_file_type(value) == Some("Q2_K"@),
        value == 11 ==> known_file_type(value) == Some("Q3_K_S"@),
        value == 12 ==> known_file_type(value) == Some("Q3_K_M"@),
        value == 13 ==> known_file_type(value) == Some("Q3_K_L"@),
        value == 14 ==> known_file_type(value) == Some("Q4_K_S"@),
        value == 15 ==> known_file_type(value) == Some("Q4_K_M"@),
        value == 16 ==> known_file_type(value) == Some("Q5_K_S"@),
        value == 17 ==> known_file_type(value) == Some("Q5_K_M"@),
        value == 18 ==> known_file_type(value) == Some("Q6_K"@),
        value == 19 ==> known_file_type(value) == Some("IQ2_XXS"@),
        value == 20 ==> known_file_type(value) == Some("IQ2_XS"@),
        value == 21 ==> known_file_type(value) == Some("Q2_K_S"@),
        value == 22 ==> known_file_type(value) == Some("IQ3_XS"@),
        value == 23 ==> known_file_type(value) == Some("IQ3_XXS"@),
        value == 24 ==> known_file_type(value) == Some("IQ1_S"@),
        value == 25 ==> known_file_type(value) == Some("IQ4_NL"@),
        value == 26 ==> known_file_type(value) == Some("IQ3_S"@),
        value == 27 ==> known_file_type(value) == Some("IQ3_M"@),
        value == 28 ==> known_file_type(value) == Some("IQ2_S"@),
        value == 29 ==> known_file_type(value) == Some("IQ2_M"@),
        value == 30 ==> known_file_type(value) == Some("IQ4_XS"@),
        value == 31 ==> known_file_type(value) == Some("IQ1_M"@),
        value == 32 ==> known_file_type(value) == Some("BF16"@),
        value == 36 ==> known_file_type(value) == Some("TQ1_0"@),
        value == 37 ==> known_file_type(value) == Some("TQ2_0"@),
        value == 38 ==> known_file_type(value) == Some("MXFP4_MOE"@),
        value == 39 ==> known_file_type(value) == Some("NVFP4"@),
        value == 40 ==> known_file_type(value) == Some("Q1_0"@),
        value == 41 ==> known_file_type(value) == Some("Q2_0"@),
        value == 5 || value == 6 || 33 <= value <= 35 || value > 41 ==> known_file_type(value) is None,
{
}

/// A fingerprint begins at a fixed number and takes in one byte after the other.
pub proof fn law_fingerprint_takes_in_bytes(hash: u64, byte: u8)
    ensures
        fingerprint(Seq::empty()) == 14_695_981_039_346_656_037,
        fingerprint_step(hash, byte) == ((hash ^ (byte as u64)) as int * 1_099_511_628_211)
            % 18_446_744_073_709_551_616,
{
}

/// At most 256 diagnostics are kept: the earliest, in their order.
pub proof fn law_first_diagnostics_are_kept(diagnostics: Seq<DiagnosticView>, more: Seq<DiagnosticView>)
    ensures
        kept(diagnostics, more).len() <= 256,
        diagnostics.len() + more.len() <= 256 ==> kept(diagnostics, more) == diagnostics + more,
        diagnostics.len() + more.len() > 256 ==> kept(diagnostics, more).len() == 256,
        forall|index: int|
            0 <= index < kept(diagnostics, more).len() ==> #[trigger] kept(diagnostics, more)[index] == (diagnostics
                + more)[index],
{
}

/// Two files share a place where they stand in one directory and their names differ
/// in case at most.
pub proof fn law_place_is_directory_and_name(left: FileView, right: FileView)
    ensures
        same_place(left, right) == same_place(right, left),
        same_place(left, right) <==> {
            &&& left.parent == right.parent
            &&& left.name is Some && right.name is Some
            &&& lowered(left.name->0) == lowered(right.name->0)
        },
{
}

/// Where a file is ambiguous, so is the one that it is mistaken for, and both are
/// left out.
pub proof fn law_ambiguity_is_mutual(files: Seq<FileView>, one: int, two: int)
    requires
        0 <= one < files.len(),
        0 <= two < files.len(),
        one != two,
        same_place(files[one], files[two]),
    ensures
        ambiguous(files, one) && ambiguous(files, two),
        left_out(files, one) && left_out(files, two),
{
    assert(same_place(files[two], files[one]));
}

/// A file whose place is its own is left out only with a set of which another part
/// is ambiguous.
pub proof fn law_file_with_its_own_place_is_listed(files: Seq<FileView>, index: int)
    requires
        0 <= index < files.len(),
        forall|other: int| 0 <= other < files.len() && other != index ==> !#[trigger] same_place(
            files[index],
            files[other],
        ),
    ensures
        files[index].shard is None ==> !left_out(files, index),
        forall|other: int|
            0 <= other < files.len() && #[trigger] same_group(files[index], files[other]) && ambiguous(files, other)
                ==> left_out(files, index),
{
}

/// Parts belong together where directory, prefix but for case, and total agree.
pub proof fn law_parts_belong_together(left: FileView, right: FileView)
    requires
        left.shard is Some,
        right.shard is Some,
    ensures
        same_group(left, right) <==> {
            &&& left.parent == right.parent
            &&& lowered(left.shard->0.prefix) == lowered(right.shard->0.prefix)
            &&& left.shard->0.total == right.shard->0.total
        },
        same_group(left, right) == same_group(right, left),
{
}

/// A file that is no part, or not the first of several, is a model by itself.
pub proof fn law_single_file_is_a_model(files: Seq<FileView>, index: int)
    requires
        files[index].shard is None || shard_value(files[index].shard->0.number) != 1 || shard_value(
            files[index].shard->0.total,
        ) <= 1,
    ensures
        !starts_set(files, index),
        model_files(files, index) == seq![index],
{
}

/// A name may declare 1024 parts and no more.
pub proof fn law_declared_parts_are_limited(file: FileView)
    ensures
        file.shard is None ==> !declares_too_many(file),
        file.shard is Some ==> (declares_too_many(file) <==> shard_value(file.shard->0.total) > 1_024),
{
}

/// Five sequences behind one another can be told apart by their lengths.
proof fn lemma_parts_behind_a_prefix(
    prefix: Seq<char>,
    hyphen: Seq<char>,
    number: Seq<char>,
    between: Seq<char>,
    total: Seq<char>,
    ending: Seq<char>,
)
    requires
        hyphen.len() == 1,
        number.len() == 5,
        between.len() == 4,
        total.len() == 5,
        ending.len() == 5,
    ensures
        ({
            let name = prefix + hyphen + number + between + total + ending;
            &&& name.len() == prefix.len() + 20
            &&& name.take(prefix.len() as int) == prefix
            &&& name[prefix.len() as int] == hyphen[0]
            &&& name.subrange(prefix.len() as int + 1, prefix.len() as int + 6) == number
            &&& name.subrange(prefix.len() as int + 6, prefix.len() as int + 10) == between
            &&& name.subrange(prefix.len() as int + 10, prefix.len() as int + 15) == total
            &&& name.subrange(prefix.len() as int + 15, prefix.len() as int + 20) == ending
        }),
{
    let name = prefix + hyphen + number + between + total + ending;
    assert(name.take(prefix.len() as int) =~= prefix);
    assert(name.subrange(prefix.len() as int + 1, prefix.len() as int + 6) =~= number);
    assert(name.subrange(prefix.len() as int + 6, prefix.len() as int + 10) =~= between);
    assert(name.subrange(prefix.len() as int + 10, prefix.len() as int + 15) =~= total);
    assert(name.subrange(prefix.len() as int + 15, prefix.len() as int + 20) =~= ending);
}

/// The name of a part is its prefix, its number and the total, each with five
/// digits, and the ending.
pub proof fn law_part_name_is_composed(prefix: Seq<char>, part: nat, total: nat)
    ensures
        part_name(prefix, part, total).len() == prefix.len() + 20,
        part_name(prefix, part, total).take(prefix.len() as int) == prefix,
        part_name(prefix, part, total)[prefix.len() as int] == '-',
        part_name(prefix, part, total).subrange(prefix.len() as int + 1, prefix.len() as int + 6) == padded(part),
        part_name(prefix, part, total).subrange(prefix.len() as int + 6, prefix.len() as int + 10) == seq![
            '-',
            'o',
            'f',
            '-',
        ],
        part_name(prefix, part, total).subrange(prefix.len() as int + 10, prefix.len() as int + 15) == padded(total),
        part_name(prefix, part, total).subrange(prefix.len() as int + 15, prefix.len() as int + 20) == seq![
            '.',
            'g',
            'g',
            'u',
            'f',
        ],
{
    lemma_parts_behind_a_prefix(
        prefix,
        seq!['-'],
        padded(part),
        seq!['-', 'o', 'f', '-'],
        padded(total),
        seq!['.', 'g', 'g', 'u', 'f'],
    );
}

/// Five digits hold a number below a hundred thousand, the highest first.
pub proof fn law_five_digits_hold_the_number(part: nat)
    requires
        part < 100_000,
    ensures
        padded(part).len() == 5,
        forall|index: int| 0 <= index < 5 ==> '0' <= #[trigger] padded(part)[index] <= '9',
        (padded(part)[0] as int - 48) * 10_000 + (padded(part)[1] as int - 48) * 1_000 + (padded(part)[2] as int - 48)
            * 100 + (padded(part)[3] as int - 48) * 10 + (padded(part)[4] as int - 48) == part,
{
    let digits = padded(part);
    lemma_digit((part / 10_000) % 10);
    lemma_digit((part / 1_000) % 10);
    lemma_digit((part / 100) % 10);
    lemma_digit((part / 10) % 10);
    lemma_digit(part % 10);
    assert(digits[0] == digit_char((part / 10_000) % 10));
    assert(digits[1] == digit_char((part / 1_000) % 10));
    assert(digits[2] == digit_char((part / 100) % 10));
    assert(digits[3] == digit_char((part / 10) % 10));
    assert(digits[4] == digit_char(part % 10));
    lemma_places(part);
}

proof fn lemma_digit(digit: nat)
    requires
        digit < 10,
    ensures
        '0' <= digit_char(digit) <= '9',
        digit_char(digit) as int - 48 == digit,
{
}

proof fn lemma_places(part: nat)
    requires
        part < 100_000,
    ensures
        ((part / 10_000) % 10) * 10_000 + ((part / 1_000) % 10) * 1_000 + ((part / 100) % 10) * 100 + ((part / 10) % 10)
            * 10 + part % 10 == part,
{
    assert((part / 10_000) % 10 == part / 10_000);
    assert(part / 1_000 == 10 * (part / 10_000) + (part / 1_000) % 10);
    assert(part / 100 == 10 * (part / 1_000) + (part / 100) % 10);
    assert(part / 10 == 10 * (part / 100) + (part / 10) % 10);
    assert(part == 10 * (part / 10) + part % 10);
}

/// Every place that files share is reported, at the first of them.
pub proof fn law_ambiguous_places_are_reported(files: Seq<FileView>, index: int, count: nat, style: PathStyle)
    requires
        0 <= index < count,
        ambiguous(files, index),
        first_at_its_place(files, index),
    ensures
        ambiguities(files, count, style).contains(ambiguity(files, index, style)),
    decreases count,
{
    let report = ambiguity(files, index, style);
    let all = ambiguities(files, count, style);
    if index == count - 1 {
        assert(all.last() == report);
    } else {
        law_ambiguous_places_are_reported(files, index, (count - 1) as nat, style);
        let before = ambiguities(files, (count - 1) as nat, style);
        let at = choose|at: int| 0 <= at < before.len() && before[at] == report;
        assert(all[at] == report);
    }
}

/// Where no two files share a place, nothing is reported.
pub proof fn law_clear_places_are_not_reported(files: Seq<FileView>, count: nat, style: PathStyle)
    requires
        count <= files.len(),
        forall|index: int| 0 <= index < count ==> !#[trigger] ambiguous(files, index),
    ensures
        ambiguities(files, count, style).len() == 0,
    decreases count,
{
    if count > 0 {
        assert(!ambiguous(files, count - 1));
        law_clear_places_are_not_reported(files, (count - 1) as nat, style);
    }
}

/// A report names every file at the place.
pub proof fn law_report_names_every_file(files: Seq<FileView>, index: int, other: int, count: nat)
    requires
        0 <= other < count,
        same_place(files[index], files[other]),
    ensures
        paths_sharing(files, index, count).contains(files[other].path),
        paths_sharing(files, index, count).len() <= count,
    decreases count,
{
    let all = paths_sharing(files, index, count);
    lemma_few_share(files, index, count);
    if other == count - 1 {
        assert(all.last() == files[other].path);
    } else {
        law_report_names_every_file(files, index, other, (count - 1) as nat);
        let before = paths_sharing(files, index, (count - 1) as nat);
        let at = choose|at: int| 0 <= at < before.len() && before[at] == files[other].path;
        assert(all[at] == files[other].path);
    }
}

proof fn lemma_few_share(files: Seq<FileView>, index: int, count: nat)
    ensures
        paths_sharing(files, index, count).len() <= count,
    decreases count,
{
    if count > 0 {
        lemma_few_share(files, index, (count - 1) as nat);
    }
}

/// What fails makes the scan incomplete; the models found stay.
pub proof fn law_failure_makes_a_scan_incomplete(scan: ScanView, diagnostic: DiagnosticView)
    ensures
        !scan.failed(diagnostic).complete,
        scan.failed(diagnostic).models == scan.models,
        scan.failed(diagnostic).position == scan.position,
        scan.diagnostics.len() < 256 ==> scan.failed(diagnostic).diagnostics == scan.diagnostics.push(diagnostic),
{
    if scan.diagnostics.len() < 256 {
        assert(scan.diagnostics + seq![diagnostic] =~= scan.diagnostics.push(diagnostic));
    }
}

/// A file is taken once: with its model, or by being passed over.
pub proof fn law_files_are_taken_once(scan: ScanView, index: int)
    requires
        0 <= scan.position < scan.files.len() == scan.consumed.len(),
        0 <= index < scan.files.len(),
    ensures
        scan.passed().position == scan.position + 1,
        scan.passed().consumed[index] == (index == scan.position || scan.consumed[index]),
        !scan.passed().open,
        scan.opened().position == scan.position + 1,
        scan.opened().consumed[index] == (scan.consumed[index] || model_files(scan.files, scan.position).contains(
            index,
        )),
        scan.opened().open,
        scan.opened().models == scan.models && scan.passed().models == scan.models,
        scan.opened().complete == scan.complete && scan.passed().complete == scan.complete,
{
}

/// The limits of a scan are reported with their numbers.
pub proof fn law_limits_are_reported(scan: ScanView)
    ensures
        scan.model_limit().path == scan.root,
        scan.model_limit().kind == CatalogDiagnosticKind::Scan,
        scan.model_limit().message == "catalog model limit of "@ + decimal(1_024) + " was reached"@,
        scan.part_limit().path == scan.files[scan.position].path,
        scan.part_limit().kind == CatalogDiagnosticKind::Scan,
        scan.part_limit().message == "declared shard total "@ + decimal(
            shard_value(scan.files[scan.position].shard->0.total),
        ) + " exceeds limit "@ + decimal(1_024),
{
}

/// A root is scanned if and only if it is a directory itself.
pub proof fn law_root_is_a_directory(kind: RootKind)
    ensures
        root_refusal(kind) is None <==> kind is Directory,
        kind is Symlink ==> root_refusal(kind) == Some("catalog root must not be a symbolic link"@),
        kind is Other ==> root_refusal(kind) == Some("catalog root is not a directory"@),
{
}

/// A root that has become a link, or that is another directory, has changed.
pub proof fn law_replaced_root_is_noticed(root: RootSnapshot, now: RootSnapshot)
    ensures
        root.unchanged(false, root),
        !root.unchanged(true, now),
        now.canonical@ != root.canonical@ ==> !root.unchanged(false, now),
        now.device != root.device ==> !root.unchanged(false, now),
        now.inode != root.inode ==> !root.unchanged(false, now),
{
}

/// A file that was written to, or whose path leads elsewhere, has changed.
pub proof fn law_replaced_file_is_noticed(file: FileSnapshot, now: FileSnapshot, at_path: CatalogIdentity)
    ensures
        file.unchanged(file, file.identity),
        now.size != file.size ==> !file.unchanged(now, at_path),
        now.modified_seconds != file.modified_seconds ==> !file.unchanged(now, at_path),
        now.modified_nanos != file.modified_nanos ==> !file.unchanged(now, at_path),
        now.identity != file.identity ==> !file.unchanged(now, at_path),
        file.identity != CatalogIdentity::Unavailable && at_path != file.identity ==> !file.unchanged(now, at_path),
        file.identity == CatalogIdentity::Unavailable ==> file.unchanged(file, at_path),
{
}

/// What lies within a root begins with the root's own steps.
pub proof fn law_entries_lie_within_the_root(root: Seq<Seq<char>>, more: Seq<Seq<char>>, path: Seq<Seq<char>>)
    ensures
        within(root + more, root),
        path.len() < root.len() ==> !within(path, root),
        forall|at: int| 0 <= at < root.len() && at < path.len() && #[trigger] path[at] != root[at] ==> !within(path, root),
{
    assert((root + more).take(root.len() as int) =~= root);
    assert forall|at: int| 0 <= at < root.len() && at < path.len() && #[trigger] path[at] != root[at] implies !within(
        path,
        root,
    ) by {
        if within(path, root) {
            assert(path.take(root.len() as int)[at] == path[at]);
        }
    }
}

/// A configuration of version one is read as it is, one of version zero is brought
/// up to it, and no other is read.
pub proof fn law_versions_are_recognised(version: u32)
    ensures
        form_of(version) == ConfigForm::Current <==> version == 1,
        form_of(version) == ConfigForm::VersionZero <==> version == 0,
        form_of(version) == ConfigForm::Unsupported <==> version > 1,
{
}

/// A configuration that was set aside is reported with the reason.
pub proof fn law_unread_configuration_is_reported(diagnostic: ConfigDiagnostic)
    ensures
        diagnostic.kind is Corrupt ==> diagnostic.code_text() == "config_corrupt"@ && diagnostic.message_text()
            == "Configuration was corrupt and has been quarantined."@,
        diagnostic.kind matches ConfigDiagnosticKind::UnsupportedVersion { version } ==> diagnostic.code_text()
            == "config_unsupported_version"@ && diagnostic.message_text() == "Configuration version "@ + decimal(
            version as nat,
        ) + " is unsupported and has been quarantined."@,
{
}

/// What replaces a file was written and synchronised before, and the backup is
/// there before the file itself is replaced.
pub proof fn law_save_goes_in_order(main_exists: bool)
    ensures
        save_stages(main_exists)[0] == ConfigIoStage::WriteMainTemp,
        save_stages(main_exists)[1] == ConfigIoStage::SyncMainTemp,
        save_stages(main_exists).last() == ConfigIoStage::ReplaceMain,
        !main_exists ==> save_stages(main_exists).len() == 3,
        main_exists ==> save_stages(main_exists).len() == 6 && save_stages(main_exists).subrange(2, 5) == seq![
            ConfigIoStage::CopyBackupTemp,
            ConfigIoStage::SyncBackupTemp,
            ConfigIoStage::ReplaceBackup,
        ],
{
    if main_exists {
        assert(save_stages(main_exists).subrange(2, 5) =~= seq![
            ConfigIoStage::CopyBackupTemp,
            ConfigIoStage::SyncBackupTemp,
            ConfigIoStage::ReplaceBackup,
        ]);
    }
}

/// Before the file itself is replaced, the backup holds what the file holds.
pub proof fn law_backup_is_there_before_the_file_goes(disk: SaveDisk, new: int)
    requires
        disk.main is Some,
    ensures
        disk_after_steps(disk, save_stages(true), 5, new).backup == disk.main,
        disk_after_steps(disk, save_stages(true), 5, new).main == disk.main,
        disk_after_steps(disk, save_stages(true), 5, new).main_temp == Some(new),
{
    reveal_with_fuel(disk_after_steps, 7);
}

/// What is written on the way has a name of its own beside the file.
pub proof fn law_temporary_names(unique: Seq<char>)
    ensures
        main_temp_name(unique) == "config.json."@ + unique + ".tmp"@,
        backup_temp_name(unique) == "config.json.backup."@ + unique + ".tmp"@,
        main_temp_name(unique).len() == unique.len() + 16,
        backup_temp_name(unique).len() == unique.len() + 23,
{
    reveal_strlit("config.json.");
    reveal_strlit("config.json.backup.");
    reveal_strlit(".tmp");
}

/// An identifier is written with 32 digits in five groups.
pub proof fn law_identifiers_are_grouped(value: u128, place: int)
    requires
        0 <= place < 36,
    ensures
        uuid_text(value).len() == 36,
        place == 8 || place == 13 || place == 18 || place == 23 ==> uuid_text(value)[place] == '-',
        0 <= place < 8 ==> uuid_text(value)[place] == hex_digit((value as int / pow(16, (31 - place) as nat)) % 16),
        8 < place < 13 ==> uuid_text(value)[place] == hex_digit((value as int / pow(16, (32 - place) as nat)) % 16),
        13 < place < 18 ==> uuid_text(value)[place] == hex_digit((value as int / pow(16, (33 - place) as nat)) % 16),
        18 < place < 23 ==> uuid_text(value)[place] == hex_digit((value as int / pow(16, (34 - place) as nat)) % 16),
        23 < place < 36 ==> uuid_text(value)[place] == hex_digit((value as int / pow(16, (35 - place) as nat)) % 16),
{
}

/// Digits above nine are written with small letters.
pub proof fn law_digits_are_small(value: int)
    ensures
        0 <= value <= 9 ==> '0' <= hex_digit(value) <= '9' && hex_digit(value) as int - '0' as int == value,
        10 <= value <= 15 ==> 'a' <= hex_digit(value) <= 'f' && hex_digit(value) as int - 'a' as int == value - 10,
{
}

/// A key without slashes is one segment: letters, digits, hyphens, underscores and
/// dots, though not one or two dots alone; and it has 255 characters at most.
pub proof fn law_key_of_one_segment(text: Seq<char>)
    requires
        !text.contains('/'),
    ensures
        valid_key(text) <==> {
            &&& 0 < text.len() <= 255
            &&& text != seq!['.'] && text != seq!['.', '.']
            &&& forall|index: int|
                0 <= index < text.len() ==> {
                    let character = #[trigger] text[index];
                    is_alphanumeric(character) || character == '-' || character == '_' || character == '.'
                }
        },
{
    law_text_without_separators_is_one_piece(text, '/', '/');
    let pieces = split(text, '/', '/');
    assert(pieces[0] == text);
    if valid_key(text) {
        assert(valid_segment(pieces[0]));
        assert forall|index: int| 0 <= index < text.len() implies {
            let character = #[trigger] text[index];
            is_alphanumeric(character) || character == '-' || character == '_' || character == '.'
        } by {
            assert(key_char(text[index]));
        }
    }
}

/// A key of several segments is one in which each segment is a key.
pub proof fn law_key_of_several_segments(front: Seq<char>, last: Seq<char>)
    requires
        !last.contains('/'),
        front.len() + last.len() < 255,
    ensures
        valid_key(front + seq!['/'] + last) <==> valid_key(front) && valid_key(last),
{
    let text = front + seq!['/'] + last;
    let pieces = split(text, '/', '/');
    law_last_piece_stands_behind_a_separator(front, '/', last, '/', '/');
    law_text_without_separators_is_one_piece(last, '/', '/');
    let before = split(front, '/', '/');
    assert(pieces.last() == last);
    assert(split(last, '/', '/')[0] == last);
    if valid_key(text) {
        assert(valid_segment(pieces[pieces.len() - 1]));
        assert forall|index: int| 0 <= index < before.len() implies valid_segment(#[trigger] before[index]) by {
            assert(pieces[index] == before[index]);
        }
    }
    if valid_key(front) && valid_key(last) {
        assert(valid_segment(split(last, '/', '/')[0]));
        assert forall|index: int| 0 <= index < pieces.len() implies valid_segment(#[trigger] pieces[index]) by {
            if index < before.len() {
                assert(pieces[index] == before[index]);
            }
        }
    }
}

/// A batch closes once it has been quiet, and at its hard limit at the latest.
pub proof fn law_batch_closes_at_the_earlier_time(timer: BatchTimer)
    ensures
        timer.closes_at() <= timer.quiet_at_ms,
        timer.closes_at() <= timer.hard_at_ms,
        timer.closes_at() == timer.quiet_at_ms || timer.closes_at() == timer.hard_at_ms,
{
}

/// Every error of a batch is reported for the root, and after them how many events
/// were lost, where any were.
pub proof fn law_batch_reports_its_errors(root: Seq<char>, batch: CatalogWatchBatch, index: int)
    requires
        0 <= index < batch.errors@.len(),
    ensures
        batch_diagnostics(root, batch)[index].message == batch.errors@[index]@,
        batch_diagnostics(root, batch)[index].path == root,
        batch_diagnostics(root, batch)[index].kind == CatalogDiagnosticKind::Scan,
        batch.dropped_count == 0 ==> batch_diagnostics(root, batch).len() == batch.errors@.len(),
        batch.dropped_count > 0 ==> batch_diagnostics(root, batch).len() == batch.errors@.len() + 1
            && batch_diagnostics(root, batch).last().message == "watch event buffer overflow: dropped "@ + decimal(
            batch.dropped_count as nat,
        ) + "; full rescan required"@ && batch_diagnostics(root, batch).last().path == root,
{
    assert(texts(batch.errors@)[index] == batch.errors@[index]@);
}

/// Each error has its own code and its own words.
pub proof fn law_errors_have_codes_and_words(error: AppError)
    ensures
        error is InvalidModelKey ==> error.code_text() == "invalid_model_key"@ && error.message_text()
            == "model key is invalid"@,
        error is ModelNotFound ==> error.code_text() == "model_not_found"@ && error.message_text()
            == "model was not found"@,
        error is ModelBusy ==> error.code_text() == "model_busy"@ && error.message_text() == "another model is busy"@,
        error is ModelStarting ==> error.code_text() == "model_starting"@ && error.message_text()
            == "model is starting"@,
        error is ModelLoadFailed ==> error.code_text() == "model_load_failed"@ && error.message_text()
            == "model failed to load"@,
        error is EngineUnavailable ==> error.code_text() == "engine_unavailable"@ && error.message_text()
            == "engine is unavailable"@,
        error matches AppError::InvalidSetting(setting) ==> error.code_text() == "invalid_setting"@
            && error.message_text() == "invalid setting: "@ + setting@,
        error matches AppError::InvalidLogLimit(limit) ==> error.code_text() == "invalid_log_limit"@
            && error.message_text() == "invalid log limit: "@ + limit@,
        error is EngineProcess ==> error.code_text() == "engine_process"@ && error.message_text()
            == "engine process failed"@,
        error is ConfigIo ==> error.code_text() == "config_io"@ && error.message_text()
            == "configuration I/O failed"@,
        error is ConfigFormat ==> error.code_text() == "config_format"@ && error.message_text()
            == "configuration format is invalid"@,
{
}

/// An error that was caused by another tells its cause and the causes of that.
pub proof fn law_errors_tell_their_causes(cause: ErrorSource, reason: String)
    ensures
        AppError::ModelLoadFailed(cause).source_chain() == seq![cause.message@] + texts(cause.causes@),
        AppError::EngineProcess(reason).source_chain() == seq![reason@],
        AppError::ConfigIo(reason).source_chain() == seq![reason@],
        AppError::ConfigFormat(reason).source_chain() == seq![reason@],
        AppError::ModelBusy.source_chain().len() == 0,
{
}

/// What is joined to a directory stands behind it, with one separator in between
/// where the directory does not end in one.
pub proof fn law_names_are_joined(parent: Seq<char>, name: Seq<char>)
    requires
        parent.len() > 0,
    ensures
        parent.last() == '/' ==> joined_path(parent, name, PathStyle::Unix) == parent + name,
        parent.last() != '/' ==> joined_path(parent, name, PathStyle::Unix) == parent + seq!['/'] + name,
        parent.last() == '/' || parent.last() == '\\' ==> joined_path(parent, name, PathStyle::Windows) == parent
            + name,
        parent.last() != '/' && parent.last() != '\\' && parent.len() > 2 ==> joined_path(
            parent,
            name,
            PathStyle::Windows,
        ) == parent + seq!['\\'] + name,
{
}

/// A path from the root and one that is not are different paths.
pub proof fn law_roots_matter(left: Seq<char>, right: Seq<char>)
    requires
        rooted(left, PathStyle::Unix),
        same_path(left, right, PathStyle::Unix),
    ensures
        steps(left, PathStyle::Unix).len() > 0 && steps(left, PathStyle::Unix)[0].kind == StepKind::Root,
        steps(right, PathStyle::Unix).len() > 0 && steps(right, PathStyle::Unix)[0].kind == StepKind::Root,
{
}

/// Of two texts that differ, the first character in which they do decides; a text
/// stands before every longer one that begins with it.
pub proof fn law_first_difference_decides(front: Seq<char>, left: Seq<char>, right: Seq<char>)
    ensures
        left.len() > 0 && right.len() > 0 && left[0] != right[0] ==> (text_before(front + left, front + right)
            <==> left[0] < right[0]),
        left.len() == 0 && right.len() > 0 ==> text_before(front + left, front + right),
        right.len() == 0 ==> !text_before(front + left, front + right),
    decreases front.len(),
{
    if front.len() == 0 {
        assert(front + left =~= left);
        assert(front + right =~= right);
    } else {
        law_first_difference_decides(front.skip(1), left, right);
        assert((front + left).skip(1) =~= front.skip(1) + left);
        assert((front + right).skip(1) =~= front.skip(1) + right);
    }
}

/// A directory stands before what is in it, and of two paths the first step in
/// which they differ decides.
pub proof fn law_first_step_decides(front: Seq<StepView>, left: Seq<StepView>, right: Seq<StepView>)
    ensures
        left.len() > 0 && right.len() > 0 && left[0] != right[0] ==> (steps_before(front + left, front + right)
            <==> step_before(left[0], right[0])),
        left.len() == 0 && right.len() > 0 ==> steps_before(front + left, front + right),
        right.len() == 0 ==> !steps_before(front + left, front + right),
    decreases front.len(),
{
    if front.len() == 0 {
        assert(front + left =~= left);
        assert(front + right =~= right);
    } else {
        law_first_step_decides(front.skip(1), left, right);
        assert((front + left).skip(1) =~= front.skip(1) + left);
        assert((front + right).skip(1) =~= front.skip(1) + right);
    }
}

/// Drives stand before roots, those before the current directory, that before the
/// one above, and all of them before names, which stand in the order of texts.
pub proof fn law_kinds_of_steps_are_ordered(left: StepView, right: StepView)
    ensures
        left.kind == right.kind ==> step_before(left, right) == text_before(left.text, right.text),
        left.kind == StepKind::Drive && right.kind != StepKind::Drive ==> step_before(left, right),
        left.kind == StepKind::Root && right.kind != StepKind::Drive && right.kind != StepKind::Root ==> step_before(
            left,
            right,
        ),
        left.kind == StepKind::Here && (right.kind == StepKind::Up || right.kind == StepKind::Name) ==> step_before(
            left,
            right,
        ),
        left.kind == StepKind::Up && right.kind == StepKind::Name ==> step_before(left, right),
        left.kind == StepKind::Name && right.kind != StepKind::Name ==> !step_before(left, right),
{
}

/// The bytes of a number, from the lowest on.
pub proof fn law_bytes_of_a_number(value: u64)
    ensures
        byte_at(value, 0) == value % 256,
        byte_at(value, 1) == value / 256 % 256,
        byte_at(value, 2) == value / 65_536 % 256,
        byte_at(value, 3) == value / 16_777_216 % 256,
        byte_at(value, 4) == value / 4_294_967_296 % 256,
        byte_at(value, 5) == value / 1_099_511_627_776 % 256,
        byte_at(value, 6) == value / 281_474_976_710_656 % 256,
        byte_at(value, 7) == value / 72_057_594_037_927_936 % 256,
{
    reveal_with_fuel(without_low_bytes, 8);
    assert(value / 256 / 256 == value / 65_536);
    assert(value / 65_536 / 256 == value / 16_777_216);
    assert(value / 16_777_216 / 256 == value / 4_294_967_296);
    assert(value / 4_294_967_296 / 256 == value / 1_099_511_627_776);
    assert(value / 1_099_511_627_776 / 256 == value / 281_474_976_710_656);
    assert(value / 281_474_976_710_656 / 256 == value / 72_057_594_037_927_936);
}

/// A fingerprint takes in its numbers in order, each with its eight bytes from the
/// lowest on.
pub proof fn law_fingerprint_takes_in_numbers(values: Seq<u64>, value: u64)
    ensures
        ({
            let hash = fingerprint(values);
            let hash = fingerprint_step(hash, byte_at(value, 0));
            let hash = fingerprint_step(hash, byte_at(value, 1));
            let hash = fingerprint_step(hash, byte_at(value, 2));
            let hash = fingerprint_step(hash, byte_at(value, 3));
            let hash = fingerprint_step(hash, byte_at(value, 4));
            let hash = fingerprint_step(hash, byte_at(value, 5));
            let hash = fingerprint_step(hash, byte_at(value, 6));
            fingerprint(values.push(value)) == fingerprint_step(hash, byte_at(value, 7))
        }),
{
    assert(values.push(value).drop_last() =~= values);
    reveal_with_fuel(fingerprint_value, 9);
}

/// The steps within a path: a name adds itself; an empty piece and a dot behind
/// another piece add nothing.
proof fn lemma_one_more_piece(pieces: Seq<Seq<char>>, last: Seq<char>, rooted: bool)
    requires
        pieces.len() > 0,
    ensures
        last.len() == 0 || last == seq!['.'] ==> inner_steps(pieces.push(last), rooted) == inner_steps(pieces, rooted),
        last == seq!['.', '.'] ==> inner_steps(pieces.push(last), rooted) == inner_steps(pieces, rooted).push(
            StepView { kind: StepKind::Up, text: seq![] },
        ),
        last.len() > 0 && last != seq!['.'] && last != seq!['.', '.'] ==> inner_steps(pieces.push(last), rooted)
            == inner_steps(pieces, rooted).push(StepView { kind: StepKind::Name, text: last }),
{
    assert(pieces.push(last).drop_last() =~= pieces);
    assert(pieces.push(last).last() == last);
    assert(seq!['.'].len() == 1 && seq!['.', '.'].len() == 2);
}

/// A name behind a directory is one more step; a separator at the end and a dot
/// lead nowhere else; two dots lead up.
pub proof fn law_names_lead_one_step_further(path: Seq<char>, name: Seq<char>)
    requires
        path.len() > 0,
        !name.contains('/'),
    ensures
        name.len() > 0 && name != seq!['.'] && name != seq!['.', '.'] ==> steps(
            path + seq!['/'] + name,
            PathStyle::Unix,
        ) == steps(path, PathStyle::Unix).push(StepView { kind: StepKind::Name, text: name }),
        name.len() == 0 || name == seq!['.'] ==> same_path(path + seq!['/'] + name, path, PathStyle::Unix),
        name == seq!['.', '.'] ==> steps(path + seq!['/'] + name, PathStyle::Unix) == steps(
            path,
            PathStyle::Unix,
        ).push(StepView { kind: StepKind::Up, text: seq![] }),
{
    let whole = path + seq!['/'] + name;
    assert(whole[0] == path[0]);
    law_last_piece_stands_behind_a_separator(path, '/', name, '/', '/');
    let pieces = split(path, '/', '/');
    law_text_is_cut_at_separators(path, '/', '/', '/');
    let from_root = rooted(path, PathStyle::Unix);
    lemma_one_more_piece(pieces, name, from_root);
    let root: Seq<StepView> = if from_root {
        seq![StepView { kind: StepKind::Root, text: seq![] }]
    } else {
        seq![]
    };
    let none = Seq::<StepView>::empty();
    let inner = inner_steps(pieces, from_root);
    assert(steps(path, PathStyle::Unix) =~= none + root + inner);
    assert(steps(whole, PathStyle::Unix) =~= none + root + inner_steps(pieces.push(name), from_root));
    if name.len() > 0 && name != seq!['.'] && name != seq!['.', '.'] {
        let last = StepView { kind: StepKind::Name, text: name };
        assert(none + root + inner.push(last) =~= (none + root + inner).push(last));
    }
    if name == seq!['.', '.'] {
        assert(seq!['.', '.'][1] == '.');
        let last = StepView { kind: StepKind::Up, text: seq![] };
        assert(none + root + inner.push(last) =~= (none + root + inner).push(last));
    }
}

/// On Windows the letter of a drive stands for itself in either case, and both
/// separators are alike where a path begins.
pub proof fn law_drives_are_alike_in_either_case(letter: char, rest: Seq<char>)
    requires
        'A' <= letter <= 'Z',
    ensures
        same_path(seq![letter, ':'] + rest, seq![ascii_lower(letter), ':'] + rest, PathStyle::Windows),
        steps(seq![letter, ':'] + rest, PathStyle::Windows).len() > 0,
        steps(seq![letter, ':'] + rest, PathStyle::Windows)[0].kind == StepKind::Drive,
        rooted(seq!['\\'] + rest, PathStyle::Windows) && rooted(seq!['/'] + rest, PathStyle::Windows),
        !rooted(seq!['\\'] + rest, PathStyle::Unix) && rooted(seq!['/'] + rest, PathStyle::Unix),
{
    let one = seq![letter, ':'] + rest;
    let two = seq![ascii_lower(letter), ':'] + rest;
    assert(one.skip(2) =~= rest);
    assert(two.skip(2) =~= rest);
    assert(one[0] == letter && one[1] == ':' && two[0] == ascii_lower(letter) && two[1] == ':');
}

/// A name that is composed as a part's name is recognised as one, and its prefix,
/// its number and its total are read from it.
pub proof fn law_part_names_are_recognised(prefix: Seq<char>, part: nat, total: nat)
    requires
        !prefix.contains('\n'),
        part < 100_000,
        total < 100_000,
    ensures
        shard_shape(part_name(prefix, part, total)),
        shard_groups(part_name(prefix, part, total))[1] == prefix,
        shard_groups(part_name(prefix, part, total))[2] == padded(part),
        shard_groups(part_name(prefix, part, total))[3] == padded(total),
{
    let name = part_name(prefix, part, total);
    let at = prefix.len() as int;
    law_part_name_is_composed(prefix, part, total);
    law_five_digits_hold_the_number(part);
    law_five_digits_hold_the_number(total);
    let ending = name.subrange(at + 15, at + 20);
    let between = name.subrange(at + 6, at + 10);
    assert(lowered(name).subrange(at + 15, at + 20) =~= seq!['.', 'g', 'g', 'u', 'f']) by {
        assert forall|index: int| 0 <= index < 5 implies lowered(name)[at + 15 + index] == ending[index] by {
            assert(name[at + 15 + index] == ending[index]);
        }
    }
    assert(lowered(name).subrange(at + 6, at + 10) =~= seq!['-', 'o', 'f', '-']) by {
        assert forall|index: int| 0 <= index < 4 implies lowered(name)[at + 6 + index] == between[index] by {
            assert(name[at + 6 + index] == between[index]);
        }
    }
    assert forall|index: int|
        (at < index < at + 6 || at + 10 <= index < at + 15) && (name[index] as u32) < 128 implies is_digit(
        #[trigger] name[index],
    ) by {
        if index < at + 6 {
            assert(name.subrange(at + 1, at + 6)[index - at - 1] == name[index]);
        } else {
            assert(name.subrange(at + 10, at + 15)[index - at - 10] == name[index]);
        }
    }
    assert(name.take(at) == prefix);
}

/// The configuration that is written beside the models is compared field by field.
pub proof fn law_configurations_differ_in_a_field(one: LauncherConfig, two: LauncherConfig)
    ensures
        one.same_as(one),
        one.same_as(two) <==> one.models@ == two.models@ && one.same_but_models(two),
        one.port != two.port || one.auth_enabled != two.auth_enabled ==> !one.same_but_models(two),
        one.catalog_directory != two.catalog_directory ==> !one.same_but_models(two),
        one.engine_distribution != two.engine_distribution ==> !one.same_but_models(two),
        one.engine_executable != two.engine_executable ==> !one.same_but_models(two),
        one.default_launch_settings != two.default_launch_settings ==> !one.same_but_models(two),
        one.auth_token_hashes@ != two.auth_token_hashes@ ==> !one.same_but_models(two),
        one.bind_address != two.bind_address ==> !one.same_but_models(two),
{
}

/// A configuration that can be read is used, one that cannot is set aside, and a file
/// that cannot be opened is left alone.
pub proof fn law_configuration_is_loaded(decoded: Option<Decoded>, action: LoadAction)
    requires
        call_ensures(load_action, (decoded,), action),
    ensures
        action is Use <==> decoded is None || decoded->0 is Config,
        action is Quarantine <==> (decoded matches Some(found) && (found is Corrupt || found is Unsupported)),
        action is Fail <==> (decoded matches Some(found) && found is Unreadable),
        decoded matches Some(Decoded::Config { config, migrated }) ==> action == (LoadAction::Use {
            config,
            save: migrated,
        }),
        decoded is None ==> (action matches LoadAction::Use { config, save } && !save && config.models@.len() == 0
            && config.port == 1234 && config.bind_address@ == "127.0.0.1"@ && !config.auth_enabled
            && config.auth_token_hashes@.len() == 0),
{
}

/// A file that cannot be read is never overwritten.
pub proof fn law_unread_configuration_is_not_overwritten(decoded: Option<Decoded>, block: SaveBlock)
    requires
        call_ensures(save_block, (decoded,), block),
    ensures
        block is Clear <==> decoded is None || decoded->0 is Config,
        block is Quarantine <==> (decoded matches Some(found) && (found is Corrupt || found is Unsupported)),
        block is Fail <==> (decoded matches Some(found) && found is Unreadable),
        block matches SaveBlock::Quarantine { error } ==> error is ConfigFormat,
        block matches SaveBlock::Fail { error } ==> error is ConfigIo,
{
}

/// An old configuration keeps its models and takes the defaults for the rest.
pub proof fn law_old_configuration_keeps_its_models(models: Vec<ModelRecord>, config: LauncherConfig)
    requires
        call_ensures(migrate, (models,), config),
    ensures
        config.models@ == models@,
        config.catalog_directory is None && config.engine_distribution is None && config.engine_executable is None,
        config.auth_token_hashes@.len() == 0 && !config.auth_enabled,
        config.bind_address@ == "127.0.0.1"@ && config.port == 1234,
{
}

/// The sizes of a model's parts are summed, and a sum that does not fit is reported.
pub proof fn law_part_sizes_are_summed(path: &str, total: u64, size: u64, result: Result<u64, CatalogDiagnostic>)
    requires
        call_ensures(add_part_size, (path, total, size), result),
    ensures
        result is Ok <==> total + size <= 18_446_744_073_709_551_615,
        result matches Ok(sum) ==> sum - size == total,
        result matches Err(diagnostic) ==> diagnostic@.path == path@ && diagnostic@.message
            == "logical model size overflowed u64"@,
{
}

/// A batch asks for a new scan and reports how many events were lost before and
/// during it.
pub proof fn law_batches_ask_for_a_scan(errors: Vec<String>, here: u64, before: u64, batch: CatalogWatchBatch)
    requires
        here + before <= u64::MAX,
        call_ensures(close_batch, (errors, here, before), batch),
    ensures
        batch.rescan_required,
        batch.errors@ == errors@,
        batch.dropped_count - here == before,
{
}

} // verus!
