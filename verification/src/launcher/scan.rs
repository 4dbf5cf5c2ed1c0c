//! The scan of a model directory: which files belong to one model, and what a
//! scan reports. Reading the disk is left to the caller, who performs each step
//! and hands its outcome back.

use vstd::prelude::*;

use super::catalog::{
    diagnostic_views, push_scan_diagnostic, scan_diagnostic, CatalogDiagnostic, CatalogDiagnosticKind,
    CatalogIdentity, DiagnosticView, ScanResult, ScannedModel, MAX_CATALOG_DIAGNOSTICS,
    MAX_DISCOVERED_GGUF_FILES, MAX_DISCOVERED_MODELS, MAX_LOGICAL_MODEL_SHARDS,
};
use super::path_order::{
    in_path_order, join_path, joined_path, lemma_earlier_paths, lemma_inserted_in_order, lemma_later_paths, order_of,
    path_before, path_known, same_path, PathOrder, PathStyle,
};
use super::pattern::{
    ascii, matched_groups, regex_captures, shard_groups, shard_shape, SHARD_PATTERN,
};
use crate::text::{
    all_digits, ascii_lower, chars_of, decimal, digit_char, digits_value, is_digit, joined, lowered, parse_unsigned,
    push_decimal, push_text, same, same_text, texts, to_lowered, unsigned_number,
};

verus! {

/// The parts of a shard's name: its prefix, its number and its total, as written.
pub struct ShardView {
    pub prefix: Seq<char>,
    pub number: Seq<char>,
    pub total: Seq<char>,
}

/// A file that a scan found. `name` is absent where it is no valid text.
pub struct FileView {
    pub path: Seq<char>,
    pub parent: Seq<char>,
    pub name: Option<Seq<char>>,
    pub shard: Option<ShardView>,
}

impl FileView {
    /// The parts of a shard's name are those of the file's own name.
    pub open spec fn wf(self) -> bool {
        self.shard matches Some(shard) ==> {
            &&& self.name matches Some(name) && {
                &&& shard_shape(name)
                &&& shard == (ShardView {
                    prefix: shard_groups(name)[1],
                    number: shard_groups(name)[2],
                    total: shard_groups(name)[3],
                })
            }
        }
    }
}

struct ShardParts {
    prefix: Vec<char>,
    lowered_prefix: Vec<char>,
    number: Vec<char>,
    total: Vec<char>,
}

/// A file that a scan found.
pub struct DiscoveredFile {
    path: String,
    parent: Vec<char>,
    name: Option<Vec<char>>,
    lowered_name: Vec<char>,
    shard: Option<ShardParts>,
}

impl View for DiscoveredFile {
    type V = FileView;

    closed spec fn view(&self) -> FileView {
        FileView {
            path: self.path@,
            parent: self.parent@,
            name: match self.name {
                Some(name) => Some(name@),
                None => None,
            },
            shard: match self.shard {
                Some(shard) => Some(
                    ShardView { prefix: shard.prefix@, number: shard.number@, total: shard.total@ },
                ),
                None => None,
            },
        }
    }
}

impl DiscoveredFile {
    #[verifier::type_invariant]
    spec fn valid(self) -> bool {
        &&& self@.wf()
        &&& self.name matches Some(name) ==> self.lowered_name@ == lowered(name@)
        &&& self.shard matches Some(shard) ==> shard.lowered_prefix@ == lowered(shard.prefix@)
    }

    /// A file with its directory and its name. A name that `regex` finds to be a
    /// shard's name is taken apart.
    pub fn new(path: String, parent: &str, name: Option<&str>) -> (result: Self)
        ensures
            result@.path == path@,
            result@.parent == parent@,
            result@.name == (match name {
                Some(text) => Some(text@),
                None => None,
            }),
            result@.wf(),
            match (name, result@.shard) {
                (Some(text), Some(shard)) => matched_groups(SHARD_PATTERN@, text@) is Some && shard_shape(text@),
                (Some(text), None) => {
                    &&& matched_groups(SHARD_PATTERN@, text@) is None
                    &&& ascii(text@) ==> !shard_shape(text@)
                },
                (None, shard) => shard is None,
            },
    {
        match name {
            Some(text) => {
                let characters = chars_of(text);
                let lowered_name = to_lowered(&characters);
                let shard = match regex_captures(SHARD_PATTERN, text) {
                    Some(groups) => {
                        proof {
                            assert(texts(groups@).len() == 4);
                            assert(texts(groups@)[1] == groups@[1]@);
                            assert(texts(groups@)[2] == groups@[2]@);
                            assert(texts(groups@)[3] == groups@[3]@);
                        }
                        let prefix = chars_of(groups[1].as_str());
                        let lowered_prefix = to_lowered(&prefix);
                        let number = chars_of(groups[2].as_str());
                        let total = chars_of(groups[3].as_str());
                        Some(ShardParts { prefix, lowered_prefix, number, total })
                    },
                    None => None,
                };
                DiscoveredFile { path, parent: chars_of(parent), name: Some(characters), lowered_name, shard }
            },
            None => DiscoveredFile {
                path,
                parent: chars_of(parent),
                name: None,
                lowered_name: Vec::new(),
                shard: None,
            },
        }
    }

    pub fn path(&self) -> (result: &str)
        ensures
            result@ == self@.path,
    {
        self.path.as_str()
    }
}

/// The views of a list of files.
pub open spec fn file_views(files: Seq<DiscoveredFile>) -> Seq<FileView> {
    files.map_values(|file: DiscoveredFile| file@)
}

/// `file` stands in the directory `parent` under `name`, whatever its case.
pub open spec fn stands_as(file: FileView, parent: Seq<char>, name: Seq<char>) -> bool {
    file.name matches Some(own) && file.parent == parent && lowered(own) == name
}

/// Two files whose names differ at most in their case.
pub open spec fn same_place(left: FileView, right: FileView) -> bool {
    left.name matches Some(name) && stands_as(right, left.parent, lowered(name))
}

/// Another file has the same name but for its case.
pub open spec fn ambiguous(files: Seq<FileView>, index: int) -> bool {
    exists|other: int|
        0 <= other < files.len() && other != index && #[trigger] same_place(files[index], files[other])
}

/// Two shards of one model.
pub open spec fn same_group(left: FileView, right: FileView) -> bool {
    match (left.shard, right.shard) {
        (Some(one), Some(two)) => {
            &&& left.parent == right.parent
            &&& lowered(one.prefix) == lowered(two.prefix)
            &&& one.total == two.total
        },
        _ => false,
    }
}

/// Some shard of the same model has an ambiguous name.
pub open spec fn group_is_ambiguous(files: Seq<FileView>, index: int) -> bool {
    exists|other: int|
        0 <= other < files.len() && #[trigger] same_group(files[index], files[other]) && ambiguous(files, other)
}

/// The file is left out, because it is not clear which file is meant.
pub open spec fn left_out(files: Seq<FileView>, index: int) -> bool {
    ambiguous(files, index) || group_is_ambiguous(files, index)
}

/// The number that a shard's name writes; zero where it cannot be read.
pub open spec fn shard_value(text: Seq<char>) -> nat {
    match unsigned_number(text, 99_999) {
        Some(value) => value,
        None => 0,
    }
}

/// Five digits.
pub open spec fn padded(value: nat) -> Seq<char> {
    seq![
        digit_char((value / 10_000) % 10),
        digit_char((value / 1_000) % 10),
        digit_char((value / 100) % 10),
        digit_char((value / 10) % 10),
        digit_char(value % 10),
    ]
}

/// The name of one part of a model, in lower case.
pub open spec fn part_name(lowered_prefix: Seq<char>, part: nat, total: nat) -> Seq<char> {
    lowered_prefix + seq!['-'] + padded(part) + seq!['-', 'o', 'f', '-'] + padded(total) + seq![
        '.',
        'g',
        'g',
        'u',
        'f',
    ]
}

/// The file is the only one in that directory under that name.
pub open spec fn only_one(files: Seq<FileView>, parent: Seq<char>, name: Seq<char>, index: int) -> bool {
    &&& 0 <= index < files.len()
    &&& stands_as(files[index], parent, name)
    &&& forall|other: int|
        0 <= other < files.len() && other != index ==> !#[trigger] stands_as(files[other], parent, name)
}

/// Exactly one file stands there.
pub open spec fn exactly_one(files: Seq<FileView>, parent: Seq<char>, name: Seq<char>) -> bool {
    exists|index: int| only_one(files, parent, name, index)
}

/// The file is the first of a model whose parts are all there.
pub open spec fn starts_set(files: Seq<FileView>, index: int) -> bool {
    files[index].shard matches Some(shard) && {
        &&& shard_value(shard.number) == 1
        &&& shard_value(shard.total) > 1
        &&& forall|part: nat|
            1 <= part <= shard_value(shard.total) ==> exactly_one(
                files,
                files[index].parent,
                #[trigger] part_name(lowered(shard.prefix), part, shard_value(shard.total)),
            )
    }
}

/// The file that is one part of the model that starts at `index`.
pub open spec fn part_file(files: Seq<FileView>, index: int, part: nat) -> int {
    choose|found: int|
        only_one(
            files,
            files[index].parent,
            part_name(
                lowered(files[index].shard->0.prefix),
                part,
                shard_value(files[index].shard->0.total),
            ),
            found,
        )
}

/// The files of the model that starts at `index`: all its parts in order, or the
/// file alone.
pub open spec fn model_files(files: Seq<FileView>, index: int) -> Seq<int> {
    if starts_set(files, index) {
        Seq::new(
            shard_value(files[index].shard->0.total),
            |place: int| part_file(files, index, (place + 1) as nat),
        )
    } else {
        seq![index]
    }
}

/// The declared number of parts exceeds the limit.
pub open spec fn declares_too_many(file: FileView) -> bool {
    file.shard matches Some(shard) && shard_value(shard.total) > MAX_LOGICAL_MODEL_SHARDS
}

/// Five digits are the padded form of the number that they write.
proof fn lemma_padded(text: Seq<char>)
    requires
        text.len() == 5,
        all_digits(text),
    ensures
        text == padded(digits_value(text)),
        digits_value(text) <= 99_999,
{
    reveal_with_fuel(digits_value, 6);
    let a = text[0] as nat - 48;
    let b = text[1] as nat - 48;
    let c = text[2] as nat - 48;
    let d = text[3] as nat - 48;
    let e = text[4] as nat - 48;
    let four = text.drop_last();
    let three = four.drop_last();
    let two = three.drop_last();
    let one = two.drop_last();
    assert(four.last() == text[3] && three.last() == text[2] && two.last() == text[1] && one.last() == text[0]);
    assert(is_digit(text[0]) && is_digit(text[1]) && is_digit(text[2]) && is_digit(text[3]) && is_digit(text[4]));
    let value = digits_value(text);
    assert(value == a * 10_000 + b * 1_000 + c * 100 + d * 10 + e);
    assert(value % 10 == e);
    assert((value / 10) % 10 == d);
    assert((value / 100) % 10 == c);
    assert((value / 1_000) % 10 == b);
    assert((value / 10_000) % 10 == a);
    assert(text =~= padded(value));
}

/// A number in a shard's name that can be read is written with five digits.
proof fn lemma_shard_number(text: Seq<char>, name: Seq<char>, at: int)
    requires
        0 <= at,
        at + 5 <= name.len(),
        text == name.subrange(at, at + 5),
        forall|index: int| at <= index < at + 5 && (name[index] as u32) < 128 ==> is_digit(#[trigger] name[index]),
        shard_value(text) > 0,
    ensures
        text == padded(shard_value(text)),
{
    assert(text[0] == name[at]);
    let digits = if text[0] == '+' {
        text.skip(1)
    } else {
        text
    };
    assert(text[0] != '+');
    assert(digits == text);
    lemma_padded(text);
}

/// The first part of a model has the name that its own parts write.
proof fn lemma_own_part_name(file: FileView)
    requires
        file.wf(),
        file.shard is Some,
        shard_value(file.shard->0.number) == 1,
        shard_value(file.shard->0.total) > 0,
    ensures
        file.name is Some,
        lowered(file.name->0) == part_name(
            lowered(file.shard->0.prefix),
            1,
            shard_value(file.shard->0.total),
        ),
{
    let name = file.name->0;
    let shard = file.shard->0;
    let at = name.len() - 20;
    let total = shard_value(shard.total);
    lemma_shard_number(shard.number, name, at + 1);
    lemma_shard_number(shard.total, name, at + 10);
    let low = lowered(name);
    let expected = part_name(lowered(shard.prefix), 1, total);
    assert(lowered(shard.prefix) =~= low.take(at));
    assert(lowered(shard.number) =~= shard.number) by {
        assert forall|place: int| 0 <= place < 5 implies ascii_lower(shard.number[place]) == #[trigger] shard.number[place] by {
            assert(is_digit(padded(1)[place]));
        }
    }
    assert(lowered(shard.total) =~= shard.total) by {
        assert forall|place: int| 0 <= place < 5 implies ascii_lower(shard.total[place]) == #[trigger] shard.total[place] by {
            assert(is_digit(padded(total)[place]));
        }
    }
    assert(low.subrange(at + 1, at + 6) =~= lowered(shard.number));
    assert(low.subrange(at + 10, at + 15) =~= lowered(shard.total));
    assert(low[at] == '-');
    assert forall|place: int| 0 <= place < 20 implies low[at + place] == #[trigger] expected[at + place] by {
        if 1 <= place < 6 {
            assert(low[at + place] == low.subrange(at + 1, at + 6)[place - 1]);
        } else if 6 <= place < 10 {
            assert(low[at + place] == low.subrange(at + 6, at + 10)[place - 6]);
        } else if 10 <= place < 15 {
            assert(low[at + place] == low.subrange(at + 10, at + 15)[place - 10]);
        } else if 15 <= place {
            assert(low[at + place] == low.subrange(at + 15, at + 20)[place - 15]);
        }
    }
    assert(low.len() == expected.len());
    assert forall|place: int| 0 <= place < low.len() implies low[place] == expected[place] by {
        if place < at {
            assert(low[place] == low.take(at)[place]);
        } else {
            assert(expected[at + (place - at)] == expected[place]);
        }
    }
    assert(low =~= expected);
}

/// Only one file can be the only one.
proof fn lemma_only_one(files: Seq<FileView>, parent: Seq<char>, name: Seq<char>, index: int)
    requires
        only_one(files, parent, name, index),
    ensures
        exactly_one(files, parent, name),
        (choose|found: int| only_one(files, parent, name, found)) == index,
{
    let found = choose|found: int| only_one(files, parent, name, found);
    assert(only_one(files, parent, name, found));
    assert(stands_as(files[found], parent, name));
}

/// The files of a model start with the file that it was found by, so that is the
/// file to launch.
pub proof fn law_model_starts_with_its_own_file(files: Seq<FileView>, index: int)
    requires
        0 <= index < files.len(),
        forall|place: int| 0 <= place < files.len() ==> (#[trigger] files[place]).wf(),
    ensures
        model_files(files, index).len() > 0,
        model_files(files, index)[0] == index,
{
    if starts_set(files, index) {
        let file = files[index];
        let shard = file.shard->0;
        let total = shard_value(shard.total);
        lemma_own_part_name(file);
        let name = part_name(lowered(shard.prefix), 1, total);
        assert(exactly_one(files, file.parent, name));
        let found = choose|found: int| only_one(files, file.parent, name, found);
        assert(only_one(files, file.parent, name, found));
        assert(stands_as(file, file.parent, name));
        assert(found == index);
        assert(model_files(files, index)[0] == part_file(files, index, 1));
    }
}

/// Every file of a model is one that was found, and a model with several files has
/// as many as its name declares, each under its own name.
pub proof fn law_model_files_are_the_declared_parts(files: Seq<FileView>, index: int, place: int)
    requires
        0 <= index < files.len(),
        0 <= place < model_files(files, index).len(),
    ensures
        0 <= model_files(files, index)[place] < files.len(),
        starts_set(files, index) ==> {
            let shard = files[index].shard->0;
            &&& model_files(files, index).len() == shard_value(shard.total)
            &&& stands_as(
                files[model_files(files, index)[place]],
                files[index].parent,
                part_name(lowered(shard.prefix), (place + 1) as nat, shard_value(shard.total)),
            )
        },
{
    if starts_set(files, index) {
        let shard = files[index].shard->0;
        let total = shard_value(shard.total);
        let name = part_name(lowered(shard.prefix), (place + 1) as nat, total);
        assert(exactly_one(files, files[index].parent, name));
        let found = choose|found: int| only_one(files, files[index].parent, name, found);
        assert(only_one(files, files[index].parent, name, found));
        assert(model_files(files, index)[place] == part_file(files, index, (place + 1) as nat));
    }
}

fn push_padded(name: &mut Vec<char>, value: u64)
    requires
        value <= 99_999,
    ensures
        final(name)@ == old(name)@ + padded(value as nat),
{
    let a: u8 = ((value / 10_000) % 10) as u8;
    let b: u8 = ((value / 1_000) % 10) as u8;
    let c: u8 = ((value / 100) % 10) as u8;
    let d: u8 = ((value / 10) % 10) as u8;
    let e: u8 = (value % 10) as u8;
    name.push((48 + a) as char);
    name.push((48 + b) as char);
    name.push((48 + c) as char);
    name.push((48 + d) as char);
    name.push((48 + e) as char);
    assert(name@ =~= old(name)@ + padded(value as nat));
}

fn compose_part_name(lowered_prefix: &[char], part: u64, total: u64) -> (result: Vec<char>)
    requires
        part <= 99_999,
        total <= 99_999,
    ensures
        result@ == part_name(lowered_prefix@, part as nat, total as nat),
{
    let mut name: Vec<char> = Vec::new();
    name.extend_from_slice(lowered_prefix);
    assert(name@ =~= lowered_prefix@);
    name.push('-');
    push_padded(&mut name, part);
    name.push('-');
    name.push('o');
    name.push('f');
    name.push('-');
    push_padded(&mut name, total);
    name.push('.');
    name.push('g');
    name.push('g');
    name.push('u');
    name.push('f');
    assert(name@ =~= part_name(lowered_prefix@, part as nat, total as nat));
    name
}

impl DiscoveredFile {
    fn is_at(&self, parent: &[char], name: &[char]) -> (result: bool)
        ensures
            result == stands_as(self@, parent@, name@),
    {
        proof {
            use_type_invariant(self);
        }
        self.name.is_some() && same(&self.lowered_name, name) && same(&self.parent, parent)
    }

    fn shares_place(&self, other: &DiscoveredFile) -> (result: bool)
        ensures
            result == same_place(self@, other@),
    {
        proof {
            use_type_invariant(self);
        }
        self.name.is_some() && other.is_at(&self.parent, &self.lowered_name)
    }

    fn shares_group(&self, other: &DiscoveredFile) -> (result: bool)
        ensures
            result == same_group(self@, other@),
    {
        proof {
            use_type_invariant(self);
            use_type_invariant(other);
        }
        match (&self.shard, &other.shard) {
            (Some(one), Some(two)) => {
                same(&one.lowered_prefix, &two.lowered_prefix) && same(&one.total, &two.total) && same(
                    &self.parent,
                    &other.parent,
                )
            },
            _ => false,
        }
    }
}

fn find_ambiguous(files: &Vec<DiscoveredFile>) -> (result: Vec<bool>)
    ensures
        result@.len() == files@.len(),
        forall|index: int|
            0 <= index < files@.len() ==> #[trigger] result@[index] == ambiguous(file_views(files@), index),
{
    let ghost views = file_views(files@);
    let mut result: Vec<bool> = Vec::new();
    for index in 0..files.len()
        invariant
            views == file_views(files@),
            result@.len() == index,
            forall|earlier: int| 0 <= earlier < index ==> #[trigger] result@[earlier] == ambiguous(views, earlier),
    {
        let mut found = false;
        let mut other: usize = 0;
        while other < files.len()
            invariant
                views == file_views(files@),
                index < files@.len(),
                other <= files@.len(),
                found == exists|earlier: int|
                    0 <= earlier < other && earlier != index && #[trigger] same_place(
                        views[index as int],
                        views[earlier],
                    ),
            decreases files@.len() - other,
        {
            if other != index && files[index].shares_place(&files[other]) {
                assert(same_place(views[index as int], views[other as int]));
                found = true;
            } else {
                assert(views[other as int] == files@[other as int]@);
            }
            other = other + 1;
        }
        result.push(found);
    }
    result
}

fn find_only_one(files: &Vec<DiscoveredFile>, parent: &[char], name: &[char]) -> (result: Option<usize>)
    ensures
        match result {
            Some(index) => only_one(file_views(files@), parent@, name@, index as int),
            None => !exactly_one(file_views(files@), parent@, name@),
        },
{
    let ghost views = file_views(files@);
    let mut found: Option<usize> = None;
    let mut index: usize = 0;
    while index < files.len()
        invariant
            views == file_views(files@),
            index <= files@.len(),
            match found {
                Some(place) => {
                    &&& place < index
                    &&& stands_as(views[place as int], parent@, name@)
                    &&& forall|other: int|
                        0 <= other < index && other != place ==> !#[trigger] stands_as(
                            views[other],
                            parent@,
                            name@,
                        )
                },
                None => forall|other: int|
                    0 <= other < index ==> !#[trigger] stands_as(views[other], parent@, name@),
            },
        decreases files@.len() - index,
    {
        assert(views[index as int] == files@[index as int]@);
        if files[index].is_at(parent, name) {
            if let Some(place) = found {
                proof {
                    if exactly_one(views, parent@, name@) {
                        let sole = choose|sole: int| only_one(views, parent@, name@, sole);
                        assert(only_one(views, parent@, name@, sole));
                        assert(stands_as(views[place as int], parent@, name@));
                        assert(stands_as(views[index as int], parent@, name@));
                    }
                }
                return None;
            }
            found = Some(index);
        }
        index = index + 1;
    }
    found
}

/// The parts of the model that starts at `index`, where it starts one.
fn find_set(files: &Vec<DiscoveredFile>, index: usize) -> (result: Option<Vec<usize>>)
    requires
        index < files@.len(),
        !declares_too_many(file_views(files@)[index as int]),
    ensures
        match result {
            Some(parts) => {
                &&& starts_set(file_views(files@), index as int)
                &&& parts@.map_values(|part: usize| part as int) == model_files(file_views(files@), index as int)
            },
            None => !starts_set(file_views(files@), index as int),
        },
{
    let ghost views = file_views(files@);
    let file = &files[index];
    assert(views[index as int] == file@);
    proof {
        use_type_invariant(file);
    }
    match &file.shard {
        Some(shard) => {
            let number: u64 = match parse_unsigned(&shard.number, 99_999) {
                Some(value) => value,
                None => 0,
            };
            let total: u64 = match parse_unsigned(&shard.total, 99_999) {
                Some(value) => value,
                None => 0,
            };
            if number != 1 || total <= 1 {
                return None;
            }
            let mut parts: Vec<usize> = Vec::new();
            let mut part: u64 = 1;
            while part <= total
                invariant
                    1 <= part <= total + 1,
                    total <= 1_024,
                    views == file_views(files@),
                    views[index as int] == file@,
                    index < files@.len(),
                    file.shard == Some(*shard),
                    shard.lowered_prefix@ == lowered(shard.prefix@),
                    total == shard_value(shard.total@),
                    parts@.len() == part - 1,
                    forall|earlier: nat|
                        1 <= earlier < part ==> exactly_one(
                            views,
                            file@.parent,
                            #[trigger] part_name(lowered(shard.prefix@), earlier, total as nat),
                        ),
                    forall|place: int|
                        0 <= place < parts@.len() ==> #[trigger] parts@[place] as int == part_file(
                            views,
                            index as int,
                            (place + 1) as nat,
                        ),
                decreases total + 1 - part,
            {
                let name = compose_part_name(&shard.lowered_prefix, part, total);
                match find_only_one(files, &file.parent, &name) {
                    Some(found) => {
                        proof {
                            lemma_only_one(views, file@.parent, name@, found as int);
                        }
                        parts.push(found);
                    },
                    None => {
                        assert(!exactly_one(
                            views,
                            views[index as int].parent,
                            part_name(lowered(views[index as int].shard->0.prefix), part as nat, total as nat),
                        ));
                        return None;
                    },
                }
                part = part + 1;
            }
            assert(parts@.map_values(|part: usize| part as int) =~= model_files(views, index as int));
            Some(parts)
        },
        None => None,
    }
}

/// What is to be done next in a scan.
#[derive(Debug, PartialEq, Eq)]
pub enum ScanStep {
    /// The file needs no work.
    Skip,
    /// These files, by their places in the list, are one model to be read.
    Open(Vec<usize>),
    /// Every file was considered.
    Done,
}

/// A list of diagnostics with more behind it, cut at the limit.
pub open spec fn kept(diagnostics: Seq<DiagnosticView>, more: Seq<DiagnosticView>) -> Seq<DiagnosticView> {
    let all = diagnostics + more;
    if all.len() <= MAX_CATALOG_DIAGNOSTICS {
        all
    } else {
        all.take(MAX_CATALOG_DIAGNOSTICS as int)
    }
}

/// What a scan has found so far.
pub struct ScanView {
    pub root: Seq<char>,
    pub style: PathStyle,
    pub files: Seq<FileView>,
    pub consumed: Seq<bool>,
    pub position: int,
    pub stopped: bool,
    /// The model before the position was opened and is being read.
    pub open: bool,
    pub models: Seq<ScannedModel>,
    pub diagnostics: Seq<DiagnosticView>,
    pub complete: bool,
}

impl ScanView {
    /// A failed part of a scan: it is reported, and the scan is not complete.
    pub open spec fn failed(self, diagnostic: DiagnosticView) -> ScanView {
        ScanView { diagnostics: kept(self.diagnostics, seq![diagnostic]), complete: false, ..self }
    }

    /// The file at the position is done with.
    pub open spec fn passed(self) -> ScanView {
        ScanView {
            consumed: self.consumed.update(self.position, true),
            position: self.position + 1,
            open: false,
            ..self
        }
    }

    /// The files of the model at the position are done with.
    pub open spec fn opened(self) -> ScanView {
        ScanView {
            consumed: Seq::new(
                self.consumed.len(),
                |index: int| self.consumed[index] || model_files(self.files, self.position).contains(index),
            ),
            position: self.position + 1,
            open: true,
            ..self
        }
    }

    /// The diagnostic about too many models.
    pub open spec fn model_limit(self) -> DiagnosticView {
        DiagnosticView {
            kind: CatalogDiagnosticKind::Scan,
            path: self.root,
            message: "catalog model limit of "@ + decimal(MAX_DISCOVERED_MODELS as nat) + " was reached"@,
        }
    }

    /// The diagnostic about too many declared parts.
    pub open spec fn part_limit(self) -> DiagnosticView {
        let file = self.files[self.position];
        DiagnosticView {
            kind: CatalogDiagnosticKind::Scan,
            path: file.path,
            message: "declared shard total "@ + decimal(shard_value(file.shard->0.total)) + " exceeds limit "@
                + decimal(MAX_LOGICAL_MODEL_SHARDS as nat),
        }
    }
}

/// The paths of files.
pub open spec fn file_paths(files: Seq<FileView>) -> Seq<Seq<char>> {
    files.map_values(|file: FileView| file.path)
}

/// The paths of models.
pub open spec fn model_paths(models: Seq<ScannedModel>) -> Seq<Seq<char>> {
    models.map_values(|model: ScannedModel| model.path@)
}

/// Nothing but the given files, and every path of theirs.
pub open spec fn same_files(files: Seq<FileView>, given: Seq<FileView>, style: PathStyle) -> bool {
    &&& forall|index: int| 0 <= index < files.len() ==> given.contains(#[trigger] files[index])
    &&& forall|index: int|
        0 <= index < given.len() ==> path_known(file_paths(files), (#[trigger] given[index]).path, style)
}

impl ScanView {
    /// How many files are done with.
    pub open spec fn done(self) -> int {
        if self.open {
            self.position - 1
        } else {
            self.position
        }
    }

    /// Files and models stand in the order of their paths, none twice; every model
    /// is one of the files, and stands before those that are still to be read.
    pub open spec fn in_order(self) -> bool {
        &&& in_path_order(file_paths(self.files), self.style)
        &&& in_path_order(model_paths(self.models), self.style)
        &&& forall|index: int|
            0 <= index < self.models.len() ==> file_paths(self.files).contains((#[trigger] self.models[index]).path@)
        &&& forall|model: int, file: int|
            0 <= model < self.models.len() && self.done() <= file < self.files.len() ==> path_before(
                (#[trigger] self.models[model]).path@,
                (#[trigger] self.files[file]).path,
                self.style,
            )
    }
}

proof fn lemma_stays_in_order(scan: ScanView)
    requires
        scan.in_order(),
    ensures
        (ScanView { open: false, ..scan }).in_order(),
{
}

proof fn lemma_listed_in_order(scan: ScanView, model: ScannedModel)
    requires
        scan.in_order(),
        scan.open,
        0 < scan.position <= scan.files.len(),
        model.path@ == scan.files[scan.position - 1].path,
    ensures
        (ScanView { open: false, models: scan.models.push(model), ..scan }).in_order(),
{
    let listed = scan.models.push(model);
    let paths = file_paths(scan.files);
    assert(paths[scan.position - 1] == model.path@);
    assert forall|one: int, two: int|
        #![trigger model_paths(listed)[one], model_paths(listed)[two]]
        0 <= one < two < listed.len() implies path_before(model_paths(listed)[one], model_paths(listed)[two], scan.style) by {
        assert(listed[one] == scan.models[one]);
        if two < scan.models.len() {
            assert(model_paths(scan.models)[one] == scan.models[one].path@);
            assert(model_paths(scan.models)[two] == listed[two].path@);
        } else {
            assert(path_before(scan.models[one].path@, scan.files[scan.position - 1].path, scan.style));
        }
    }
    assert forall|index: int, file: int|
        0 <= index < listed.len() && scan.position <= file < scan.files.len() implies path_before(
        (#[trigger] listed[index]).path@,
        (#[trigger] scan.files[file]).path,
        scan.style,
    ) by {
        if index < scan.models.len() {
            assert(listed[index] == scan.models[index]);
        } else {
            assert(path_before(paths[scan.position - 1], paths[file], scan.style));
        }
    }
}

/// Where a path belongs in an ordered list, and whether it stands there already.
fn place_among(files: &Vec<DiscoveredFile>, path: &[char], style: PathStyle) -> (result: (usize, bool))
    requires
        in_path_order(file_paths(file_views(files@)), style),
    ensures
        result.0 <= files@.len(),
        forall|earlier: int|
            0 <= earlier < result.0 ==> path_before(#[trigger] file_paths(file_views(files@))[earlier], path@, style),
        result.1 ==> result.0 < files@.len() && same_path(
            file_paths(file_views(files@))[result.0 as int],
            path@,
            style,
        ),
        !result.1 ==> forall|later: int|
            result.0 <= later < files@.len() ==> path_before(
                path@,
                #[trigger] file_paths(file_views(files@))[later],
                style,
            ),
{
    let ghost paths = file_paths(file_views(files@));
    let mut low: usize = 0;
    let mut high: usize = files.len();
    while low < high
        invariant
            paths == file_paths(file_views(files@)),
            in_path_order(paths, style),
            low <= high <= files@.len(),
            forall|earlier: int| 0 <= earlier < low ==> path_before(#[trigger] paths[earlier], path@, style),
            forall|later: int| high <= later < files@.len() ==> path_before(path@, #[trigger] paths[later], style),
        decreases high - low,
    {
        let middle: usize = low + (high - low) / 2;
        let own = chars_of(files[middle].path.as_str());
        assert(paths[middle as int] == own@);
        match order_of(&own, path, style) {
            PathOrder::Before => {
                proof {
                    lemma_earlier_paths(paths, middle as int, path@, style);
                }
                low = middle + 1;
            },
            PathOrder::Same => {
                assert forall|earlier: int| 0 <= earlier < middle implies path_before(
                    #[trigger] paths[earlier],
                    path@,
                    style,
                ) by {
                    assert(path_before(paths[earlier], paths[middle as int], style));
                }
                return (middle, true);
            },
            PathOrder::After => {
                proof {
                    lemma_later_paths(paths, middle as int, path@, style);
                }
                high = middle;
            },
        }
    }
    (low, false)
}

/// The files in the order of their paths, each path once.
fn in_order(files: Vec<DiscoveredFile>, style: PathStyle) -> (result: Vec<DiscoveredFile>)
    ensures
        in_path_order(file_paths(file_views(result@)), style),
        same_files(file_views(result@), file_views(files@), style),
{
    let ghost given = file_views(files@);
    let ghost all = files@;
    let mut ordered: Vec<DiscoveredFile> = Vec::new();
    for file in walk: files
        invariant
            walk.seq() == all,
            given == file_views(all),
            in_path_order(file_paths(file_views(ordered@)), style),
            forall|index: int| 0 <= index < ordered@.len() ==> given.contains(#[trigger] file_views(ordered@)[index]),
            forall|index: int|
                0 <= index < walk.index() ==> path_known(
                    file_paths(file_views(ordered@)),
                    (#[trigger] given[index]).path,
                    style,
                ),
    {
        let ghost before = file_views(ordered@);
        let ghost paths = file_paths(before);
        let ghost view = file@;
        let ghost at = walk.index() as int;
        assert(given[at] == view);
        let path = chars_of(file.path.as_str());
        let (place, known) = place_among(&ordered, &path, style);
        if known {
            assert(path_known(paths, view.path, style));
        } else {
            ordered.insert(place, file);
            proof {
                lemma_inserted_in_order(paths, place as int, view.path, style);
                let after = before.insert(place as int, view);
                assert(file_views(ordered@) =~= after);
                assert(file_paths(after) =~= paths.insert(place as int, view.path));
                assert forall|index: int| 0 <= index < after.len() implies given.contains(#[trigger] after[index]) by {
                    if index < place {
                        assert(after[index] == before[index]);
                    } else if index > place {
                        assert(after[index] == before[index - 1]);
                    } else {
                        assert(given.contains(given[at]));
                    }
                }
                assert forall|index: int| 0 <= index < at + 1 implies path_known(
                    file_paths(after),
                    (#[trigger] given[index]).path,
                    style,
                ) by {
                    if index < at {
                        let known = choose|known: int|
                            0 <= known < paths.len() && same_path(#[trigger] paths[known], given[index].path, style);
                        let moved = if known < place {
                            known
                        } else {
                            known + 1
                        };
                        assert(file_paths(after)[moved] == paths[known]);
                    } else {
                        assert(file_paths(after)[place as int] == view.path);
                    }
                }
            }
        }
    }
    ordered
}

/// A scan of the files that were found in a directory.
pub struct CatalogScan {
    root: String,
    style: PathStyle,
    files: Vec<DiscoveredFile>,
    ambiguous: Vec<bool>,
    consumed: Vec<bool>,
    position: usize,
    stopped: bool,
    open: bool,
    result: ScanResult,
}

impl View for CatalogScan {
    type V = ScanView;

    closed spec fn view(&self) -> ScanView {
        ScanView {
            root: self.root@,
            style: self.style,
            files: file_views(self.files@),
            consumed: self.consumed@,
            position: self.position as int,
            stopped: self.stopped,
            open: self.open,
            models: self.result.models@,
            diagnostics: diagnostic_views(self.result.diagnostics@),
            complete: self.result.complete,
        }
    }
}

/// What a debug print makes of a list of texts.
pub uninterp spec fn debug_list(list: Seq<Seq<char>>) -> Seq<char>;

/// Formats a list of strings with the `Debug` implementation of `std`; the text
/// depends on the strings alone.
#[verifier::external_body]
fn debug_strings(list: &Vec<String>) -> (result: String)
    ensures
        result@ == debug_list(texts(list@)),
{
    format!("{list:?}")
}

/// The paths of the files that share the place of the file at `index`, in order.
pub open spec fn paths_sharing(files: Seq<FileView>, index: int, count: nat) -> Seq<Seq<char>>
    decreases count,
{
    if count == 0 {
        seq![]
    } else {
        let before = paths_sharing(files, index, (count - 1) as nat);
        let last = count - 1;
        if same_place(files[index], files[last]) {
            before.push(files[last].path)
        } else {
            before
        }
    }
}

/// No earlier file shares the place of the file at `index`.
pub open spec fn first_at_its_place(files: Seq<FileView>, index: int) -> bool {
    forall|earlier: int| 0 <= earlier < index ==> !#[trigger] same_place(files[index], files[earlier])
}

/// The diagnostic about the files that share the place of the file at `index`.
pub open spec fn ambiguity(files: Seq<FileView>, index: int, style: PathStyle) -> DiagnosticView {
    DiagnosticView {
        kind: CatalogDiagnosticKind::Scan,
        path: joined_path(files[index].parent, lowered(files[index].name->0), style),
        message: "ambiguous case-insensitive GGUF filenames: "@ + debug_list(
            paths_sharing(files, index, files.len()),
        ),
    }
}

/// The diagnostics about ambiguous names among the first `count` files, one for
/// each name.
pub open spec fn ambiguities(files: Seq<FileView>, count: nat, style: PathStyle) -> Seq<DiagnosticView>
    decreases count,
{
    if count == 0 {
        seq![]
    } else {
        let before = ambiguities(files, (count - 1) as nat, style);
        let last = count - 1;
        if ambiguous(files, last) && first_at_its_place(files, last) {
            before.push(ambiguity(files, last, style))
        } else {
            before
        }
    }
}

fn describe_ambiguity(files: &Vec<DiscoveredFile>, index: usize, style: PathStyle) -> (result: CatalogDiagnostic)
    requires
        index < files@.len(),
        file_views(files@)[index as int].name is Some,
    ensures
        result@ == ambiguity(file_views(files@), index as int, style),
{
    let ghost views = file_views(files@);
    let mut paths: Vec<String> = Vec::new();
    assert(texts(paths@) =~= paths_sharing(views, index as int, 0));
    for other in 0..files.len()
        invariant
            views == file_views(files@),
            index < files@.len(),
            texts(paths@) == paths_sharing(views, index as int, other as nat),
    {
        assert(views[other as int] == files@[other as int]@);
        let ghost before = texts(paths@);
        if files[index].shares_place(&files[other]) {
            paths.push(files[other].path.clone());
            assert(texts(paths@) =~= before.push(views[other as int].path));
        }
    }
    let file = &files[index];
    proof {
        use_type_invariant(file);
    }
    let path = join_path(&file.parent, &file.lowered_name, style);
    let message = joined("ambiguous case-insensitive GGUF filenames: ", debug_strings(&paths).as_str());
    scan_diagnostic(path.as_str(), message.as_str())
}

fn is_first_at_its_place(files: &Vec<DiscoveredFile>, index: usize) -> (result: bool)
    requires
        index < files@.len(),
    ensures
        result == first_at_its_place(file_views(files@), index as int),
{
    let ghost views = file_views(files@);
    for earlier in 0..index
        invariant
            index < files@.len(),
            views == file_views(files@),
            forall|before: int| 0 <= before < earlier ==> !#[trigger] same_place(views[index as int], views[before]),
    {
        assert(views[earlier as int] == files@[earlier as int]@);
        if files[index].shares_place(&files[earlier]) {
            assert(same_place(views[index as int], views[earlier as int]));
            return false;
        }
    }
    true
}

/// One more diagnostic that may be cut off.
proof fn lemma_kept_push(diagnostics: Seq<DiagnosticView>, more: Seq<DiagnosticView>, last: DiagnosticView)
    requires
        diagnostics.len() <= MAX_CATALOG_DIAGNOSTICS,
    ensures
        kept(kept(diagnostics, more), seq![last]) == kept(diagnostics, more.push(last)),
{
    assert(kept(kept(diagnostics, more), seq![last]) =~= kept(diagnostics, more.push(last)));
}

fn keep_failure(result: &mut ScanResult, diagnostic: CatalogDiagnostic)
    requires
        old(result).diagnostics@.len() <= MAX_CATALOG_DIAGNOSTICS,
    ensures
        final(result).models == old(result).models,
        !final(result).complete,
        diagnostic_views(final(result).diagnostics@) == kept(
            diagnostic_views(old(result).diagnostics@),
            seq![diagnostic@],
        ),
        final(result).diagnostics@.len() <= MAX_CATALOG_DIAGNOSTICS,
{
    result.complete = false;
    let ghost told = diagnostic@;
    push_scan_diagnostic(result, diagnostic);
    assert(diagnostic_views(result.diagnostics@) =~= kept(
        diagnostic_views(old(result).diagnostics@),
        seq![told],
    ));
}

impl CatalogScan {
    /// What every scan keeps: it never reports more than its limits.
    pub closed spec fn wf(self) -> bool {
        &&& self.ambiguous@.len() == self.files@.len()
        &&& self.consumed@.len() == self.files@.len()
        &&& self.position <= self.files@.len()
        &&& forall|index: int|
            0 <= index < self.files@.len() ==> #[trigger] self.ambiguous@[index] == ambiguous(
                file_views(self.files@),
                index,
            )
        &&& self.result.diagnostics@.len() <= MAX_CATALOG_DIAGNOSTICS
        &&& self.result.models@.len() <= MAX_DISCOVERED_MODELS
        &&& self.open ==> 0 < self.position && self.result.models@.len() < MAX_DISCOVERED_MODELS
        &&& self@.in_order()
    }

    /// Starts with the files of a discovery, which it puts in the order of their
    /// paths, each path once, and with what was found so far. Names that are
    /// ambiguous are reported.
    pub fn new(root: String, files: Vec<DiscoveredFile>, found: ScanResult, style: PathStyle) -> (result: Self)
        requires
            found.diagnostics@.len() <= MAX_CATALOG_DIAGNOSTICS,
            found.models@.len() == 0,
        ensures
            result.wf(),
            result@.root == root@,
            result@.style == style,
            in_path_order(file_paths(result@.files), style),
            same_files(result@.files, file_views(files@), style),
            result@.consumed == Seq::new(result@.files.len(), |index: int| false),
            result@.position == 0,
            !result@.stopped,
            !result@.open,
            result@.models.len() == 0,
            result@.diagnostics == kept(
                diagnostic_views(found.diagnostics@),
                ambiguities(result@.files, result@.files.len(), style),
            ),
            result@.complete == (found.complete && ambiguities(result@.files, result@.files.len(), style).len() == 0),
    {
        let files = in_order(files, style);
        let ghost views = file_views(files@);
        let ghost before = diagnostic_views(found.diagnostics@);
        let ambiguous_names = find_ambiguous(&files);
        let mut result = found;
        let mut consumed: Vec<bool> = Vec::new();
        assert(kept(before, seq![]) =~= before);
        for index in 0..files.len()
            invariant
                views == file_views(files@),
                ambiguous_names@.len() == files@.len(),
                forall|place: int|
                    0 <= place < files@.len() ==> #[trigger] ambiguous_names@[place] == ambiguous(views, place),
                before.len() <= MAX_CATALOG_DIAGNOSTICS,
                result.models == found.models,
                result.diagnostics@.len() <= MAX_CATALOG_DIAGNOSTICS,
                diagnostic_views(result.diagnostics@) == kept(before, ambiguities(views, index as nat, style)),
                result.complete == (found.complete && ambiguities(views, index as nat, style).len() == 0),
                consumed@ == Seq::new(index as nat, |place: int| false),
        {
            if ambiguous_names[index] && is_first_at_its_place(&files, index) {
                proof {
                    lemma_kept_push(before, ambiguities(views, index as nat, style), ambiguity(views, index as int, style));
                }
                let diagnostic = describe_ambiguity(&files, index, style);
                keep_failure(&mut result, diagnostic);
            }
            consumed.push(false);
            assert(consumed@ =~= Seq::new((index + 1) as nat, |place: int| false));
        }
        assert(consumed@ =~= Seq::new(files@.len(), |place: int| false));
        CatalogScan {
            root,
            style,
            files,
            ambiguous: ambiguous_names,
            consumed,
            position: 0,
            stopped: false,
            open: false,
            result,
        }
    }

    /// A file of the scan.
    pub fn file(&self, index: usize) -> (result: &DiscoveredFile)
        requires
            self.wf(),
            index < self@.files.len(),
        ensures
            result@ == self@.files[index as int],
    {
        &self.files[index]
    }

    fn is_left_out(&self, index: usize) -> (result: bool)
        requires
            self.wf(),
            index < self.files@.len(),
        ensures
            result == left_out(self@.files, index as int),
    {
        let ghost views = file_views(self.files@);
        if self.ambiguous[index] {
            return true;
        }
        for other in 0..self.files.len()
            invariant
                self.wf(),
                index < self.files@.len(),
                views == file_views(self.files@),
                forall|earlier: int|
                    0 <= earlier < other ==> !(#[trigger] same_group(views[index as int], views[earlier]) && ambiguous(
                        views,
                        earlier,
                    )),
        {
            assert(views[other as int] == self.files@[other as int]@);
            if self.ambiguous[other] && self.files[index].shares_group(&self.files[other]) {
                assert(same_group(views[index as int], views[other as int]));
                return true;
            }
        }
        false
    }

    fn declared_total(&self, index: usize) -> (result: u64)
        requires
            index < self.files@.len(),
        ensures
            result == (match self@.files[index as int].shard {
                Some(shard) => shard_value(shard.total),
                None => 0,
            }),
    {
        let file = &self.files[index];
        assert(self@.files[index as int] == file@);
        match &file.shard {
            Some(shard) => match parse_unsigned(&shard.total, 99_999) {
                Some(value) => value,
                None => 0,
            },
            None => 0,
        }
    }

    /// Considers the next file. A file that belongs to a model that was opened, or
    /// whose name is ambiguous, is passed over; the model limit ends the scan; a
    /// name that declares too many parts is refused.
    pub fn step(&mut self) -> (result: ScanStep)
        requires
            old(self).wf(),
        ensures
            final(self).wf(),
            ({
                let before = old(self)@;
                let at = before.position;
                if before.stopped || at == before.files.len() {
                    result is Done && final(self)@ == before
                } else if before.consumed[at] || left_out(before.files, at) {
                    result is Skip && final(self)@ == before.passed()
                } else if before.models.len() == MAX_DISCOVERED_MODELS {
                    result is Done && final(self)@ == (ScanView {
                        stopped: true,
                        ..before.failed(before.model_limit())
                    })
                } else if declares_too_many(before.files[at]) {
                    result is Skip && final(self)@ == before.passed().failed(before.part_limit())
                } else {
                    &&& result matches ScanStep::Open(files) && files@.map_values(|file: usize| file as int)
                        == model_files(before.files, at)
                    &&& final(self)@ == before.opened()
                }
            }),
    {
        let ghost before = self@;
        if self.stopped || self.position == self.files.len() {
            return ScanStep::Done;
        }
        let at: usize = self.position;
        if self.consumed[at] || self.is_left_out(at) {
            self.consumed.set(at, true);
            self.position = at + 1;
            self.open = false;
            assert(self@.consumed =~= before.passed().consumed);
            return ScanStep::Skip;
        }
        if self.result.models.len() == MAX_DISCOVERED_MODELS {
            let mut message = "catalog model limit of ".to_owned();
            push_decimal(&mut message, MAX_DISCOVERED_MODELS as u64);
            push_text(&mut message, " was reached");
            let diagnostic = scan_diagnostic(self.root.as_str(), message.as_str());
            keep_failure(&mut self.result, diagnostic);
            self.stopped = true;
            return ScanStep::Done;
        }
        let total: u64 = self.declared_total(at);
        if total > MAX_LOGICAL_MODEL_SHARDS as u64 {
            let mut message = "declared shard total ".to_owned();
            push_decimal(&mut message, total);
            push_text(&mut message, " exceeds limit ");
            push_decimal(&mut message, MAX_LOGICAL_MODEL_SHARDS as u64);
            let diagnostic = scan_diagnostic(self.files[at].path.as_str(), message.as_str());
            assert(self.files@[at as int]@ == before.files[at as int]);
            self.consumed.set(at, true);
            self.position = at + 1;
            self.open = false;
            keep_failure(&mut self.result, diagnostic);
            return ScanStep::Skip;
        }
        let logical: Vec<usize> = match find_set(&self.files, at) {
            Some(parts) => parts,
            None => {
                let alone: Vec<usize> = vec![at];
                assert(alone@.map_values(|file: usize| file as int) =~= model_files(before.files, at as int));
                alone
            },
        };
        let ghost expected = model_files(before.files, at as int);
        assert forall|place: int| 0 <= place < logical@.len() implies #[trigger] logical@[place] < self.files@.len() by {
            law_model_files_are_the_declared_parts(before.files, at as int, place);
            assert(logical@.map_values(|file: usize| file as int)[place] == logical@[place] as int);
        }
        let mut place: usize = 0;
        while place < logical.len()
            invariant
                place <= logical@.len(),
                self.consumed@.len() == self.files@.len(),
                self.files == old(self).files,
                self.ambiguous == old(self).ambiguous,
                self.result == old(self).result,
                self.root == old(self).root,
                self.style == old(self).style,
                self.stopped == old(self).stopped,
                self.open == old(self).open,
                self.position == old(self).position,
                forall|index: int| 0 <= index < logical@.len() ==> #[trigger] logical@[index] < self.files@.len(),
                forall|index: int|
                    0 <= index < self.consumed@.len() ==> #[trigger] self.consumed@[index] == (
                    old(self).consumed@[index] || exists|earlier: int|
                        0 <= earlier < place && #[trigger] logical@[earlier] == index),
            decreases logical@.len() - place,
        {
            let used: usize = logical[place];
            self.consumed.set(used, true);
            assert(logical@[place as int] == used);
            place = place + 1;
        }
        self.position = at + 1;
        self.open = true;
        proof {
            let opened = before.opened().consumed;
            let indices = logical@.map_values(|file: usize| file as int);
            assert(indices == expected);
            assert forall|index: int| 0 <= index < self.consumed@.len() implies self.consumed@[index] == #[trigger] opened[index] by {
                if expected.contains(index) {
                    let where_ = choose|where_: int| 0 <= where_ < expected.len() && expected[where_] == index;
                    assert(indices[where_] == logical@[where_] as int);
                }
                if exists|earlier: int| 0 <= earlier < logical@.len() && #[trigger] logical@[earlier] == index {
                    let where_ = choose|where_: int|
                        0 <= where_ < logical@.len() && #[trigger] logical@[where_] == index;
                    assert(indices[where_] == index);
                }
            }
            assert(self@.consumed =~= opened);
        }
        ScanStep::Open(logical)
    }

    /// A model that could not be opened.
    pub fn fail(&mut self, diagnostic: CatalogDiagnostic)
        requires
            old(self).wf(),
        ensures
            final(self).wf(),
            final(self)@ == (ScanView { open: false, ..old(self)@.failed(diagnostic@) }),
    {
        keep_failure(&mut self.result, diagnostic);
        self.open = false;
    }

    /// The opened model was read. Its own diagnostics are kept first. It is listed only
    /// where its files did not change meanwhile and its file was read.
    pub fn conclude(
        &mut self,
        diagnostics: Vec<CatalogDiagnostic>,
        changed: Option<CatalogDiagnostic>,
        parsed: Result<ScannedModel, CatalogDiagnostic>,
    )
        requires
            old(self).wf(),
            old(self)@.open,
            parsed matches Ok(model) ==> model.path@ == old(self)@.files[old(self)@.position - 1].path,
        ensures
            final(self).wf(),
            ({
                let more = diagnostic_views(diagnostics@);
                let told = ScanView {
                    diagnostics: kept(old(self)@.diagnostics, more),
                    complete: old(self)@.complete && old(self)@.diagnostics.len() + more.len()
                        <= MAX_CATALOG_DIAGNOSTICS,
                    open: false,
                    ..old(self)@
                };
                final(self)@ == (match (changed, parsed) {
                    (Some(diagnostic), _) => told.failed(diagnostic@),
                    (None, Ok(model)) => ScanView { models: told.models.push(model), ..told },
                    (None, Err(diagnostic)) => told.failed(diagnostic@),
                })
            }),
    {
        let ghost before = self@;
        let ghost all = diagnostics@;
        let ghost more = diagnostic_views(diagnostics@);
        assert(kept(before.diagnostics, more.take(0)) =~= before.diagnostics);
        for diagnostic in walk: diagnostics
            invariant
                walk.seq() == all,
                more == diagnostic_views(all),
                before == old(self)@,
                before.diagnostics.len() <= MAX_CATALOG_DIAGNOSTICS,
                self.wf(),
                self@ == (ScanView {
                    diagnostics: kept(before.diagnostics, more.take(walk.index() as int)),
                    complete: before.complete && before.diagnostics.len() + walk.index() <= MAX_CATALOG_DIAGNOSTICS,
                    ..before
                }),
        {
            let ghost done = walk.index() as int;
            let ghost earlier = self@.diagnostics;
            proof {
                lemma_kept_push(before.diagnostics, more.take(done), diagnostic@);
                assert(more.take(done + 1) =~= more.take(done).push(more[done]));
            }
            let ghost told = diagnostic@;
            push_scan_diagnostic(&mut self.result, diagnostic);
            assert(self@.diagnostics =~= kept(earlier, seq![told]));
        }
        assert(more.take(all.len() as int) =~= more);
        proof {
            if parsed is Ok {
                lemma_listed_in_order(before, parsed->Ok_0);
            }
            lemma_stays_in_order(before);
        }
        self.open = false;
        match (changed, parsed) {
            (Some(diagnostic), _) => keep_failure(&mut self.result, diagnostic),
            (None, Ok(model)) => self.result.models.push(model),
            (None, Err(diagnostic)) => keep_failure(&mut self.result, diagnostic),
        }
    }

    /// The result of the scan. Where the root changed meanwhile, no model is
    /// listed.
    pub fn finish(self, changed: Option<CatalogDiagnostic>) -> (result: ScanResult)
        requires
            self.wf(),
        ensures
            result.models@.len() <= MAX_DISCOVERED_MODELS,
            result.diagnostics@.len() <= MAX_CATALOG_DIAGNOSTICS,
            in_path_order(model_paths(result.models@), self@.style),
            forall|index: int|
                0 <= index < result.models@.len() ==> file_paths(self@.files).contains(
                    (#[trigger] result.models@[index]).path@,
                ),
            match changed {
                Some(diagnostic) => {
                    &&& result.models@.len() == 0
                    &&& !result.complete
                    &&& diagnostic_views(result.diagnostics@) == kept(self@.diagnostics, seq![diagnostic@])
                },
                None => {
                    &&& result.models@ == self@.models
                    &&& result.complete == self@.complete
                    &&& diagnostic_views(result.diagnostics@) == self@.diagnostics
                },
            },
    {
        let mut result = self.result;
        if let Some(diagnostic) = changed {
            keep_failure(&mut result, diagnostic);
            result.models.clear();
        }
        result
    }
}

/// What stands at the root of a scan.
#[derive(Clone, Copy, Debug, PartialEq, Eq, Structural)]
pub enum RootKind {
    Symlink,
    Directory,
    Other,
}

/// Why a root cannot be scanned: only a directory can, and never through a link.
pub open spec fn root_refusal(kind: RootKind) -> Option<Seq<char>> {
    match kind {
        RootKind::Symlink => Some("catalog root must not be a symbolic link"@),
        RootKind::Directory => None,
        RootKind::Other => Some("catalog root is not a directory"@),
    }
}

pub fn check_root(root: &str, kind: RootKind) -> (result: Option<CatalogDiagnostic>)
    ensures
        match result {
            Some(diagnostic) => root_refusal(kind) matches Some(message) && diagnostic@ == (DiagnosticView {
                kind: CatalogDiagnosticKind::Scan,
                path: root@,
                message,
            }),
            None => root_refusal(kind) is None,
        },
{
    match kind {
        RootKind::Symlink => Some(scan_diagnostic(root, "catalog root must not be a symbolic link")),
        RootKind::Directory => None,
        RootKind::Other => Some(scan_diagnostic(root, "catalog root is not a directory")),
    }
}

/// What a scan comes to whose root cannot be scanned: no model, and the reason.
pub fn refused_scan(reason: CatalogDiagnostic) -> (result: ScanResult)
    ensures
        result.models@.len() == 0,
        diagnostic_views(result.diagnostics@) == seq![reason@],
        !result.complete,
{
    let mut result = ScanResult::default();
    let ghost told = reason@;
    result.complete = false;
    result.diagnostics.push(reason);
    assert(diagnostic_views(result.diagnostics@) =~= seq![told]);
    result
}

/// What identifies a root directory: its resolved path, its device and its number
/// there.
#[derive(Debug, PartialEq, Eq)]
pub struct RootSnapshot {
    pub canonical: String,
    pub device: u64,
    pub inode: u64,
}

impl RootSnapshot {
    /// The root is still the same directory.
    pub open spec fn unchanged(self, link: bool, now: RootSnapshot) -> bool {
        &&& !link
        &&& now.canonical@ == self.canonical@
        &&& now.device == self.device
        &&& now.inode == self.inode
    }

    /// Compares the root with what it is now; a link in its place is a change.
    pub fn validate(&self, root: &str, link: bool, now: &RootSnapshot) -> (result: Result<(), CatalogDiagnostic>)
        ensures
            match result {
                Ok(_) => self.unchanged(link, *now),
                Err(diagnostic) => !self.unchanged(link, *now) && diagnostic@ == (DiagnosticView {
                    kind: CatalogDiagnosticKind::Scan,
                    path: root@,
                    message: "catalog root changed while it was being scanned"@,
                }),
            },
    {
        if !link && same_text(now.canonical.as_str(), self.canonical.as_str()) && now.device == self.device
            && now.inode == self.inode {
            Ok(())
        } else {
            Err(scan_diagnostic(root, "catalog root changed while it was being scanned"))
        }
    }
}

/// The steps of `root` are the first steps of `path`.
pub open spec fn within(path: Seq<Seq<char>>, root: Seq<Seq<char>>) -> bool {
    root.len() <= path.len() && path.take(root.len() as int) == root
}

/// Checks that a resolved path, given by its steps, lies under the resolved root.
pub fn canonical_within(path: &str, steps: &Vec<String>, root_steps: &Vec<String>) -> (result: Result<
    (),
    CatalogDiagnostic,
>)
    ensures
        match result {
            Ok(_) => within(texts(steps@), texts(root_steps@)),
            Err(diagnostic) => !within(texts(steps@), texts(root_steps@)) && diagnostic@ == (DiagnosticView {
                kind: CatalogDiagnosticKind::Scan,
                path: path@,
                message: "catalog entry resolves outside the configured root"@,
            }),
        },
{
    let ghost inner = texts(steps@);
    let ghost outer = texts(root_steps@);
    let mut inside = root_steps.len() <= steps.len();
    let mut index: usize = 0;
    while inside && index < root_steps.len()
        invariant
            inner == texts(steps@),
            outer == texts(root_steps@),
            index <= root_steps@.len(),
            inside ==> {
                &&& root_steps@.len() <= steps@.len()
                &&& inner.take(index as int) == outer.take(index as int)
            },
            !inside ==> !within(inner, outer),
        decreases root_steps@.len() - index + (if inside { 1int } else { 0 }),
    {
        assert(inner[index as int] == steps@[index as int]@);
        assert(outer[index as int] == root_steps@[index as int]@);
        if same_text(steps[index].as_str(), root_steps[index].as_str()) {
            assert(inner.take(index + 1) =~= inner.take(index as int).push(inner[index as int]));
            assert(outer.take(index + 1) =~= outer.take(index as int).push(outer[index as int]));
            index = index + 1;
        } else {
            proof {
                if within(inner, outer) {
                    assert(inner.take(outer.len() as int)[index as int] == outer[index as int]);
                }
            }
            inside = false;
        }
    }
    if inside {
        assert(outer.take(outer.len() as int) =~= outer);
        Ok(())
    } else {
        Err(scan_diagnostic(path, "catalog entry resolves outside the configured root"))
    }
}

/// What is known of an open file: its size, when it was modified and what
/// identifies it.
#[derive(Clone, Copy, Debug, PartialEq, Eq, Structural)]
pub struct FileSnapshot {
    pub size: u64,
    pub modified_seconds: i64,
    pub modified_nanos: u32,
    pub identity: CatalogIdentity,
}

impl FileSnapshot {
    /// The open file is as it was, and its path still leads to it where that can be
    /// told.
    pub open spec fn unchanged(self, now: FileSnapshot, at_path: CatalogIdentity) -> bool {
        &&& now == self
        &&& self.identity != CatalogIdentity::Unavailable ==> at_path == self.identity
    }

    /// Compares a file with what it is now.
    pub fn validate_unchanged(
        &self,
        path: &str,
        now: &FileSnapshot,
        at_path: CatalogIdentity,
    ) -> (result: Option<CatalogDiagnostic>)
        ensures
            match result {
                Some(diagnostic) => !self.unchanged(*now, at_path) && diagnostic@ == (DiagnosticView {
                    kind: CatalogDiagnosticKind::Scan,
                    path: path@,
                    message: "model shard changed while it was being scanned"@,
                }),
                None => self.unchanged(*now, at_path),
            },
    {
        if now.size != self.size || now.modified_seconds != self.modified_seconds || now.modified_nanos
            != self.modified_nanos || now.identity != self.identity || (self.identity
            != CatalogIdentity::Unavailable && at_path != self.identity) {
            Some(scan_diagnostic(path, "model shard changed while it was being scanned"))
        } else {
            None
        }
    }
}

/// The size of a model with one more part.
pub fn add_part_size(path: &str, total: u64, size: u64) -> (result: Result<u64, CatalogDiagnostic>)
    ensures
        match result {
            Ok(sum) => sum == total + size,
            Err(diagnostic) => total + size > u64::MAX && diagnostic@ == (DiagnosticView {
                kind: CatalogDiagnosticKind::Scan,
                path: path@,
                message: "logical model size overflowed u64"@,
            }),
        },
{
    match total.checked_add(size) {
        Some(sum) => Ok(sum),
        None => Err(scan_diagnostic(path, "logical model size overflowed u64")),
    }
}

/// The walk through a directory: how many files were taken, and what was found.
pub struct Discovery {
    root: String,
    taken: usize,
    result: ScanResult,
}

impl Discovery {
    pub closed spec fn root_text(self) -> Seq<char> {
        self.root@
    }

    /// How many model files were taken.
    pub closed spec fn count(self) -> nat {
        self.taken as nat
    }

    pub closed spec fn diagnostics(self) -> Seq<DiagnosticView> {
        diagnostic_views(self.result.diagnostics@)
    }

    pub closed spec fn complete(self) -> bool {
        self.result.complete
    }

    /// No walk takes more files or keeps more diagnostics than its limits.
    pub closed spec fn wf(self) -> bool {
        &&& self.taken <= MAX_DISCOVERED_GGUF_FILES
        &&& self.result.models@.len() == 0
        &&& self.result.diagnostics@.len() <= MAX_CATALOG_DIAGNOSTICS
    }

    /// A failed part of the walk.
    pub open spec fn failed_to(self, next: Discovery, diagnostic: DiagnosticView) -> bool {
        &&& next.root_text() == self.root_text()
        &&& next.count() == self.count()
        &&& !next.complete()
        &&& next.diagnostics() == kept(self.diagnostics(), seq![diagnostic])
    }

    pub fn new(root: String) -> (result: Self)
        ensures
            result.wf(),
            result.root_text() == root@,
            result.count() == 0,
            result.diagnostics().len() == 0,
            result.complete(),
    {
        let mut result = ScanResult::default();
        result.complete = true;
        Discovery { root, taken: 0, result }
    }

    /// Whether one more model file may be taken. Where the limit was reached this is
    /// reported, and the walk ends.
    pub fn has_room(&mut self) -> (result: bool)
        requires
            old(self).wf(),
        ensures
            final(self).wf(),
            result == (old(self).count() < MAX_DISCOVERED_GGUF_FILES),
            result ==> *final(self) == *old(self),
            !result ==> old(self).failed_to(
                *final(self),
                DiagnosticView {
                    kind: CatalogDiagnosticKind::Scan,
                    path: old(self).root_text(),
                    message: "catalog file limit of "@ + decimal(MAX_DISCOVERED_GGUF_FILES as nat)
                        + " was reached"@,
                },
            ),
    {
        if self.taken < MAX_DISCOVERED_GGUF_FILES {
            return true;
        }
        let mut message = "catalog file limit of ".to_owned();
        push_decimal(&mut message, MAX_DISCOVERED_GGUF_FILES as u64);
        push_text(&mut message, " was reached");
        let diagnostic = scan_diagnostic(self.root.as_str(), message.as_str());
        keep_failure(&mut self.result, diagnostic);
        false
    }

    /// Takes a model file.
    pub fn take(&mut self)
        requires
            old(self).wf(),
            old(self).count() < MAX_DISCOVERED_GGUF_FILES,
        ensures
            final(self).wf(),
            final(self).root_text() == old(self).root_text(),
            final(self).count() == old(self).count() + 1,
            final(self).diagnostics() == old(self).diagnostics(),
            final(self).complete() == old(self).complete(),
    {
        self.taken = self.taken + 1;
    }

    /// Reports an entry that could not be read or lies outside the root.
    pub fn fail(&mut self, diagnostic: CatalogDiagnostic)
        requires
            old(self).wf(),
        ensures
            final(self).wf(),
            old(self).failed_to(*final(self), diagnostic@),
    {
        keep_failure(&mut self.result, diagnostic);
    }

    /// What the walk found, to go on with.
    pub fn finish(self) -> (result: ScanResult)
        requires
            self.wf(),
        ensures
            result.models@.len() == 0,
            result.diagnostics@.len() <= MAX_CATALOG_DIAGNOSTICS,
            diagnostic_views(result.diagnostics@) == self.diagnostics(),
            result.complete == self.complete(),
    {
        self.result
    }
}

} // verus!
