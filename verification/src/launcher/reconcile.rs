//! How a scan changes the list of known models.

use vstd::prelude::*;

use super::capability::LaunchSettings;
use super::catalog::{CatalogDiagnostic, CatalogIdentity, CatalogMetadata, ScanResult, ScannedModel};
use super::config::LauncherConfig;
use super::model::{valid_key, valid_segment, LaunchProfile, ModelId, ModelKey, ModelRecord, ModelState};
use crate::text::{
    all_digits, ascii_alphanumeric, ascii_lower, chars_of, decimal, digits_value, is_alphanumeric, is_digit,
    lowered, push_decimal, same, same_text, split, string_of, texts, to_ascii_lower, to_lowered,
};

verus! {

/// What a record of a model holds.
pub struct RecordView {
    pub id: ModelId,
    pub key: Seq<char>,
    pub display_name: Seq<char>,
    pub path: Seq<char>,
    pub file_identity: CatalogIdentity,
    pub size_bytes: u64,
    pub metadata: CatalogMetadata,
    pub state: ModelState,
    pub settings: LaunchSettings,
}

impl View for ModelRecord {
    type V = RecordView;

    open spec fn view(&self) -> RecordView {
        RecordView {
            id: self.id,
            key: self.key@,
            display_name: self.display_name@,
            path: self.path@,
            file_identity: self.file_identity,
            size_bytes: self.size_bytes,
            metadata: self.metadata,
            state: self.state,
            settings: self.launch_profile.settings,
        }
    }
}

/// What a list of records holds.
pub open spec fn record_views(records: Seq<ModelRecord>) -> Seq<RecordView> {
    records.map_values(|record: ModelRecord| record@)
}

/// How a reconciliation goes: which records to remove for good, and whether paths
/// that differ in case only are the same.
#[derive(Debug)]
pub struct ReconcileOptions {
    pub remove_missing: Vec<ModelId>,
    pub ignore_case: bool,
}

impl Default for ReconcileOptions {
    fn default() -> (result: Self)
        ensures
            result.remove_missing@.len() == 0,
            !result.ignore_case,
    {
        ReconcileOptions { remove_missing: Vec::new(), ignore_case: false }
    }
}

/// The new configuration, and what a user should know.
#[derive(Debug)]
pub struct ReconcileResult {
    pub config: LauncherConfig,
    pub diagnostics: Vec<CatalogDiagnostic>,
}

/// A path in the form in which paths are compared.
pub open spec fn normalized(path: Seq<char>, ignore_case: bool) -> Seq<char> {
    let slashed = path.map_values(
        |character: char|
            if character == '\\' {
                '/'
            } else {
                character
            },
    );
    if ignore_case {
        lowered(slashed)
    } else {
        slashed
    }
}

pub fn normalized_catalog_path(path: &str, ignore_case: bool) -> (result: Vec<char>)
    ensures
        result@ == normalized(path@, ignore_case),
{
    let characters = chars_of(path);
    let mut slashed: Vec<char> = Vec::new();
    for index in 0..characters.len()
        invariant
            characters@ == path@,
            slashed@ == normalized(path@, false).take(index as int),
    {
        let character = characters[index];
        slashed.push(
            if character == '\\' {
                '/'
            } else {
                character
            },
        );
        assert(normalized(path@, false).take(index + 1) =~= normalized(path@, false).take(index as int).push(
            normalized(path@, false)[index as int],
        ));
    }
    assert(normalized(path@, false).take(path@.len() as int) =~= normalized(path@, false));
    if ignore_case {
        to_lowered(&slashed)
    } else {
        slashed
    }
}

/// A name with every run of other characters made one hyphen, none in front.
pub open spec fn hyphenated(name: Seq<char>) -> Seq<char>
    decreases name.len(),
{
    if name.len() == 0 {
        seq![]
    } else {
        let front = hyphenated(name.drop_last());
        if is_alphanumeric(name.last()) {
            front.push(ascii_lower(name.last()))
        } else if front.len() == 0 || front.last() == '-' {
            front
        } else {
            front.push('-')
        }
    }
}

/// The key that a name asks for: its letters and digits in lower case, with single
/// hyphens between.
pub open spec fn key_base(name: Seq<char>) -> Seq<char> {
    let front = hyphenated(name);
    let trimmed = if front.len() > 0 && front.last() == '-' {
        front.drop_last()
    } else {
        front
    };
    if trimmed.len() == 0 {
        "model"@
    } else {
        trimmed
    }
}

/// A key with a number behind it.
pub open spec fn numbered(base: Seq<char>, number: nat) -> Seq<char> {
    base + seq!['-'] + decimal(number)
}

/// The number is the first, from two on, whose key is not taken.
pub open spec fn first_free(base: Seq<char>, taken: Set<Seq<char>>, number: nat) -> bool {
    &&& number >= 2
    &&& !taken.contains(numbered(base, number))
    &&& forall|smaller: nat| 2 <= smaller < number ==> taken.contains(#[trigger] numbered(base, smaller))
}

/// The key of a new model: what its name asks for, or that with the first number
/// that makes it free.
pub open spec fn free_key(name: Seq<char>, taken: Set<Seq<char>>) -> Seq<char> {
    if taken.contains(key_base(name)) {
        numbered(key_base(name), choose|number: nat| first_free(key_base(name), taken, number))
    } else {
        key_base(name)
    }
}

/// A character of a generated key.
spec fn plain(character: char) -> bool {
    'a' <= character && character <= 'z' || is_digit(character) || character == '-'
}

spec fn all_plain(text: Seq<char>) -> bool {
    forall|index: int| 0 <= index < text.len() ==> plain(#[trigger] text[index])
}

proof fn lemma_hyphenated_is_plain(name: Seq<char>)
    ensures
        all_plain(hyphenated(name)),
    decreases name.len(),
{
    if name.len() > 0 {
        lemma_hyphenated_is_plain(name.drop_last());
    }
}

proof fn lemma_key_base_is_plain(name: Seq<char>)
    ensures
        all_plain(key_base(name)),
        key_base(name).len() > 0,
{
    lemma_hyphenated_is_plain(name);
    reveal_strlit("model");
    assert("model"@.len() == 5);
    assert(all_plain("model"@));
}

proof fn lemma_decimal_is_digits(value: nat)
    ensures
        all_digits(decimal(value)),
        decimal(value).len() > 0,
        digits_value(decimal(value)) == value,
    decreases value,
{
    reveal_with_fuel(digits_value, 2);
    if value >= 10 {
        lemma_decimal_is_digits(value / 10);
        assert(decimal(value).drop_last() =~= decimal(value / 10));
    } else {
        assert(decimal(value).drop_last() =~= Seq::<char>::empty());
    }
}

proof fn lemma_numbered_is_plain(base: Seq<char>, number: nat)
    requires
        all_plain(base),
    ensures
        all_plain(numbered(base, number)),
        numbered(base, number).len() > 0,
{
    lemma_decimal_is_digits(number);
    let digits = decimal(number);
    assert forall|index: int| 0 <= index < numbered(base, number).len() implies plain(
        #[trigger] numbered(base, number)[index],
    ) by {
        if index > base.len() {
            assert(is_digit(digits[index - base.len() - 1]));
        }
    }
}

proof fn lemma_numbered_is_injective(base: Seq<char>, one: nat, two: nat)
    requires
        numbered(base, one) == numbered(base, two),
    ensures
        one == two,
{
    lemma_decimal_is_digits(one);
    lemma_decimal_is_digits(two);
    assert(numbered(base, one).skip(base.len() as int + 1) =~= decimal(one));
    assert(numbered(base, two).skip(base.len() as int + 1) =~= decimal(two));
}

/// A text without separators is its only piece.
proof fn lemma_split_whole(text: Seq<char>)
    requires
        !text.contains('/'),
    ensures
        split(text, '/', '/') == seq![text],
    decreases text.len(),
{
    if text.len() > 0 {
        let front = text.drop_last();
        assert(text[text.len() - 1] != '/');
        assert(!front.contains('/')) by {
            if front.contains('/') {
                let at = choose|at: int| 0 <= at < front.len() && front[at] == '/';
                assert(text[at] == '/');
            }
        }
        lemma_split_whole(front);
        let pieces = split(front, '/', '/');
        assert(pieces.drop_last().push(pieces.last().push(text.last())) =~= seq![text]) by {
            assert(pieces.last().push(text.last()) =~= text);
        }
    } else {
        assert(text =~= Seq::<char>::empty());
    }
}

/// A generated text is a valid key unless it is too long.
proof fn lemma_plain_key(text: Seq<char>)
    requires
        all_plain(text),
        text.len() > 0,
    ensures
        valid_key(text) <==> text.len() <= 255,
{
    assert(!text.contains('/')) by {
        if text.contains('/') {
            let at = choose|at: int| 0 <= at < text.len() && text[at] == '/';
            assert(plain(text[at]));
        }
    }
    lemma_split_whole(text);
    assert(valid_segment(text)) by {
        assert(plain(text[0]));
        assert(text != seq!['.'] && text != seq!['.', '.']) by {
            assert(text[0] != '.');
        }
        assert forall|index: int| 0 <= index < text.len() implies super::model::key_char(#[trigger] text[index]) by {
            assert(plain(text[index]));
        }
    }
    assert(split(text, '/', '/')[0] == text);
}

/// As many different keys as are taken cannot be more than there are.
proof fn lemma_few_numbers_are_taken(base: Seq<char>, taken: Seq<Seq<char>>, number: nat)
    requires
        number >= 2,
        forall|smaller: nat| 2 <= smaller < number ==> taken.contains(#[trigger] numbered(base, smaller)),
    ensures
        number - 2 <= taken.len(),
{
    let keys = Seq::new((number - 2) as nat, |place: int| numbered(base, (place + 2) as nat));
    assert(keys.no_duplicates()) by {
        assert forall|one: int, two: int| 0 <= one < keys.len() && 0 <= two < keys.len() && one != two implies keys[one]
            != keys[two] by {
            if keys[one] == keys[two] {
                lemma_numbered_is_injective(base, (one + 2) as nat, (two + 2) as nat);
            }
        }
    }
    keys.unique_seq_to_set();
    taken.lemma_cardinality_of_set();
    assert(keys.to_set().subset_of(taken.to_set())) by {
        assert forall|key: Seq<char>| keys.to_set().contains(key) implies taken.to_set().contains(key) by {
            let place = choose|place: int| 0 <= place < keys.len() && keys[place] == key;
            assert(taken.contains(numbered(base, (place + 2) as nat)));
        }
    }
    vstd::set_lib::lemma_len_subset(keys.to_set(), taken.to_set());
}

fn compute_key_base(name: &str) -> (result: String)
    ensures
        result@ == key_base(name@),
{
    let characters = chars_of(name);
    let mut front: Vec<char> = Vec::new();
    for index in 0..characters.len()
        invariant
            characters@ == name@,
            front@ == hyphenated(name@.take(index as int)),
    {
        let character = characters[index];
        assert(name@.take(index + 1).drop_last() =~= name@.take(index as int));
        if ascii_alphanumeric(character) {
            front.push(to_ascii_lower(character));
        } else if front.len() > 0 && front[front.len() - 1] != '-' {
            front.push('-');
        }
    }
    assert(name@.take(name@.len() as int) =~= name@);
    if front.len() > 0 && front[front.len() - 1] == '-' {
        front.pop();
        assert(front@ =~= hyphenated(name@).drop_last());
    }
    if front.len() == 0 {
        "model".to_owned()
    } else {
        string_of(&front)
    }
}

fn text_is_in(list: &Vec<String>, text: &str) -> (result: bool)
    ensures
        result == texts(list@).contains(text@),
{
    for index in 0..list.len()
        invariant
            forall|earlier: int| 0 <= earlier < index ==> list@[earlier]@ != text@,
    {
        if same_text(list[index].as_str(), text) {
            assert(texts(list@)[index as int] == text@);
            return true;
        }
    }
    proof {
        if texts(list@).contains(text@) {
            let at = choose|at: int| 0 <= at < texts(list@).len() && texts(list@)[at] == text@;
            assert(list@[at]@ == text@);
        }
    }
    false
}

/// A key for a new model with this name that no other model has. There is none
/// where it would be too long.
pub fn unique_key(name: &str, used: &mut Vec<String>) -> (result: Option<ModelKey>)
    requires
        old(used)@.len() < 0x7fff_fff0,
    ensures
        ({
            let key = free_key(name@, texts(old(used)@).to_set());
            &&& !texts(old(used)@).contains(key)
            &&& match result {
                Some(made) => made@ == key && key.len() <= 255 && texts(final(used)@) == texts(old(used)@).push(key),
                None => key.len() > 255 && final(used)@ == old(used)@,
            }
        }),
{
    let ghost taken = texts(used@);
    let base = compute_key_base(name);
    proof {
        lemma_key_base_is_plain(name@);
    }
    let mut candidate = base.clone();
    if text_is_in(used, base.as_str()) {
        let mut suffix: u64 = 2;
        loop
            invariant
                2 <= suffix <= taken.len() + 2,
                taken.len() < 0x7fff_fff0,
                taken == texts(used@),
                used@ == old(used)@,
                base@ == key_base(name@),
                forall|smaller: nat| 2 <= smaller < suffix ==> taken.contains(#[trigger] numbered(base@, smaller)),
            ensures
                used@ == old(used)@,
                candidate@ == numbered(base@, suffix as nat),
                first_free(base@, taken.to_set(), suffix as nat),
            decreases taken.len() + 3 - suffix,
        {
            let mut text = base.clone();
            text.push('-');
            push_decimal(&mut text, suffix);
            assert(text@ =~= numbered(base@, suffix as nat));
            if !text_is_in(used, text.as_str()) {
                candidate = text;
                assert forall|smaller: nat| 2 <= smaller < suffix implies taken.to_set().contains(
                    #[trigger] numbered(base@, smaller),
                ) by {
                    assert(taken.contains(numbered(base@, smaller)));
                }
                break;
            }
            proof {
                lemma_few_numbers_are_taken(base@, taken, (suffix + 1) as nat);
            }
            suffix = suffix + 1;
        }
        proof {
            let chosen = choose|number: nat| first_free(base@, taken.to_set(), number);
            assert(first_free(base@, taken.to_set(), chosen));
            if chosen < suffix {
                assert(taken.to_set().contains(numbered(base@, chosen)));
            } else if suffix < chosen {
                assert(taken.to_set().contains(numbered(base@, suffix as nat)));
            }
            lemma_numbered_is_plain(base@, suffix as nat);
        }
    }
    let ghost key = candidate@;
    assert(key == free_key(name@, taken.to_set()));
    proof {
        lemma_plain_key(key);
    }
    let kept = candidate.clone();
    match ModelKey::parse(candidate) {
        Ok(made) => {
            used.push(kept);
            assert(texts(used@) =~= taken.push(key));
            Some(made)
        },
        Err(_) => None,
    }
}

/// A generated key is never taken.
pub proof fn law_generated_keys_are_free(name: Seq<char>, taken: Seq<Seq<char>>)
    ensures
        !taken.contains(free_key(name, taken.to_set())),
        free_key(name, taken.to_set()).len() <= 255 ==> valid_key(free_key(name, taken.to_set())),
{
    let base = key_base(name);
    lemma_key_base_is_plain(name);
    if taken.contains(base) {
        assert(taken.to_set().contains(base));
        if exists|number: nat| first_free(base, taken.to_set(), number) {
            let number = choose|number: nat| first_free(base, taken.to_set(), number);
            lemma_numbered_is_plain(base, number);
            lemma_plain_key(numbered(base, number));
        } else {
            lemma_all_numbers_taken(base, taken, (taken.len() + 3) as nat);
            assert forall|smaller: nat| 2 <= smaller < taken.len() + 3 implies taken.contains(
                #[trigger] numbered(base, smaller),
            ) by {
                assert(taken.to_set().contains(numbered(base, smaller)));
            }
            lemma_few_numbers_are_taken(base, taken, (taken.len() + 3) as nat);
        }
    } else {
        lemma_plain_key(base);
    }
}

/// Where no number is free, all numbers are taken.
proof fn lemma_all_numbers_taken(base: Seq<char>, taken: Seq<Seq<char>>, number: nat)
    requires
        !exists|free: nat| first_free(base, taken.to_set(), free),
    ensures
        forall|smaller: nat| 2 <= smaller < number ==> taken.to_set().contains(#[trigger] numbered(base, smaller)),
    decreases number,
{
    if number > 2 {
        lemma_all_numbers_taken(base, taken, (number - 1) as nat);
        if !taken.to_set().contains(numbered(base, (number - 1) as nat)) {
            assert(first_free(base, taken.to_set(), (number - 1) as nat));
        }
    }
}

/// What becomes of a scanned model: it updates a known record, or it is added under
/// a new key.
pub enum Decision {
    Update(int),
    Add(Seq<char>),
}

/// The first place below `count` that satisfies `wanted`.
pub open spec fn first_where(count: nat, wanted: spec_fn(int) -> bool) -> Option<int>
    decreases count,
{
    if count == 0 {
        None
    } else {
        match first_where((count - 1) as nat, wanted) {
            Some(place) => Some(place),
            None => if wanted(count - 1) {
                Some(count - 1)
            } else {
                None
            },
        }
    }
}

/// How often an identity occurs.
pub open spec fn occurrences(identities: Seq<CatalogIdentity>, identity: CatalogIdentity) -> nat
    decreases identities.len(),
{
    if identities.len() == 0 {
        0
    } else {
        occurrences(identities.drop_last(), identity) + (if identities.last() == identity {
            1nat
        } else {
            0nat
        })
    }
}

pub open spec fn scanned_identities(models: Seq<ScannedModel>) -> Seq<CatalogIdentity> {
    models.map_values(|model: ScannedModel| model.identity)
}

pub open spec fn record_identities(records: Seq<RecordView>) -> Seq<CatalogIdentity> {
    records.map_values(|record: RecordView| record.file_identity)
}

/// The keys that are taken after some decisions.
pub open spec fn taken_keys(records: Seq<RecordView>, decided: Seq<Decision>) -> Set<Seq<char>> {
    Set::new(
        |key: Seq<char>|
            (exists|place: int| 0 <= place < records.len() && #[trigger] records[place].key == key)
                || decided.contains(Decision::Add(key)),
    )
}

/// The record at the same path that no other model has updated.
pub open spec fn path_match(
    records: Seq<RecordView>,
    decided: Seq<Decision>,
    model: ScannedModel,
    ignore_case: bool,
) -> Option<int> {
    first_where(
        records.len(),
        |place: int|
            !decided.contains(Decision::Update(place)) && normalized(records[place].path, ignore_case)
                == normalized(model.path@, ignore_case),
    )
}

/// The record of the same file, where the identity is known and occurs exactly once
/// on both sides.
pub open spec fn identity_match(
    records: Seq<RecordView>,
    models: Seq<ScannedModel>,
    decided: Seq<Decision>,
    model: ScannedModel,
) -> Option<int> {
    if model.identity != CatalogIdentity::Unavailable && occurrences(scanned_identities(models), model.identity)
        == 1 && occurrences(record_identities(records), model.identity) == 1 {
        first_where(
            records.len(),
            |place: int|
                !decided.contains(Decision::Update(place)) && records[place].file_identity == model.identity,
        )
    } else {
        None
    }
}

/// What becomes of a model: the record at its path, else the record of its file,
/// else a new record.
pub open spec fn decide(
    records: Seq<RecordView>,
    models: Seq<ScannedModel>,
    decided: Seq<Decision>,
    model: ScannedModel,
    ignore_case: bool,
) -> Decision {
    match path_match(records, decided, model, ignore_case) {
        Some(place) => Decision::Update(place),
        None => match identity_match(records, models, decided, model) {
            Some(place) => Decision::Update(place),
            None => Decision::Add(free_key(model.display_name@, taken_keys(records, decided))),
        },
    }
}

/// What becomes of the first `count` models, one after the other.
pub open spec fn decisions(
    records: Seq<RecordView>,
    models: Seq<ScannedModel>,
    count: nat,
    ignore_case: bool,
) -> Seq<Decision>
    decreases count,
{
    if count == 0 {
        seq![]
    } else {
        let before = decisions(records, models, (count - 1) as nat, ignore_case);
        before.push(decide(records, models, before, models[count - 1], ignore_case))
    }
}

/// A record that a model updates keeps its identifier, key, name and settings.
pub open spec fn updated(record: RecordView, model: ScannedModel) -> RecordView {
    RecordView {
        path: model.path@,
        file_identity: model.identity,
        size_bytes: model.size_bytes,
        metadata: model.metadata,
        state: ModelState::Available,
        ..record
    }
}

/// The record of a new model.
pub open spec fn added(model: ScannedModel, id: ModelId, key: Seq<char>, settings: LaunchSettings) -> RecordView {
    RecordView {
        id,
        key,
        display_name: model.display_name@,
        path: model.path@,
        file_identity: model.identity,
        size_bytes: model.size_bytes,
        metadata: model.metadata,
        state: ModelState::Available,
        settings,
    }
}

/// The records after the first `count` decisions.
pub open spec fn applied(
    records: Seq<RecordView>,
    models: Seq<ScannedModel>,
    decided: Seq<Decision>,
    ids: Seq<ModelId>,
    settings: LaunchSettings,
    count: nat,
) -> Seq<RecordView>
    decreases count,
{
    if count == 0 {
        records
    } else {
        let before = applied(records, models, decided, ids, settings, (count - 1) as nat);
        let model = models[count - 1];
        match decided[count - 1] {
            Decision::Update(place) => before.update(place, updated(before[place], model)),
            Decision::Add(key) => before.push(added(model, ids[count - 1], key, settings)),
        }
    }
}

/// The known records that stay, each taken to be missing until a model is found for
/// it.
pub open spec fn remaining(saved: Seq<ModelRecord>, removed: Seq<ModelId>) -> Seq<RecordView>
    decreases saved.len(),
{
    if saved.len() == 0 {
        seq![]
    } else {
        let before = remaining(saved.drop_last(), removed);
        if removed.contains(saved.last().id) {
            before
        } else {
            before.push(RecordView { state: ModelState::Missing, ..saved.last()@ })
        }
    }
}

/// Every new key is short enough.
pub open spec fn keys_fit(decided: Seq<Decision>) -> bool {
    forall|place: int|
        0 <= place < decided.len() ==> (#[trigger] decided[place] matches Decision::Add(key) ==> key.len() <= 255)
}

/// The decisions that a complete scan leads to.
pub open spec fn scan_decisions(saved: LauncherConfig, scanned: ScanResult, options: ReconcileOptions) -> Seq<Decision> {
    decisions(
        remaining(saved.models@, options.remove_missing@),
        scanned.models@,
        scanned.models@.len(),
        options.ignore_case,
    )
}

/// The records that a complete scan leads to, with these identifiers for the models
/// that are new.
pub open spec fn scan_records(
    saved: LauncherConfig,
    scanned: ScanResult,
    options: ReconcileOptions,
    ids: Seq<ModelId>,
) -> Seq<RecordView> {
    applied(
        remaining(saved.models@, options.remove_missing@),
        scanned.models@,
        scan_decisions(saved, scanned, options),
        ids,
        saved.default_launch_settings,
        scanned.models@.len(),
    )
}

fn id_is_in(list: &Vec<ModelId>, id: ModelId) -> (result: bool)
    ensures
        result == list@.contains(id),
{
    for index in 0..list.len()
        invariant
            forall|earlier: int| 0 <= earlier < index ==> list@[earlier] != id,
    {
        if list[index] == id {
            assert(list@[index as int] == id);
            return true;
        }
    }
    false
}

fn keep_remaining(saved: &Vec<ModelRecord>, removed: &Vec<ModelId>) -> (result: Vec<ModelRecord>)
    ensures
        record_views(result@) == remaining(saved@, removed@),
        result@.len() <= saved@.len(),
{
    let mut result: Vec<ModelRecord> = Vec::new();
    assert(record_views(result@) =~= remaining(saved@.take(0), removed@));
    for index in 0..saved.len()
        invariant
            record_views(result@) == remaining(saved@.take(index as int), removed@),
            result@.len() <= index,
    {
        assert(saved@.take(index + 1).drop_last() =~= saved@.take(index as int));
        let ghost before = record_views(result@);
        if !id_is_in(removed, saved[index].id) {
            let mut record = saved[index].clone();
            record.state = ModelState::Missing;
            let ghost view = record@;
            result.push(record);
            assert(record_views(result@) =~= before.push(view));
        }
    }
    assert(saved@.take(saved@.len() as int) =~= saved@);
    result
}

fn count_scanned(models: &Vec<ScannedModel>, identity: CatalogIdentity) -> (result: usize)
    ensures
        result == occurrences(scanned_identities(models@), identity),
        result <= models@.len(),
{
    let ghost identities = scanned_identities(models@);
    let mut count: usize = 0;
    for index in 0..models.len()
        invariant
            identities == scanned_identities(models@),
            count == occurrences(identities.take(index as int), identity),
            count <= index,
    {
        assert(identities.take(index + 1).drop_last() =~= identities.take(index as int));
        assert(identities.take(index + 1).last() == models@[index as int].identity);
        if models[index].identity == identity {
            count = count + 1;
        }
    }
    assert(identities.take(identities.len() as int) =~= identities);
    count
}

fn count_records(records: &Vec<ModelRecord>, identity: CatalogIdentity) -> (result: usize)
    ensures
        result == occurrences(record_identities(record_views(records@)), identity),
        result <= records@.len(),
{
    let ghost identities = record_identities(record_views(records@));
    let mut count: usize = 0;
    for index in 0..records.len()
        invariant
            identities == record_identities(record_views(records@)),
            count == occurrences(identities.take(index as int), identity),
            count <= index,
    {
        assert(identities.take(index + 1).drop_last() =~= identities.take(index as int));
        assert(identities.take(index + 1).last() == records@[index as int].file_identity);
        if records[index].file_identity == identity {
            count = count + 1;
        }
    }
    assert(identities.take(identities.len() as int) =~= identities);
    count
}

/// Where nothing is wanted, nothing is found.
pub proof fn lemma_first_where_none(count: nat, wanted: spec_fn(int) -> bool)
    requires
        forall|place: int| 0 <= place < count ==> !#[trigger] wanted(place),
    ensures
        first_where(count, wanted) is None,
    decreases count,
{
    if count > 0 {
        lemma_first_where_none((count - 1) as nat, wanted);
    }
}

/// The first place that is wanted is found.
pub proof fn lemma_first_where_some(count: nat, wanted: spec_fn(int) -> bool, found: int)
    requires
        0 <= found < count,
        wanted(found),
        forall|place: int| 0 <= place < found ==> !#[trigger] wanted(place),
    ensures
        first_where(count, wanted) == Some(found),
    decreases count,
{
    if found < count - 1 {
        lemma_first_where_some((count - 1) as nat, wanted, found);
    } else {
        lemma_first_where_none((count - 1) as nat, wanted);
    }
}

/// What `first_where` finds is the first place that is wanted.
proof fn lemma_first_where(count: nat, wanted: spec_fn(int) -> bool)
    ensures
        match first_where(count, wanted) {
            Some(found) => {
                &&& 0 <= found < count
                &&& wanted(found)
                &&& forall|place: int| 0 <= place < found ==> !#[trigger] wanted(place)
            },
            None => forall|place: int| 0 <= place < count ==> !#[trigger] wanted(place),
        },
    decreases count,
{
    if count > 0 {
        lemma_first_where((count - 1) as nat, wanted);
    }
}

/// The records as they are while models are matched with them: those that no model
/// has updated are as they were.
spec fn progress(records: Seq<RecordView>, base: Seq<RecordView>, matched: Seq<bool>, decided: Seq<Decision>) -> bool {
    &&& matched.len() == base.len()
    &&& base.len() <= records.len()
    &&& forall|place: int|
        0 <= place < base.len() ==> #[trigger] matched[place] == decided.contains(Decision::Update(place))
    &&& forall|place: int| 0 <= place < base.len() && !#[trigger] matched[place] ==> records[place] == base[place]
}

fn find_by_path(
    records: &Vec<ModelRecord>,
    matched: &Vec<bool>,
    model: &ScannedModel,
    ignore_case: bool,
    Ghost(base): Ghost<Seq<RecordView>>,
    Ghost(decided): Ghost<Seq<Decision>>,
) -> (result: Option<usize>)
    requires
        progress(record_views(records@), base, matched@, decided),
    ensures
        match result {
            Some(place) => path_match(base, decided, *model, ignore_case) == Some(place as int) && place < base.len(),
            None => path_match(base, decided, *model, ignore_case) is None,
        },
{
    let normal = normalized_catalog_path(model.path.as_str(), ignore_case);
    let ghost wanted = |place: int|
        !decided.contains(Decision::Update(place)) && normalized(base[place].path, ignore_case) == normalized(
            model.path@,
            ignore_case,
        );
    let count: usize = matched.len();
    for index in 0..count
        invariant
            count == matched@.len(),
            progress(record_views(records@), base, matched@, decided),
            normal@ == normalized(model.path@, ignore_case),
            wanted == |place: int|
                !decided.contains(Decision::Update(place)) && normalized(base[place].path, ignore_case)
                    == normalized(model.path@, ignore_case),
            forall|earlier: int| 0 <= earlier < index ==> !#[trigger] wanted(earlier),
    {
        assert(record_views(records@)[index as int] == records@[index as int]@);
        if !matched[index] {
            let own = normalized_catalog_path(records[index].path.as_str(), ignore_case);
            if same(&own, &normal) {
                proof {
                    assert(wanted(index as int));
                    lemma_first_where_some(base.len(), wanted, index as int);
                }
                return Some(index);
            }
        }
        assert(!wanted(index as int));
    }
    proof {
        lemma_first_where_none(base.len(), wanted);
    }
    None
}

fn find_by_identity(
    records: &Vec<ModelRecord>,
    matched: &Vec<bool>,
    model: &ScannedModel,
    scanned_count: usize,
    saved_count: usize,
    Ghost(base): Ghost<Seq<RecordView>>,
    Ghost(models): Ghost<Seq<ScannedModel>>,
    Ghost(decided): Ghost<Seq<Decision>>,
) -> (result: Option<usize>)
    requires
        progress(record_views(records@), base, matched@, decided),
        scanned_count == occurrences(scanned_identities(models), model.identity),
        saved_count == occurrences(record_identities(base), model.identity),
    ensures
        match result {
            Some(place) => identity_match(base, models, decided, *model) == Some(place as int) && place < base.len(),
            None => identity_match(base, models, decided, *model) is None,
        },
{
    if model.identity == CatalogIdentity::Unavailable || scanned_count != 1 || saved_count != 1 {
        return None;
    }
    let ghost wanted = |place: int|
        !decided.contains(Decision::Update(place)) && base[place].file_identity == model.identity;
    let count: usize = matched.len();
    for index in 0..count
        invariant
            count == matched@.len(),
            progress(record_views(records@), base, matched@, decided),
            model.identity != CatalogIdentity::Unavailable,
            occurrences(scanned_identities(models), model.identity) == 1,
            occurrences(record_identities(base), model.identity) == 1,
            wanted == |place: int|
                !decided.contains(Decision::Update(place)) && base[place].file_identity == model.identity,
            forall|earlier: int| 0 <= earlier < index ==> !#[trigger] wanted(earlier),
    {
        assert(record_views(records@)[index as int] == records@[index as int]@);
        if !matched[index] && records[index].file_identity == model.identity {
            proof {
                assert(wanted(index as int));
                lemma_first_where_some(base.len(), wanted, index as int);
            }
            return Some(index);
        }
        assert(!wanted(index as int));
    }
    proof {
        lemma_first_where_none(base.len(), wanted);
    }
    None
}

fn list_keys(records: &Vec<ModelRecord>) -> (result: Vec<String>)
    ensures
        result@.len() == records@.len(),
        forall|place: int| 0 <= place < records@.len() ==> #[trigger] result@[place]@ == records@[place].key@,
{
    let mut result: Vec<String> = Vec::new();
    for index in 0..records.len()
        invariant
            result@.len() == index,
            forall|place: int| 0 <= place < index ==> #[trigger] result@[place]@ == records@[place].key@,
    {
        result.push(records[index].key.to_string());
    }
    result
}

/// Brings the known models up to date with a scan. `ids` are the identifiers for
/// models that are new, one for each scanned model. Nothing is done for an
/// incomplete scan; there is no result where a new key would be too long.
pub fn try_reconcile(
    saved: &LauncherConfig,
    scanned: ScanResult,
    options: ReconcileOptions,
    ids: &Vec<ModelId>,
) -> (result: Option<ReconcileResult>)
    requires
        ids@.len() >= scanned.models@.len(),
        saved.models@.len() + scanned.models@.len() < 0x7fff_fff0,
    ensures
        result is None <==> scanned.complete && !keys_fit(scan_decisions(*saved, scanned, options)),
        result matches Some(output) ==> {
            &&& output.diagnostics == scanned.diagnostics
            &&& output.config.same_but_models(*saved)
            &&& !scanned.complete ==> output.config.models@ == saved.models@
            &&& scanned.complete ==> record_views(output.config.models@) == scan_records(
                *saved,
                scanned,
                options,
                ids@,
            )
        },
{
    let mut config = saved.clone();
    if !scanned.complete {
        return Some(ReconcileResult { config, diagnostics: scanned.diagnostics });
    }
    let ghost models = scanned.models@;
    let ghost base = remaining(saved.models@, options.remove_missing@);
    let ignore_case = options.ignore_case;
    let mut records = keep_remaining(&saved.models, &options.remove_missing);
    let saved_len: usize = records.len();
    let mut matched: Vec<bool> = Vec::new();
    for index in 0..saved_len
        invariant
            matched@.len() == index,
            forall|place: int| 0 <= place < index ==> !#[trigger] matched@[place],
    {
        matched.push(false);
    }
    let mut used = list_keys(&records);
    let mut scanned_counts: Vec<usize> = Vec::new();
    let mut saved_counts: Vec<usize> = Vec::new();
    for index in 0..scanned.models.len()
        invariant
            models == scanned.models@,
            base == record_views(records@),
            scanned_counts@.len() == index,
            saved_counts@.len() == index,
            forall|place: int|
                0 <= place < index ==> #[trigger] scanned_counts@[place] == occurrences(
                    scanned_identities(models),
                    models[place].identity,
                ),
            forall|place: int|
                0 <= place < index ==> #[trigger] saved_counts@[place] == occurrences(
                    record_identities(base),
                    models[place].identity,
                ),
    {
        scanned_counts.push(count_scanned(&scanned.models, scanned.models[index].identity));
        saved_counts.push(count_records(&records, scanned.models[index].identity));
    }
    let ghost settings = saved.default_launch_settings;
    assert(decisions(base, models, 0, ignore_case) =~= seq![]);
    proof {
        assert forall|key: Seq<char>| texts(used@).to_set().contains(key) == #[trigger] taken_keys(
            base,
            decisions(base, models, 0, ignore_case),
        ).contains(key) by {
            if texts(used@).contains(key) {
                let place = choose|place: int| 0 <= place < texts(used@).len() && texts(used@)[place] == key;
                assert(used@[place]@ == key);
                assert(base[place] == records@[place]@);
                assert(base[place].key == key);
            }
            if exists|place: int| 0 <= place < base.len() && #[trigger] base[place].key == key {
                let place = choose|place: int| 0 <= place < base.len() && #[trigger] base[place].key == key;
                assert(base[place] == records@[place]@);
                assert(texts(used@)[place] == key);
            }
        }
        assert(texts(used@).to_set() =~= taken_keys(base, decisions(base, models, 0, ignore_case)));
    }
    let mut index: usize = 0;
    for model in walk: scanned.models
        invariant
            index == walk.index(),
            scanned.complete,
            walk.seq() == models,
            ids@.len() >= models.len(),
            saved.models@.len() + models.len() < 0x7fff_fff0,
            settings == saved.default_launch_settings,
            base == remaining(saved.models@, options.remove_missing@),
            base.len() <= saved.models@.len(),
            ignore_case == options.ignore_case,
            scan_decisions(*saved, scanned, options) == decisions(base, models, models.len(), ignore_case),
            scanned_counts@.len() == models.len(),
            saved_counts@.len() == models.len(),
            forall|place: int|
                0 <= place < models.len() ==> #[trigger] scanned_counts@[place] == occurrences(
                    scanned_identities(models),
                    models[place].identity,
                ),
            forall|place: int|
                0 <= place < models.len() ==> #[trigger] saved_counts@[place] == occurrences(
                    record_identities(base),
                    models[place].identity,
                ),
            progress(
                record_views(records@),
                base,
                matched@,
                decisions(base, models, walk.index() as nat, ignore_case),
            ),
            record_views(records@) == applied(
                base,
                models,
                decisions(base, models, walk.index() as nat, ignore_case),
                ids@,
                settings,
                walk.index() as nat,
            ),
            texts(used@).to_set() == taken_keys(base, decisions(base, models, walk.index() as nat, ignore_case)),
            used@.len() <= base.len() + walk.index(),
            keys_fit(decisions(base, models, walk.index() as nat, ignore_case)),
    {
        let ghost at = walk.index() as nat;
        let ghost decided = decisions(base, models, at, ignore_case);
        let ghost next = decisions(base, models, at + 1, ignore_case);
        let ghost before = record_views(records@);
        proof {
            assert(next =~= decided.push(decide(base, models, decided, model, ignore_case)));
            lemma_decisions_len(base, models, at, ignore_case);
            lemma_applied_prefix(base, models, decided, next, ids@, settings, at);
            lemma_push_contains(decided, decide(base, models, decided, model, ignore_case));
        }
        let found = match find_by_path(&records, &matched, &model, ignore_case, Ghost(base), Ghost(decided)) {
            Some(place) => Some(place),
            None => find_by_identity(
                &records,
                &matched,
                &model,
                scanned_counts[index],
                saved_counts[index],
                Ghost(base),
                Ghost(models),
                Ghost(decided),
            ),
        };
        match found {
            Some(place) => {
                let record = ModelRecord {
                    id: records[place].id,
                    key: records[place].key.clone(),
                    display_name: records[place].display_name.clone(),
                    path: model.path,
                    file_identity: model.identity,
                    size_bytes: model.size_bytes,
                    metadata: model.metadata,
                    state: ModelState::Available,
                    launch_profile: records[place].launch_profile.clone(),
                };
                let ghost view = record@;
                assert(before[place as int] == records@[place as int]@);
                records.set(place, record);
                matched.set(place, true);
                assert(record_views(records@) =~= before.update(place as int, view));
                assert(view == updated(before[place as int], models[at as int]));
                assert(taken_keys(base, next) =~= taken_keys(base, decided));
            },
            None => {
                let ghost name = model.display_name@;
                let ghost taken = texts(used@);
                proof {
                    assert(taken.to_set() == taken_keys(base, decided));
                }
                match unique_key(model.display_name.as_str(), &mut used) {
                    Some(key) => {
                        let record = ModelRecord {
                            id: ids[index],
                            key,
                            display_name: model.display_name,
                            path: model.path,
                            file_identity: model.identity,
                            size_bytes: model.size_bytes,
                            metadata: model.metadata,
                            state: ModelState::Available,
                            launch_profile: LaunchProfile { settings: saved.default_launch_settings.clone() },
                        };
                        let ghost view = record@;
                        records.push(record);
                        assert(record_views(records@) =~= before.push(view));
                        proof {
                            let made = free_key(name, taken_keys(base, decided));
                            lemma_push_to_set(taken, made);
                            assert(texts(used@).len() == used@.len());
                            assert(taken.len() < 0x7fff_fff0);
                            assert(taken_keys(base, next) =~= taken_keys(base, decided).insert(made));
                        }
                    },
                    None => {
                        proof {
                            lemma_decisions_prefix(base, models, at + 1, models.len(), ignore_case);
                            let all = decisions(base, models, models.len(), ignore_case);
                            assert(all[at as int] == next[at as int]);
                            assert(all[at as int] matches Decision::Add(key) && key.len() > 255);
                        }
                        return None;
                    },
                }
            },
        }
        index = index + 1;
    }
    config.models = records;
    Some(ReconcileResult { config, diagnostics: scanned.diagnostics })
}

proof fn lemma_decisions_len(records: Seq<RecordView>, models: Seq<ScannedModel>, count: nat, ignore_case: bool)
    ensures
        decisions(records, models, count, ignore_case).len() == count,
    decreases count,
{
    if count > 0 {
        lemma_decisions_len(records, models, (count - 1) as nat, ignore_case);
    }
}

/// Later models do not change earlier decisions.
proof fn lemma_decisions_prefix(
    records: Seq<RecordView>,
    models: Seq<ScannedModel>,
    count: nat,
    more: nat,
    ignore_case: bool,
)
    requires
        count <= more,
    ensures
        decisions(records, models, more, ignore_case).take(count as int) == decisions(
            records,
            models,
            count,
            ignore_case,
        ),
        decisions(records, models, more, ignore_case).len() == more,
        decisions(records, models, count, ignore_case).len() == count,
        forall|place: int|
            0 <= place < count ==> #[trigger] decisions(records, models, more, ignore_case)[place] == decisions(
                records,
                models,
                count,
                ignore_case,
            )[place],
    decreases more,
{
    lemma_decisions_len(records, models, count, ignore_case);
    lemma_decisions_len(records, models, more, ignore_case);
    if count < more {
        lemma_decisions_prefix(records, models, count, (more - 1) as nat, ignore_case);
        let before = decisions(records, models, (more - 1) as nat, ignore_case);
        let all = decisions(records, models, more, ignore_case);
        assert forall|place: int| 0 <= place < count implies #[trigger] all[place] == before[place] by {}
    }
    assert(decisions(records, models, more, ignore_case).take(count as int) =~= decisions(
        records,
        models,
        count,
        ignore_case,
    ));
}

proof fn lemma_applied_prefix(
    records: Seq<RecordView>,
    models: Seq<ScannedModel>,
    decided: Seq<Decision>,
    longer: Seq<Decision>,
    ids: Seq<ModelId>,
    settings: LaunchSettings,
    count: nat,
)
    requires
        forall|place: int| 0 <= place < count ==> #[trigger] decided[place] == longer[place],
    ensures
        applied(records, models, decided, ids, settings, count) == applied(
            records,
            models,
            longer,
            ids,
            settings,
            count,
        ),
    decreases count,
{
    if count > 0 {
        lemma_applied_prefix(records, models, decided, longer, ids, settings, (count - 1) as nat);
        assert(decided[count - 1] == longer[count - 1]);
    }
}

proof fn lemma_push_contains(decided: Seq<Decision>, last: Decision)
    ensures
        forall|decision: Decision| #[trigger]
            decided.push(last).contains(decision) <==> decided.contains(decision) || decision == last,
{
    assert forall|decision: Decision| #[trigger]
        decided.push(last).contains(decision) <==> decided.contains(decision) || decision == last by {
        let longer = decided.push(last);
        if longer.contains(decision) {
            let at = choose|at: int| 0 <= at < longer.len() && longer[at] == decision;
            if at < decided.len() {
                assert(decided[at] == decision);
            }
        }
        if decided.contains(decision) {
            let at = choose|at: int| 0 <= at < decided.len() && decided[at] == decision;
            assert(longer[at] == decision);
        }
        assert(longer[decided.len() as int] == last);
    }
}

proof fn lemma_push_to_set(taken: Seq<Seq<char>>, last: Seq<char>)
    ensures
        taken.push(last).to_set() == taken.to_set().insert(last),
{
    let longer = taken.push(last);
    assert forall|key: Seq<char>| longer.to_set().contains(key) == taken.to_set().insert(last).contains(key) by {
        if longer.contains(key) {
            let at = choose|at: int| 0 <= at < longer.len() && longer[at] == key;
            if at < taken.len() {
                assert(taken[at] == key);
            }
        }
        if taken.contains(key) {
            let at = choose|at: int| 0 <= at < taken.len() && taken[at] == key;
            assert(longer[at] == key);
        }
        assert(longer[taken.len() as int] == last);
    }
    assert(longer.to_set() =~= taken.to_set().insert(last));
}

/// No two records have the same key.
pub open spec fn distinct_keys(records: Seq<RecordView>) -> bool {
    forall|one: int, two: int|
        #![trigger records[one], records[two]]
        0 <= one < two < records.len() ==> records[one].key != records[two].key
}

/// The record at `place` tells of the model as it was found.
pub open spec fn lists(record: RecordView, model: ScannedModel) -> bool {
    &&& record.path == model.path@
    &&& record.file_identity == model.identity
    &&& record.size_bytes == model.size_bytes
    &&& record.metadata == model.metadata
    &&& record.state == ModelState::Available
}

/// The record is still that of the same model: same identifier, key, name and
/// settings.
pub open spec fn same_model(record: RecordView, before: RecordView) -> bool {
    &&& record.id == before.id
    &&& record.key == before.key
    &&& record.display_name == before.display_name
    &&& record.settings == before.settings
}

/// A decision to update is about a known record that no earlier model has updated.
proof fn lemma_update_is_fresh(records: Seq<RecordView>, models: Seq<ScannedModel>, count: nat, ignore_case: bool)
    requires
        count > 0,
    ensures
        decisions(records, models, count, ignore_case)[count - 1] matches Decision::Update(place) ==> 0 <= place
            < records.len() && !decisions(records, models, (count - 1) as nat, ignore_case).contains(
            Decision::Update(place),
        ),
{
    let decided = decisions(records, models, (count - 1) as nat, ignore_case);
    let model = models[count - 1];
    lemma_decisions_len(records, models, (count - 1) as nat, ignore_case);
    lemma_first_where(
        records.len(),
        |place: int|
            !decided.contains(Decision::Update(place)) && normalized(records[place].path, ignore_case)
                == normalized(model.path@, ignore_case),
    );
    lemma_first_where(
        records.len(),
        |place: int| !decided.contains(Decision::Update(place)) && records[place].file_identity == model.identity,
    );
}

/// The keys that are taken can be listed.
proof fn lemma_taken_is_a_list(records: Seq<RecordView>, decided: Seq<Decision>) -> (list: Seq<Seq<char>>)
    ensures
        list.to_set() == taken_keys(records, decided),
{
    let known = records.map_values(|record: RecordView| record.key);
    let made = decided.map_values(
        |decision: Decision|
            match decision {
                Decision::Add(key) => Seq::<Seq<char>>::empty().push(key),
                Decision::Update(_) => Seq::<Seq<char>>::empty(),
            },
    );
    let list = known + made.flatten();
    lemma_made_keys(decided);
    assert forall|key: Seq<char>| list.to_set().contains(key) == taken_keys(records, decided).contains(key) by {
        if list.contains(key) {
            let at = choose|at: int| 0 <= at < list.len() && list[at] == key;
            if at < known.len() {
                assert(records[at].key == key);
            } else {
                assert(made.flatten()[at - known.len()] == key);
                assert(made.flatten().contains(key));
            }
        }
        if exists|place: int| 0 <= place < records.len() && #[trigger] records[place].key == key {
            let place = choose|place: int| 0 <= place < records.len() && #[trigger] records[place].key == key;
            assert(known[place] == key);
            assert(list[place] == key);
        }
        if decided.contains(Decision::Add(key)) {
            assert(made.flatten().contains(key));
            let at = choose|at: int| 0 <= at < made.flatten().len() && made.flatten()[at] == key;
            assert(list[known.len() + at] == key);
        }
    }
    assert(list.to_set() =~= taken_keys(records, decided));
    list
}

proof fn lemma_made_keys(decided: Seq<Decision>)
    ensures
        ({
            let made = decided.map_values(
                |decision: Decision|
                    match decision {
                        Decision::Add(key) => Seq::<Seq<char>>::empty().push(key),
                        Decision::Update(_) => Seq::<Seq<char>>::empty(),
                    },
            );
            forall|key: Seq<char>| #[trigger]
                made.flatten().contains(key) <==> decided.contains(Decision::Add(key))
        }),
    decreases decided.len(),
{
    let one = |decision: Decision|
        match decision {
            Decision::Add(key) => Seq::<Seq<char>>::empty().push(key),
            Decision::Update(_) => Seq::<Seq<char>>::empty(),
        };
    let made = decided.map_values(one);
    if decided.len() > 0 {
        let front = decided.drop_last();
        lemma_made_keys(front);
        let before = front.map_values(one);
        assert(made =~= before.push(one(decided.last())));
        before.lemma_flatten_push(one(decided.last()));
        assert(made.flatten() == before.flatten() + one(decided.last()));
        assert(decided =~= front.push(decided.last()));
        lemma_push_contains(front, decided.last());
        assert forall|key: Seq<char>| #[trigger]
            made.flatten().contains(key) <==> decided.contains(Decision::Add(key)) by {
            let whole = before.flatten() + one(decided.last());
            if whole.contains(key) {
                let at = choose|at: int| 0 <= at < whole.len() && whole[at] == key;
                if at < before.flatten().len() {
                    assert(before.flatten()[at] == key);
                    assert(before.flatten().contains(key));
                }
            }
            if before.flatten().contains(key) {
                let at = choose|at: int| 0 <= at < before.flatten().len() && before.flatten()[at] == key;
                assert(whole[at] == key);
            }
            if decided.last() == Decision::Add(key) {
                assert(whole[before.flatten().len() as int] == key);
            }
        }
    } else {
        assert(made =~= seq![]);
    }
}

/// What holds of the records after every model.
spec fn outcome(
    after: Seq<RecordView>,
    records: Seq<RecordView>,
    models: Seq<ScannedModel>,
    decided: Seq<Decision>,
    count: nat,
) -> bool {
    &&& records.len() <= after.len()
    &&& forall|place: int| 0 <= place < records.len() ==> same_model(#[trigger] after[place], records[place])
    &&& forall|place: int|
        0 <= place < records.len() && !decided.contains(Decision::Update(place)) ==> #[trigger] after[place]
            == records[place]
    &&& forall|turn: int, place: int|
        0 <= turn < count && #[trigger] decided[turn] == Decision::Update(place) ==> 0 <= place < records.len()
            && after[place] == #[trigger] updated(records[place], models[turn])
    &&& forall|place: int|
        records.len() <= place < after.len() ==> decided.contains(Decision::Add((#[trigger] after[place]).key))
    &&& forall|turn: int|
        0 <= turn < count && #[trigger] decided[turn] is Add ==> exists|place: int|
            records.len() <= place < after.len() && lists(#[trigger] after[place], models[turn])
    &&& distinct_keys(records) ==> distinct_keys(after)
}

proof fn lemma_outcome(
    records: Seq<RecordView>,
    models: Seq<ScannedModel>,
    ids: Seq<ModelId>,
    settings: LaunchSettings,
    count: nat,
    ignore_case: bool,
)
    ensures
        outcome(
            applied(
                records,
                models,
                decisions(records, models, count, ignore_case),
                ids,
                settings,
                count,
            ),
            records,
            models,
            decisions(records, models, count, ignore_case),
            count,
        ),
    decreases count,
{
    let decided = decisions(records, models, count, ignore_case);
    let after = applied(records, models, decided, ids, settings, count);
    lemma_decisions_len(records, models, count, ignore_case);
    if count > 0 {
        let earlier = (count - 1) as nat;
        let prior = decisions(records, models, earlier, ignore_case);
        let before = applied(records, models, prior, ids, settings, earlier);
        let model = models[count - 1];
        let last = decided[count - 1];
        lemma_outcome(records, models, ids, settings, earlier, ignore_case);
        lemma_decisions_len(records, models, earlier, ignore_case);
        assert(decided =~= prior.push(last));
        lemma_push_contains(prior, last);
        lemma_applied_prefix(records, models, prior, decided, ids, settings, earlier);
        lemma_update_is_fresh(records, models, count, ignore_case);
        match last {
            Decision::Update(place) => {
                assert(after =~= before.update(place, updated(before[place], model)));
                assert(before[place] == records[place]);
                assert forall|turn: int| 0 <= turn < count && #[trigger] decided[turn] is Add implies exists|found: int|
                    records.len() <= found < after.len() && lists(#[trigger] after[found], models[turn]) by {
                    assert(prior[turn] is Add);
                    let found = choose|found: int|
                        records.len() <= found < before.len() && lists(#[trigger] before[found], models[turn]);
                    assert(after[found] == before[found]);
                }
                assert forall|turn: int, other: int|
                    0 <= turn < count && #[trigger] decided[turn] == Decision::Update(other) implies 0 <= other
                    < records.len() && after[other] == #[trigger] updated(records[other], models[turn]) by {
                    if turn < earlier {
                        assert(prior[turn] == Decision::Update(other));
                        assert(prior.contains(Decision::Update(other)));
                        assert(other != place);
                        assert(before[other] == updated(records[other], models[turn]));
                    }
                }
                assert(distinct_keys(records) ==> distinct_keys(after));
            },
            Decision::Add(key) => {
                assert(after =~= before.push(added(model, ids[count - 1], key, settings)));
                assert(after[before.len() as int].key == key);
                assert(lists(after[before.len() as int], model));
                assert forall|turn: int| 0 <= turn < count && #[trigger] decided[turn] is Add implies exists|found: int|
                    records.len() <= found < after.len() && lists(#[trigger] after[found], models[turn]) by {
                    if turn < earlier {
                        assert(prior[turn] is Add);
                        let found = choose|found: int|
                            records.len() <= found < before.len() && lists(#[trigger] before[found], models[turn]);
                        assert(after[found] == before[found]);
                    } else {
                        assert(lists(after[before.len() as int], models[turn]));
                    }
                }
                assert forall|turn: int, other: int|
                    0 <= turn < count && #[trigger] decided[turn] == Decision::Update(other) implies 0 <= other
                    < records.len() && after[other] == #[trigger] updated(records[other], models[turn]) by {
                    assert(prior[turn] == Decision::Update(other));
                    assert(before[other] == updated(records[other], models[turn]));
                }
                let list = lemma_taken_is_a_list(records, prior);
                law_generated_keys_are_free(model.display_name@, list);
                assert(!taken_keys(records, prior).contains(key)) by {
                    if list.to_set().contains(key) {
                        assert(list.contains(key));
                    }
                }
                assert forall|place: int| 0 <= place < before.len() implies (#[trigger] before[place]).key != key by {
                    if place < records.len() {
                        assert(same_model(before[place], records[place]));
                        assert(records[place].key != key);
                    } else {
                        assert(prior.contains(Decision::Add(before[place].key)));
                    }
                }
            },
        }
    }
}

/// A known model that is not removed is never forgotten: its record keeps its place,
/// identifier, key, name and settings, whatever a scan finds.
pub proof fn law_known_models_are_kept(
    records: Seq<RecordView>,
    models: Seq<ScannedModel>,
    ids: Seq<ModelId>,
    settings: LaunchSettings,
    ignore_case: bool,
    place: int,
)
    requires
        0 <= place < records.len(),
    ensures
        ({
            let decided = decisions(records, models, models.len(), ignore_case);
            let after = applied(records, models, decided, ids, settings, models.len());
            &&& records.len() <= after.len()
            &&& same_model(after[place], records[place])
            &&& !decided.contains(Decision::Update(place)) ==> after[place] == records[place]
        }),
{
    lemma_outcome(records, models, ids, settings, models.len(), ignore_case);
    let decided = decisions(records, models, models.len(), ignore_case);
    let after = applied(records, models, decided, ids, settings, models.len());
    assert(same_model(after[place], records[place]));
}

/// Every model that a scan found is listed as available, as it was found.
pub proof fn law_found_models_are_listed(
    records: Seq<RecordView>,
    models: Seq<ScannedModel>,
    ids: Seq<ModelId>,
    settings: LaunchSettings,
    ignore_case: bool,
    turn: int,
)
    requires
        0 <= turn < models.len(),
    ensures
        ({
            let decided = decisions(records, models, models.len(), ignore_case);
            let after = applied(records, models, decided, ids, settings, models.len());
            exists|place: int| 0 <= place < after.len() && lists(#[trigger] after[place], models[turn])
        }),
{
    lemma_outcome(records, models, ids, settings, models.len(), ignore_case);
    lemma_decisions_len(records, models, models.len(), ignore_case);
    let decided = decisions(records, models, models.len(), ignore_case);
    let after = applied(records, models, decided, ids, settings, models.len());
    match decided[turn] {
        Decision::Update(place) => {
            assert(after[place] == updated(records[place], models[turn]));
            assert(lists(after[place], models[turn]));
        },
        Decision::Add(key) => {
            assert(decided[turn] is Add);
            let place = choose|place: int|
                records.len() <= place < after.len() && lists(#[trigger] after[place], models[turn]);
            assert(lists(after[place], models[turn]));
        },
    }
}

/// Keys stay unique: where no two known models share a key, no two models share one
/// after a scan.
pub proof fn law_keys_stay_unique(
    records: Seq<RecordView>,
    models: Seq<ScannedModel>,
    ids: Seq<ModelId>,
    settings: LaunchSettings,
    ignore_case: bool,
)
    requires
        distinct_keys(records),
    ensures
        distinct_keys(
            applied(
                records,
                models,
                decisions(records, models, models.len(), ignore_case),
                ids,
                settings,
                models.len(),
            ),
        ),
{
    lemma_outcome(records, models, ids, settings, models.len(), ignore_case);
}

/// No two scanned models update the same record.
pub proof fn law_records_are_updated_once(
    records: Seq<RecordView>,
    models: Seq<ScannedModel>,
    count: nat,
    ignore_case: bool,
    one: int,
    two: int,
    place: int,
)
    requires
        0 <= one < two < count,
        decisions(records, models, count, ignore_case)[one] == Decision::Update(place),
    ensures
        decisions(records, models, count, ignore_case)[two] != Decision::Update(place),
{
    lemma_decisions_prefix(records, models, two as nat, count, ignore_case);
    lemma_decisions_prefix(records, models, (two + 1) as nat, count, ignore_case);
    lemma_update_is_fresh(records, models, (two + 1) as nat, ignore_case);
    let prior = decisions(records, models, two as nat, ignore_case);
    assert(prior[one] == Decision::Update(place));
    assert(prior.contains(Decision::Update(place)));
    assert(decisions(records, models, (two + 1) as nat, ignore_case)[two] == decisions(
        records,
        models,
        count,
        ignore_case,
    )[two]);
}

/// Every update is about a record that is known and that no earlier model has
/// updated.
spec fn updates_are_fresh(known: nat, decided: Seq<Decision>, count: nat) -> bool {
    &&& forall|turn: int|
        0 <= turn < count && (#[trigger] decided[turn]) is Update ==> 0 <= decided[turn]->Update_0 < known
    &&& forall|one: int, two: int|
        0 <= one < two < count && decided[one] is Update ==> #[trigger] decided[one] != #[trigger] decided[two]
}

proof fn lemma_updates_are_fresh(records: Seq<RecordView>, models: Seq<ScannedModel>, count: nat, ignore_case: bool)
    ensures
        updates_are_fresh(records.len(), decisions(records, models, count, ignore_case), count),
        decisions(records, models, count, ignore_case).len() == count,
{
    let decided = decisions(records, models, count, ignore_case);
    lemma_decisions_len(records, models, count, ignore_case);
    assert forall|turn: int| 0 <= turn < count && (#[trigger] decided[turn]) is Update implies 0
        <= decided[turn]->Update_0 < records.len() by {
        lemma_decisions_prefix(records, models, (turn + 1) as nat, count, ignore_case);
        lemma_update_is_fresh(records, models, (turn + 1) as nat, ignore_case);
        assert(decisions(records, models, (turn + 1) as nat, ignore_case)[turn] == decided[turn]);
    }
    assert forall|one: int, two: int| 0 <= one < two < count && decided[one] is Update implies #[trigger] decided[one]
        != #[trigger] decided[two] by {
        law_records_are_updated_once(records, models, count, ignore_case, one, two, decided[one]->Update_0);
    }
}

/// How many of the first models are new.
pub open spec fn new_models(decided: Seq<Decision>, count: nat) -> nat
    decreases count,
{
    if count == 0 {
        0
    } else {
        new_models(decided, (count - 1) as nat) + (if decided[count - 1] is Add {
            1nat
        } else {
            0nat
        })
    }
}

/// Where the record of a scanned model stands among the records after the scan.
pub open spec fn place_after(known: nat, decided: Seq<Decision>, turn: int) -> int {
    match decided[turn] {
        Decision::Update(place) => place,
        Decision::Add(_) => (known + new_models(decided, turn as nat)) as int,
    }
}

/// The record at a place is that of one of the first models.
spec fn is_taken(known: nat, decided: Seq<Decision>, count: nat, place: int) -> bool {
    exists|turn: int| 0 <= turn < count && #[trigger] place_after(known, decided, turn) == place
}

/// What the records are after the first decisions, place by place.
spec fn places_are_known(
    after: Seq<RecordView>,
    records: Seq<RecordView>,
    models: Seq<ScannedModel>,
    decided: Seq<Decision>,
    count: nat,
) -> bool {
    let known = records.len();
    &&& after.len() == known + new_models(decided, count)
    &&& forall|turn: int|
        0 <= turn < count ==> 0 <= #[trigger] place_after(known, decided, turn) < after.len() && lists(
            after[place_after(known, decided, turn)],
            models[turn],
        )
    &&& forall|one: int, two: int|
        0 <= one < two < count ==> #[trigger] place_after(known, decided, one) != #[trigger] place_after(
            known,
            decided,
            two,
        )
    &&& forall|place: int| known <= place < after.len() ==> #[trigger] is_taken(known, decided, count, place)
    &&& forall|place: int|
        0 <= place < known && !is_taken(known, decided, count, place) ==> #[trigger] after[place] == records[place]
    &&& forall|turn: int|
        0 <= turn < count && (#[trigger] decided[turn]) is Update ==> after[decided[turn]->Update_0] == updated(
            records[decided[turn]->Update_0],
            models[turn],
        )
}

proof fn lemma_places(
    records: Seq<RecordView>,
    models: Seq<ScannedModel>,
    decided: Seq<Decision>,
    ids: Seq<ModelId>,
    settings: LaunchSettings,
    count: nat,
)
    requires
        updates_are_fresh(records.len(), decided, count),
    ensures
        places_are_known(applied(records, models, decided, ids, settings, count), records, models, decided, count),
    decreases count,
{
    let known = records.len();
    if count > 0 {
        let earlier = (count - 1) as nat;
        lemma_places(records, models, decided, ids, settings, earlier);
        let before = applied(records, models, decided, ids, settings, earlier);
        let after = applied(records, models, decided, ids, settings, count);
        let own = place_after(known, decided, earlier as int);
        match decided[earlier as int] {
            Decision::Update(place) => {
                assert(own == place);
                assert forall|turn: int| 0 <= turn < earlier implies #[trigger] place_after(known, decided, turn)
                    != place by {
                    assert(decided[turn] != decided[earlier as int]);
                }
                assert(!is_taken(known, decided, earlier, place));
                assert(before[place] == records[place]);
            },
            Decision::Add(key) => {
                assert(own == before.len());
            },
        }
        assert forall|place: int| known <= place < after.len() implies #[trigger] is_taken(
            known,
            decided,
            count,
            place,
        ) by {
            if place == own {
                assert(place_after(known, decided, earlier as int) == place);
            } else {
                assert(is_taken(known, decided, earlier, place));
                let turn = choose|turn: int|
                    0 <= turn < earlier && #[trigger] place_after(known, decided, turn) == place;
                assert(place_after(known, decided, turn) == place);
            }
        }
        assert forall|turn: int| 0 <= turn < count implies 0 <= #[trigger] place_after(known, decided, turn)
            < after.len() && lists(after[place_after(known, decided, turn)], models[turn]) by {
            if turn < earlier {
                assert(place_after(known, decided, turn) != own);
            }
        }
        assert forall|place: int| 0 <= place < known && !is_taken(known, decided, count, place) implies
            #[trigger] after[place] == records[place] by {
            assert(place_after(known, decided, earlier as int) != place);
            assert(!is_taken(known, decided, earlier, place));
            assert(before[place] == records[place]);
        }
        assert forall|turn: int| 0 <= turn < count && (#[trigger] decided[turn]) is Update implies
            after[decided[turn]->Update_0] == updated(records[decided[turn]->Update_0], models[turn]) by {
            let place = decided[turn]->Update_0;
            assert(place_after(known, decided, turn) == place);
            if turn < earlier {
                assert(before[place] == updated(records[place], models[turn]));
                assert(place != own);
            }
        }
    }
}

/// The records as another scan starts with them.
pub open spec fn all_missing(records: Seq<RecordView>) -> Seq<RecordView> {
    records.map_values(|record: RecordView| RecordView { state: ModelState::Missing, ..record })
}

proof fn lemma_remaining_is_missing(models: Seq<ModelRecord>, removed: Seq<ModelId>)
    ensures
        forall|place: int|
            0 <= place < remaining(models, removed).len() ==> (#[trigger] remaining(models, removed)[place]).state
                == ModelState::Missing,
        removed.len() == 0 ==> remaining(models, removed) == all_missing(record_views(models)),
    decreases models.len(),
{
    if models.len() > 0 {
        lemma_remaining_is_missing(models.drop_last(), removed);
        if removed.len() == 0 {
            assert(remaining(models, removed) =~= all_missing(record_views(models)));
        }
    } else {
        assert(remaining(models, removed) =~= all_missing(record_views(models)));
    }
}

/// The paths of scanned models are told apart.
pub open spec fn distinct_paths(models: Seq<ScannedModel>, ignore_case: bool) -> bool {
    forall|one: int, two: int|
        0 <= one < two < models.len() ==> normalized((#[trigger] models[one]).path@, ignore_case) != normalized(
            (#[trigger] models[two]).path@,
            ignore_case,
        )
}

/// A scan that finds the same models again matches each with the record that the
/// first scan gave it.
proof fn lemma_same_decisions(
    records: Seq<RecordView>,
    models: Seq<ScannedModel>,
    ids: Seq<ModelId>,
    settings: LaunchSettings,
    ignore_case: bool,
    count: nat,
)
    requires
        count <= models.len(),
        distinct_paths(models, ignore_case),
    ensures
        ({
            let decided = decisions(records, models, models.len(), ignore_case);
            let after = applied(records, models, decided, ids, settings, models.len());
            decisions(all_missing(after), models, count, ignore_case) == Seq::new(
                count,
                |turn: int| Decision::Update(place_after(records.len(), decided, turn)),
            )
        }),
    decreases count,
{
    let known = records.len();
    let decided = decisions(records, models, models.len(), ignore_case);
    let after = applied(records, models, decided, ids, settings, models.len());
    let again = all_missing(after);
    let expected = Seq::new(count, |turn: int| Decision::Update(place_after(known, decided, turn)));
    if count > 0 {
        let turn = count - 1;
        lemma_same_decisions(records, models, ids, settings, ignore_case, turn as nat);
        lemma_updates_are_fresh(records, models, models.len(), ignore_case);
        lemma_places(records, models, decided, ids, settings, models.len());
        let before = decisions(again, models, turn as nat, ignore_case);
        let model = models[turn];
        let own = place_after(known, decided, turn);
        let wanted = |place: int|
            !before.contains(Decision::Update(place)) && normalized(again[place].path, ignore_case) == normalized(
                model.path@,
                ignore_case,
            );
        assert(lists(after[own], model));
        assert(!before.contains(Decision::Update(own))) by {
            if before.contains(Decision::Update(own)) {
                let other = choose|other: int| 0 <= other < before.len() && before[other] == Decision::Update(own);
                assert(place_after(known, decided, other) == own);
            }
        }
        assert(wanted(own));
        assert forall|place: int| 0 <= place < own implies !#[trigger] wanted(place) by {
            if wanted(place) {
                if is_taken(known, decided, models.len(), place) {
                    let other = choose|other: int|
                        0 <= other < models.len() && #[trigger] place_after(known, decided, other) == place;
                    assert(lists(after[place], models[other]));
                    if other < turn {
                        assert(models[other].path@ == after[place].path);
                    } else if other > turn {
                        assert(models[other].path@ == after[place].path);
                    }
                } else {
                    lemma_unmatched_path(records, models, decided, ignore_case, turn, place, after);
                }
            }
        }
        lemma_first_where_some(again.len(), wanted, own);
        assert(decide(again, models, before, model, ignore_case) == Decision::Update(own));
    }
    assert(decisions(again, models, count, ignore_case) =~= expected);
}

/// A record that no model was matched with stands behind the record of a model that
/// has its path.
proof fn lemma_unmatched_path(
    records: Seq<RecordView>,
    models: Seq<ScannedModel>,
    decided: Seq<Decision>,
    ignore_case: bool,
    turn: int,
    place: int,
    after: Seq<RecordView>,
)
    requires
        decided == decisions(records, models, models.len(), ignore_case),
        places_are_known(after, records, models, decided, models.len()),
        0 <= turn < models.len(),
        0 <= place < after.len(),
        !is_taken(records.len(), decided, models.len(), place),
        normalized(after[place].path, ignore_case) == normalized(models[turn].path@, ignore_case),
    ensures
        place_after(records.len(), decided, turn) <= place,
{
    let model = models[turn];
    let known = records.len();
    assert(after[place] == records[place]);
    lemma_decisions_prefix(records, models, turn as nat, models.len(), ignore_case);
    lemma_decisions_prefix(records, models, (turn + 1) as nat, models.len(), ignore_case);
    let prior = decisions(records, models, turn as nat, ignore_case);
    let wanted = |place: int|
        !prior.contains(Decision::Update(place)) && normalized(records[place].path, ignore_case) == normalized(
            model.path@,
            ignore_case,
        );
    assert(!prior.contains(Decision::Update(place))) by {
        if prior.contains(Decision::Update(place)) {
            let other = choose|other: int| 0 <= other < prior.len() && prior[other] == Decision::Update(place);
            assert(decided[other] == Decision::Update(place));
            assert(place_after(known, decided, other) == place);
        }
    }
    assert(wanted(place));
    lemma_first_where(known, wanted);
    assert(path_match(records, prior, model, ignore_case) == first_where(known, wanted));
    assert(decided[turn] == decide(records, models, prior, model, ignore_case)) by {
        assert(decisions(records, models, (turn + 1) as nat, ignore_case)[turn] == decided[turn]);
    }
}

/// Scanning a directory again that did not change leaves every record as it is: no
/// model is added, and none changes its place.
pub proof fn law_same_scan_changes_nothing(
    saved: LauncherConfig,
    scanned: ScanResult,
    options: ReconcileOptions,
    ids: Seq<ModelId>,
    rescanned: LauncherConfig,
    again: ReconcileOptions,
    more_ids: Seq<ModelId>,
)
    requires
        distinct_paths(scanned.models@, options.ignore_case),
        record_views(rescanned.models@) == scan_records(saved, scanned, options, ids),
        again.ignore_case == options.ignore_case,
        again.remove_missing@.len() == 0,
    ensures
        scan_records(rescanned, scanned, again, more_ids) == scan_records(saved, scanned, options, ids),
{
    let models = scanned.models@;
    let records = remaining(saved.models@, options.remove_missing@);
    let known = records.len();
    let decided = scan_decisions(saved, scanned, options);
    let after = scan_records(saved, scanned, options, ids);
    let start = all_missing(after);
    let settings = saved.default_launch_settings;
    lemma_remaining_is_missing(saved.models@, options.remove_missing@);
    lemma_remaining_is_missing(rescanned.models@, again.remove_missing@);
    lemma_updates_are_fresh(records, models, models.len(), options.ignore_case);
    lemma_places(records, models, decided, ids, settings, models.len());
    lemma_same_decisions(records, models, ids, settings, options.ignore_case, models.len());
    let decided_again = decisions(start, models, models.len(), options.ignore_case);
    lemma_updates_are_fresh(start, models, models.len(), options.ignore_case);
    lemma_places(start, models, decided_again, more_ids, rescanned.default_launch_settings, models.len());
    let result = scan_records(rescanned, scanned, again, more_ids);
    lemma_none_is_new(decided_again, models.len());
    assert forall|place: int| 0 <= place < after.len() implies #[trigger] result[place] == after[place] by {
        if is_taken(known, decided, models.len(), place) {
            let turn = choose|turn: int|
                0 <= turn < models.len() && #[trigger] place_after(known, decided, turn) == place;
            assert(decided_again[turn] == Decision::Update(place));
            assert(result[place] == updated(start[place], models[turn]));
            assert(lists(after[place], models[turn]));
        } else {
            assert(after[place] == records[place]);
            assert forall|turn: int| 0 <= turn < models.len() implies #[trigger] place_after(
                start.len(),
                decided_again,
                turn,
            ) != place by {
                assert(decided_again[turn] == Decision::Update(place_after(known, decided, turn)));
            }
            assert(!is_taken(start.len(), decided_again, models.len(), place));
            assert(result[place] == start[place]);
        }
    }
    assert(result =~= after);
}

proof fn lemma_none_is_new(decided: Seq<Decision>, count: nat)
    requires
        forall|turn: int| 0 <= turn < count ==> (#[trigger] decided[turn]) is Update,
    ensures
        new_models(decided, count) == 0,
    decreases count,
{
    if count > 0 {
        lemma_none_is_new(decided, (count - 1) as nat);
    }
}

/// Brings the known models up to date with a scan; models that are new get random
/// identifiers.
pub fn reconcile_catalog(saved: &LauncherConfig, scanned: ScanResult, options: ReconcileOptions) -> (result:
    ReconcileResult)
    requires
        saved.models@.len() + scanned.models@.len() < 0x7fff_fff0,
        scanned.complete ==> keys_fit(scan_decisions(*saved, scanned, options)),
    ensures
        result.diagnostics == scanned.diagnostics,
        result.config.same_but_models(*saved),
        !scanned.complete ==> result.config.models@ == saved.models@,
        scanned.complete ==> exists|ids: Seq<ModelId>|
            ids.len() == scanned.models@.len() && record_views(result.config.models@) == #[trigger] scan_records(
                *saved,
                scanned,
                options,
                ids,
            ),
{
    let mut ids: Vec<ModelId> = Vec::new();
    for index in 0..scanned.models.len()
        invariant
            ids@.len() == index,
    {
        ids.push(ModelId::new());
    }
    match try_reconcile(saved, scanned, options, &ids) {
        Some(result) => result,
        None => {
            assert(false);
            ReconcileResult { config: saved.clone(), diagnostics: Vec::new() }
        },
    }
}

} // verus!
