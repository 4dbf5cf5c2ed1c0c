//! What bringing the known models up to date keeps to: how paths are compared, how
//! keys are made, which record a found model goes to, and what becomes of it.

use vstd::prelude::*;

use super::capability::LaunchSettings;
use super::catalog::{CatalogIdentity, ScannedModel};
use super::model::{ModelId, ModelRecord, ModelState};
use super::reconcile::{
    added, applied, decide, first_free, free_key, hyphenated, identity_match, key_base, keys_fit,
    lemma_first_where_none, lemma_first_where_some, normalized, numbered, occurrences, path_match, record_identities,
    remaining, scanned_identities, taken_keys, updated, Decision, RecordView,
};
use crate::text::{ascii_lower, decimal, is_alphanumeric, lowered};

verus! {

/// Paths are compared with all separators alike, and where case does not matter,
/// without it; every other character counts.
pub proof fn law_paths_are_compared_by_character(path: Seq<char>, index: int)
    requires
        0 <= index < path.len(),
    ensures
        normalized(path, false).len() == path.len(),
        normalized(path, true).len() == path.len(),
        path[index] == '\\' ==> normalized(path, false)[index] == '/' && normalized(path, true)[index] == '/',
        path[index] != '\\' ==> normalized(path, false)[index] == path[index],
        path[index] != '\\' ==> normalized(path, true)[index] == ascii_lower(path[index]),
        'A' <= path[index] <= 'Z' ==> normalized(path, true)[index] as int == path[index] as int + 32,
{
}

/// To compare a path a second time changes nothing.
pub proof fn law_compared_form_is_final(path: Seq<char>, ignore_case: bool)
    ensures
        normalized(normalized(path, ignore_case), ignore_case) == normalized(path, ignore_case),
{
    assert(normalized(normalized(path, ignore_case), ignore_case) =~= normalized(path, ignore_case));
}

/// A name of letters and digits is its own key, in small letters.
pub proof fn law_plain_names_are_keys(name: Seq<char>)
    requires
        name.len() > 0,
        forall|index: int| 0 <= index < name.len() ==> is_alphanumeric(#[trigger] name[index]),
    ensures
        hyphenated(name) == lowered(name),
        lowered(name).last() != '-' ==> key_base(name) == lowered(name),
{
    lemma_plain_names_are_lowered(name);
}

proof fn lemma_plain_names_are_lowered(name: Seq<char>)
    requires
        forall|index: int| 0 <= index < name.len() ==> is_alphanumeric(#[trigger] name[index]),
    ensures
        hyphenated(name) == lowered(name),
    decreases name.len(),
{
    if name.len() > 0 {
        assert(is_alphanumeric(name[name.len() - 1]));
        lemma_plain_names_are_lowered(name.drop_last());
        assert(lowered(name) =~= lowered(name.drop_last()).push(ascii_lower(name.last())));
    } else {
        assert(hyphenated(name) =~= lowered(name));
    }
}

/// Whatever else stands between letters and digits counts as one hyphen, however
/// much of it there is; none stands at either end.
pub proof fn law_gaps_are_one_hyphen(name: Seq<char>, gap: char, other: char, next: char)
    requires
        !is_alphanumeric(gap),
        !is_alphanumeric(other),
        is_alphanumeric(next),
    ensures
        hyphenated(name.push(gap)) == hyphenated(name.push(other)),
        hyphenated(name.push(gap).push(other)) == hyphenated(name.push(gap)),
        hyphenated(name).len() > 0 && hyphenated(name).last() != '-' ==> hyphenated(name.push(gap).push(next))
            == hyphenated(name) + seq!['-', ascii_lower(next)],
        hyphenated(seq![gap]).len() == 0,
        hyphenated(name.push(next)) == hyphenated(name).push(ascii_lower(next)),
{
    assert(name.push(gap).drop_last() =~= name);
    assert(name.push(other).drop_last() =~= name);
    assert(name.push(next).drop_last() =~= name);
    assert(name.push(gap).push(other).drop_last() =~= name.push(gap));
    assert(name.push(gap).push(next).drop_last() =~= name.push(gap));
    assert(name.push(gap).last() == gap && name.push(other).last() == other);
    assert(name.push(gap).push(other).last() == other && name.push(gap).push(next).last() == next);
    assert(seq![gap].drop_last() =~= Seq::<char>::empty());
    reveal_with_fuel(hyphenated, 3);
    if hyphenated(name).len() > 0 && hyphenated(name).last() != '-' {
        assert(hyphenated(name).push('-').push(ascii_lower(next)) =~= hyphenated(name) + seq![
            '-',
            ascii_lower(next),
        ]);
    }
}

/// A hyphen at the end goes, and a name that leaves nothing is called a model.
pub proof fn law_key_has_no_hyphen_at_its_end(name: Seq<char>)
    ensures
        hyphenated(name).len() == 0 ==> key_base(name) == "model"@,
        hyphenated(name).len() > 1 && hyphenated(name).last() == '-' ==> key_base(name) == hyphenated(name).drop_last(),
        hyphenated(name).len() > 0 && hyphenated(name).last() != '-' ==> key_base(name) == hyphenated(name),
{
}

/// A key that is free is taken as it is; otherwise it gets the smallest number,
/// from two on, with which it is free.
pub proof fn law_keys_are_numbered_from_two(name: Seq<char>, taken: Set<Seq<char>>, number: nat)
    ensures
        !taken.contains(key_base(name)) ==> free_key(name, taken) == key_base(name),
        taken.contains(key_base(name)) && number >= 2 && !taken.contains(
            key_base(name) + seq!['-'] + decimal(number),
        ) && (forall|smaller: nat| 2 <= smaller < number ==> taken.contains(
            #[trigger] numbered(key_base(name), smaller),
        )) ==> free_key(name, taken) == key_base(name) + seq!['-'] + decimal(number),
{
    let base = key_base(name);
    if taken.contains(base) && number >= 2 && !taken.contains(base + seq!['-'] + decimal(number)) && (forall|
        smaller: nat,
    |
        2 <= smaller < number ==> taken.contains(#[trigger] numbered(base, smaller))) {
        assert(first_free(base, taken, number));
        let chosen = choose|chosen: nat| first_free(base, taken, chosen);
        assert(first_free(base, taken, chosen));
        if chosen < number {
            assert(taken.contains(numbered(base, chosen)));
        }
        if number < chosen {
            assert(taken.contains(numbered(base, number)));
        }
    }
}

/// A found model goes to the first record that is not spoken for and that has its
/// path.
pub proof fn law_path_finds_its_record(
    records: Seq<RecordView>,
    models: Seq<ScannedModel>,
    decided: Seq<Decision>,
    model: ScannedModel,
    ignore_case: bool,
    place: int,
)
    requires
        0 <= place < records.len(),
        !decided.contains(Decision::Update(place)),
        normalized(records[place].path, ignore_case) == normalized(model.path@, ignore_case),
        forall|earlier: int|
            0 <= earlier < place ==> decided.contains(Decision::Update(earlier)) || normalized(
                (#[trigger] records[earlier]).path,
                ignore_case,
            ) != normalized(model.path@, ignore_case),
    ensures
        decide(records, models, decided, model, ignore_case) == Decision::Update(place),
{
    let wanted = |at: int|
        !decided.contains(Decision::Update(at)) && normalized(records[at].path, ignore_case) == normalized(
            model.path@,
            ignore_case,
        );
    assert forall|earlier: int| 0 <= earlier < place implies !#[trigger] wanted(earlier) by {
        assert(decided.contains(Decision::Update(earlier)) || normalized(records[earlier].path, ignore_case)
            != normalized(model.path@, ignore_case));
    }
    lemma_first_where_some(records.len(), wanted, place);
    assert(path_match(records, decided, model, ignore_case) == Some(place));
}

/// A model that was moved goes to the record that has its identity, where one
/// record and one found model have it; where no record is its own, it is new.
pub proof fn law_identity_finds_a_moved_model(
    records: Seq<RecordView>,
    models: Seq<ScannedModel>,
    decided: Seq<Decision>,
    model: ScannedModel,
    ignore_case: bool,
    place: int,
)
    requires
        0 <= place < records.len(),
        forall|other: int|
            0 <= other < records.len() ==> normalized((#[trigger] records[other]).path, ignore_case) != normalized(
                model.path@,
                ignore_case,
            ),
        !decided.contains(Decision::Update(place)),
        records[place].file_identity == model.identity,
        forall|other: int|
            0 <= other < records.len() && other != place ==> (#[trigger] records[other]).file_identity
                != model.identity,
    ensures
        decide(records, models, decided, model, ignore_case) == (if model.identity != CatalogIdentity::Unavailable
            && occurrences(scanned_identities(models), model.identity) == 1 {
            Decision::Update(place)
        } else {
            Decision::Add(free_key(model.display_name@, taken_keys(records, decided)))
        }),
{
    lemma_no_path_matches(records, decided, model, ignore_case);
    lemma_once(records, model.identity, place);
    let wanted = |at: int| !decided.contains(Decision::Update(at)) && records[at].file_identity == model.identity;
    assert forall|earlier: int| 0 <= earlier < place implies !#[trigger] wanted(earlier) by {
        assert(records[earlier].file_identity != model.identity);
    }
    lemma_first_where_some(records.len(), wanted, place);
    if model.identity != CatalogIdentity::Unavailable && occurrences(scanned_identities(models), model.identity) == 1 {
        assert(identity_match(records, models, decided, model) == Some(place));
    }
}

proof fn lemma_no_path_matches(
    records: Seq<RecordView>,
    decided: Seq<Decision>,
    model: ScannedModel,
    ignore_case: bool,
)
    requires
        forall|other: int|
            0 <= other < records.len() ==> normalized((#[trigger] records[other]).path, ignore_case) != normalized(
                model.path@,
                ignore_case,
            ),
    ensures
        path_match(records, decided, model, ignore_case) is None,
{
    let wanted = |at: int|
        !decided.contains(Decision::Update(at)) && normalized(records[at].path, ignore_case) == normalized(
            model.path@,
            ignore_case,
        );
    assert forall|at: int| 0 <= at < records.len() implies !#[trigger] wanted(at) by {
        assert(normalized(records[at].path, ignore_case) != normalized(model.path@, ignore_case));
    }
    lemma_first_where_none(records.len(), wanted);
}

proof fn lemma_never(records: Seq<RecordView>, identity: CatalogIdentity)
    requires
        forall|other: int| 0 <= other < records.len() ==> (#[trigger] records[other]).file_identity != identity,
    ensures
        occurrences(record_identities(records), identity) == 0,
    decreases records.len(),
{
    if records.len() > 0 {
        let front = records.drop_last();
        assert(records[records.len() - 1].file_identity != identity);
        assert forall|other: int| 0 <= other < front.len() implies (#[trigger] front[other]).file_identity
            != identity by {
            assert(records[other].file_identity != identity);
        }
        lemma_never(front, identity);
        assert(record_identities(records).drop_last() =~= record_identities(front));
    }
}

proof fn lemma_once(records: Seq<RecordView>, identity: CatalogIdentity, place: int)
    requires
        0 <= place < records.len(),
        records[place].file_identity == identity,
        forall|other: int|
            0 <= other < records.len() && other != place ==> (#[trigger] records[other]).file_identity != identity,
    ensures
        occurrences(record_identities(records), identity) == 1,
    decreases records.len(),
{
    let front = records.drop_last();
    assert(record_identities(records).drop_last() =~= record_identities(front));
    assert forall|other: int| 0 <= other < front.len() && other != place implies (#[trigger] front[other]).file_identity
        != identity by {
        assert(records[other].file_identity != identity);
    }
    if place == records.len() - 1 {
        lemma_never(front, identity);
    } else {
        assert(records[records.len() - 1].file_identity != identity);
        lemma_once(front, identity, place);
    }
}

/// A model that no record has by path or identity is added under a key of its own.
pub proof fn law_unknown_model_is_added(
    records: Seq<RecordView>,
    models: Seq<ScannedModel>,
    decided: Seq<Decision>,
    model: ScannedModel,
    ignore_case: bool,
)
    requires
        forall|other: int|
            0 <= other < records.len() ==> normalized((#[trigger] records[other]).path, ignore_case) != normalized(
                model.path@,
                ignore_case,
            ),
        forall|other: int| 0 <= other < records.len() ==> (#[trigger] records[other]).file_identity != model.identity,
    ensures
        decide(records, models, decided, model, ignore_case) == Decision::Add(
            free_key(model.display_name@, taken_keys(records, decided)),
        ),
{
    lemma_no_path_matches(records, decided, model, ignore_case);
    lemma_never(records, model.identity);
}

/// A key is taken by a record that has it, and by a model that was given it in the
/// same run.
pub proof fn law_keys_in_use_are_taken(records: Seq<RecordView>, decided: Seq<Decision>, place: int, key: Seq<char>)
    ensures
        0 <= place < records.len() ==> taken_keys(records, decided).contains(records[place].key),
        taken_keys(records, decided.push(Decision::Add(key))).contains(key),
        taken_keys(Seq::empty(), Seq::empty()) == Set::<Seq<char>>::empty(),
{
    let pushed = decided.push(Decision::Add(key));
    assert(pushed[pushed.len() - 1] == Decision::Add(key));
    assert(pushed.contains(Decision::Add(key)));
    assert(taken_keys(Seq::empty(), Seq::empty()) =~= Set::<Seq<char>>::empty());
}

/// A record that a found model goes to is there again: it keeps its name, its key
/// and its settings, and takes over what the file is now.
pub proof fn law_found_record_is_available(record: RecordView, model: ScannedModel)
    ensures
        updated(record, model).id == record.id,
        updated(record, model).key == record.key,
        updated(record, model).display_name == record.display_name,
        updated(record, model).settings == record.settings,
        updated(record, model).path == model.path@,
        updated(record, model).file_identity == model.identity,
        updated(record, model).size_bytes == model.size_bytes,
        updated(record, model).metadata == model.metadata,
        updated(record, model).state == ModelState::Available,
{
}

/// A new record is named after its file and starts with the default settings.
pub proof fn law_new_record_describes_its_file(
    model: ScannedModel,
    id: ModelId,
    key: Seq<char>,
    settings: LaunchSettings,
)
    ensures
        added(model, id, key, settings).id == id,
        added(model, id, key, settings).key == key,
        added(model, id, key, settings).display_name == model.display_name@,
        added(model, id, key, settings).settings == settings,
        updated(added(model, id, key, settings), model) == added(model, id, key, settings),
        added(model, id, key, settings).state == ModelState::Available,
{
}

/// Records change one at a time: a found model changes its own record or adds one
/// at the end.
pub proof fn law_one_model_changes_one_record(
    records: Seq<RecordView>,
    models: Seq<ScannedModel>,
    decided: Seq<Decision>,
    ids: Seq<ModelId>,
    settings: LaunchSettings,
    count: nat,
    place: int,
)
    requires
        0 <= place < applied(records, models, decided, ids, settings, count).len(),
        decided[count as int] matches Decision::Update(other) ==> 0 <= other < applied(
            records,
            models,
            decided,
            ids,
            settings,
            count,
        ).len(),
    ensures
        ({
            let before = applied(records, models, decided, ids, settings, count);
            let after = applied(records, models, decided, ids, settings, count + 1);
            match decided[count as int] {
                Decision::Update(other) => after.len() == before.len() && after[place] == (if place == other {
                    updated(before[place], models[count as int])
                } else {
                    before[place]
                }),
                Decision::Add(key) => after.len() == before.len() + 1 && after[place] == before[place] && after.last()
                    == added(models[count as int], ids[count as int], key, settings),
            }
        }),
        applied(records, models, decided, ids, settings, 0) == records,
{
}

/// Before the found models are gone through, every record counts as missing, and
/// those that were to be removed are gone.
pub proof fn law_records_count_as_missing_at_first(saved: Seq<ModelRecord>, removed: Seq<ModelId>, index: int)
    requires
        0 <= index < remaining(saved, removed).len(),
    ensures
        remaining(saved, removed)[index].state == ModelState::Missing,
        !removed.contains(remaining(saved, removed)[index].id),
        remaining(saved, removed).len() <= saved.len(),
    decreases saved.len(),
{
    lemma_few_remain(saved, removed);
    let before = remaining(saved.drop_last(), removed);
    if index < before.len() {
        law_records_count_as_missing_at_first(saved.drop_last(), removed, index);
    }
}

proof fn lemma_few_remain(saved: Seq<ModelRecord>, removed: Seq<ModelId>)
    ensures
        remaining(saved, removed).len() <= saved.len(),
    decreases saved.len(),
{
    if saved.len() > 0 {
        lemma_few_remain(saved.drop_last(), removed);
    }
}

/// A record that is not to be removed stays, in its place among the others, and
/// only its state changes.
pub proof fn law_records_stay_unless_removed(first: Seq<ModelRecord>, then: Seq<ModelRecord>, removed: Seq<ModelId>)
    ensures
        remaining(first + then, removed) == remaining(first, removed) + remaining(then, removed),
        then.len() == 1 && !removed.contains(then[0].id) ==> remaining(then, removed) == seq![
            RecordView { state: ModelState::Missing, ..then[0]@ },
        ],
        then.len() == 1 && removed.contains(then[0].id) ==> remaining(then, removed).len() == 0,
    decreases then.len(),
{
    if then.len() == 0 {
        assert(first + then =~= first);
        assert(remaining(first, removed) + Seq::empty() =~= remaining(first, removed));
    } else {
        assert((first + then).drop_last() =~= first + then.drop_last());
        law_records_stay_unless_removed(first, then.drop_last(), removed);
        if then.len() == 1 {
            assert(then.drop_last() =~= Seq::empty());
            assert(then.last() == then[0]);
            reveal_with_fuel(remaining, 2);
        }
        if !removed.contains(then.last().id) {
            let record = RecordView { state: ModelState::Missing, ..then.last()@ };
            assert((remaining(first, removed) + remaining(then.drop_last(), removed)).push(record) =~= remaining(
                first,
                removed,
            ) + remaining(then.drop_last(), removed).push(record));
        }
    }
}

/// A key may have 255 characters.
pub proof fn law_new_keys_are_limited(decided: Seq<Decision>, key: Seq<char>)
    ensures
        keys_fit(decided.push(Decision::Add(key))) <==> keys_fit(decided) && key.len() <= 255,
        forall|place: int| keys_fit(#[trigger] decided.push(Decision::Update(place))) <==> keys_fit(decided),
{
    lemma_keys_fit(decided, Decision::Add(key));
    assert forall|place: int| keys_fit(#[trigger] decided.push(Decision::Update(place))) <==> keys_fit(decided) by {
        lemma_keys_fit(decided, Decision::Update(place));
    }
}

proof fn lemma_keys_fit(decided: Seq<Decision>, last: Decision)
    ensures
        keys_fit(decided.push(last)) <==> keys_fit(decided) && (last matches Decision::Add(key) ==> key.len() <= 255),
{
    let all = decided.push(last);
    assert(all[decided.len() as int] == last);
    if keys_fit(all) {
        assert forall|place: int| 0 <= place < decided.len() implies (#[trigger] decided[place] matches Decision::Add(key)
            ==> key.len() <= 255) by {
            assert(all[place] == decided[place]);
        }
    }
}

} // verus!
