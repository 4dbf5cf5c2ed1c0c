//! What the log owes to its readers: which records a filter lets through, which are
//! kept, how lines are cut, and what an export tells.

use vstd::prelude::*;

use super::log::{
    appended, bool_text, channel_room, doubled_up_to, finished, frame_record, framed, json_line, json_lines,
    json_quoted, law_newest_records_are_kept, message_bytes, next_delivery, next_place, redacted_record, text_bytes, trimmed, within,
    EngineLogFramer, Frame, FramerLabels, Framing, LogFilter, LogLevel, LogRecordView, LogSource, LogStoreLimits, NoRecord,
};
use super::error::AppError;
use super::model::{uuid_text, ModelId};
use super::redaction::redacted;
use crate::text::{decimal, lossy_text};

verus! {

/// A level is at least as serious as another.
pub open spec fn at_least(level: LogLevel, minimum: LogLevel) -> bool {
    match minimum {
        LogLevel::Trace => true,
        LogLevel::Debug => level != LogLevel::Trace,
        LogLevel::Info => level == LogLevel::Info || level == LogLevel::Warn || level == LogLevel::Error,
        LogLevel::Warn => level == LogLevel::Warn || level == LogLevel::Error,
        LogLevel::Error => level == LogLevel::Error,
    }
}

/// A filter lets a record through exactly where the record has the source that it
/// names and a level not below its minimum; what it does not name does not matter.
pub proof fn law_filter_asks_for_source_and_level(filter: LogFilter, record: LogRecordView)
    ensures
        filter.wants(record) <==> (match filter.source {
            Some(source) => record.source == source,
            None => true,
        }) && (match filter.minimum_level {
            Some(minimum) => at_least(record.level, minimum),
            None => true,
        }),
{
}

/// Of some records a filter lists those with its source and a sufficient level, all of
/// them, and no other.
pub proof fn law_filtered_records_fit(records: Seq<LogRecordView>, filter: LogFilter, index: int)
    ensures
        ({
            let listed = records.filter(|record: LogRecordView| filter.wants(record));
            &&& 0 <= index < listed.len() ==> records.contains(listed[index])
            &&& 0 <= index < listed.len() ==> (filter.source matches Some(source) ==> listed[index].source == source)
            &&& 0 <= index < listed.len() ==> (filter.minimum_level matches Some(minimum) ==> at_least(
                listed[index].level,
                minimum,
            ))
            &&& 0 <= index < records.len() && (filter.source is None || filter.source == Some(records[index].source))
                && (filter.minimum_level is None || at_least(records[index].level, filter.minimum_level->0))
                ==> listed.contains(records[index])
            &&& filter.source is None && filter.minimum_level is None ==> listed == records
        }),
{
    broadcast use vstd::seq_lib::group_filter_ensures;

    let wanted = |record: LogRecordView| filter.wants(record);
    let listed = records.filter(wanted);
    if 0 <= index < listed.len() {
        lemma_filtered_is_contained(records, wanted, index);
        assert(wanted(listed[index]));
    }
    if 0 <= index < records.len() && wanted(records[index]) {
        assert(listed.contains(records[index]));
    }
    if filter.source is None && filter.minimum_level is None {
        lemma_filter_of_all(records, wanted);
    }
}

proof fn lemma_filtered_is_contained(
    records: Seq<LogRecordView>,
    wanted: spec_fn(LogRecordView) -> bool,
    index: int,
)
    requires
        0 <= index < records.filter(wanted).len(),
    ensures
        records.contains(records.filter(wanted)[index]),
    decreases records.len(),
{
    reveal(Seq::filter);
    let rest = records.drop_last();
    let before = rest.filter(wanted);
    if index < before.len() {
        lemma_filtered_is_contained(rest, wanted, index);
        let at = choose|at: int| 0 <= at < rest.len() && rest[at] == before[index];
        assert(records[at] == before[index]);
    } else {
        assert(records[records.len() - 1] == records.filter(wanted)[index]);
    }
}

proof fn lemma_filter_of_all(records: Seq<LogRecordView>, wanted: spec_fn(LogRecordView) -> bool)
    requires
        forall|record: LogRecordView| #[trigger] wanted(record),
    ensures
        records.filter(wanted) == records,
    decreases records.len(),
{
    reveal(Seq::filter);
    if records.len() > 0 {
        lemma_filter_of_all(records.drop_last(), wanted);
        assert(wanted(records.last()));
        assert(records.drop_last().push(records.last()) =~= records);
    } else {
        assert(records.filter(wanted) =~= records);
    }
}

/// A record is kept and handed out as it came, but for its message, which is redacted.
pub proof fn law_records_keep_what_they_say(record: LogRecordView)
    ensures
        redacted_record(record).timestamp_ms == record.timestamp_ms,
        redacted_record(record).source == record.source,
        redacted_record(record).level == record.level,
        redacted_record(record).generation == record.generation,
        redacted_record(record).model_id == record.model_id,
        redacted_record(record).truncated == record.truncated,
        redacted_record(record).message == redacted(record.message),
{
}

/// No more records are given up for a new one than the limits ask for.
pub proof fn law_records_are_not_given_up_needlessly(records: Seq<LogRecordView>, limits: LogStoreLimits)
    ensures
        ({
            let kept = trimmed(records, limits);
            kept.len() < records.len() ==> !within(records.skip(records.len() - kept.len() - 1), limits)
        }),
        within(records, limits) ==> trimmed(records, limits) == records,
    decreases records.len(),
{
    if records.len() > 0 && !within(records, limits) {
        let rest = records.skip(1);
        law_records_are_not_given_up_needlessly(rest, limits);
        let kept = trimmed(records, limits);
        law_newest_records_are_kept(rest, limits);
        if kept.len() < rest.len() {
            assert(rest.skip(rest.len() - kept.len() - 1) =~= records.skip(records.len() - kept.len() - 1));
        } else {
            assert(records.skip(0) =~= records);
        }
    }
}

/// A record whose message alone is over the limit, or for which there is no room at
/// all, is not kept, and displaces nothing.
pub proof fn law_oversized_record_displaces_nothing(
    records: Seq<LogRecordView>,
    record: LogRecordView,
    limits: LogStoreLimits,
)
    requires
        limits.max_records == 0 || text_bytes(record.message) > limits.max_message_bytes,
    ensures
        appended(records, record, limits) == records,
{
}

/// A channel keeps the least power of two of records that is at least its capacity.
pub proof fn law_channel_room_is_the_next_power_of_two(capacity: nat)
    requires
        capacity > 0,
    ensures
        capacity <= channel_room(capacity) < 2 * capacity,
        channel_room(1) == 1,
        channel_room(2 * capacity) == 2 * channel_room(capacity),
{
    if capacity > 1 {
        lemma_doubling_stops(1, capacity);
    }
    lemma_doubling_scales(1, capacity);
    assert(doubled_up_to(1, 2 * capacity) == doubled_up_to(2, 2 * capacity));
}

proof fn lemma_doubling_stops(from: nat, capacity: nat)
    requires
        0 < from < capacity,
    ensures
        capacity <= doubled_up_to(from, capacity) < 2 * capacity,
    decreases capacity - from,
{
    if 2 * from < capacity {
        lemma_doubling_stops(2 * from, capacity);
    } else {
        assert(doubled_up_to(2 * from, capacity) == 2 * from);
    }
}

proof fn lemma_doubling_scales(from: nat, capacity: nat)
    requires
        from > 0,
    ensures
        doubled_up_to(2 * from, 2 * capacity) == 2 * doubled_up_to(from, capacity),
    decreases
        if from < capacity {
            capacity - from
        } else {
            0
        },
{
    if from < capacity {
        lemma_doubling_scales(2 * from, capacity);
    }
}

/// A subscriber reads every record in its turn. One that fell behind is told how many
/// it missed, and goes on with the oldest that is left; with nothing new it waits.
pub proof fn law_records_are_read_in_turn(sent: Seq<LogRecordView>, room: nat, place: nat)
    requires
        place <= sent.len() <= u64::MAX,
        room > 0,
    ensures
        place == sent.len() ==> next_delivery(sent, room, place) == Err::<LogRecordView, NoRecord>(NoRecord::Empty)
            && next_place(sent, room, place) == place,
        place < sent.len() <= place + room ==> next_delivery(sent, room, place) == Ok::<LogRecordView, NoRecord>(
            sent[place as int],
        ) && next_place(sent, room, place) == place + 1,
        place + room < sent.len() ==> {
            let missed = next_delivery(sent, room, place)->Err_0->Lagged_0;
            &&& next_delivery(sent, room, place) == Err::<LogRecordView, NoRecord>(NoRecord::Lagged(missed))
            &&& next_place(sent, room, place) == place + missed
            &&& next_place(sent, room, place) + room == sent.len()
        },
{
}

/// A framer between two lines.
pub open spec fn between_lines() -> Framing {
    Framing { pending: Seq::empty(), pending_cr: false, discarding: false }
}

/// Bytes without a line break.
pub open spec fn unbroken(bytes: Seq<u8>) -> bool {
    forall|index: int| 0 <= index < bytes.len() ==> #[trigger] bytes[index] != 10 && bytes[index] != 13
}

proof fn lemma_line_is_kept(bytes: Seq<u8>, most: int)
    requires
        unbroken(bytes),
        bytes.len() <= most,
    ensures
        framed(between_lines(), bytes, most).0 == (Framing { pending: bytes, ..between_lines() }),
        framed(between_lines(), bytes, most).1.len() == 0,
    decreases bytes.len(),
{
    if bytes.len() > 0 {
        let rest = bytes.drop_last();
        assert forall|index: int| 0 <= index < rest.len() implies #[trigger] rest[index] != 10 && rest[index]
            != 13 by {
            assert(rest[index] == bytes[index]);
        }
        lemma_line_is_kept(rest, most);
        assert(bytes[bytes.len() - 1] == bytes.last());
        assert(rest.push(bytes.last()) =~= bytes);
    } else {
        assert(bytes =~= Seq::empty());
    }
}

/// A line of text becomes one record of its bytes, whether a line feed or a carriage
/// return and a line feed end it, and the framer is ready for the next line.
pub proof fn law_line_becomes_a_frame(bytes: Seq<u8>, most: int)
    requires
        unbroken(bytes),
        bytes.len() <= most,
    ensures
        framed(between_lines(), bytes + seq![10u8], most).0 == between_lines(),
        framed(between_lines(), bytes + seq![10u8], most).1 == seq![Frame { bytes, truncated: false }],
        framed(between_lines(), bytes + seq![13u8, 10u8], most).0 == between_lines(),
        framed(between_lines(), bytes + seq![13u8, 10u8], most).1 == seq![Frame { bytes, truncated: false }],
        finished(framed(between_lines(), bytes, most).0, most).0 == between_lines(),
        finished(framed(between_lines(), bytes, most).0, most).1 == (if bytes.len() > 0 {
            seq![Frame { bytes, truncated: false }]
        } else {
            Seq::empty()
        }),
{
    lemma_line_is_kept(bytes, most);
    let kept = Framing { pending: bytes, ..between_lines() };
    let none = Seq::<Frame>::empty();
    assert(framed(between_lines(), bytes, most).1 =~= none);
    let fed = bytes + seq![10u8];
    assert(fed.drop_last() =~= bytes && fed.last() == 10u8);
    assert(none + seq![Frame { bytes, truncated: false }] =~= seq![Frame { bytes, truncated: false }]);
    let returned = bytes + seq![13u8];
    assert(returned.drop_last() =~= bytes && returned.last() == 13u8);
    assert(framed(between_lines(), returned, most).0 == (Framing { pending_cr: true, ..kept }));
    assert(framed(between_lines(), returned, most).1 =~= none);
    let both = bytes + seq![13u8, 10u8];
    assert(both.drop_last() =~= returned && both.last() == 10u8);
    assert(none.push(Frame { bytes, truncated: false }) =~= seq![Frame { bytes, truncated: false }]);
}

/// A line that is too long becomes one record of its beginning, marked as cut; what
/// follows it up to its end is lost, and the framer is ready for the next line.
pub proof fn law_long_line_is_cut(bytes: Seq<u8>, more: Seq<u8>, most: int)
    requires
        unbroken(bytes),
        unbroken(more),
        bytes.len() == most,
        more.len() > 0,
    ensures
        framed(between_lines(), bytes + more + seq![10u8], most).0 == between_lines(),
        framed(between_lines(), bytes + more + seq![10u8], most).1 == seq![Frame { bytes, truncated: true }],
{
    lemma_line_is_kept(bytes, most);
    lemma_rest_is_lost(bytes, more, most);
    let all = bytes + more + seq![10u8];
    assert(all.drop_last() =~= bytes + more && all.last() == 10u8);
    let before = framed(between_lines(), bytes + more, most);
    assert(before.1 + Seq::<Frame>::empty() =~= before.1);
}

proof fn lemma_rest_is_lost(bytes: Seq<u8>, more: Seq<u8>, most: int)
    requires
        unbroken(bytes),
        unbroken(more),
        bytes.len() == most,
        more.len() > 0,
    ensures
        framed(between_lines(), bytes + more, most).0 == (Framing { discarding: true, ..between_lines() }),
        framed(between_lines(), bytes + more, most).1 == seq![Frame { bytes, truncated: true }],
    decreases more.len(),
{
    let all = bytes + more;
    let rest = more.drop_last();
    assert(all.drop_last() =~= bytes + rest);
    assert(all.last() == more.last());
    assert(more[more.len() - 1] == more.last());
    if rest.len() == 0 {
        lemma_line_is_kept(bytes, most);
        assert(bytes + rest =~= bytes);
        let before = framed(between_lines(), bytes, most);
        assert(before.1 + seq![Frame { bytes, truncated: true }] =~= seq![Frame { bytes, truncated: true }]);
    } else {
        assert forall|index: int| 0 <= index < rest.len() implies #[trigger] rest[index] != 10 && rest[index]
            != 13 by {
            assert(rest[index] == more[index]);
        }
        lemma_rest_is_lost(bytes, rest, most);
        let before = framed(between_lines(), bytes + rest, most);
        assert(before.1 + Seq::<Frame>::empty() =~= before.1);
    }
}

/// A line is logged under the labels of its stream, with its time, whether it was cut,
/// and its text redacted.
pub proof fn law_frames_are_logged_as_labelled(labels: FramerLabels, timestamp_ms: u64, frame: Frame)
    ensures
        ({
            let record = frame_record(labels, timestamp_ms, frame);
            &&& record.timestamp_ms == timestamp_ms
            &&& record.source == labels.source
            &&& record.level == labels.level
            &&& record.generation == labels.generation
            &&& record.model_id == labels.model_id
            &&& record.message == redacted(lossy_text(frame.bytes))
            &&& record.truncated == frame.truncated
        }),
{
}

/// A text holds another one.
#[verifier::opaque]
pub open spec fn holds(text: Seq<char>, part: Seq<char>) -> bool {
    exists|before: Seq<char>, after: Seq<char>| text == #[trigger] (before + part + after)
}

proof fn lemma_holds(before: Seq<char>, part: Seq<char>, after: Seq<char>, text: Seq<char>)
    requires
        text == before + part + after,
    ensures
        holds(text, part),
{
    reveal(holds);
}

/// The word of a source in an export.
pub open spec fn exported_source(source: LogSource) -> Seq<char> {
    match source {
        LogSource::Application => "application"@,
        LogSource::EngineStdout => "engine_stdout"@,
        LogSource::EngineStderr => "engine_stderr"@,
    }
}

/// The word of a level in an export.
pub open spec fn exported_level(level: LogLevel) -> Seq<char> {
    match level {
        LogLevel::Trace => "trace"@,
        LogLevel::Debug => "debug"@,
        LogLevel::Info => "info"@,
        LogLevel::Warn => "warn"@,
        LogLevel::Error => "error"@,
    }
}

proof fn lemma_grouped(before: Seq<char>, name: Seq<char>, value: Seq<char>)
    ensures
        before + name + value == before + (name + value),
{
    assert(before + name + value =~= before + (name + value));
}

/// Every field of a record stands in its line of an export, under its name.
#[verifier::spinoff_prover]
pub proof fn law_exported_line_tells_every_field(record: LogRecordView)
    ensures
        holds(json_line(record), "{\"timestamp_ms\":"@ + decimal(record.timestamp_ms as nat)),
        holds(json_line(record), ",\"source\":\""@ + exported_source(record.source)),
        holds(json_line(record), "\",\"level\":\""@ + exported_level(record.level)),
        holds(
            json_line(record),
            "\",\"generation\":"@ + (match record.generation {
                Some(generation) => decimal(generation as nat),
                None => "null"@,
            }),
        ),
        holds(
            json_line(record),
            ",\"model_id\":"@ + (match record.model_id {
                Some(id) => "\""@ + uuid_text(id.number()) + "\""@,
                None => "null"@,
            }),
        ),
        holds(json_line(record), ",\"message\":"@ + json_quoted(record.message)),
        holds(
            json_line(record),
            ",\"truncated\":"@ + (if record.truncated {
                "true"@
            } else {
                "false"@
            }) + "}\n"@,
        ),
{
    let time = "{\"timestamp_ms\":"@ + decimal(record.timestamp_ms as nat);
    let source = ",\"source\":\""@ + exported_source(record.source);
    let level = "\",\"level\":\""@ + exported_level(record.level);
    let generation = "\",\"generation\":"@ + (match record.generation {
        Some(generation) => decimal(generation as nat),
        None => "null"@,
    });
    let model = ",\"model_id\":"@ + (match record.model_id {
        Some(id) => "\""@ + uuid_text(id.number()) + "\""@,
        None => "null"@,
    });
    let message = ",\"message\":"@ + json_quoted(record.message);
    let cut = ",\"truncated\":"@ + (if record.truncated {
        "true"@
    } else {
        "false"@
    }) + "}\n"@;
    lemma_grouped(time, ",\"source\":\""@, exported_source(record.source));
    lemma_grouped(time + source, "\",\"level\":\""@, exported_level(record.level));
    let head = time + source + level;
    let generation_value = match record.generation {
        Some(generation) => decimal(generation as nat),
        None => "null"@,
    };
    let model_value = match record.model_id {
        Some(id) => "\""@ + uuid_text(id.number()) + "\""@,
        None => "null"@,
    };
    lemma_grouped(head, "\",\"generation\":"@, generation_value);
    lemma_grouped(head + generation, ",\"model_id\":"@, model_value);
    let body = head + generation + model;
    lemma_grouped(body, ",\"message\":"@, json_quoted(record.message));
    lemma_grouped(body + message, ",\"truncated\":"@, bool_text(record.truncated));
    lemma_grouped(body + message, ",\"truncated\":"@ + bool_text(record.truncated), "}\n"@);
    assert(json_line(record) == time + source + level + generation + model + message + cut);
    lemma_parts_are_held(time, source, level, generation, model, message, cut);
}

proof fn lemma_parts_are_held(
    time: Seq<char>,
    source: Seq<char>,
    level: Seq<char>,
    generation: Seq<char>,
    model: Seq<char>,
    message: Seq<char>,
    cut: Seq<char>,
)
    ensures
        ({
            let line = time + source + level + generation + model + message + cut;
            &&& holds(line, time)
            &&& holds(line, source)
            &&& holds(line, level)
            &&& holds(line, generation)
            &&& holds(line, model)
            &&& holds(line, message)
            &&& holds(line, cut)
        }),
{
    let line = time + source + level + generation + model + message + cut;
    let none = Seq::<char>::empty();
    assert(line =~= none + time + (source + level + generation + model + message + cut));
    lemma_holds(none, time, source + level + generation + model + message + cut, line);
    assert(line =~= time + source + (level + generation + model + message + cut));
    lemma_holds(time, source, level + generation + model + message + cut, line);
    assert(line =~= (time + source) + level + (generation + model + message + cut));
    lemma_holds(time + source, level, generation + model + message + cut, line);
    assert(line =~= (time + source + level) + generation + (model + message + cut));
    lemma_holds(time + source + level, generation, model + message + cut, line);
    assert(line =~= (time + source + level + generation) + model + (message + cut));
    lemma_holds(time + source + level + generation, model, message + cut, line);
    assert(line =~= (time + source + level + generation + model) + message + cut);
    lemma_holds(time + source + level + generation + model, message, cut, line);
    assert(line =~= (time + source + level + generation + model + message) + cut + none);
    lemma_holds(time + source + level + generation + model + message, cut, none, line);
}

/// An export is the lines of its records in their order.
pub proof fn law_export_lists_records_in_order(first: Seq<LogRecordView>, second: Seq<LogRecordView>)
    ensures
        json_lines(first + second) == json_lines(first) + json_lines(second),
        first.len() == 1 ==> json_lines(first) == json_line(first[0]),
        first.len() == 0 ==> json_lines(first).len() == 0,
    decreases second.len(),
{
    if second.len() == 0 {
        assert(first + second =~= first);
        assert(json_lines(first) + json_lines(second) =~= json_lines(first));
    } else {
        law_export_lists_records_in_order(first, second.drop_last());
        assert((first + second).drop_last() =~= first + second.drop_last());
        assert((first + second).last() == second.last());
        assert(json_lines(first + second) =~= json_lines(first) + json_lines(second));
    }
    if first.len() == 1 {
        assert(first.drop_last() =~= Seq::empty());
        assert(json_lines(Seq::empty()) =~= Seq::empty());
        assert(json_lines(first) =~= json_line(first[0]));
    }
}

proof fn lemma_last_record_stays(records: Seq<LogRecordView>, limits: LogStoreLimits)
    requires
        records.len() > 0,
        limits.max_records > 0,
        text_bytes(records.last().message) <= limits.max_message_bytes,
    ensures
        trimmed(records, limits).len() > 0,
        trimmed(records, limits).last() == records.last(),
    decreases records.len(),
{
    if !within(records, limits) {
        if records.len() == 1 {
            assert(records.skip(1) =~= Seq::empty());
            assert(message_bytes(records.skip(1)) == 0);
        } else {
            assert(records.skip(1).last() == records.last());
            lemma_last_record_stays(records.skip(1), limits);
        }
    }
}

/// A record that is not over the limit by itself is kept, as the newest; where all fit,
/// none is given up for it.
pub proof fn law_fitting_record_is_kept(records: Seq<LogRecordView>, record: LogRecordView, limits: LogStoreLimits)
    requires
        limits.max_records > 0,
        text_bytes(record.message) <= limits.max_message_bytes,
    ensures
        appended(records, record, limits).len() > 0,
        appended(records, record, limits).last() == record,
        records.len() < limits.max_records && message_bytes(records) + text_bytes(record.message)
            <= limits.max_message_bytes ==> appended(records, record, limits) == records.push(record),
{
    lemma_last_record_stays(records.push(record), limits);
    law_bytes_of_messages_add_up(records, record);
}

/// The bytes of records are those of all their messages.
pub proof fn law_bytes_of_messages_add_up(records: Seq<LogRecordView>, record: LogRecordView)
    ensures
        message_bytes(records.push(record)) == message_bytes(records) + text_bytes(record.message),
        message_bytes(Seq::empty()) == 0,
    decreases records.len(),
{
    let all = records.push(record);
    if records.len() == 0 {
        assert(all.skip(1) =~= Seq::empty());
        assert(message_bytes(all.skip(1)) == 0);
    } else {
        law_bytes_of_messages_add_up(records.skip(1), record);
        assert(all.skip(1) =~= records.skip(1).push(record));
    }
}

/// Lines may have up to a mebibyte.
pub proof fn law_line_limits_are_limited(
    source: LogSource,
    level: LogLevel,
    generation: Option<u64>,
    model_id: Option<ModelId>,
    most: usize,
    result: Result<EngineLogFramer, AppError>,
)
    requires
        call_ensures(EngineLogFramer::new, (source, level, generation, model_id, most), result),
    ensures
        result is Ok <==> 1 <= most <= 1_048_576,
        result matches Ok(framer) ==> framer.most() == most && framer.record_labels() == (FramerLabels {
            source,
            level,
            generation,
            model_id,
        }) && framer@.pending.len() == 0,
        result matches Err(error) ==> error == AppError::InvalidLogLimit("max_line_bytes"),
{
}

} // verus!
