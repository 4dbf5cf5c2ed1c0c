//! The log: records of the application and of engines, bounded in number and in
//! bytes, redacted before they are kept or handed out.

use std::collections::VecDeque;

use tokio::sync::broadcast;
use vstd::prelude::*;
use vstd::utf8::encode_utf8;

use super::error::AppError;
use super::model::{uuid_text, ModelId};
use super::pattern::bearer_tokens_concealed;
use super::redaction::{redact, redacted};
use crate::text::{decimal, decimal_of, lossy_text, push_decimal, push_text, text_from_bytes};

verus! {

/// Where a record comes from.
#[derive(Clone, Copy, Debug, PartialEq, Eq, Structural)]
pub enum LogSource {
    Application,
    EngineStdout,
    EngineStderr,
}

impl LogSource {
    pub open spec fn word_text(self) -> Seq<char> {
        match self {
            LogSource::Application => "application"@,
            LogSource::EngineStdout => "engine_stdout"@,
            LogSource::EngineStderr => "engine_stderr"@,
        }
    }

    /// The word that stands for the source in an export.
    pub fn word(self) -> (result: &'static str)
        ensures
            result@ == self.word_text(),
    {
        match self {
            LogSource::Application => "application",
            LogSource::EngineStdout => "engine_stdout",
            LogSource::EngineStderr => "engine_stderr",
        }
    }
}

/// How serious a record is.
#[derive(Clone, Copy, Debug, PartialEq, Eq, PartialOrd, Ord, Structural)]
pub enum LogLevel {
    Trace,
    Debug,
    Info,
    Warn,
    Error,
}

impl LogLevel {
    /// The place of a level among the levels, the least serious first.
    pub open spec fn severity(self) -> u8 {
        match self {
            LogLevel::Trace => 0,
            LogLevel::Debug => 1,
            LogLevel::Info => 2,
            LogLevel::Warn => 3,
            LogLevel::Error => 4,
        }
    }

    fn rank(self) -> (result: u8)
        ensures
            result == self.severity(),
    {
        match self {
            LogLevel::Trace => 0,
            LogLevel::Debug => 1,
            LogLevel::Info => 2,
            LogLevel::Warn => 3,
            LogLevel::Error => 4,
        }
    }

    pub open spec fn word_text(self) -> Seq<char> {
        match self {
            LogLevel::Trace => "trace"@,
            LogLevel::Debug => "debug"@,
            LogLevel::Info => "info"@,
            LogLevel::Warn => "warn"@,
            LogLevel::Error => "error"@,
        }
    }

    /// The word that stands for the level in an export.
    pub fn word(self) -> (result: &'static str)
        ensures
            result@ == self.word_text(),
    {
        match self {
            LogLevel::Trace => "trace",
            LogLevel::Debug => "debug",
            LogLevel::Info => "info",
            LogLevel::Warn => "warn",
            LogLevel::Error => "error",
        }
    }
}

/// One line of the log.
#[derive(Debug, PartialEq, Eq)]
pub struct LogRecord {
    pub timestamp_ms: u64,
    pub source: LogSource,
    pub level: LogLevel,
    pub generation: Option<u64>,
    pub model_id: Option<ModelId>,
    pub message: String,
    pub truncated: bool,
}

/// What a record says.
pub struct LogRecordView {
    pub timestamp_ms: u64,
    pub source: LogSource,
    pub level: LogLevel,
    pub generation: Option<u64>,
    pub model_id: Option<ModelId>,
    pub message: Seq<char>,
    pub truncated: bool,
}

impl View for LogRecord {
    type V = LogRecordView;

    open spec fn view(&self) -> LogRecordView {
        LogRecordView {
            timestamp_ms: self.timestamp_ms,
            source: self.source,
            level: self.level,
            generation: self.generation,
            model_id: self.model_id,
            message: self.message@,
            truncated: self.truncated,
        }
    }
}

impl Clone for LogRecord {
    fn clone(&self) -> (result: Self)
        ensures
            result@ == self@,
    {
        LogRecord {
            timestamp_ms: self.timestamp_ms,
            source: self.source,
            level: self.level,
            generation: self.generation,
            model_id: self.model_id,
            message: self.message.clone(),
            truncated: self.truncated,
        }
    }
}

pub open spec fn record_list(records: Seq<LogRecord>) -> Seq<LogRecordView> {
    records.map_values(|record: LogRecord| record@)
}

/// Which records are wanted.
#[derive(Clone, Copy, Debug, PartialEq, Eq, Structural)]
pub struct LogFilter {
    pub source: Option<LogSource>,
    pub minimum_level: Option<LogLevel>,
}

impl Default for LogFilter {
    /// Every record is wanted.
    fn default() -> (result: Self)
        ensures
            result == (LogFilter { source: None, minimum_level: None }),
    {
        LogFilter { source: None, minimum_level: None }
    }
}

impl LogFilter {
    pub open spec fn wants(self, record: LogRecordView) -> bool {
        &&& self.source is Some ==> record.source == self.source->0
        &&& self.minimum_level is Some ==> record.level.severity() >= self.minimum_level->0.severity()
    }

    /// Whether `record` is wanted.
    pub fn matches(self, record: &LogRecord) -> (result: bool)
        ensures
            result == self.wants(record@),
    {
        let source_fits = match self.source {
            Some(source) => source == record.source,
            None => true,
        };
        let level_fits = match self.minimum_level {
            Some(minimum) => record.level.rank() >= minimum.rank(),
            None => true,
        };
        source_fits && level_fits
    }
}

/// How much a store keeps, and how many records wait for a subscriber.
#[derive(Clone, Copy, Debug, PartialEq, Eq, Structural)]
pub struct LogStoreLimits {
    pub max_records: usize,
    pub max_message_bytes: usize,
    pub broadcast_capacity: usize,
}

impl LogStoreLimits {
    pub fn new(max_records: usize, max_message_bytes: usize, broadcast_capacity: usize) -> (result: Self)
        ensures
            result == (LogStoreLimits { max_records, max_message_bytes, broadcast_capacity }),
    {
        LogStoreLimits { max_records, max_message_bytes, broadcast_capacity }
    }
}

/// How many bytes a text takes.
pub open spec fn text_bytes(text: Seq<char>) -> nat {
    encode_utf8(text).len()
}

/// How many bytes the messages of some records take.
pub open spec fn message_bytes(records: Seq<LogRecordView>) -> nat
    decreases records.len(),
{
    if records.len() == 0 {
        0
    } else {
        text_bytes(records[0].message) + message_bytes(records.skip(1))
    }
}

pub open spec fn within(records: Seq<LogRecordView>, limits: LogStoreLimits) -> bool {
    records.len() <= limits.max_records && message_bytes(records) <= limits.max_message_bytes
}

/// The newest records that are within the limits.
pub open spec fn trimmed(records: Seq<LogRecordView>, limits: LogStoreLimits) -> Seq<LogRecordView>
    decreases records.len(),
{
    if records.len() == 0 || within(records, limits) {
        records
    } else {
        trimmed(records.skip(1), limits)
    }
}

/// A record as it is kept and handed out.
pub open spec fn redacted_record(record: LogRecordView) -> LogRecordView {
    LogRecordView { message: redacted(record.message), ..record }
}

/// No record shows a bearer token.
pub open spec fn all_concealed(records: Seq<LogRecordView>) -> bool {
    forall|index: int| 0 <= index < records.len() ==> bearer_tokens_concealed((#[trigger] records[index]).message)
}

/// The records that are kept after another one came. One that alone exceeds the
/// limits is not kept.
pub open spec fn appended(
    records: Seq<LogRecordView>,
    record: LogRecordView,
    limits: LogStoreLimits,
) -> Seq<LogRecordView> {
    if limits.max_records > 0 && text_bytes(record.message) <= limits.max_message_bytes {
        trimmed(records.push(record), limits)
    } else {
        records
    }
}

pub open spec fn appended_all(
    records: Seq<LogRecordView>,
    new: Seq<LogRecordView>,
    limits: LogStoreLimits,
) -> Seq<LogRecordView>
    decreases new.len(),
{
    if new.len() == 0 {
        records
    } else {
        appended(appended_all(records, new.drop_last(), limits), new.last(), limits)
    }
}

proof fn lemma_message_bytes_push(records: Seq<LogRecordView>, record: LogRecordView)
    ensures
        message_bytes(records.push(record)) == message_bytes(records) + text_bytes(record.message),
    decreases records.len(),
{
    if records.len() == 0 {
        assert(records.push(record).skip(1) =~= Seq::empty());
        assert(message_bytes(Seq::empty()) == 0);
        assert(records.push(record)[0] == record);
    } else {
        assert(records.push(record)[0] == records[0]);
        lemma_message_bytes_push(records.skip(1), record);
        assert(records.push(record).skip(1) =~= records.skip(1).push(record));
    }
}

/// What is kept is the newest end of what came, and is within the limits.
pub proof fn law_newest_records_are_kept(records: Seq<LogRecordView>, limits: LogStoreLimits)
    ensures
        within(trimmed(records, limits), limits),
        trimmed(records, limits).len() <= records.len(),
        trimmed(records, limits) == records.skip(records.len() - trimmed(records, limits).len()),
    decreases records.len(),
{
    if records.len() == 0 || within(records, limits) {
        assert(records.skip(0) =~= records);
    } else {
        law_newest_records_are_kept(records.skip(1), limits);
        let kept = trimmed(records, limits);
        assert(records.skip(1).skip(records.len() - 1 - kept.len()) =~= records.skip(records.len() - kept.len()));
    }
}

/// A record that alone is within the limits is kept, as the newest one.
pub proof fn law_fitting_record_is_kept(
    records: Seq<LogRecordView>,
    record: LogRecordView,
    limits: LogStoreLimits,
)
    requires
        limits.max_records > 0,
        text_bytes(record.message) <= limits.max_message_bytes,
    ensures
        appended(records, record, limits).len() > 0,
        appended(records, record, limits).last() == record,
    decreases records.len(),
{
    let all = records.push(record);
    if records.len() == 0 {
        lemma_message_bytes_push(records, record);
        assert(within(all, limits));
    } else if !within(all, limits) {
        law_fitting_record_is_kept(records.skip(1), record, limits);
        assert(all.skip(1) =~= records.skip(1).push(record));
    }
}

/// The sender of `tokio::sync::broadcast`.
#[verifier::external_type_specification]
#[verifier::external_body]
#[verifier::reject_recursive_types(T)]
pub struct ExBroadcastSender<T>(broadcast::Sender<T>);

/// The receiver of `tokio::sync::broadcast`.
#[verifier::external_type_specification]
#[verifier::external_body]
#[verifier::reject_recursive_types(T)]
pub struct ExBroadcastReceiver<T>(broadcast::Receiver<T>);

/// Which channel a sender belongs to.
pub uninterp spec fn sender_channel(sender: broadcast::Sender<LogRecord>) -> int;

/// The capacity that the channel of a sender was made with.
pub uninterp spec fn channel_capacity(sender: broadcast::Sender<LogRecord>) -> nat;

/// The records that the channel of a sender took so far, the oldest first. A store
/// holds the only sender of its channel, and lends it out mutably to send.
pub uninterp spec fn sent_records(sender: broadcast::Sender<LogRecord>) -> Seq<LogRecordView>;

/// Which channel a receiver belongs to.
pub uninterp spec fn receiver_channel(receiver: broadcast::Receiver<LogRecord>) -> int;

/// How many records of its channel a receiver has behind it.
pub uninterp spec fn receiver_place(receiver: broadcast::Receiver<LogRecord>) -> nat;

/// The least of `from` and its doublings that reaches `capacity`.
pub open spec fn doubled_up_to(from: nat, capacity: nat) -> nat
    decreases
        if from < capacity {
            capacity - from
        } else {
            0
        },
{
    if from == 0 || from >= capacity {
        from
    } else {
        doubled_up_to(2 * from, capacity)
    }
}

/// How many records a channel keeps: its capacity, rounded up to a power of two.
pub open spec fn channel_room(capacity: nat) -> nat {
    doubled_up_to(1, capacity)
}

/// Why there is no record to receive.
#[derive(Clone, Copy, Debug, PartialEq, Eq, Structural)]
pub enum NoRecord {
    Empty,
    Closed,
    Lagged(u64),
}

/// What a receiver gets that has `place` records behind it: the next record, if
/// the channel still keeps it.
pub open spec fn next_delivery(sent: Seq<LogRecordView>, room: nat, place: nat) -> Result<LogRecordView, NoRecord> {
    if place >= sent.len() {
        Err(NoRecord::Empty)
    } else if place + room < sent.len() {
        Err(NoRecord::Lagged((sent.len() - room - place) as u64))
    } else {
        Ok(sent[place as int])
    }
}

/// How many records that receiver has behind it afterwards: one that missed records
/// goes on with the oldest that is kept.
pub open spec fn next_place(sent: Seq<LogRecordView>, room: nat, place: nat) -> nat {
    if place >= sent.len() {
        place
    } else if place + room < sent.len() {
        (sent.len() - room) as nat
    } else {
        place + 1
    }
}

/// A subscriber with nothing left to read gets the next record that is handed out.
pub proof fn law_next_record_is_received(sent: Seq<LogRecordView>, record: LogRecordView, room: nat)
    requires
        room > 0,
    ensures
        next_delivery(sent.push(record), room, sent.len()) == Ok::<LogRecordView, NoRecord>(record),
        next_place(sent.push(record), room, sent.len()) == sent.push(record).len(),
{
}

/// Calls `tokio::sync::broadcast::channel` and keeps the sender of the new channel,
/// which took no record yet. The capacities that the channel refuses, and those
/// whose slots no memory could hold, are left out.
#[verifier::external_body]
fn open_channel(capacity: usize) -> (result: broadcast::Sender<LogRecord>)
    requires
        0 < capacity <= usize::MAX / 1024,
    ensures
        channel_capacity(result) == capacity,
        sent_records(result).len() == 0,
{
    broadcast::channel(capacity).0
}

/// Calls `tokio::sync::broadcast::Sender::send`: the channel takes the record where
/// somebody is subscribed, and says whether it did. A receiver of the channel at hand
/// shows that somebody is; without one that depends on the receivers that were
/// dropped meanwhile, and is not stated. Only records without a bearer token are
/// sent, since a receiver hands them out as they are.
#[verifier::external_body]
fn send_record(
    sender: &mut broadcast::Sender<LogRecord>,
    record: LogRecord,
    _follower: Option<&broadcast::Receiver<LogRecord>>,
) -> (delivered: bool)
    requires
        bearer_tokens_concealed(record.message@),
    ensures
        sender_channel(*final(sender)) == sender_channel(*old(sender)),
        channel_capacity(*final(sender)) == channel_capacity(*old(sender)),
        sent_records(*final(sender)) == (if delivered {
            sent_records(*old(sender)).push(record@)
        } else {
            sent_records(*old(sender))
        }),
        _follower is Some && receiver_channel(*_follower->0) == sender_channel(*old(sender)) ==> delivered,
{
    sender.send(record).is_ok()
}

/// Calls `tokio::sync::broadcast::Sender::subscribe`: a receiver of the records that
/// the channel takes from now on.
#[verifier::external_body]
fn open_receiver(sender: &broadcast::Sender<LogRecord>) -> (result: broadcast::Receiver<LogRecord>)
    ensures
        receiver_channel(result) == sender_channel(*sender),
        receiver_place(result) == sent_records(*sender).len(),
{
    sender.subscribe()
}

/// Calls `tokio::sync::broadcast::Receiver::try_recv`. A sender of the receiver's
/// channel at hand shows that the channel is open; what comes is then a copy of the
/// next record that the channel took, or the number of those that it no longer
/// keeps. Any record that comes is one that `send_record` took, so that it shows no
/// bearer token. What comes beside a sender of another channel, or where the
/// channel's counter of 64 bits has wrapped, is not stated.
#[verifier::external_body]
fn receive_record(receiver: &mut broadcast::Receiver<LogRecord>, _sender: &broadcast::Sender<LogRecord>) -> (result:
    Result<LogRecord, NoRecord>)
    ensures
        receiver_channel(*final(receiver)) == receiver_channel(*old(receiver)),
        result matches Ok(record) ==> bearer_tokens_concealed(record.message@),
        receiver_channel(*old(receiver)) == sender_channel(*_sender) && sent_records(*_sender).len() <= u64::MAX ==> {
            let sent = sent_records(*_sender);
            let room = channel_room(channel_capacity(*_sender));
            let place = receiver_place(*old(receiver));
            &&& receiver_place(*final(receiver)) == next_place(sent, room, place)
            &&& next_delivery(sent, room, place) == (match result {
                Ok(record) => Ok(record@),
                Err(reason) => Err(reason),
            })
        },
{
    receiver.try_recv().map_err(
        |error| match error {
            broadcast::error::TryRecvError::Empty => NoRecord::Empty,
            broadcast::error::TryRecvError::Closed => NoRecord::Closed,
            broadcast::error::TryRecvError::Lagged(count) => NoRecord::Lagged(count),
        },
    )
}

/// What `serde_json::to_string` makes of a text.
pub uninterp spec fn json_quoted(text: Seq<char>) -> Seq<char>;

/// No character of the text is escaped in a JSON string.
pub open spec fn json_plain(text: Seq<char>) -> bool {
    forall|index: int|
        0 <= index < text.len() ==> (#[trigger] text[index]) as u32 >= 32 && text[index] != '"' && text[index]
            != '\\'
}

/// Calls `serde_json::to_string` on a text. A text without characters to escape
/// is put between quotation marks.
#[verifier::external_body]
fn json_string(text: &str) -> (result: String)
    ensures
        result@ == json_quoted(text@),
        json_plain(text@) ==> result@ == seq!['"'] + text@ + seq!['"'],
{
    serde_json::to_string(text).unwrap_or_default()
}

pub open spec fn bool_text(value: bool) -> Seq<char> {
    if value {
        "true"@
    } else {
        "false"@
    }
}

/// The line of a record in an export.
pub open spec fn json_line(record: LogRecordView) -> Seq<char> {
    "{\"timestamp_ms\":"@ + decimal(record.timestamp_ms as nat) + ",\"source\":\""@ + record.source.word_text()
        + "\",\"level\":\""@ + record.level.word_text() + "\",\"generation\":"@ + (match record.generation {
        Some(generation) => decimal(generation as nat),
        None => "null"@,
    }) + ",\"model_id\":"@ + (match record.model_id {
        Some(id) => "\""@ + uuid_text(id.number()) + "\""@,
        None => "null"@,
    }) + ",\"message\":"@ + json_quoted(record.message) + ",\"truncated\":"@ + bool_text(record.truncated) + "}\n"@
}

/// The lines of some records, one after another.
pub open spec fn json_lines(records: Seq<LogRecordView>) -> Seq<char>
    decreases records.len(),
{
    if records.len() == 0 {
        Seq::empty()
    } else {
        json_lines(records.drop_last()) + json_line(records.last())
    }
}

fn push_json_line(output: &mut String, record: &LogRecord)
    ensures
        final(output)@ == old(output)@ + json_line(record@),
{
    let mut line = "{\"timestamp_ms\":".to_owned();
    push_decimal(&mut line, record.timestamp_ms);
    push_text(&mut line, ",\"source\":\"");
    push_text(&mut line, record.source.word());
    push_text(&mut line, "\",\"level\":\"");
    push_text(&mut line, record.level.word());
    push_text(&mut line, "\",\"generation\":");
    let generation = match record.generation {
        Some(generation) => decimal_of(generation),
        None => "null".to_owned(),
    };
    push_text(&mut line, generation.as_str());
    push_text(&mut line, ",\"model_id\":");
    let model = match record.model_id {
        Some(id) => {
            let mut text = "\"".to_owned();
            push_text(&mut text, id.to_string().as_str());
            push_text(&mut text, "\"");
            text
        },
        None => "null".to_owned(),
    };
    push_text(&mut line, model.as_str());
    push_text(&mut line, ",\"message\":");
    push_text(&mut line, json_string(record.message.as_str()).as_str());
    push_text(&mut line, ",\"truncated\":");
    push_text(&mut line, if record.truncated { "true" } else { "false" });
    push_text(&mut line, "}\n");
    push_text(output, line.as_str());
}

struct StoredRecords {
    records: VecDeque<LogRecord>,
    message_bytes: u128,
}

impl StoredRecords {
    spec fn list(self) -> Seq<LogRecordView> {
        record_list(self.records@)
    }

    spec fn counted(self) -> bool {
        self.message_bytes == message_bytes(self.list())
    }

    fn empty() -> (result: Self)
        ensures
            result.list().len() == 0,
            result.counted(),
    {
        let records: VecDeque<LogRecord> = VecDeque::new();
        assert(record_list(records@).len() == 0);
        StoredRecords { records, message_bytes: 0 }
    }

    fn append(&mut self, record: LogRecord, bytes: usize, limits: LogStoreLimits)
        requires
            old(self).counted(),
            within(old(self).list(), limits),
            bytes == text_bytes(record@.message),
            limits.max_records > 0,
            bytes <= limits.max_message_bytes,
        ensures
            final(self).counted(),
            final(self).list() == trimmed(old(self).list().push(record@), limits),
    {
        let ghost before = self.list();
        let ghost all = before.push(record@);
        proof {
            lemma_message_bytes_push(before, record@);
        }
        self.message_bytes = self.message_bytes + bytes as u128;
        self.records.push_back(record);
        assert(self.list() =~= all);
        while self.records.len() > limits.max_records || self.message_bytes > limits.max_message_bytes as u128
            invariant
                self.counted(),
                trimmed(self.list(), limits) == trimmed(all, limits),
            decreases self.records@.len(),
        {
            let ghost now = self.list();
            let removed = self.records.pop_front();
            if let Some(record) = removed {
                assert(now[0] == record@);
                assert(self.list() =~= now.skip(1));
                let bytes: usize = record.message.as_str().as_bytes().len();
                self.message_bytes = self.message_bytes - bytes as u128;
            }
        }
    }
}

/// The records that are kept within limits. None of them shows a bearer token.
struct KeptRecords {
    limits: LogStoreLimits,
    stored: StoredRecords,
}

impl KeptRecords {
    #[verifier::type_invariant]
    spec fn bounded(self) -> bool {
        &&& self.stored.counted()
        &&& within(self.stored.list(), self.limits)
        &&& all_concealed(self.stored.list())
    }

    fn append(&mut self, record: LogRecord)
        requires
            bearer_tokens_concealed(record.message@),
        ensures
            final(self).limits == old(self).limits,
            final(self).stored.list() == appended(old(self).stored.list(), record@, old(self).limits),
    {
        proof {
            use_type_invariant(&*self);
        }
        let bytes: usize = record.message.as_str().as_bytes().len();
        if self.limits.max_records != 0 && bytes <= self.limits.max_message_bytes {
            let limits = self.limits;
            let mut stored = StoredRecords::empty();
            core::mem::swap(&mut stored, &mut self.stored);
            proof {
                let all = stored.list().push(record@);
                law_newest_records_are_kept(all, limits);
                assert(all_concealed(all));
            }
            stored.append(record, bytes, limits);
            self.stored = stored;
        }
    }
}

/// A bounded log that several readers can follow.
pub struct LogStore {
    kept: KeptRecords,
    sender: broadcast::Sender<LogRecord>,
    delivery_drops: u64,
}

/// What a store holds: its limits, the records it kept, how many deliveries were
/// lost, and the channel to its subscribers: the records that it took, and how many
/// of them it keeps.
pub struct LogStoreView {
    pub limits: LogStoreLimits,
    pub records: Seq<LogRecordView>,
    pub delivery_drops: u64,
    pub channel: int,
    pub sent: Seq<LogRecordView>,
    pub room: nat,
}

impl View for LogStore {
    type V = LogStoreView;

    closed spec fn view(&self) -> LogStoreView {
        LogStoreView {
            limits: self.kept.limits,
            records: self.kept.stored.list(),
            delivery_drops: self.delivery_drops,
            channel: sender_channel(self.sender),
            sent: sent_records(self.sender),
            room: channel_room(channel_capacity(self.sender)),
        }
    }
}

/// A counter that stops at its largest value.
pub open spec fn saturating_sum(count: u64, amount: u64) -> u64 {
    if count + amount <= u64::MAX {
        (count + amount) as u64
    } else {
        u64::MAX
    }
}

/// A subscriber of the store is at hand.
pub open spec fn followed(store: LogStoreView, follower: Option<&LogSubscriber>) -> bool {
    follower matches Some(subscriber) && subscriber@.channel == store.channel
}

impl LogStore {
    /// An empty store. A subscriber needs room for a record.
    pub fn new(limits: LogStoreLimits) -> (result: Result<Self, AppError>)
        requires
            limits.broadcast_capacity <= usize::MAX / 1024,
        ensures
            match result {
                Ok(store) => limits.broadcast_capacity > 0 && store@.limits == limits && store@.records.len() == 0
                    && store@.delivery_drops == 0 && store@.sent.len() == 0 && store@.room == channel_room(
                    limits.broadcast_capacity as nat,
                ),
                Err(error) => limits.broadcast_capacity == 0 && error == AppError::InvalidLogLimit(
                    "broadcast_capacity",
                ),
            },
    {
        if limits.broadcast_capacity == 0 {
            return Err(AppError::InvalidLogLimit("broadcast_capacity"));
        }
        let sender = open_channel(limits.broadcast_capacity);
        let kept = KeptRecords { limits, stored: StoredRecords::empty() };
        Ok(LogStore { kept, sender, delivery_drops: 0 })
    }

    /// Keeps a record and hands it out. A subscriber of this store at hand receives it.
    fn take_in(&mut self, record: LogRecord, follower: Option<&LogSubscriber>)
        ensures
            final(self)@.limits == old(self)@.limits,
            final(self)@.records == appended(old(self)@.records, redacted_record(record@), old(self)@.limits),
            final(self)@.channel == old(self)@.channel,
            final(self)@.room == old(self)@.room,
            ({
                ||| final(self)@.sent == old(self)@.sent.push(redacted_record(record@)) && final(self)@.delivery_drops
                    == old(self)@.delivery_drops
                ||| !followed(old(self)@, follower) && final(self)@.sent == old(self)@.sent
                    && final(self)@.delivery_drops == saturating_sum(old(self)@.delivery_drops, 1)
            }),
            within(final(self)@.records, final(self)@.limits),
            all_concealed(final(self)@.records),
    {
        let message = redact(record.message.as_str());
        let record = LogRecord { message, ..record };
        self.kept.append(record.clone());
        proof {
            use_type_invariant(&self.kept);
        }
        let receiver = match follower {
            Some(subscriber) => Some(&subscriber.receiver),
            None => None,
        };
        if !send_record(&mut self.sender, record, receiver) {
            self.delivery_drops = self.delivery_drops.saturating_add(1);
        }
    }

    /// Redacts `record`, keeps it as far as the limits allow, and hands it to the
    /// subscribers. Where there is none, the delivery counts as lost.
    pub fn append(&mut self, record: LogRecord)
        ensures
            final(self)@.limits == old(self)@.limits,
            final(self)@.records == appended(old(self)@.records, redacted_record(record@), old(self)@.limits),
            final(self)@.channel == old(self)@.channel,
            final(self)@.room == old(self)@.room,
            ({
                ||| final(self)@.sent == old(self)@.sent.push(redacted_record(record@)) && final(self)@.delivery_drops
                    == old(self)@.delivery_drops
                ||| final(self)@.sent == old(self)@.sent && final(self)@.delivery_drops == saturating_sum(
                    old(self)@.delivery_drops,
                    1,
                )
            }),
            within(final(self)@.records, final(self)@.limits),
            all_concealed(final(self)@.records),
    {
        self.take_in(record, None);
    }

    /// Does what `append` does while a subscriber of this store is at hand: the record
    /// is handed out, and no delivery is lost.
    pub fn append_for(&mut self, record: LogRecord, subscriber: &LogSubscriber)
        requires
            subscriber@.channel == old(self)@.channel,
        ensures
            final(self)@ == (LogStoreView {
                records: appended(old(self)@.records, redacted_record(record@), old(self)@.limits),
                sent: old(self)@.sent.push(redacted_record(record@)),
                ..old(self)@
            }),
            within(final(self)@.records, final(self)@.limits),
            all_concealed(final(self)@.records),
    {
        self.take_in(record, Some(subscriber));
    }

    /// The records that are kept, the oldest first.
    pub fn snapshot(&self) -> (result: Vec<LogRecord>)
        ensures
            record_list(result@) == self@.records,
            within(self@.records, self@.limits),
            all_concealed(record_list(result@)),
    {
        proof {
            use_type_invariant(&self.kept);
        }
        let mut result: Vec<LogRecord> = Vec::new();
        for index in 0..self.kept.stored.records.len()
            invariant
                record_list(result@) == self@.records.take(index as int),
        {
            let ghost before = record_list(result@);
            let record = self.kept.stored.records[index].clone();
            let ghost view = record@;
            result.push(record);
            assert(record_list(result@) =~= before.push(view));
            assert(self@.records.take(index + 1) =~= self@.records.take(index as int).push(
                self@.records[index as int],
            ));
        }
        assert(self@.records.take(self@.records.len() as int) =~= self@.records);
        result
    }

    /// The records that are kept and wanted, the oldest first.
    pub fn filtered_snapshot(&self, filter: LogFilter) -> (result: Vec<LogRecord>)
        ensures
            record_list(result@) == self@.records.filter(|record: LogRecordView| filter.wants(record)),
            filter.source matches Some(source) ==> forall|index: int|
                0 <= index < result@.len() ==> (#[trigger] result@[index]).source == source,
            filter.minimum_level matches Some(minimum) ==> forall|index: int|
                0 <= index < result@.len() ==> (#[trigger] result@[index]).level.severity() >= minimum.severity(),
            forall|index: int|
                0 <= index < self@.records.len() && (filter.source is None || filter.source == Some(
                    self@.records[index].source,
                )) && (filter.minimum_level is None || self@.records[index].level.severity()
                    >= filter.minimum_level->0.severity()) ==> record_list(result@).contains(
                    #[trigger] self@.records[index],
                ),
    {
        let ghost wanted = |record: LogRecordView| filter.wants(record);
        let mut result: Vec<LogRecord> = Vec::new();
        proof {
            reveal(Seq::filter);
            assert(record_list(result@) =~= self@.records.take(0).filter(wanted));
        }
        for index in 0..self.kept.stored.records.len()
            invariant
                wanted == (|record: LogRecordView| filter.wants(record)),
                record_list(result@) == self@.records.take(index as int).filter(wanted),
        {
            let ghost before = record_list(result@);
            proof {
                reveal(Seq::filter);
                assert(self@.records.take(index + 1).drop_last() =~= self@.records.take(index as int));
                assert(self@.records.take(index + 1).last() == self@.records[index as int]);
            }
            if filter.matches(&self.kept.stored.records[index]) {
                let record = self.kept.stored.records[index].clone();
                let ghost view = record@;
                result.push(record);
                assert(record_list(result@) =~= before.push(view));
            }
        }
        assert(self@.records.take(self@.records.len() as int) =~= self@.records);
        proof {
            broadcast use vstd::seq_lib::group_filter_ensures;

            let listed = self@.records.filter(wanted);
            assert forall|index: int| 0 <= index < result@.len() implies wanted((#[trigger] result@[index])@) by {
                assert(listed[index] == result@[index]@);
            }
            assert forall|index: int| 0 <= index < self@.records.len() && wanted(self@.records[index]) implies listed.contains(
                #[trigger] self@.records[index],
            ) by {}
        }
        result
    }

    /// A subscriber of the records that come from now on.
    pub fn subscribe(&self) -> (result: LogSubscriber)
        ensures
            result@.channel == self@.channel,
            result@.place == self@.sent.len(),
            result@.delivery_drops == 0,
    {
        LogSubscriber { receiver: open_receiver(&self.sender), delivery_drops: 0 }
    }

    /// How many deliveries were lost. A record that a subscriber missed counts once
    /// for each subscriber that noticed; one that was sent to nobody counts once.
    pub fn total_delivery_drops(&self) -> (result: u64)
        ensures
            result == self@.delivery_drops,
    {
        self.delivery_drops
    }

    /// The records that are kept as lines of JSON, the oldest first.
    pub fn export_json_lines(&self) -> (result: String)
        ensures
            result@ == json_lines(self@.records),
    {
        let mut output = String::new();
        for index in 0..self.kept.stored.records.len()
            invariant
                output@ == json_lines(self@.records.take(index as int)),
        {
            assert(self@.records.take(index + 1).drop_last() =~= self@.records.take(index as int));
            assert(self@.records.take(index + 1).last() == self@.records[index as int]);
            push_json_line(&mut output, &self.kept.stored.records[index]);
        }
        assert(self@.records.take(self@.records.len() as int) =~= self@.records);
        output
    }
}

/// Follows the records of a store.
pub struct LogSubscriber {
    receiver: broadcast::Receiver<LogRecord>,
    delivery_drops: u64,
}

/// What a subscriber knows: the channel that it follows, how many of the channel's
/// records it has behind it, and how many it missed.
pub struct LogSubscriberView {
    pub channel: int,
    pub place: nat,
    pub delivery_drops: u64,
}

impl View for LogSubscriber {
    type V = LogSubscriberView;

    closed spec fn view(&self) -> LogSubscriberView {
        LogSubscriberView {
            channel: receiver_channel(self.receiver),
            place: receiver_place(self.receiver),
            delivery_drops: self.delivery_drops,
        }
    }
}

impl LogSubscriber {
    /// The next record of the store that is followed, if one waits. Records that
    /// were missed are counted here and at the store.
    pub fn try_recv(&mut self, store: &mut LogStore) -> (result: Result<LogRecord, LogRecvError>)
        ensures
            final(store)@.limits == old(store)@.limits,
            final(store)@.records == old(store)@.records,
            final(store)@.channel == old(store)@.channel,
            final(store)@.sent == old(store)@.sent,
            final(store)@.room == old(store)@.room,
            final(self)@.channel == old(self)@.channel,
            old(self)@.channel == old(store)@.channel && old(store)@.sent.len() <= u64::MAX ==> {
                let sent = old(store)@.sent;
                let room = old(store)@.room;
                &&& final(self)@.place == next_place(sent, room, old(self)@.place)
                &&& next_delivery(sent, room, old(self)@.place) == (match result {
                    Ok(record) => Ok(record@),
                    Err(error) => Err(error.0),
                })
            },
            match result {
                Err(LogRecvError(NoRecord::Lagged(count))) => final(self)@.delivery_drops == saturating_sum(
                    old(self)@.delivery_drops,
                    count,
                ) && final(store)@.delivery_drops == saturating_sum(old(store)@.delivery_drops, count),
                _ => final(self)@.delivery_drops == old(self)@.delivery_drops && final(store)@.delivery_drops == old(
                    store,
                )@.delivery_drops,
            },
            result matches Ok(record) ==> bearer_tokens_concealed(record.message@),
    {
        match receive_record(&mut self.receiver, &store.sender) {
            Ok(record) => Ok(record),
            Err(reason) => {
                if let NoRecord::Lagged(count) = reason {
                    self.delivery_drops = self.delivery_drops.saturating_add(count);
                    store.delivery_drops = store.delivery_drops.saturating_add(count);
                }
                Err(LogRecvError(reason))
            },
        }
    }

    /// How many records this subscriber missed.
    pub fn local_delivery_drops(&self) -> (result: u64)
        ensures
            result == self@.delivery_drops,
    {
        self.delivery_drops
    }
}

/// Why a subscriber got no record.
#[derive(Debug)]
pub struct LogRecvError(pub NoRecord);

impl LogRecvError {
    /// How many records the subscriber missed, if any.
    pub fn lagged(&self) -> (result: Option<u64>)
        ensures
            result == (match self.0 {
                NoRecord::Lagged(count) => Some(count),
                _ => None,
            }),
    {
        match self.0 {
            NoRecord::Lagged(count) => Some(count),
            _ => None,
        }
    }
}

/// The longest line that a framer may keep, in bytes.
pub const MAX_ENGINE_LOG_LINE_BYTES: usize = 1_048_576;

/// The byte that ends a line.
pub const LINE_FEED: u8 = 10;

/// The byte that may stand before the end of a line.
pub const CARRIAGE_RETURN: u8 = 13;

/// What a framer says of every record that it makes.
#[derive(Clone, Copy, Debug, PartialEq, Eq, Structural)]
pub struct FramerLabels {
    pub source: LogSource,
    pub level: LogLevel,
    pub generation: Option<u64>,
    pub model_id: Option<ModelId>,
}

/// The bytes of a line, and whether the line went on.
pub struct Frame {
    pub bytes: Seq<u8>,
    pub truncated: bool,
}

/// What a framer remembers between two bytes.
pub struct Framing {
    pub pending: Seq<u8>,
    pub pending_cr: bool,
    pub discarding: bool,
}

/// A byte of content came: it is kept, or the line is cut where it is full.
pub open spec fn content_framed(state: Framing, byte: u8, most: int) -> (Framing, Seq<Frame>) {
    if state.pending.len() < most {
        (Framing { pending: state.pending.push(byte), ..state }, Seq::empty())
    } else {
        (
            Framing { pending: Seq::empty(), discarding: true, ..state },
            seq![Frame { bytes: state.pending, truncated: true }],
        )
    }
}

/// A byte came that no carriage return waits before.
pub open spec fn plain_framed(state: Framing, byte: u8, most: int) -> (Framing, Seq<Frame>) {
    if byte == LINE_FEED {
        (Framing { pending: Seq::empty(), ..state }, seq![Frame { bytes: state.pending, truncated: false }])
    } else if byte == CARRIAGE_RETURN {
        (Framing { pending_cr: true, ..state }, Seq::empty())
    } else {
        content_framed(state, byte, most)
    }
}

/// A byte came. A line ends with a line feed, or a carriage return and a line
/// feed; a carriage return elsewhere is content. What follows a line that was cut
/// is discarded up to its end.
pub open spec fn byte_framed(state: Framing, byte: u8, most: int) -> (Framing, Seq<Frame>) {
    if state.discarding {
        (Framing { discarding: byte != LINE_FEED, ..state }, Seq::empty())
    } else if !state.pending_cr {
        plain_framed(state, byte, most)
    } else if byte == LINE_FEED {
        plain_framed(Framing { pending_cr: false, ..state }, byte, most)
    } else {
        let (after_cr, cut) = content_framed(Framing { pending_cr: false, ..state }, CARRIAGE_RETURN, most);
        if after_cr.discarding {
            (after_cr, cut)
        } else {
            plain_framed(after_cr, byte, most)
        }
    }
}

/// Bytes came.
pub open spec fn framed(state: Framing, bytes: Seq<u8>, most: int) -> (Framing, Seq<Frame>)
    decreases bytes.len(),
{
    if bytes.len() == 0 {
        (state, Seq::empty())
    } else {
        let (before, frames) = framed(state, bytes.drop_last(), most);
        let (after, more) = byte_framed(before, bytes.last(), most);
        (after, frames + more)
    }
}

/// The stream ended.
pub open spec fn finished(state: Framing, most: int) -> (Framing, Seq<Frame>) {
    let (after_cr, cut) = if state.pending_cr {
        content_framed(Framing { pending_cr: false, ..state }, CARRIAGE_RETURN, most)
    } else {
        (state, Seq::empty())
    };
    if after_cr.pending.len() > 0 {
        (
            Framing { pending: Seq::empty(), discarding: false, ..after_cr },
            cut.push(Frame { bytes: after_cr.pending, truncated: false }),
        )
    } else {
        (Framing { discarding: false, ..after_cr }, cut)
    }
}

/// How bytes are cut into lines does not depend on the chunks they come in.
pub proof fn law_chunks_do_not_matter(state: Framing, first: Seq<u8>, second: Seq<u8>, most: int)
    ensures
        framed(state, first + second, most).0 == framed(framed(state, first, most).0, second, most).0,
        framed(state, first + second, most).1 == framed(state, first, most).1 + framed(
            framed(state, first, most).0,
            second,
            most,
        ).1,
    decreases second.len(),
{
    if second.len() == 0 {
        assert(first + second =~= first);
        assert(framed(state, first, most).1 + Seq::<Frame>::empty() =~= framed(state, first, most).1);
    } else {
        law_chunks_do_not_matter(state, first, second.drop_last(), most);
        assert((first + second).drop_last() =~= first + second.drop_last());
        assert((first + second).last() == second.last());
        let middle = framed(state, first, most);
        let early = framed(middle.0, second.drop_last(), most);
        let more = byte_framed(early.0, second.last(), most).1;
        assert((middle.1 + early.1) + more =~= middle.1 + (early.1 + more));
    }
}

/// The record of a line.
pub open spec fn frame_record(labels: FramerLabels, timestamp_ms: u64, frame: Frame) -> LogRecordView {
    LogRecordView {
        timestamp_ms,
        source: labels.source,
        level: labels.level,
        generation: labels.generation,
        model_id: labels.model_id,
        message: redacted(lossy_text(frame.bytes)),
        truncated: frame.truncated,
    }
}

pub open spec fn frame_records(labels: FramerLabels, timestamp_ms: u64, frames: Seq<Frame>) -> Seq<LogRecordView> {
    frames.map_values(|frame: Frame| frame_record(labels, timestamp_ms, frame))
}

/// The records that the channel took, of those that were handed to it.
pub open spec fn taken_records(records: Seq<LogRecordView>, delivered: Seq<bool>) -> Seq<LogRecordView>
    decreases records.len(),
{
    if records.len() == 0 {
        Seq::empty()
    } else {
        let before = taken_records(records.drop_last(), delivered.drop_last());
        if delivered.last() {
            before.push(records.last())
        } else {
            before
        }
    }
}

/// The count of lost deliveries after the records that the channel did not take.
pub open spec fn drops_after(count: u64, delivered: Seq<bool>) -> u64
    decreases delivered.len(),
{
    if delivered.len() == 0 {
        count
    } else {
        let before = drops_after(count, delivered.drop_last());
        if delivered.last() {
            before
        } else {
            saturating_sum(before, 1)
        }
    }
}

/// The records were appended one after the other: each is kept as the limits allow,
/// and handed to the subscribers or counted as lost.
pub open spec fn logged(before: LogStoreView, after: LogStoreView, records: Seq<LogRecordView>) -> bool {
    &&& after.limits == before.limits
    &&& after.channel == before.channel
    &&& after.room == before.room
    &&& after.records == appended_all(before.records, records, before.limits)
    &&& exists|delivered: Seq<bool>|
        delivered.len() == records.len() && after.sent == before.sent + #[trigger] taken_records(records, delivered)
            && after.delivery_drops == drops_after(before.delivery_drops, delivered)
}

/// The records were appended one after the other, and where the store is `heard` all
/// of them were handed to the subscribers.
pub open spec fn logged_to(
    before: LogStoreView,
    after: LogStoreView,
    records: Seq<LogRecordView>,
    heard: bool,
) -> bool {
    &&& logged(before, after, records)
    &&& heard ==> after.sent == before.sent + records && after.delivery_drops == before.delivery_drops
}

proof fn lemma_nothing_logged(store: LogStoreView, heard: bool)
    ensures
        logged_to(store, store, Seq::empty(), heard),
{
    let delivered = Seq::<bool>::empty();
    assert(store.sent + taken_records(Seq::empty(), delivered) =~= store.sent);
    assert(logged(store, store, Seq::empty()));
    assert(store.sent + Seq::empty() =~= store.sent);
}

proof fn lemma_store_as_before(before: LogStoreView, after: LogStoreView)
    requires
        logged(before, after, Seq::empty()),
    ensures
        after == before,
{
    let delivered = choose|delivered: Seq<bool>|
        delivered.len() == 0 && after.sent == before.sent + #[trigger] taken_records(Seq::empty(), delivered)
            && after.delivery_drops == drops_after(before.delivery_drops, delivered);
    assert(before.sent + taken_records(Seq::empty(), delivered) =~= before.sent);
}

proof fn lemma_one_logged(
    before: LogStoreView,
    after: LogStoreView,
    record: LogRecordView,
    delivered: bool,
    heard: bool,
)
    requires
        heard ==> delivered,
        after.limits == before.limits,
        after.channel == before.channel,
        after.room == before.room,
        after.records == appended(before.records, record, before.limits),
        after.sent == (if delivered {
            before.sent.push(record)
        } else {
            before.sent
        }),
        after.delivery_drops == (if delivered {
            before.delivery_drops
        } else {
            saturating_sum(before.delivery_drops, 1)
        }),
    ensures
        logged_to(before, after, seq![record], heard),
{
    let records = seq![record];
    assert(records.drop_last() =~= Seq::empty());
    assert(appended_all(before.records, records.drop_last(), before.limits) == before.records);
    let outcomes = seq![delivered];
    assert(outcomes.drop_last() =~= Seq::empty());
    assert(taken_records(records.drop_last(), outcomes.drop_last()) =~= Seq::empty());
    assert(drops_after(before.delivery_drops, outcomes.drop_last()) == before.delivery_drops);
    assert(after.sent =~= before.sent + taken_records(records, outcomes));
    assert(before.sent.push(record) =~= before.sent + records);
}

proof fn lemma_outcomes_chain(
    first: Seq<LogRecordView>,
    second: Seq<LogRecordView>,
    one: Seq<bool>,
    two: Seq<bool>,
    count: u64,
)
    requires
        first.len() == one.len(),
        second.len() == two.len(),
    ensures
        taken_records(first + second, one + two) == taken_records(first, one) + taken_records(second, two),
        drops_after(count, one + two) == drops_after(drops_after(count, one), two),
    decreases second.len(),
{
    if second.len() == 0 {
        assert(first + second =~= first);
        assert(one + two =~= one);
        assert(taken_records(first, one) + taken_records(second, two) =~= taken_records(first, one));
    } else {
        lemma_outcomes_chain(first, second.drop_last(), one, two.drop_last(), count);
        assert((first + second).drop_last() =~= first + second.drop_last());
        assert((one + two).drop_last() =~= one + two.drop_last());
        assert(taken_records(first + second, one + two) =~= taken_records(first, one) + taken_records(second, two));
    }
}

proof fn lemma_logged_chains(
    before: LogStoreView,
    middle: LogStoreView,
    after: LogStoreView,
    first: Seq<LogRecordView>,
    second: Seq<LogRecordView>,
    heard: bool,
)
    requires
        logged_to(before, middle, first, heard),
        logged_to(middle, after, second, heard),
    ensures
        logged_to(before, after, first + second, heard),
{
    let one = choose|delivered: Seq<bool>|
        delivered.len() == first.len() && middle.sent == before.sent + #[trigger] taken_records(first, delivered)
            && middle.delivery_drops == drops_after(before.delivery_drops, delivered);
    let two = choose|delivered: Seq<bool>|
        delivered.len() == second.len() && after.sent == middle.sent + #[trigger] taken_records(second, delivered)
            && after.delivery_drops == drops_after(middle.delivery_drops, delivered);
    lemma_appended_all_chains(before.records, first, second, before.limits);
    lemma_outcomes_chain(first, second, one, two, before.delivery_drops);
    assert(after.sent =~= before.sent + taken_records(first + second, one + two));
    assert(before.sent + first + second =~= before.sent + (first + second));
}

proof fn lemma_appended_all_chains(
    records: Seq<LogRecordView>,
    first: Seq<LogRecordView>,
    second: Seq<LogRecordView>,
    limits: LogStoreLimits,
)
    ensures
        appended_all(records, first + second, limits) == appended_all(
            appended_all(records, first, limits),
            second,
            limits,
        ),
    decreases second.len(),
{
    if second.len() == 0 {
        assert(first + second =~= first);
    } else {
        lemma_appended_all_chains(records, first, second.drop_last(), limits);
        assert((first + second).drop_last() =~= first + second.drop_last());
        assert((first + second).last() == second.last());
    }
}

/// Cuts the output of an engine into lines and logs them.
pub struct EngineLogFramer {
    labels: FramerLabels,
    max_line_bytes: usize,
    pending: Vec<u8>,
    pending_cr: bool,
    discarding_oversized: bool,
}

impl View for EngineLogFramer {
    type V = Framing;

    closed spec fn view(&self) -> Framing {
        Framing { pending: self.pending@, pending_cr: self.pending_cr, discarding: self.discarding_oversized }
    }
}

impl EngineLogFramer {
    #[verifier::type_invariant]
    spec fn bounded(self) -> bool {
        &&& self.pending@.len() <= self.max_line_bytes
        &&& !(self.pending_cr && self.discarding_oversized)
    }

    pub closed spec fn record_labels(self) -> FramerLabels {
        self.labels
    }

    /// The most bytes of a line.
    pub closed spec fn most(self) -> int {
        self.max_line_bytes as int
    }

    /// The settings stay the same.
    pub open spec fn set_as(self, other: Self) -> bool {
        self.record_labels() == other.record_labels() && self.most() == other.most()
    }

    /// A framer for lines of at most `max_line_bytes`.
    pub fn new(
        source: LogSource,
        level: LogLevel,
        generation: Option<u64>,
        model_id: Option<ModelId>,
        max_line_bytes: usize,
    ) -> (result: Result<Self, AppError>)
        ensures
            match result {
                Ok(framer) => {
                    &&& 0 < max_line_bytes <= MAX_ENGINE_LOG_LINE_BYTES
                    &&& framer.record_labels() == (FramerLabels { source, level, generation, model_id })
                    &&& framer.most() == max_line_bytes
                    &&& framer@ == (Framing { pending: Seq::empty(), pending_cr: false, discarding: false })
                },
                Err(error) => !(0 < max_line_bytes <= MAX_ENGINE_LOG_LINE_BYTES) && error
                    == AppError::InvalidLogLimit("max_line_bytes"),
            },
    {
        if max_line_bytes == 0 || max_line_bytes > MAX_ENGINE_LOG_LINE_BYTES {
            return Err(AppError::InvalidLogLimit("max_line_bytes"));
        }
        let pending: Vec<u8> = Vec::with_capacity(max_line_bytes);
        Ok(
            EngineLogFramer {
                labels: FramerLabels { source, level, generation, model_id },
                max_line_bytes,
                pending,
                pending_cr: false,
                discarding_oversized: false,
            },
        )
    }

    fn emit(
        &mut self,
        store: &mut LogStore,
        timestamp_ms: u64,
        truncated: bool,
        follower: Option<&LogSubscriber>,
    )
        ensures
            final(self).set_as(*old(self)),
            final(self)@ == (Framing { pending: Seq::empty(), ..old(self)@ }),
            logged_to(
                old(store)@,
                final(store)@,
                seq![
                    frame_record(
                        old(self).record_labels(),
                        timestamp_ms,
                        (Frame { bytes: old(self)@.pending, truncated }),
                    ),
                ],
                followed(old(store)@, follower),
            ),
    {
        proof {
            use_type_invariant(&*self);
        }
        let message = text_from_bytes(self.pending.as_slice());
        self.pending = Vec::with_capacity(self.max_line_bytes);
        let record = LogRecord {
            timestamp_ms,
            source: self.labels.source,
            level: self.labels.level,
            generation: self.labels.generation,
            model_id: self.labels.model_id,
            message,
            truncated,
        };
        let ghost before = store@;
        let ghost told = redacted_record(record@);
        store.take_in(record, follower);
        proof {
            let delivered = store@.sent == before.sent.push(told) && store@.delivery_drops == before.delivery_drops;
            lemma_one_logged(before, store@, told, delivered, followed(before, follower));
        }
    }

    fn push_content(
        &mut self,
        store: &mut LogStore,
        byte: u8,
        timestamp_ms: u64,
        follower: Option<&LogSubscriber>,
    ) -> (kept: bool)
        requires
            !old(self)@.discarding,
            !old(self)@.pending_cr,
        ensures
            final(self).set_as(*old(self)),
            final(self)@ == content_framed(old(self)@, byte, old(self).most()).0,
            kept == !final(self)@.discarding,
            logged_to(
                old(store)@,
                final(store)@,
                frame_records(
                    old(self).record_labels(),
                    timestamp_ms,
                    content_framed(old(self)@, byte, old(self).most()).1,
                ),
                followed(old(store)@, follower),
            ),
    {
        proof {
            use_type_invariant(&*self);
        }
        let ghost frames = content_framed(self@, byte, self.most()).1;
        let ghost records = frame_records(self.labels, timestamp_ms, frames);
        proof {
            lemma_nothing_logged(store@, followed(store@, follower));
        }
        if self.pending.len() < self.max_line_bytes {
            let mut pending: Vec<u8> = Vec::new();
            core::mem::swap(&mut pending, &mut self.pending);
            pending.push(byte);
            self.pending = pending;
            assert(records =~= Seq::empty());
            true
        } else {
            assert(records =~= seq![frame_record(self.labels, timestamp_ms, frames[0])]);
            self.emit(store, timestamp_ms, true, follower);
            self.discarding_oversized = true;
            false
        }
    }

    fn push_byte(
        &mut self,
        store: &mut LogStore,
        byte: u8,
        timestamp_ms: u64,
        follower: Option<&LogSubscriber>,
    )
        ensures
            final(self).set_as(*old(self)),
            final(self)@ == byte_framed(old(self)@, byte, old(self).most()).0,
            logged_to(
                old(store)@,
                final(store)@,
                frame_records(
                    old(self).record_labels(),
                    timestamp_ms,
                    byte_framed(old(self)@, byte, old(self).most()).1,
                ),
                followed(old(store)@, follower),
            ),
    {
        proof {
            use_type_invariant(&*self);
        }
        let ghost frames = byte_framed(self@, byte, self.most()).1;
        let ghost records = frame_records(self.labels, timestamp_ms, frames);
        let ghost before = store@;
        proof {
            lemma_nothing_logged(before, followed(before, follower));
            assert(frames.len() == 0 ==> records =~= Seq::empty());
            assert(frames.len() == 1 ==> records =~= seq![frame_record(self.labels, timestamp_ms, frames[0])]);
        }
        if self.discarding_oversized {
            if byte == LINE_FEED {
                self.discarding_oversized = false;
            }
            return;
        }
        if self.pending_cr {
            self.pending_cr = false;
            if byte != LINE_FEED {
                let ghost first = frame_records(
                    self.labels,
                    timestamp_ms,
                    content_framed(self@, CARRIAGE_RETURN, self.most()).1,
                );
                if !self.push_content(store, CARRIAGE_RETURN, timestamp_ms, follower) {
                    return;
                }
                proof {
                    assert(first =~= Seq::empty());
                    lemma_store_as_before(before, store@);
                }
            }
        }
        if byte == LINE_FEED {
            self.emit(store, timestamp_ms, false, follower);
        } else if byte == CARRIAGE_RETURN {
            self.pending_cr = true;
        } else {
            self.push_content(store, byte, timestamp_ms, follower);
        }
    }

    fn push_bytes(
        &mut self,
        store: &mut LogStore,
        timestamp_ms: u64,
        bytes: &[u8],
        follower: Option<&LogSubscriber>,
    )
        ensures
            final(self).set_as(*old(self)),
            final(self)@ == framed(old(self)@, bytes@, old(self).most()).0,
            logged_to(
                old(store)@,
                final(store)@,
                frame_records(
                    old(self).record_labels(),
                    timestamp_ms,
                    framed(old(self)@, bytes@, old(self).most()).1,
                ),
                followed(old(store)@, follower),
            ),
    {
        let ghost start = *self;
        let ghost first = store@;
        assert(bytes@.take(0) =~= Seq::empty());
        proof {
            lemma_nothing_logged(first, followed(first, follower));
            assert(frame_records(start.record_labels(), timestamp_ms, Seq::empty()) =~= Seq::empty());
        }
        for index in 0..bytes.len()
            invariant
                self.set_as(start),
                self@ == framed(start@, bytes@.take(index as int), start.most()).0,
                logged_to(
                    first,
                    store@,
                    frame_records(
                        start.record_labels(),
                        timestamp_ms,
                        framed(start@, bytes@.take(index as int), start.most()).1,
                    ),
                    followed(first, follower),
                ),
        {
            let ghost middle = store@;
            let ghost labels = start.record_labels();
            let ghost frames = framed(start@, bytes@.take(index as int), start.most()).1;
            let ghost more = byte_framed(self@, bytes@[index as int], start.most()).1;
            proof {
                let taken = bytes@.take(index + 1);
                assert(taken.drop_last() =~= bytes@.take(index as int));
                assert(taken.last() == bytes@[index as int]);
                assert(frame_records(labels, timestamp_ms, frames + more) =~= frame_records(
                    labels,
                    timestamp_ms,
                    frames,
                ) + frame_records(labels, timestamp_ms, more));
            }
            self.push_byte(store, bytes[index], timestamp_ms, follower);
            proof {
                lemma_logged_chains(
                    first,
                    middle,
                    store@,
                    frame_records(labels, timestamp_ms, frames),
                    frame_records(labels, timestamp_ms, more),
                    followed(first, follower),
                );
            }
        }
        assert(bytes@.take(bytes@.len() as int) =~= bytes@);
    }

    fn finish_line(&mut self, store: &mut LogStore, timestamp_ms: u64, follower: Option<&LogSubscriber>)
        ensures
            final(self).set_as(*old(self)),
            final(self)@ == finished(old(self)@, old(self).most()).0,
            logged_to(
                old(store)@,
                final(store)@,
                frame_records(
                    old(self).record_labels(),
                    timestamp_ms,
                    finished(old(self)@, old(self).most()).1,
                ),
                followed(old(store)@, follower),
            ),
    {
        proof {
            use_type_invariant(&*self);
        }
        let ghost frames = finished(self@, self.most()).1;
        let ghost records = frame_records(self.labels, timestamp_ms, frames);
        let ghost before = store@;
        proof {
            lemma_nothing_logged(before, followed(before, follower));
            assert(frames.len() == 0 ==> records =~= Seq::empty());
            assert(frames.len() == 1 ==> records =~= seq![frame_record(self.labels, timestamp_ms, frames[0])]);
        }
        if self.pending_cr {
            self.pending_cr = false;
            let ghost first = frame_records(
                self.labels,
                timestamp_ms,
                content_framed(self@, CARRIAGE_RETURN, self.most()).1,
            );
            let kept = self.push_content(store, CARRIAGE_RETURN, timestamp_ms, follower);
            proof {
                if kept {
                    assert(first =~= Seq::empty());
                    lemma_store_as_before(before, store@);
                }
            }
        }
        if self.pending.len() > 0 {
            self.emit(store, timestamp_ms, false, follower);
        }
        self.discarding_oversized = false;
    }

    /// Takes bytes of the stream: every line that they end is logged.
    pub fn push(&mut self, store: &mut LogStore, timestamp_ms: u64, bytes: &[u8])
        ensures
            final(self).set_as(*old(self)),
            final(self)@ == framed(old(self)@, bytes@, old(self).most()).0,
            logged(
                old(store)@,
                final(store)@,
                frame_records(
                    old(self).record_labels(),
                    timestamp_ms,
                    framed(old(self)@, bytes@, old(self).most()).1,
                ),
            ),
    {
        self.push_bytes(store, timestamp_ms, bytes, None);
    }

    /// Does what `push` does while a subscriber of the store is at hand: every line is
    /// handed out, and no delivery is lost.
    pub fn push_for(&mut self, store: &mut LogStore, timestamp_ms: u64, bytes: &[u8], subscriber: &LogSubscriber)
        requires
            subscriber@.channel == old(store)@.channel,
        ensures
            final(self).set_as(*old(self)),
            final(self)@ == framed(old(self)@, bytes@, old(self).most()).0,
            logged_to(
                old(store)@,
                final(store)@,
                frame_records(
                    old(self).record_labels(),
                    timestamp_ms,
                    framed(old(self)@, bytes@, old(self).most()).1,
                ),
                true,
            ),
    {
        self.push_bytes(store, timestamp_ms, bytes, Some(subscriber));
    }

    /// The stream ended: what is left is logged as a line.
    pub fn finish(&mut self, store: &mut LogStore, timestamp_ms: u64)
        ensures
            final(self).set_as(*old(self)),
            final(self)@ == finished(old(self)@, old(self).most()).0,
            logged(
                old(store)@,
                final(store)@,
                frame_records(
                    old(self).record_labels(),
                    timestamp_ms,
                    finished(old(self)@, old(self).most()).1,
                ),
            ),
    {
        self.finish_line(store, timestamp_ms, None);
    }

    /// Does what `finish` does while a subscriber of the store is at hand: the line is
    /// handed out, and no delivery is lost.
    pub fn finish_for(&mut self, store: &mut LogStore, timestamp_ms: u64, subscriber: &LogSubscriber)
        requires
            subscriber@.channel == old(store)@.channel,
        ensures
            final(self).set_as(*old(self)),
            final(self)@ == finished(old(self)@, old(self).most()).0,
            logged_to(
                old(store)@,
                final(store)@,
                frame_records(
                    old(self).record_labels(),
                    timestamp_ms,
                    finished(old(self)@, old(self).most()).1,
                ),
                true,
            ),
    {
        self.finish_line(store, timestamp_ms, Some(subscriber));
    }

    /// How many bytes of an unfinished line are kept.
    pub fn pending_len(&self) -> (result: usize)
        ensures
            result == self@.pending.len(),
            result <= self.most(),
    {
        proof {
            use_type_invariant(self);
        }
        self.pending.len()
    }
}

} // verus!
