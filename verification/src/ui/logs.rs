//! The log as a user reads and filters it.

use vstd::prelude::*;

use crate::launcher::log::{
    json_lines, LogFilter, LogLevel, LogRecord, LogRecordView, LogSource, LogStore, record_list,
};
use crate::text::{decimal, push_decimal, push_text, same_text};

verus! {

pub open spec fn source_name(source: LogSource) -> Seq<char> {
    match source {
        LogSource::Application => "Application"@,
        LogSource::EngineStdout => "EngineStdout"@,
        LogSource::EngineStderr => "EngineStderr"@,
    }
}

pub open spec fn level_name(level: LogLevel) -> Seq<char> {
    match level {
        LogLevel::Trace => "Trace"@,
        LogLevel::Debug => "Debug"@,
        LogLevel::Info => "Info"@,
        LogLevel::Warn => "Warn"@,
        LogLevel::Error => "Error"@,
    }
}

fn source_word(source: LogSource) -> (result: &'static str)
    ensures
        result@ == source_name(source),
{
    match source {
        LogSource::Application => "Application",
        LogSource::EngineStdout => "EngineStdout",
        LogSource::EngineStderr => "EngineStderr",
    }
}

fn level_word(level: LogLevel) -> (result: &'static str)
    ensures
        result@ == level_name(level),
{
    match level {
        LogLevel::Trace => "Trace",
        LogLevel::Debug => "Debug",
        LogLevel::Info => "Info",
        LogLevel::Warn => "Warn",
        LogLevel::Error => "Error",
    }
}

/// A record as a line.
pub open spec fn line_text(record: LogRecordView) -> Seq<char> {
    decimal(record.timestamp_ms as nat) + " "@ + source_name(record.source) + " "@ + level_name(record.level)
        + "  "@ + record.message
}

/// Records as lines, with a line feed between them.
pub open spec fn lines_text(records: Seq<LogRecordView>) -> Seq<char>
    decreases records.len(),
{
    if records.len() == 0 {
        Seq::empty()
    } else if records.len() == 1 {
        line_text(records[0])
    } else {
        lines_text(records.drop_last()) + "\n"@ + line_text(records.last())
    }
}

/// A record as a line.
pub fn log_line(record: &LogRecord) -> (result: String)
    ensures
        result@ == line_text(record@),
{
    let mut line = String::new();
    push_decimal(&mut line, record.timestamp_ms);
    push_text(&mut line, " ");
    push_text(&mut line, source_word(record.source));
    push_text(&mut line, " ");
    push_text(&mut line, level_word(record.level));
    push_text(&mut line, "  ");
    push_text(&mut line, record.message.as_str());
    assert(line@ =~= line_text(record@));
    line
}

/// Records as lines, to be copied.
pub fn log_text(records: &Vec<LogRecord>) -> (result: String)
    ensures
        result@ == lines_text(record_list(records@)),
{
    let mut text = String::new();
    let ghost all = record_list(records@);
    assert(all.take(0) =~= Seq::empty());
    assert(text@ =~= lines_text(all.take(0)));
    for index in 0..records.len()
        invariant
            all == record_list(records@),
            text@ == lines_text(all.take(index as int)),
    {
        proof {
            let taken = all.take(index + 1);
            assert(taken.drop_last() =~= all.take(index as int));
            assert(taken.last() == records@[index as int]@);
        }
        if index > 0 {
            push_text(&mut text, "\n");
        }
        push_text(&mut text, log_line(&records[index]).as_str());
        if index == 0 {
            assert(text@ =~= line_text(all.take(1)[0]));
        }
    }
    assert(all.take(all.len() as int) =~= all);
    text
}

pub open spec fn chosen_source(word: Seq<char>) -> Option<LogSource> {
    if word == "Application"@ {
        Some(LogSource::Application)
    } else if word == "Engine stdout"@ {
        Some(LogSource::EngineStdout)
    } else if word == "Engine stderr"@ {
        Some(LogSource::EngineStderr)
    } else {
        None
    }
}

pub open spec fn chosen_level(word: Seq<char>) -> Option<LogLevel> {
    if word == "Trace"@ {
        Some(LogLevel::Trace)
    } else if word == "Debug"@ {
        Some(LogLevel::Debug)
    } else if word == "Info"@ {
        Some(LogLevel::Info)
    } else if word == "Warn"@ {
        Some(LogLevel::Warn)
    } else if word == "Error"@ {
        Some(LogLevel::Error)
    } else {
        None
    }
}

/// The filter that a user chose by words of a list; any other word chooses
/// everything.
pub fn chosen_filter(source: &str, level: &str) -> (result: LogFilter)
    ensures
        result == (LogFilter { source: chosen_source(source@), minimum_level: chosen_level(level@) }),
{
    let source = if same_text(source, "Application") {
        Some(LogSource::Application)
    } else if same_text(source, "Engine stdout") {
        Some(LogSource::EngineStdout)
    } else if same_text(source, "Engine stderr") {
        Some(LogSource::EngineStderr)
    } else {
        None
    };
    let minimum_level = if same_text(level, "Trace") {
        Some(LogLevel::Trace)
    } else if same_text(level, "Debug") {
        Some(LogLevel::Debug)
    } else if same_text(level, "Info") {
        Some(LogLevel::Info)
    } else if same_text(level, "Warn") {
        Some(LogLevel::Warn)
    } else if same_text(level, "Error") {
        Some(LogLevel::Error)
    } else {
        None
    };
    LogFilter { source, minimum_level }
}

pub open spec fn queried_source(word: Option<Seq<char>>) -> Option<LogSource> {
    match word {
        Some(word) => if word == LogSource::Application.word_text() {
            Some(LogSource::Application)
        } else if word == LogSource::EngineStdout.word_text() {
            Some(LogSource::EngineStdout)
        } else if word == LogSource::EngineStderr.word_text() {
            Some(LogSource::EngineStderr)
        } else {
            None
        },
        None => None,
    }
}

pub open spec fn queried_level(word: Option<Seq<char>>) -> Option<LogLevel> {
    match word {
        Some(word) => if word == LogLevel::Trace.word_text() {
            Some(LogLevel::Trace)
        } else if word == LogLevel::Debug.word_text() {
            Some(LogLevel::Debug)
        } else if word == LogLevel::Info.word_text() {
            Some(LogLevel::Info)
        } else if word == LogLevel::Warn.word_text() {
            Some(LogLevel::Warn)
        } else if word == LogLevel::Error.word_text() {
            Some(LogLevel::Error)
        } else {
            None
        },
        None => None,
    }
}

pub open spec fn optional_word(word: Option<&str>) -> Option<Seq<char>> {
    match word {
        Some(word) => Some(word@),
        None => None,
    }
}

/// The filter of a query by the words of an export; any other word, or none, asks
/// for everything.
pub fn queried_filter(source: Option<&str>, level: Option<&str>) -> (result: LogFilter)
    ensures
        result == (LogFilter {
            source: queried_source(optional_word(source)),
            minimum_level: queried_level(optional_word(level)),
        }),
{
    let source = match source {
        Some(word) => if same_text(word, "application") {
            Some(LogSource::Application)
        } else if same_text(word, "engine_stdout") {
            Some(LogSource::EngineStdout)
        } else if same_text(word, "engine_stderr") {
            Some(LogSource::EngineStderr)
        } else {
            None
        },
        None => None,
    };
    let minimum_level = match level {
        Some(word) => if same_text(word, "trace") {
            Some(LogLevel::Trace)
        } else if same_text(word, "debug") {
            Some(LogLevel::Debug)
        } else if same_text(word, "info") {
            Some(LogLevel::Info)
        } else if same_text(word, "warn") {
            Some(LogLevel::Warn)
        } else if same_text(word, "error") {
            Some(LogLevel::Error)
        } else {
            None
        },
        None => None,
    };
    LogFilter { source, minimum_level }
}

/// What a user can do with the log.
pub struct LogCommands {
    pub store: LogStore,
}

impl LogCommands {
    pub fn new(store: LogStore) -> (result: Self)
        ensures
            result.store == store,
    {
        LogCommands { store }
    }

    pub fn snapshot(&self, filter: LogFilter) -> (result: Vec<LogRecord>)
        ensures
            record_list(result@) == self.store@.records.filter(|record: LogRecordView| filter.wants(record)),
    {
        self.store.filtered_snapshot(filter)
    }

    pub fn export(&self) -> (result: String)
        ensures
            result@ == json_lines(self.store@.records),
    {
        self.store.export_json_lines()
    }

    /// The wanted records as lines, to be copied.
    pub fn copy_text(&self, filter: LogFilter) -> (result: String)
        ensures
            result@ == lines_text(
                self.store@.records.filter(|record: LogRecordView| filter.wants(record)),
            ),
    {
        log_text(&self.snapshot(filter))
    }
}

/// The words that a user chooses from name what is shown: a source and a level are
/// found again under the words of their lists, and nothing else is.
pub proof fn law_chosen_words_name_what_is_shown(source: LogSource, level: LogLevel, word: Seq<char>)
    ensures
        chosen_source("Application"@) == Some(LogSource::Application),
        chosen_source("Engine stdout"@) == Some(LogSource::EngineStdout),
        chosen_source("Engine stderr"@) == Some(LogSource::EngineStderr),
        chosen_source(word) is Some ==> word == "Application"@ || word == "Engine stdout"@ || word
            == "Engine stderr"@,
        chosen_level(level_name(level)) == Some(level),
        chosen_level(word) is Some ==> word == "Trace"@ || word == "Debug"@ || word == "Info"@ || word == "Warn"@
            || word == "Error"@,
        queried_source(Some(source.word_text())) == Some(source),
        queried_level(Some(level.word_text())) == Some(level),
        queried_source(None) is None,
        queried_level(None) is None,
        queried_source(Some(word)) is Some ==> word == "application"@ || word == "engine_stdout"@ || word
            == "engine_stderr"@,
        queried_level(Some(word)) is Some ==> word == "trace"@ || word == "debug"@ || word == "info"@ || word
            == "warn"@ || word == "error"@,
        level_name(LogLevel::Trace) == "Trace"@,
        level_name(LogLevel::Debug) == "Debug"@,
        level_name(LogLevel::Info) == "Info"@,
        level_name(LogLevel::Warn) == "Warn"@,
        level_name(LogLevel::Error) == "Error"@,
        LogSource::Application.word_text() == "application"@,
        LogSource::EngineStdout.word_text() == "engine_stdout"@,
        LogSource::EngineStderr.word_text() == "engine_stderr"@,
        LogLevel::Trace.word_text() == "trace"@,
        LogLevel::Debug.word_text() == "debug"@,
        LogLevel::Info.word_text() == "info"@,
        LogLevel::Warn.word_text() == "warn"@,
        LogLevel::Error.word_text() == "error"@,
{
    reveal_strlit("Application");
    reveal_strlit("Engine stdout");
    reveal_strlit("Engine stderr");
    reveal_strlit("Trace");
    reveal_strlit("Debug");
    reveal_strlit("Info");
    reveal_strlit("Warn");
    reveal_strlit("Error");
    reveal_strlit("application");
    reveal_strlit("engine_stdout");
    reveal_strlit("engine_stderr");
    reveal_strlit("trace");
    reveal_strlit("debug");
    reveal_strlit("info");
    reveal_strlit("warn");
    reveal_strlit("error");
    assert("Engine stdout"@[10] == 'o' && "Engine stderr"@[10] == 'e');
    assert("engine_stdout"@[10] == 'o' && "engine_stderr"@[10] == 'e');
    assert("Trace"@[0] == 'T' && "Debug"@[0] == 'D' && "Info"@[0] == 'I' && "Warn"@[0] == 'W' && "Error"@[0]
        == 'E');
    assert("trace"@[0] == 't' && "debug"@[0] == 'd' && "info"@[0] == 'i' && "warn"@[0] == 'w' && "error"@[0]
        == 'e');
}

/// A record is shown with its time first and its message last; several of them are
/// shown in order, each on a line of its own.
pub proof fn law_lines_show_records_in_order(records: Seq<LogRecordView>, record: LogRecordView)
    ensures
        line_text(record).take(decimal(record.timestamp_ms as nat).len() as int) == decimal(
            record.timestamp_ms as nat,
        ),
        line_text(record).skip(line_text(record).len() - record.message.len()) == record.message,
        lines_text(seq![record]) == line_text(record),
        records.len() > 0 ==> lines_text(records.push(record)) == lines_text(records) + "\n"@ + line_text(record),
        lines_text(Seq::empty()).len() == 0,
{
    assert(line_text(record).take(decimal(record.timestamp_ms as nat).len() as int) =~= decimal(
        record.timestamp_ms as nat,
    ));
    assert(line_text(record).skip(line_text(record).len() - record.message.len()) =~= record.message);
    assert(records.push(record).drop_last() =~= records);
    assert(records.push(record).last() == record);
}

} // verus!
