//! The commands that start, own and stop an engine inside a distribution.

use vstd::prelude::*;

use crate::text::{
    add_text, all_digits, chars_of, decimal, decimal_of, digits_value, has_prefix, is_digit, parse_unsigned, part_of,
    stands_at, texts,
};

verus! {

/// Prints the process that the engine will be, then becomes the engine.
pub const LAUNCH_SCRIPT: &'static str = "printf 'MODEL_LAUNCHER_PID=%s\\n' \"$$\"; exec \"$@\"";

/// The name that the script runs under.
pub const LAUNCH_SENTINEL: &'static str = "model-launcher";

/// The name that the script which signals an owned process runs under.
pub const SIGNAL_SENTINEL: &'static str = "model-launcher-signal";

/// The command that starts the engine: every value is an argument of its own.
pub fn launch_argv(distribution: &str, executable: &str, model: &str, settings: &Vec<String>) -> (result: Vec<
    String,
>)
    ensures
        texts(result@) == seq![
            "-d"@,
            distribution@,
            "--"@,
            "sh"@,
            "-c"@,
            LAUNCH_SCRIPT@,
            LAUNCH_SENTINEL@,
            executable@,
            model@,
        ] + texts(settings@),
{
    let mut argv: Vec<String> = Vec::new();
    assert(texts(argv@) =~= Seq::empty());
    add_text(&mut argv, "-d");
    add_text(&mut argv, distribution);
    add_text(&mut argv, "--");
    add_text(&mut argv, "sh");
    add_text(&mut argv, "-c");
    add_text(&mut argv, LAUNCH_SCRIPT);
    add_text(&mut argv, LAUNCH_SENTINEL);
    add_text(&mut argv, executable);
    add_text(&mut argv, model);
    let ghost head = texts(argv@);
    assert(head =~= seq![
        "-d"@,
        distribution@,
        "--"@,
        "sh"@,
        "-c"@,
        LAUNCH_SCRIPT@,
        LAUNCH_SENTINEL@,
        executable@,
        model@,
    ]);
    for index in 0..settings.len()
        invariant
            texts(argv@) == head + texts(settings@).take(index as int),
    {
        add_text(&mut argv, settings[index].as_str());
        assert(texts(argv@) =~= head + texts(settings@).take(index + 1));
    }
    assert(texts(settings@).take(settings@.len() as int) =~= texts(settings@));
    argv
}

/// How a process is told to end.
#[derive(Clone, Copy, Debug, PartialEq, Eq, Structural)]
pub enum Signal {
    Term,
    Kill,
}

impl Signal {
    pub open spec fn flag_text(self) -> Seq<char> {
        match self {
            Signal::Term => "-TERM"@,
            Signal::Kill => "-KILL"@,
        }
    }

    pub open spec fn word_text(self) -> Seq<char> {
        match self {
            Signal::Term => "TERM"@,
            Signal::Kill => "KILL"@,
        }
    }
}

/// The command that signals a process.
pub fn signal_argv(distribution: &str, pid: u32, signal: Signal) -> (result: Vec<String>)
    ensures
        texts(result@) == seq![
            "-d"@,
            distribution@,
            "--"@,
            "kill"@,
            signal.flag_text(),
            "--"@,
            decimal(pid as nat),
        ],
{
    let mut argv: Vec<String> = Vec::new();
    assert(texts(argv@) =~= Seq::empty());
    add_text(&mut argv, "-d");
    add_text(&mut argv, distribution);
    add_text(&mut argv, "--");
    add_text(&mut argv, "kill");
    match signal {
        Signal::Term => {
            add_text(&mut argv, "-TERM");
        },
        Signal::Kill => {
            add_text(&mut argv, "-KILL");
        },
    }
    add_text(&mut argv, "--");
    add_text(&mut argv, decimal_of(pid as u64).as_str());
    argv
}

/// A process that was started here. The time it started tells it from a later
/// process with the same number.
#[derive(Clone, Copy, Debug, PartialEq, Eq, Structural)]
pub struct OwnedPid {
    pub pid: u32,
    pub start_time: u64,
}

/// The command that signals an owned process: the script reads the signal, the
/// number and the start time as its arguments.
pub fn guarded_signal_argv(distribution: &str, owned: OwnedPid, signal: Signal) -> (result: Vec<String>)
    ensures
        texts(result@) == seq![
            "-d"@,
            distribution@,
            "--"@,
            "sh"@,
            "-s"@,
            SIGNAL_SENTINEL@,
            signal.word_text(),
            decimal(owned.pid as nat),
            decimal(owned.start_time as nat),
        ],
{
    let mut argv: Vec<String> = Vec::new();
    assert(texts(argv@) =~= Seq::empty());
    add_text(&mut argv, "-d");
    add_text(&mut argv, distribution);
    add_text(&mut argv, "--");
    add_text(&mut argv, "sh");
    add_text(&mut argv, "-s");
    add_text(&mut argv, SIGNAL_SENTINEL);
    match signal {
        Signal::Term => {
            add_text(&mut argv, "TERM");
        },
        Signal::Kill => {
            add_text(&mut argv, "KILL");
        },
    }
    add_text(&mut argv, decimal_of(owned.pid as u64).as_str());
    add_text(&mut argv, decimal_of(owned.start_time).as_str());
    argv
}

/// Why a line of the launch script cannot be trusted.
#[derive(Clone, Copy, Debug, PartialEq, Eq, Structural)]
pub enum PidError {
    Invalid,
}

impl PidError {
    pub fn to_string(&self) -> (result: String)
        ensures
            result@ == "invalid PID control line"@,
    {
        "invalid PID control line".to_owned()
    }
}

/// A number as the launch script prints it: digits without a leading zero.
pub open spec fn printed_number(digits: Seq<char>, limit: nat) -> Option<nat> {
    if digits.len() > 0 && digits[0] != '0' && all_digits(digits) && digits_value(digits) <= limit {
        Some(digits_value(digits))
    } else {
        None
    }
}

/// The number on a line that starts with `label` and ends with a line feed.
pub open spec fn labelled_number(line: Seq<char>, label: Seq<char>, limit: nat) -> Option<nat> {
    if line.len() > label.len() && has_prefix(line, label) && line.last() == '\n' {
        printed_number(line.subrange(label.len() as int, line.len() - 1), limit)
    } else {
        None
    }
}

fn read_labelled(line: &[char], label: &[char], limit: u64) -> (result: Option<u64>)
    ensures
        match result {
            Some(value) => labelled_number(line@, label@, limit as nat) == Some(value as nat),
            None => labelled_number(line@, label@, limit as nat) is None,
        },
{
    if line.len() <= label.len() || !stands_at(line, label, 0) || line[line.len() - 1] != '\n' {
        return None;
    }
    let digits = part_of(line, label.len(), line.len() - 1);
    if digits.len() == 0 || digits[0] == '0' || digits[0] == '+' {
        return None;
    }
    parse_unsigned(&digits, limit)
}

/// The label of the line with the number of the process.
pub open spec fn pid_label() -> Seq<char> {
    "MODEL_LAUNCHER_PID="@
}

/// The label of the line with the time at which the process started.
pub open spec fn start_label() -> Seq<char> {
    "MODEL_LAUNCHER_START_TIME="@
}

/// The number of the process from the line that the launch script prints. Nothing
/// else may stand on the line.
pub fn parse_pid_control_line(line: &str) -> (result: Result<u32, PidError>)
    ensures
        match result {
            Ok(pid) => labelled_number(line@, pid_label(), u32::MAX as nat) == Some(pid as nat),
            Err(_) => labelled_number(line@, pid_label(), u32::MAX as nat) is None,
        },
{
    let text = chars_of(line);
    match read_labelled(&text, &chars_of("MODEL_LAUNCHER_PID="), u32::MAX as u64) {
        Some(pid) => Ok(pid as u32),
        None => Err(PidError::Invalid),
    }
}

/// The owned process that two lines name: the number, then the start time.
pub open spec fn ownership(lines: Seq<char>) -> Option<OwnedPid> {
    match first_break(lines) {
        Some(at) => match (
            labelled_number(lines.take(at + 1), pid_label(), u32::MAX as nat),
            labelled_number(lines.skip(at + 1), start_label(), u64::MAX as nat),
        ) {
            (Some(pid), Some(start)) => Some(OwnedPid { pid: pid as u32, start_time: start as u64 }),
            _ => None,
        },
        None => None,
    }
}

/// Where the first line ends.
pub open spec fn first_break(text: Seq<char>) -> Option<int>
    decreases text.len(),
{
    if text.len() == 0 {
        None
    } else {
        match first_break(text.drop_last()) {
            Some(at) => Some(at),
            None => if text.last() == '\n' {
                Some(text.len() - 1)
            } else {
                None
            },
        }
    }
}

/// The first line ends inside the text.
pub proof fn lemma_first_break_is_inside(text: Seq<char>)
    ensures
        first_break(text) matches Some(at) ==> 0 <= at < text.len(),
    decreases text.len(),
{
    if text.len() > 0 {
        lemma_first_break_is_inside(text.drop_last());
    }
}

fn find_break(text: &[char]) -> (result: Option<usize>)
    ensures
        match result {
            Some(at) => first_break(text@) == Some(at as int) && at < text@.len(),
            None => first_break(text@) is None,
        },
{
    for index in 0..text.len()
        invariant
            first_break(text@.take(index as int)) is None,
    {
        assert(text@.take(index + 1).drop_last() =~= text@.take(index as int));
        if text[index] == '\n' {
            proof {
                lemma_break_stays(text@, index + 1);
            }
            return Some(index);
        }
    }
    assert(text@.take(text@.len() as int) =~= text@);
    None
}

proof fn lemma_break_stays(text: Seq<char>, kept: int)
    requires
        0 <= kept <= text.len(),
        first_break(text.take(kept)) is Some,
    ensures
        first_break(text) == first_break(text.take(kept)),
    decreases text.len(),
{
    if kept == text.len() {
        assert(text.take(kept) =~= text);
    } else {
        assert(text.drop_last().take(kept) =~= text.take(kept));
        lemma_break_stays(text.drop_last(), kept);
    }
}

/// The owned process from the two lines that the engine's start prints. Nothing
/// else may stand on the lines.
pub fn parse_ownership_handshake(lines: &str) -> (result: Result<OwnedPid, PidError>)
    ensures
        match result {
            Ok(owned) => ownership(lines@) == Some(owned),
            Err(_) => ownership(lines@) is None,
        },
{
    let text = chars_of(lines);
    let at = match find_break(&text) {
        Some(at) => at,
        None => {
            return Err(PidError::Invalid);
        },
    };
    let first = part_of(&text, 0, at + 1);
    let second = part_of(&text, at + 1, text.len());
    assert(first@ =~= lines@.take(at + 1));
    assert(second@ =~= lines@.skip(at + 1));
    let pid = match read_labelled(&first, &chars_of("MODEL_LAUNCHER_PID="), u32::MAX as u64) {
        Some(pid) => pid,
        None => {
            return Err(PidError::Invalid);
        },
    };
    match read_labelled(&second, &chars_of("MODEL_LAUNCHER_START_TIME="), u64::MAX) {
        Some(start_time) => Ok(OwnedPid { pid: pid as u32, start_time }),
        None => Err(PidError::Invalid),
    }
}

/// A number is read back from its decimal form.
pub proof fn lemma_decimal_reads_back(value: nat)
    ensures
        decimal(value).len() > 0,
        all_digits(decimal(value)),
        digits_value(decimal(value)) == value,
        value > 0 ==> decimal(value)[0] != '0',
    decreases value,
{
    let text = decimal(value);
    if value < 10 {
        assert(text.drop_last() =~= Seq::empty());
        assert(digits_value(Seq::empty()) == 0);
    } else {
        lemma_decimal_reads_back(value / 10);
        assert(text.drop_last() =~= decimal(value / 10));
        assert forall|index: int| 0 <= index < text.len() implies is_digit(#[trigger] text[index]) by {
            if index < text.len() - 1 {
                assert(text[index] == decimal(value / 10)[index]);
            }
        }
    }
}

proof fn lemma_labelled_line(label: Seq<char>, value: nat, limit: nat)
    requires
        0 < value <= limit,
    ensures
        labelled_number(label + decimal(value) + seq!['\n'], label, limit) == Some(value),
{
    let line = label + decimal(value) + seq!['\n'];
    lemma_decimal_reads_back(value);
    assert(line.subrange(0, label.len() as int) =~= label);
    assert(line.subrange(label.len() as int, line.len() - 1) =~= decimal(value));
}

/// The number of a process that the launch script prints is read back from its
/// line.
pub proof fn law_printed_pid_is_read_back(pid: u32)
    requires
        pid > 0,
    ensures
        labelled_number(pid_label() + decimal(pid as nat) + seq!['\n'], pid_label(), u32::MAX as nat) == Some(
            pid as nat,
        ),
{
    lemma_labelled_line(pid_label(), pid as nat, u32::MAX as nat);
}

/// A process whose number and start time are printed on two lines is read back from
/// them.
pub proof fn law_printed_process_is_read_back(owned: OwnedPid)
    requires
        owned.pid > 0,
        owned.start_time > 0,
    ensures
        ownership(
            pid_label() + decimal(owned.pid as nat) + seq!['\n'] + start_label() + decimal(owned.start_time as nat)
                + seq!['\n'],
        ) == Some(owned),
{
    let first = pid_label() + decimal(owned.pid as nat) + seq!['\n'];
    let second = start_label() + decimal(owned.start_time as nat) + seq!['\n'];
    let lines = pid_label() + decimal(owned.pid as nat) + seq!['\n'] + start_label() + decimal(
        owned.start_time as nat,
    ) + seq!['\n'];
    let at = first.len() - 1;
    assert(lines =~= first + second);
    assert(lines.take(at + 1) =~= first);
    assert(lines.skip(at + 1) =~= second);
    lemma_labelled_line(pid_label(), owned.pid as nat, u32::MAX as nat);
    lemma_labelled_line(start_label(), owned.start_time as nat, u64::MAX as nat);
    let body = pid_label() + decimal(owned.pid as nat);
    assert(first.drop_last() =~= body);
    assert(first_break(body) is None) by {
        lemma_decimal_reads_back(owned.pid as nat);
        reveal_strlit("MODEL_LAUNCHER_PID=");
        assert forall|index: int| 0 <= index < body.len() implies #[trigger] body[index] != '\n' by {
            if index >= pid_label().len() {
                assert(is_digit(decimal(owned.pid as nat)[index - pid_label().len()]));
            }
        }
        lemma_no_break(body);
    }
    lemma_break_stays(lines, at + 1);
}

proof fn lemma_no_break(text: Seq<char>)
    requires
        forall|index: int| 0 <= index < text.len() ==> #[trigger] text[index] != '\n',
    ensures
        first_break(text) is None,
    decreases text.len(),
{
    if text.len() > 0 {
        lemma_no_break(text.drop_last());
    }
}

} // verus!
