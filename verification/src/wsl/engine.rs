//! The engine inside a distribution: what its output means, how it is launched,
//! and what is done when it does not come up or does not go away.

use vstd::prelude::*;

use super::path::{any_refused, climbs, components, drive_root, mounted, windows_to_wsl_path};
use super::probe::{
    capture_version, identity_of, offered, parse_identity, without_breaks, ExecutableIdentity, ProbeSnapshot,
};
use super::process::{ownership, parse_ownership_handshake, OwnedPid};
use crate::launcher::capability::{
    EngineCapabilities, LaunchSettings, SpeculativeType,
};
use crate::launcher::engine::EngineSpec;
use crate::launcher::error::AppError;
use crate::launcher::log::{LogLevel, LogRecord, LogSource};
use crate::launcher::model::ModelRecord;
use crate::launcher::path_order::{order_of, same_path, PathOrder, PathStyle};
use crate::text::{
    add_text, ascii_alphanumeric, chars_of, contains, copy_texts, decimal, decimal_of, ends_with, find, has_suffix,
    is_alphanumeric, joined, lossy_text, lowered, occurs, occurs_at, parse_unsigned, part_of, push_decimal,
    push_text, rows, same_text, split, split_chars, text_from_bytes, texts, to_lowered, trim_end, trimmed_end,
    unsigned_number,
};

verus! {

/// What a command printed and whether it succeeded.
#[derive(Debug, PartialEq, Eq)]
pub struct CommandOutput {
    pub success: bool,
    pub stdout: String,
    pub stderr: String,
}

/// Why something inside a distribution failed.
#[derive(Debug)]
pub enum WslError {
    Command(String),
    Path(String),
    SpawnUnsupported,
    AddressInUse,
    NonOwnedEndpoint,
}

impl WslError {
    pub open spec fn message_text(self) -> Seq<char> {
        match self {
            WslError::Command(reason) => "command failed: "@ + reason@,
            WslError::Path(reason) => "invalid model path: "@ + reason@,
            WslError::SpawnUnsupported => "process spawning is unsupported by this runner"@,
            WslError::AddressInUse => "internal port is already in use"@,
            WslError::NonOwnedEndpoint => "internal endpoint is not owned by the launched process"@,
        }
    }

    pub fn to_string(&self) -> (result: String)
        ensures
            result@ == self.message_text(),
    {
        match self {
            WslError::Command(reason) => joined("command failed: ", reason.as_str()),
            WslError::Path(reason) => joined("invalid model path: ", reason.as_str()),
            WslError::SpawnUnsupported => "process spawning is unsupported by this runner".to_owned(),
            WslError::AddressInUse => "internal port is already in use".to_owned(),
            WslError::NonOwnedEndpoint => "internal endpoint is not owned by the launched process".to_owned(),
        }
    }
}

/// The error with a diagnostic of the distribution behind it.
pub fn app_error(error: &WslError) -> (result: AppError)
    ensures
        result.code_text() == "engine_process"@,
        result.source_text() == Some(error.message_text()),
{
    AppError::EngineProcess(error.to_string())
}

/// Two arguments stand next to each other.
pub open spec fn pair_at(argv: Seq<Seq<char>>, at: int, first: Seq<char>, second: Seq<char>) -> bool {
    0 <= at && at + 1 < argv.len() && argv[at] == first && argv[at + 1] == second
}

/// Whether a command reads the script that runs under the name `sentinel`.
pub fn uses_stdin_script(argv: &Vec<String>, sentinel: &str) -> (result: bool)
    ensures
        result == exists|at: int| pair_at(texts(argv@), at, "-s"@, sentinel@),
{
    let total: usize = argv.len();
    if total < 2 {
        return false;
    }
    for index in 0..total - 1
        invariant
            total == argv@.len(),
            total >= 2,
            forall|earlier: int|
                0 <= earlier < index ==> !#[trigger] pair_at(texts(argv@), earlier, "-s"@, sentinel@),
    {
        if same_text(argv[index].as_str(), "-s") && same_text(argv[index + 1].as_str(), sentinel) {
            assert(pair_at(texts(argv@), index as int, "-s"@, sentinel@));
            return true;
        }
    }
    false
}

/// The first place from `from` on where `flag` stands and a value follows.
pub open spec fn flag_at(argv: Seq<Seq<char>>, flag: Seq<char>, from: int) -> Option<int>
    decreases argv.len() - from,
{
    if from < 0 || from + 1 >= argv.len() {
        None
    } else if argv[from] == flag {
        Some(from)
    } else {
        flag_at(argv, flag, from + 1)
    }
}

fn find_flag(argv: &Vec<String>, flag: &str) -> (result: Option<usize>)
    ensures
        match result {
            Some(at) => flag_at(texts(argv@), flag@, 0) == Some(at as int) && at + 1 < argv@.len() <= usize::MAX,
            None => flag_at(texts(argv@), flag@, 0) is None,
        },
{
    let mut at: usize = 0;
    while at < argv.len() && argv.len() - at > 1
        invariant
            at <= argv@.len(),
            flag_at(texts(argv@), flag@, 0) == flag_at(texts(argv@), flag@, at as int),
        decreases argv@.len() - at,
    {
        if same_text(argv[at].as_str(), flag) {
            return Some(at);
        }
        at = at + 1;
    }
    None
}

/// The port that a command tells the engine to serve.
pub open spec fn port_of(argv: Seq<Seq<char>>) -> Option<nat> {
    match flag_at(argv, "--port"@, 0) {
        Some(at) => unsigned_number(argv[at + 1], u16::MAX as nat),
        None => None,
    }
}

/// The port that a command tells the engine to serve.
pub fn internal_port(argv: &Vec<String>) -> (result: Result<u16, WslError>)
    ensures
        match result {
            Ok(port) => port_of(texts(argv@)) == Some(port as nat),
            Err(error) => port_of(texts(argv@)) is None && error.message_text()
                == "command failed: missing internal port"@,
        },
{
    proof {
        reveal_strlit("command failed: ");
        reveal_strlit("missing internal port");
        reveal_strlit("command failed: missing internal port");
        assert("command failed: "@ + "missing internal port"@ =~= "command failed: missing internal port"@);
    }
    if let Some(at) = find_flag(argv, "--port") {
        assert(texts(argv@)[at + 1] == argv@[at + 1]@);
        if let Some(port) = parse_unsigned(&chars_of(argv[at + 1].as_str()), u16::MAX as u64) {
            return Ok(port as u16);
        }
    }
    Err(WslError::Command("missing internal port".to_owned()))
}

/// The arguments with another port, where they name one.
pub open spec fn moved_to(args: Seq<Seq<char>>, port: u16) -> Seq<Seq<char>> {
    match flag_at(args, "--port"@, 0) {
        Some(at) => args.update(at + 1, decimal(port as nat)),
        None => args,
    }
}

/// The arguments of another attempt, on a fresh port.
pub fn retry_args(args: &Vec<String>, port: u16) -> (result: Vec<String>)
    ensures
        texts(result@) == moved_to(texts(args@), port),
{
    let mut fresh = copy_texts(args);
    if let Some(at) = find_flag(args, "--port") {
        let text = decimal_of(port as u64);
        let ghost before = texts(fresh@);
        assert(fresh@.len() == texts(fresh@).len());
        fresh.set(at + 1, text);
        assert(texts(fresh@) =~= before.update(at + 1, decimal(port as nat)));
    }
    fresh
}

proof fn lemma_flag_has_a_value(argv: Seq<Seq<char>>, flag: Seq<char>, from: int)
    requires
        0 <= from,
        flag_at(argv, flag, from) is Some,
    ensures
        from <= flag_at(argv, flag, from)->0,
        flag_at(argv, flag, from)->0 + 1 < argv.len(),
    decreases argv.len() - from,
{
    if from + 1 < argv.len() && argv[from] != flag {
        lemma_flag_has_a_value(argv, flag, from + 1);
    }
}

/// A retry changes the port and nothing else.
pub proof fn law_retry_changes_only_the_port(args: Seq<Seq<char>>, port: u16, at: int)
    requires
        0 <= at < args.len(),
        flag_at(args, "--port"@, 0) != Some(at - 1),
    ensures
        moved_to(args, port).len() == args.len(),
        moved_to(args, port)[at] == args[at],
{
    if flag_at(args, "--port"@, 0) is Some {
        lemma_flag_has_a_value(args, "--port"@, 0);
    }
}

/// What the engine is told on its command line: to serve a port of this machine
/// only, then its settings.
pub fn launch_args(port: u16, settings: &Vec<String>) -> (result: Vec<String>)
    ensures
        texts(result@) == seq!["--host"@, "127.0.0.1"@, "--port"@, decimal(port as nat)] + texts(settings@),
{
    let mut args: Vec<String> = Vec::new();
    assert(texts(args@) =~= Seq::empty());
    add_text(&mut args, "--host");
    add_text(&mut args, "127.0.0.1");
    add_text(&mut args, "--port");
    add_text(&mut args, decimal_of(port as u64).as_str());
    let ghost head = texts(args@);
    assert(head =~= seq!["--host"@, "127.0.0.1"@, "--port"@, decimal(port as nat)]);
    for index in 0..settings.len()
        invariant
            texts(args@) == head + texts(settings@).take(index as int),
    {
        add_text(&mut args, settings[index].as_str());
        assert(texts(args@) =~= head + texts(settings@).take(index + 1));
    }
    assert(texts(settings@).take(settings@.len() as int) =~= texts(settings@));
    args
}

/// The command that lists who serves a port.
pub fn endpoint_owner_argv(distribution: &str, port: u16) -> (result: Vec<String>)
    ensures
        texts(result@) == seq![
            "-d"@,
            distribution@,
            "--"@,
            "ss"@,
            "-H"@,
            "-ltnp"@,
            "sport"@,
            "="@,
            seq![':'] + decimal(port as nat),
        ],
{
    let mut argv: Vec<String> = Vec::new();
    assert(texts(argv@) =~= Seq::empty());
    add_text(&mut argv, "-d");
    add_text(&mut argv, distribution);
    add_text(&mut argv, "--");
    add_text(&mut argv, "ss");
    add_text(&mut argv, "-H");
    add_text(&mut argv, "-ltnp");
    add_text(&mut argv, "sport");
    add_text(&mut argv, "=");
    let mut place = String::new();
    place.push(':');
    push_decimal(&mut place, port as u64);
    assert(place@ =~= seq![':'] + decimal(port as nat));
    add_text(&mut argv, place.as_str());
    argv
}

/// Whether the list of those who serve a port names exactly this process.
pub fn ss_output_owns_pid(output: &str, pid: u32) -> (result: bool)
    ensures
        result == occurs(output@, "pid="@ + decimal(pid as nat) + ","@),
{
    let mut wanted = "pid=".to_owned();
    push_decimal(&mut wanted, pid as u64);
    push_text(&mut wanted, ",");
    contains(&chars_of(output), &chars_of(wanted.as_str()))
}

/// Whether whoever printed the list owns the endpoint; a failed command tells why.
pub fn endpoint_owned(output: &CommandOutput, pid: u32) -> (result: Result<bool, WslError>)
    ensures
        match result {
            Ok(owned) => output.success && owned == occurs(
                output.stdout@,
                "pid="@ + decimal(pid as nat) + ","@,
            ),
            Err(error) => !output.success && error.message_text() == "command failed: "@ + output.stderr@,
        },
{
    if !output.success {
        return Err(WslError::Command(output.stderr.clone()));
    }
    Ok(ss_output_owns_pid(output.stdout.as_str(), pid))
}

/// The bytes start with an answer of HTTP whose status is success.
pub open spec fn healthy_answer(bytes: Seq<u8>) -> bool {
    bytes.len() >= 12 && bytes.take(7) == seq![72u8, 84, 84, 80, 47, 49, 46] && (bytes[7] == 48 || bytes[7] == 49)
        && bytes.subrange(8, 12) == seq![32u8, 50, 48, 48]
}

/// Whether the engine's answer says that it is ready.
pub fn health_ready(response: &[u8]) -> (result: bool)
    ensures
        result == healthy_answer(response@),
{
    if response.len() < 12 {
        return false;
    }
    let version = response[0] == 72 && response[1] == 84 && response[2] == 84 && response[3] == 80 && response[4]
        == 47 && response[5] == 49 && response[6] == 46;
    let status = response[8] == 32 && response[9] == 50 && response[10] == 48 && response[11] == 48;
    proof {
        let head = response@.take(7);
        let tail = response@.subrange(8, 12);
        assert(version ==> head =~= seq![72u8, 84, 84, 80, 47, 49, 46]);
        assert(status ==> tail =~= seq![32u8, 50, 48, 48]);
        if head == seq![72u8, 84, 84, 80, 47, 49, 46] {
            assert(head[0] == response@[0] && head[1] == response@[1] && head[2] == response@[2] && head[3]
                == response@[3] && head[4] == response@[4] && head[5] == response@[5] && head[6] == response@[6]);
        }
        if tail == seq![32u8, 50, 48, 48] {
            assert(tail[0] == response@[8] && tail[1] == response@[9] && tail[2] == response@[10] && tail[3]
                == response@[11]);
        }
    }
    version && (response[7] == 48 || response[7] == 49) && status
}

/// How much of the engine's error output is kept, in bytes.
pub const STDERR_TAIL_LIMIT: usize = 16_384;

/// The last bytes, up to the limit.
pub open spec fn last_bytes(bytes: Seq<u8>) -> Seq<u8> {
    if bytes.len() > STDERR_TAIL_LIMIT {
        bytes.skip(bytes.len() - STDERR_TAIL_LIMIT)
    } else {
        bytes
    }
}

/// Adds bytes to the kept end of a stream.
pub fn append_bounded_tail(tail: &mut Vec<u8>, bytes: &[u8])
    ensures
        final(tail)@ == last_bytes(old(tail)@ + bytes@),
        final(tail)@.len() <= STDERR_TAIL_LIMIT,
{
    let new: usize = if bytes.len() < STDERR_TAIL_LIMIT {
        bytes.len()
    } else {
        STDERR_TAIL_LIMIT
    };
    let room: usize = STDERR_TAIL_LIMIT - new;
    let kept: usize = if tail.len() < room {
        tail.len()
    } else {
        room
    };
    let ghost all = tail@ + bytes@;
    let mut result: Vec<u8> = Vec::new();
    let total: usize = tail.len();
    for index in total - kept..total
        invariant
            total == tail@.len(),
            kept <= total,
            result@ == tail@.subrange(total - kept, index as int),
    {
        result.push(tail[index]);
        assert(tail@.subrange(total - kept, index + 1) =~= tail@.subrange(total - kept, index as int).push(
            tail@[index as int],
        ));
    }
    let ghost first = result@;
    let length: usize = bytes.len();
    for index in length - new..length
        invariant
            length == bytes@.len(),
            new <= length,
            result@ == first + bytes@.subrange(length - new, index as int),
    {
        result.push(bytes[index]);
        assert(bytes@.subrange(length - new, index + 1) =~= bytes@.subrange(length - new, index as int).push(
            bytes@[index as int],
        ));
    }
    assert(result@ =~= last_bytes(all));
    *tail = result;
}

/// The kept end does not depend on the chunks that the bytes came in.
pub proof fn law_kept_end_ignores_chunks(start: Seq<u8>, first: Seq<u8>, second: Seq<u8>)
    ensures
        last_bytes(last_bytes(start + first) + second) == last_bytes(start + (first + second)),
{
    assert(last_bytes(last_bytes(start + first) + second) =~= last_bytes(start + (first + second)));
}

/// The name of the error stands at `at` as a word of its own.
pub open spec fn error_name_at(line: Seq<char>, at: int) -> bool {
    &&& occurs_at(line, "eaddrinuse"@, at)
    &&& at == 0 || !is_alphanumeric(line[at - 1])
    &&& at + "eaddrinuse"@.len() == line.len() || !is_alphanumeric(line[at + "eaddrinuse"@.len()])
}

/// Where a line says that an address is taken: at the phrase, or else at the name
/// of the error.
pub open spec fn conflict_at(line: Seq<char>, at: int) -> bool {
    if occurs(line, "address already in use"@) {
        &&& occurs_at(line, "address already in use"@, at)
        &&& forall|earlier: int|
            0 <= earlier < at ==> !#[trigger] occurs_at(line, "address already in use"@, earlier)
    } else {
        &&& error_name_at(line, at)
        &&& forall|earlier: int| 0 <= earlier < at ==> !#[trigger] error_name_at(line, earlier)
    }
}

/// What stands before is about binding or listening.
pub open spec fn about_listening(context: Seq<char>) -> bool {
    ||| occurs(context, "failed to bind"@)
    ||| occurs(context, "failed to listen"@)
    ||| has_suffix(context, "bind:"@)
    ||| has_suffix(context, "listen:"@)
    ||| has_suffix(context, "listener:"@)
    ||| has_suffix(context, "listen failed:"@)
}

/// A line, in lower case, says that the address to listen on is taken. A line with
/// a quotation is somebody's words.
pub open spec fn taken_line(line: Seq<char>) -> bool {
    &&& !line.contains('\'') && !line.contains('"')
    &&& exists|at: int| #[trigger] conflict_at(line, at) && about_listening(trimmed_end(line.take(at)))
}

/// A line of the text says that the address is taken.
pub open spec fn address_taken(text: Seq<char>) -> bool {
    let lines = split(lowered(text), '\n', '\n');
    exists|index: int| 0 <= index < lines.len() && taken_line(#[trigger] lines[index])
}

fn holds(text: &[char], character: char) -> (result: bool)
    ensures
        result == text@.contains(character),
{
    for index in 0..text.len()
        invariant
            forall|earlier: int| 0 <= earlier < index ==> #[trigger] text@[earlier] != character,
    {
        if text[index] == character {
            return true;
        }
    }
    false
}

fn is_about_listening(context: &[char]) -> (result: bool)
    ensures
        result == about_listening(context@),
{
    contains(context, &chars_of("failed to bind")) || contains(context, &chars_of("failed to listen")) || ends_with(
        context,
        &chars_of("bind:"),
    ) || ends_with(context, &chars_of("listen:")) || ends_with(context, &chars_of("listener:")) || ends_with(
        context,
        &chars_of("listen failed:"),
    )
}

fn find_conflict(line: &[char]) -> (result: Option<usize>)
    ensures
        match result {
            Some(at) => conflict_at(line@, at as int) && at <= line@.len(),
            None => forall|at: int| !#[trigger] conflict_at(line@, at),
        },
{
    if let Some(at) = find(line, &chars_of("address already in use"), 0) {
        return Some(at);
    }
    let name = chars_of("eaddrinuse");
    let mut from: usize = 0;
    while from <= line.len()
        invariant
            name@ == "eaddrinuse"@,
            !occurs(line@, "address already in use"@),
            forall|earlier: int| 0 <= earlier < from ==> !#[trigger] error_name_at(line@, earlier),
        decreases line@.len() + 1 - from,
    {
        let at = match find(line, &name, from) {
            Some(at) => at,
            None => {
                return None;
            },
        };
        let end: usize = at + name.len();
        if (at == 0 || !ascii_alphanumeric(line[at - 1])) && (end == line.len() || !ascii_alphanumeric(line[end])) {
            return Some(at);
        }
        if at == line.len() {
            return None;
        }
        from = at + 1;
    }
    None
}

fn is_taken_line(line: &[char]) -> (result: bool)
    ensures
        result == taken_line(line@),
{
    if holds(line, '\'') || holds(line, '"') {
        return false;
    }
    match find_conflict(line) {
        Some(at) => {
            let before = part_of(line, 0, at);
            assert(before@ =~= line@.take(at as int));
            proof {
                assert forall|other: int| #[trigger] conflict_at(line@, other) implies other == at by {
                    if other < at {
                        assert(occurs_at(line@, "address already in use"@, other) || error_name_at(line@, other));
                    }
                    if other > at {
                        assert(occurs_at(line@, "address already in use"@, at as int) || error_name_at(
                            line@,
                            at as int,
                        ));
                    }
                }
            }
            is_about_listening(&trim_end(&before))
        },
        None => false,
    }
}

/// Whether the engine's error output says that its address is taken.
pub fn is_address_in_use(bytes: &[u8]) -> (result: bool)
    ensures
        result == address_taken(lossy_text(bytes@)),
{
    let text = text_from_bytes(bytes);
    let lines = split_chars(&to_lowered(&chars_of(text.as_str())), '\n', '\n');
    let ghost names = split(lowered(text@), '\n', '\n');
    for index in 0..lines.len()
        invariant
            rows(lines@) == names,
            names == split(lowered(text@), '\n', '\n'),
            text@ == lossy_text(bytes@),
            forall|earlier: int| 0 <= earlier < index ==> !taken_line(#[trigger] names[earlier]),
    {
        assert(names[index as int] == lines@[index as int]@);
        if is_taken_line(&lines[index]) {
            return true;
        }
    }
    false
}

/// What the end of an engine that never became ready means.
pub fn classify_pre_ready_exit(status: &str, stderr_tail: &[u8]) -> (result: WslError)
    ensures
        match result {
            WslError::AddressInUse => address_taken(lossy_text(stderr_tail@)),
            WslError::Command(reason) => !address_taken(lossy_text(stderr_tail@)) && reason@
                == "engine exited before readiness: "@ + status@ + ": "@ + lossy_text(stderr_tail@),
            _ => false,
        },
{
    if is_address_in_use(stderr_tail) {
        return WslError::AddressInUse;
    }
    let mut reason = "engine exited before readiness: ".to_owned();
    push_text(&mut reason, status);
    push_text(&mut reason, ": ");
    push_text(&mut reason, text_from_bytes(stderr_tail).as_str());
    WslError::Command(reason)
}

/// The identity that a command printed.
pub fn identity_from_output(output: &CommandOutput) -> (result: Result<ExecutableIdentity, WslError>)
    ensures
        match result {
            Ok(identity) => output.success && identity_of(output.stdout@) == Some(identity),
            Err(WslError::Command(reason)) => if output.success {
                identity_of(output.stdout@) is None && reason@ == "invalid stat output"@
            } else {
                reason@ == output.stderr@
            },
            Err(_) => false,
        },
{
    if !output.success {
        return Err(WslError::Command(output.stderr.clone()));
    }
    match parse_identity(output.stdout.as_str()) {
        Ok(identity) => Ok(identity),
        Err(error) => Err(WslError::Command(error.to_string())),
    }
}

/// The earlier snapshot, if it is still of this very executable.
pub fn reusable_snapshot(
    cached: Option<ProbeSnapshot>,
    distribution: &str,
    executable: &str,
    identity: &ExecutableIdentity,
) -> (result: Option<ProbeSnapshot>)
    ensures
        result == (match cached {
            Some(snapshot) => if snapshot.describes(distribution@, executable@, *identity) {
                Some(snapshot)
            } else {
                None
            },
            None => None,
        }),
{
    match cached {
        Some(snapshot) => if snapshot.is_valid_for(distribution, executable, identity) {
            Some(snapshot)
        } else {
            None
        },
        None => None,
    }
}

/// The snapshot of a complete probe. The version is looked at first.
pub fn complete_probe(
    distribution: &str,
    executable: &str,
    identity: ExecutableIdentity,
    version: CommandOutput,
    help: CommandOutput,
    probed_at: u64,
) -> (result: Result<ProbeSnapshot, WslError>)
    ensures
        match result {
            Ok(snapshot) => {
                &&& version.success && help.success
                &&& snapshot.describes(distribution@, executable@, identity)
                &&& snapshot.version_raw == version.stdout
                &&& snapshot.help_raw == help.stdout
                &&& snapshot.capabilities == offered(help.stdout@)
                &&& snapshot.probed_at == probed_at
            },
            Err(error) => {
                &&& !(version.success && help.success)
                &&& error == WslError::Command(
                    if !version.success {
                        version.stderr
                    } else {
                        help.stderr
                    },
                )
            },
        },
{
    if !version.success {
        return Err(WslError::Command(version.stderr));
    }
    if !help.success {
        return Err(WslError::Command(help.stderr));
    }
    Ok(
        ProbeSnapshot::new(
            distribution.to_owned(),
            executable.to_owned(),
            identity,
            version.stdout,
            help.stdout,
            probed_at,
        ),
    )
}

/// Why a refresh failed, and the snapshot that stays in place.
#[derive(Debug)]
pub struct ProbeRefreshError {
    pub source: WslError,
    pub prior: Option<ProbeSnapshot>,
}

impl ProbeRefreshError {
    pub fn to_string(&self) -> (result: String)
        ensures
            result@ == "probe refresh failed: "@ + self.source.message_text(),
    {
        joined("probe refresh failed: ", self.source.to_string().as_str())
    }
}

/// The name that a snapshot is written under before it replaces the one in place.
pub fn snapshot_temporary_name(name: &str, process: u32, sequence: u64) -> (result: String)
    ensures
        result@ == "."@ + name@ + "."@ + decimal(process as nat) + "."@ + decimal(sequence as nat) + ".tmp"@,
{
    let mut text = ".".to_owned();
    push_text(&mut text, name);
    push_text(&mut text, ".");
    push_decimal(&mut text, process as u64);
    push_text(&mut text, ".");
    push_decimal(&mut text, sequence);
    push_text(&mut text, ".tmp");
    text
}

/// A path that the Linux side can find.
pub open spec fn reachable(path: Seq<char>) -> bool {
    drive_root(path) && !climbs(components(path)) && !any_refused(components(path))
}

/// The draft model fits the settings: there is one where drafting with a model is
/// wanted, it stands at another path than the model itself, and it can be found;
/// and there is none otherwise.
pub open spec fn draft_fits(
    model: ModelRecord,
    settings: LaunchSettings,
    draft_is_file: bool,
    style: PathStyle,
) -> bool {
    if settings.speculative_type == Some(SpeculativeType::DraftDflash) {
        &&& settings.draft_model is Some
        &&& draft_is_file
        &&& !same_path(model.path@, settings.draft_model->0@, style)
        &&& reachable(settings.draft_model->0@)
    } else {
        settings.draft_model is None
    }
}

/// The settings with the draft model where the engine finds it. `draft_is_file`
/// tells whether the draft model's path is that of a file, and `style` how the paths
/// are written.
pub fn prepare_launch_settings(
    model: &ModelRecord,
    settings: &LaunchSettings,
    draft_is_file: bool,
    style: PathStyle,
) -> (result: Result<LaunchSettings, AppError>)
    ensures
        match result {
            Ok(prepared) => {
                &&& draft_fits(*model, *settings, draft_is_file, style)
                &&& prepared == (LaunchSettings { draft_model: prepared.draft_model, ..*settings })
                &&& match settings.draft_model {
                    Some(path) => prepared.draft_model is Some && prepared.draft_model->0@ == mounted(path@),
                    None => prepared.draft_model is None,
                }
            },
            Err(error) => !draft_fits(*model, *settings, draft_is_file, style) && error == AppError::InvalidSetting(
                "draft_model",
            ),
        },
{
    let mut prepared = settings.clone();
    let drafting = match settings.speculative_type {
        Some(kind) => kind == SpeculativeType::DraftDflash,
        None => false,
    };
    match &settings.draft_model {
        Some(path) => {
            let own = chars_of(model.path.as_str());
            let same = order_of(&own, &chars_of(path.as_str()), style) == PathOrder::Same;
            if !drafting || !draft_is_file || same {
                return Err(AppError::InvalidSetting("draft_model"));
            }
            match windows_to_wsl_path(path.as_str()) {
                Ok(converted) => {
                    prepared.draft_model = Some(converted);
                },
                Err(_) => {
                    return Err(AppError::InvalidSetting("draft_model"));
                },
            }
        },
        None => {
            if drafting {
                return Err(AppError::InvalidSetting("draft_model"));
            }
        },
    }
    Ok(prepared)
}

/// Why a path that the engine cannot reach is refused.
pub open spec fn path_refusal(path: Seq<char>) -> Seq<char> {
    if drive_root(path) && climbs(components(path)) {
        "path traversal is not allowed"@
    } else {
        "path must be an absolute Windows drive path"@
    }
}

/// The model's path where the engine finds it.
pub fn model_launch_path(model: &ModelRecord) -> (result: Result<String, AppError>)
    ensures
        match result {
            Ok(path) => reachable(model.path@) && path@ == mounted(model.path@),
            Err(error) => !reachable(model.path@) && error.code_text() == "engine_process"@ && error.source_text()
                == Some(path_refusal(model.path@)),
        },
{
    match windows_to_wsl_path(model.path.as_str()) {
        Ok(path) => Ok(path),
        Err(error) => Err(AppError::EngineProcess(error.to_string())),
    }
}

/// The arguments of prepared settings, if the engine understands all of them.
pub fn supported_args(prepared: &LaunchSettings, capabilities: &EngineCapabilities) -> (result: Result<
    Vec<String>,
    AppError,
>)
    ensures
        match result {
            Ok(args) => prepared.rendered_unsupported(*capabilities).len() == 0 && texts(args@)
                == prepared.rendered_args(*capabilities),
            Err(error) => prepared.rendered_unsupported(*capabilities).len() > 0 && error
                == AppError::InvalidSetting("unsupported_by_engine"),
        },
{
    let rendered = prepared.render(capabilities);
    if rendered.unsupported.len() == 0 {
        Ok(rendered.args)
    } else {
        Err(AppError::InvalidSetting("unsupported_by_engine"))
    }
}

/// What is checked of a launch before the engine is asked: where the model is, and
/// the draft model.
pub fn validate_launch(
    model: &ModelRecord,
    settings: &LaunchSettings,
    draft_is_file: bool,
    style: PathStyle,
) -> (result: Result<LaunchSettings, AppError>)
    ensures
        match result {
            Ok(prepared) => {
                &&& reachable(model.path@)
                &&& draft_fits(*model, *settings, draft_is_file, style)
                &&& prepared == (LaunchSettings { draft_model: prepared.draft_model, ..*settings })
                &&& match settings.draft_model {
                    Some(path) => prepared.draft_model is Some && prepared.draft_model->0@ == mounted(path@),
                    None => prepared.draft_model is None,
                }
            },
            Err(error) => if reachable(model.path@) {
                !draft_fits(*model, *settings, draft_is_file, style) && error == AppError::InvalidSetting("draft_model")
            } else {
                error.code_text() == "engine_process"@ && error.source_text() == Some(path_refusal(model.path@))
            },
        },
{
    match model_launch_path(model) {
        Ok(_) => prepare_launch_settings(model, settings, draft_is_file, style),
        Err(error) => Err(error),
    }
}

/// The owned process that the launch printed. Where it cannot be told, the host is
/// to be aborted: no process is guessed.
pub fn establish_pid(lines: Result<String, WslError>) -> (result: Result<OwnedPid, WslError>)
    ensures
        match (lines, result) {
            (Ok(text), Ok(owned)) => ownership(text@) == Some(owned),
            (Ok(text), Err(error)) => ownership(text@) is None && error.message_text()
                == "command failed: "@ + "invalid PID control line"@,
            (Err(reason), Err(error)) => error == reason,
            (Err(_), Ok(_)) => false,
        },
{
    match lines {
        Ok(text) => match parse_ownership_handshake(text.as_str()) {
            Ok(owned) => Ok(owned),
            Err(error) => Err(WslError::Command(error.to_string())),
        },
        Err(reason) => Err(reason),
    }
}

/// A line of the handshake that a launch printed; an empty one means that the
/// output ended.
pub fn handshake_line(line: &str, start_time: bool) -> (result: Result<(), WslError>)
    ensures
        match result {
            Ok(_) => line@.len() > 0,
            Err(error) => line@.len() == 0 && (error matches WslError::Command(reason) && reason@ == (if start_time {
                "missing PID start-time control line"@
            } else {
                "missing PID control line"@
            })),
        },
{
    if chars_of(line).len() > 0 {
        Ok(())
    } else if start_time {
        Err(WslError::Command("missing PID start-time control line".to_owned()))
    } else {
        Err(WslError::Command("missing PID control line".to_owned()))
    }
}

/// What follows a look at an engine that is not ready yet.
#[derive(Debug)]
pub enum PollStep {
    /// Somebody answers: see whether it is the launched process.
    CheckOwner,
    /// Look again in a moment.
    Wait,
    Failed(WslError),
}

/// After a look at the endpoint of an engine that starts: it is looked at again
/// until it is late.
pub fn after_health_poll(healthy: Result<bool, WslError>, late: bool) -> (result: PollStep)
    ensures
        match healthy {
            Ok(true) => result is CheckOwner,
            Ok(false) => if late {
                result matches PollStep::Failed(WslError::Command(reason)) && reason@ == "readiness timed out"@
            } else {
                result is Wait
            },
            Err(error) => result == PollStep::Failed(error),
        },
{
    match healthy {
        Ok(true) => PollStep::CheckOwner,
        Ok(false) => if late {
            PollStep::Failed(WslError::Command("readiness timed out".to_owned()))
        } else {
            PollStep::Wait
        },
        Err(error) => PollStep::Failed(error),
    }
}

/// After a look at the endpoint of an engine that runs: one that does not answer is
/// not ready.
pub fn after_health_check(healthy: Result<bool, WslError>) -> (result: PollStep)
    ensures
        match healthy {
            Ok(true) => result is CheckOwner,
            Ok(false) => result matches PollStep::Failed(WslError::Command(reason)) && reason@
                == "health endpoint is not ready"@,
            Err(error) => result == PollStep::Failed(error),
        },
{
    match healthy {
        Ok(true) => PollStep::CheckOwner,
        Ok(false) => PollStep::Failed(WslError::Command("health endpoint is not ready".to_owned())),
        Err(error) => PollStep::Failed(error),
    }
}

/// Whether an endpoint that answers counts: only the launched process does.
pub fn after_owner_check(owned: Result<bool, WslError>) -> (result: Result<(), WslError>)
    ensures
        result == (match owned {
            Ok(true) => Ok(()),
            Ok(false) => Err(WslError::NonOwnedEndpoint),
            Err(error) => Err(error),
        }),
{
    match owned {
        Ok(true) => Ok(()),
        Ok(false) => Err(WslError::NonOwnedEndpoint),
        Err(error) => Err(error),
    }
}

/// How often an engine is launched before it is given up.
pub const MAX_READY_ATTEMPTS: u32 = 3;

/// What follows an attempt to become ready.
#[derive(Clone, Copy, Debug, PartialEq, Eq, Structural)]
pub enum ReadyStep {
    Done,
    /// The attempt is stopped, and another one made on a fresh port.
    Retry,
    /// The attempt is stopped, and its error reported.
    Fail,
}

/// The port was taken by somebody else.
pub open spec fn port_stolen(error: WslError) -> bool {
    error is AddressInUse || error is NonOwnedEndpoint
}

/// What follows attempt number `attempt`, counted from one.
pub fn ready_step(attempt: u32, outcome: &Result<(), WslError>) -> (result: ReadyStep)
    ensures
        result == (match *outcome {
            Ok(_) => ReadyStep::Done,
            Err(error) => if port_stolen(error) && attempt < MAX_READY_ATTEMPTS {
                ReadyStep::Retry
            } else {
                ReadyStep::Fail
            },
        }),
{
    match outcome {
        Ok(_) => ReadyStep::Done,
        Err(WslError::AddressInUse) if attempt < MAX_READY_ATTEMPTS => ReadyStep::Retry,
        Err(WslError::NonOwnedEndpoint) if attempt < MAX_READY_ATTEMPTS => ReadyStep::Retry,
        Err(_) => ReadyStep::Fail,
    }
}

/// What is done next to stop an attempt.
#[derive(Debug)]
pub enum StopStep {
    /// Wait a moment for the process to end.
    AwaitExit,
    SendKill,
    AwaitKilled,
    /// See whether the endpoint still answers.
    CheckEndpoint,
    Stopped,
    Failed(WslError),
}

/// After the process was asked to end.
pub fn after_term(sent: &Result<CommandOutput, WslError>) -> (result: StopStep)
    ensures
        result == (if (*sent matches Ok(output) && output.success) {
            StopStep::AwaitExit
        } else {
            StopStep::SendKill
        }),
{
    match sent {
        Ok(output) => if output.success {
            StopStep::AwaitExit
        } else {
            StopStep::SendKill
        },
        Err(_) => StopStep::SendKill,
    }
}

/// After waiting for the process that was asked to end.
pub fn after_term_wait(exited: bool) -> (result: StopStep)
    ensures
        result == (if exited {
            StopStep::CheckEndpoint
        } else {
            StopStep::SendKill
        }),
{
    if exited {
        StopStep::CheckEndpoint
    } else {
        StopStep::SendKill
    }
}

/// After the process was killed.
pub fn after_kill(sent: Result<CommandOutput, WslError>) -> (result: StopStep)
    ensures
        result == (match sent {
            Ok(output) => if output.success {
                StopStep::AwaitKilled
            } else {
                StopStep::Failed(WslError::Command(output.stderr))
            },
            Err(error) => StopStep::Failed(error),
        }),
{
    match sent {
        Ok(output) => if output.success {
            StopStep::AwaitKilled
        } else {
            StopStep::Failed(WslError::Command(output.stderr))
        },
        Err(error) => StopStep::Failed(error),
    }
}

/// After waiting for the process that was killed; `None` if it did not end in time.
pub fn after_kill_wait(ended: Option<Result<i32, WslError>>) -> (result: StopStep)
    ensures
        match ended {
            Some(Ok(_)) => result == StopStep::CheckEndpoint,
            Some(Err(error)) => result == StopStep::Failed(error),
            None => result matches StopStep::Failed(WslError::Command(reason)) && reason@
                == "owned process did not exit"@,
        },
{
    match ended {
        Some(Ok(_)) => StopStep::CheckEndpoint,
        Some(Err(error)) => StopStep::Failed(error),
        None => StopStep::Failed(WslError::Command("owned process did not exit".to_owned())),
    }
}

/// After a look at the endpoint: it is looked at again until it is late.
pub fn after_endpoint_check(responding: bool, late: bool) -> (result: StopStep)
    ensures
        if !responding {
            result == StopStep::Stopped
        } else if late {
            result matches StopStep::Failed(WslError::Command(reason)) && reason@
                == "owned endpoint remained live"@
        } else {
            result == StopStep::CheckEndpoint
        },
{
    if !responding {
        StopStep::Stopped
    } else if late {
        StopStep::Failed(WslError::Command("owned endpoint remained live".to_owned()))
    } else {
        StopStep::CheckEndpoint
    }
}

/// After a look at the endpoint of a process that ended: it is looked at again
/// until it is late.
pub fn after_exit_check(responding: bool, late: bool) -> (result: StopStep)
    ensures
        if !responding {
            result == StopStep::Stopped
        } else if late {
            result matches StopStep::Failed(WslError::Command(reason)) && reason@
                == "old endpoint remained live after process exit"@
        } else {
            result == StopStep::CheckEndpoint
        },
{
    if !responding {
        StopStep::Stopped
    } else if late {
        StopStep::Failed(WslError::Command("old endpoint remained live after process exit".to_owned()))
    } else {
        StopStep::CheckEndpoint
    }
}

/// What a command that signalled a process says of it.
pub fn signal_result(sent: Result<CommandOutput, WslError>) -> (result: Result<(), WslError>)
    ensures
        result == (match sent {
            Ok(output) => if output.success {
                Ok(())
            } else {
                Err(WslError::Command(output.stderr))
            },
            Err(error) => Err(error),
        }),
{
    match sent {
        Ok(output) => if output.success {
            Ok(())
        } else {
            Err(WslError::Command(output.stderr))
        },
        Err(error) => Err(error),
    }
}

/// What a failed signal leaves to report.
pub open spec fn signal_failure(sent: Result<CommandOutput, WslError>) -> Option<Seq<char>> {
    match sent {
        Ok(output) => if output.success {
            None
        } else {
            Some(output.stderr@)
        },
        Err(error) => Some(error.message_text()),
    }
}

pub open spec fn optional_reason(reason: Option<String>) -> Option<Seq<char>> {
    match reason {
        Some(text) => Some(text@),
        None => None,
    }
}

fn failure_of(sent: Result<CommandOutput, WslError>) -> (result: Option<String>)
    ensures
        optional_reason(result) == signal_failure(sent),
{
    match sent {
        Ok(output) => if output.success {
            None
        } else {
            Some(output.stderr)
        },
        Err(error) => Some(error.to_string()),
    }
}

/// Whether an abandoned process has to be killed: only one that did not end and
/// is not known to be gone, so that no later process with its number is hit.
pub fn needs_kill(exited: bool, running: Option<bool>) -> (result: bool)
    ensures
        result == (!exited && running != Some(false)),
{
    !exited && match running {
        Some(running) => running,
        None => true,
    }
}

/// What is reported of the clean-up of an abandoned process: the last thing that
/// went wrong.
pub fn cleanup_failure(
    term: Result<CommandOutput, WslError>,
    kill: Option<(Result<CommandOutput, WslError>, bool)>,
) -> (result: Option<String>)
    ensures
        optional_reason(result) == (match kill {
            None => signal_failure(term),
            Some((_, false)) => Some("owned child did not exit after KILL"@),
            Some((sent, true)) => match signal_failure(sent) {
                Some(reason) => Some(reason),
                None => signal_failure(term),
            },
        }),
{
    let first = failure_of(term);
    match kill {
        None => first,
        Some((sent, exited)) => {
            let second = failure_of(sent);
            if !exited {
                Some("owned child did not exit after KILL".to_owned())
            } else if second.is_some() {
                second
            } else {
                first
            }
        },
    }
}

/// Counts the clean-ups of abandoned processes.
#[derive(Clone, Copy, Debug, PartialEq, Eq, Structural)]
pub struct CleanupObserver {
    pub failures: u64,
    pub completed: u64,
}

impl Default for CleanupObserver {
    fn default() -> (result: Self)
        ensures
            result == (CleanupObserver { failures: 0, completed: 0 }),
    {
        CleanupObserver { failures: 0, completed: 0 }
    }
}

impl CleanupObserver {
    pub fn failures(&self) -> (result: u64)
        ensures
            result == self.failures,
    {
        self.failures
    }

    pub fn completed(&self) -> (result: u64)
        ensures
            result == self.completed,
    {
        self.completed
    }

    /// A clean-up is over. One that failed leaves a record for the log.
    pub fn finish(&mut self, error: Option<String>, timestamp_ms: u64) -> (result: Option<LogRecord>)
        ensures
            final(self).completed == (old(self).completed + 1) % 0x1_0000_0000_0000_0000,
            match (error, result) {
                (Some(reason), Some(record)) => {
                    &&& final(self).failures == (old(self).failures + 1) % 0x1_0000_0000_0000_0000
                    &&& record.timestamp_ms == timestamp_ms
                    &&& record.source == LogSource::Application
                    &&& record.level == LogLevel::Error
                    &&& record.generation is None
                    &&& record.model_id is None
                    &&& record.message@ == "WSL cleanup failed: "@ + reason@
                    &&& !record.truncated
                },
                (None, None) => final(self).failures == old(self).failures,
                _ => false,
            },
    {
        self.completed = self.completed.wrapping_add(1);
        match error {
            Some(reason) => {
                self.failures = self.failures.wrapping_add(1);
                Some(
                    LogRecord {
                        timestamp_ms,
                        source: LogSource::Application,
                        level: LogLevel::Error,
                        generation: None,
                        model_id: None,
                        message: joined("WSL cleanup failed: ", reason.as_str()),
                        truncated: false,
                    },
                )
            },
            None => None,
        }
    }
}

/// The engine's place: the distribution it runs in, and its executable there.
#[derive(Debug)]
pub struct LlamaCppWslEngine {
    pub distribution: String,
    pub executable: String,
}

impl LlamaCppWslEngine {
    pub fn new(distribution: String, executable: String) -> (result: Self)
        ensures
            result.distribution == distribution,
            result.executable == executable,
    {
        LlamaCppWslEngine { distribution, executable }
    }

    pub fn apply_settings(&mut self, distribution: String, executable: String)
        ensures
            final(self).distribution == distribution,
            final(self).executable == executable,
    {
        self.distribution = distribution;
        self.executable = executable;
    }

    pub fn settings(&self) -> (result: (String, String))
        ensures
            result.0@ == self.distribution@,
            result.1@ == self.executable@,
    {
        (self.distribution.clone(), self.executable.clone())
    }

    /// The engine by the version that a probe found.
    pub fn spec_from(snapshot: &ProbeSnapshot) -> (result: EngineSpec)
        ensures
            result.id@ == "llama-cpp-wsl"@,
            result.display_name@ == "llama.cpp (WSL)"@,
            result.version@ == without_breaks(snapshot.version_raw@),
    {
        EngineSpec {
            id: "llama-cpp-wsl".to_owned(),
            display_name: "llama.cpp (WSL)".to_owned(),
            version: capture_version(snapshot.version_raw.as_str()),
        }
    }
}

} // verus!
