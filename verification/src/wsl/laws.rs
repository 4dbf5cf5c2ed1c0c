//! What is owed of the engine inside a distribution: whose lines are trusted, which
//! port and which path it gets, and when its address counts as taken.

use vstd::prelude::*;

use super::engine::{
    about_listening, address_taken, after_endpoint_check, after_exit_check, after_health_check, after_health_poll,
    after_kill, after_kill_wait, after_owner_check, after_term, after_term_wait, classify_pre_ready_exit, conflict_at,
    draft_fits, endpoint_owned, endpoint_owner_argv, error_name_at, flag_at, healthy_answer, last_bytes, launch_args, moved_to, path_refusal, port_of,
    port_stolen, reachable, ready_step, reusable_snapshot, signal_failure, signal_result, taken_line, validate_launch, CommandOutput, PollStep,
    ReadyStep, StopStep, WslError,
};
use super::path::{components, device_name, drive_root, mounted, refused_component, slashed, stem};
use super::probe::{identity_of, without_breaks, ExecutableIdentity, ProbeSnapshot};
use super::process::{
    guarded_signal_argv, labelled_number, launch_argv, lemma_decimal_reads_back, ownership, pid_label, start_label, OwnedPid, Signal,
};
use crate::launcher::capability::{LaunchSettings, SpeculativeType};
use crate::launcher::error::AppError;
use crate::launcher::model::ModelRecord;
use crate::launcher::path_order::{same_path, PathStyle};
use crate::text::{
    all_digits, ascii_lower, decimal, digit_char, digits_value, has_suffix, is_alphabetic, is_digit, lossy_text, lowered,
    occurs, occurs_at, split, texts, trimmed, trimmed_end, trimmed_start, unsigned_number,
};
use crate::text_laws::{
    law_last_piece_stands_behind_a_separator, law_numbers_are_read_back, law_text_without_separators_is_one_piece,
    law_white_space_characters,
};

verus! {

proof fn lemma_digits_are_a_decimal(digits: Seq<char>)
    requires
        digits.len() > 0,
        digits[0] != '0',
        all_digits(digits),
    ensures
        decimal(digits_value(digits)) == digits,
        digits_value(digits) > 0,
    decreases digits.len(),
{
    let rest = digits.drop_last();
    let last = (digits.last() as nat - 48) as nat;
    assert(is_digit(digits[digits.len() - 1]));
    assert(digit_char(last) == digits.last());
    if rest.len() == 0 {
        assert(digits_value(rest) == 0);
        assert(digits =~= seq![digits.last()]);
        assert(digits[0] == digits.last());
    } else {
        assert forall|index: int| 0 <= index < rest.len() implies is_digit(#[trigger] rest[index]) by {
            assert(rest[index] == digits[index]);
        }
        assert(rest[0] == digits[0]);
        lemma_digits_are_a_decimal(rest);
        let value = digits_value(digits);
        assert(value / 10 == digits_value(rest) && value % 10 == last);
        assert(rest.push(digits.last()) =~= digits);
    }
}

/// A line is trusted only where it is exactly the label, a number without leading
/// zeros and a line feed; zero is no number of a process.
pub proof fn law_only_printed_lines_are_trusted(line: Seq<char>, label: Seq<char>, limit: nat)
    ensures
        labelled_number(line, label, limit) matches Some(value) ==> line == label + decimal(value) + seq!['\n'] && 0
            < value <= limit,
{
    if labelled_number(line, label, limit) is Some {
        let digits = line.subrange(label.len() as int, line.len() - 1);
        lemma_digits_are_a_decimal(digits);
        assert(line.subrange(0, label.len() as int) =~= label);
        assert(line =~= label + digits + seq!['\n']);
    }
}

/// A process is owned only where exactly its number and its start time were printed,
/// on two lines under their labels.
pub proof fn law_owned_process_was_printed(lines: Seq<char>, owned: OwnedPid)
    requires
        ownership(lines) == Some(owned),
    ensures
        lines == "MODEL_LAUNCHER_PID="@ + decimal(owned.pid as nat) + seq!['\n'] + "MODEL_LAUNCHER_START_TIME="@
            + decimal(owned.start_time as nat) + seq!['\n'],
        owned.pid > 0,
        owned.start_time > 0,
{
    let at = super::process::first_break(lines)->0;
    super::process::lemma_first_break_is_inside(lines);
    let first = lines.take(at + 1);
    let second = lines.skip(at + 1);
    law_only_printed_lines_are_trusted(first, pid_label(), u32::MAX as nat);
    law_only_printed_lines_are_trusted(second, start_label(), u64::MAX as nat);
    assert(lines =~= first + second);
    assert(first + second =~= "MODEL_LAUNCHER_PID="@ + decimal(owned.pid as nat) + seq!['\n']
        + "MODEL_LAUNCHER_START_TIME="@ + decimal(owned.start_time as nat) + seq!['\n']);
}

/// A process is first asked to end and then killed, by the names of those signals.
pub proof fn law_signals_have_their_names()
    ensures
        Signal::Term.flag_text() == "-TERM"@,
        Signal::Kill.flag_text() == "-KILL"@,
        Signal::Term.word_text() == "TERM"@,
        Signal::Kill.word_text() == "KILL"@,
{
}

proof fn lemma_port_is_read_back(port: u16)
    ensures
        unsigned_number(decimal(port as nat), u16::MAX as nat) == Some(port as nat),
{
    let text = decimal(port as nat);
    lemma_decimal_reads_back(port as nat);
    assert(is_digit(text[0]));
}

/// An engine that is started on a port serves that port, whatever its settings are.
pub proof fn law_engine_serves_the_port_it_gets(port: u16, settings: Seq<Seq<char>>)
    ensures
        port_of(seq!["--host"@, "127.0.0.1"@, "--port"@, decimal(port as nat)] + settings) == Some(port as nat),
{
    let argv = seq!["--host"@, "127.0.0.1"@, "--port"@, decimal(port as nat)] + settings;
    reveal_strlit("--host");
    reveal_strlit("127.0.0.1");
    reveal_strlit("--port");
    assert("--host"@[2] == 'h' && "--port"@[2] == 'p' && "127.0.0.1"@[0] == '1');
    assert(argv[0] == "--host"@ && argv[1] == "127.0.0.1"@ && argv[2] == "--port"@ && argv[3] == decimal(
        port as nat,
    ));
    reveal_with_fuel(flag_at, 4);
    assert(flag_at(argv, "--port"@, 0) == Some(2int));
    lemma_port_is_read_back(port);
}

proof fn lemma_flag_stays(argv: Seq<Seq<char>>, flag: Seq<char>, from: int, at: int, value: Seq<char>)
    requires
        0 <= from,
        flag_at(argv, flag, from) == Some(at),
    ensures
        from <= at,
        at + 1 < argv.len(),
        argv[at] == flag,
        flag_at(argv.update(at + 1, value), flag, from) == Some(at),
    decreases argv.len() - from,
{
    if argv[from] != flag {
        lemma_flag_stays(argv, flag, from + 1, at, value);
        assert(argv.update(at + 1, value)[from] == argv[from]);
    } else {
        assert(argv.update(at + 1, value)[from] == flag);
    }
}

/// Another attempt serves the fresh port.
pub proof fn law_retry_serves_the_fresh_port(args: Seq<Seq<char>>, port: u16)
    requires
        flag_at(args, "--port"@, 0) is Some,
    ensures
        port_of(moved_to(args, port)) == Some(port as nat),
{
    let at = flag_at(args, "--port"@, 0)->0;
    lemma_flag_stays(args, "--port"@, 0, at, decimal(port as nat));
    lemma_port_is_read_back(port);
}

/// Only an attempt whose port belongs to somebody else is made again.
pub proof fn law_only_a_stolen_port_is_given_up(error: WslError)
    ensures
        port_stolen(error) <==> (error == WslError::AddressInUse || error == WslError::NonOwnedEndpoint),
{
}

/// An answer counts as healthy where it starts with the line of a successful answer of
/// HTTP 1.0 or 1.1, whatever follows.
pub proof fn law_healthy_answer_is_a_success(bytes: Seq<u8>, rest: Seq<u8>)
    ensures
        healthy_answer(
            seq![
                'H' as u8,
                'T' as u8,
                'T' as u8,
                'P' as u8,
                '/' as u8,
                '1' as u8,
                '.' as u8,
                '1' as u8,
                ' ' as u8,
                '2' as u8,
                '0' as u8,
                '0' as u8,
            ] + rest,
        ),
        healthy_answer(bytes) ==> bytes.len() >= 12 && bytes[5] == '1' as u8 && (bytes[7] == '0' as u8 || bytes[7]
            == '1' as u8) && bytes[8] == ' ' as u8 && bytes[9] == '2' as u8 && bytes[10] == '0' as u8 && bytes[11]
            == '0' as u8,
{
    let line = seq![72u8, 84, 84, 80, 47, 49, 46, 49, 32, 50, 48, 48];
    assert(seq![
        'H' as u8,
        'T' as u8,
        'T' as u8,
        'P' as u8,
        '/' as u8,
        '1' as u8,
        '.' as u8,
        '1' as u8,
        ' ' as u8,
        '2' as u8,
        '0' as u8,
        '0' as u8,
    ] =~= line);
    let answer = line + rest;
    assert(answer.take(7) =~= seq![72u8, 84, 84, 80, 47, 49, 46]);
    assert(answer.subrange(8, 12) =~= seq![32u8, 50, 48, 48]);
    if healthy_answer(bytes) {
        assert(bytes.take(7)[5] == bytes[5]);
        let status = bytes.subrange(8, 12);
        assert(status[0] == bytes[8] && status[1] == bytes[9] && status[2] == bytes[10] && status[3] == bytes[11]);
    }
}

/// What is kept of a stream is its end: all of it up to sixteen kibibytes, and no more.
pub proof fn law_kept_end_is_the_end(bytes: Seq<u8>)
    ensures
        bytes.len() <= 16_384 ==> last_bytes(bytes) == bytes,
        bytes.len() > 16_384 ==> last_bytes(bytes).len() == 16_384,
        last_bytes(bytes) == bytes.skip(bytes.len() - last_bytes(bytes).len()),
{
    assert(last_bytes(bytes) =~= bytes.skip(bytes.len() - last_bytes(bytes).len()));
}

/// A line counts as one about a taken address only where it names the fault and speaks of
/// binding or listening before it, and holds no quotation.
pub proof fn law_taken_address_is_named(line: Seq<char>)
    requires
        taken_line(line),
    ensures
        occurs(line, "address already in use"@) || occurs(line, "eaddrinuse"@),
        !line.contains('"') && !line.contains('\''),
        exists|at: int|
            {
                let before = trimmed_end(#[trigger] line.take(at));
                ||| occurs(before, "failed to bind"@)
                ||| occurs(before, "failed to listen"@)
                ||| has_suffix(before, "bind:"@)
                ||| has_suffix(before, "listen:"@)
                ||| has_suffix(before, "listener:"@)
                ||| has_suffix(before, "listen failed:"@)
            },
{
    let at = choose|at: int| #[trigger] conflict_at(line, at) && about_listening(trimmed_end(line.take(at)));
    let before = trimmed_end(line.take(at));
    assert(about_listening(before));
    if !occurs(line, "address already in use"@) {
        assert(error_name_at(line, at));
        assert(occurs_at(line, "eaddrinuse"@, at));
    }
}

/// A line that says that binding failed because the address is in use counts, in
/// whatever case it is written.
pub proof fn law_failed_bind_counts(text: Seq<char>, before: Seq<char>, after: Seq<char>)
    requires
        lowered(text) == before + "failed to bind: address already in use"@ + after,
        !lowered(text).contains('\''),
        !lowered(text).contains('"'),
        !lowered(text).contains('\n'),
        !occurs(before + "failed to bind: "@, "address already in use"@),
        forall|earlier: int|
            0 <= earlier < before.len() + 16 ==> !#[trigger] occurs_at(
                lowered(text),
                "address already in use"@,
                earlier,
            ),
    ensures
        address_taken(text),
{
    let line = lowered(text);
    let phrase = "address already in use"@;
    reveal_strlit("failed to bind: address already in use");
    reveal_strlit("address already in use");
    reveal_strlit("failed to bind");
    reveal_strlit("bind:");
    let whole = "failed to bind: address already in use"@;
    let at = before.len() as int + 16;
    assert(whole.skip(16) =~= phrase);
    assert(line.subrange(at, at + phrase.len()) =~= phrase) by {
        assert(whole.subrange(16, 16 + phrase.len() as int) =~= phrase);
        assert forall|place: int| 0 <= place < phrase.len() implies line[at + place] == #[trigger] phrase[place] by {
            assert(line[at + place] == whole[16 + place]);
            assert(whole.skip(16)[place] == whole[16 + place]);
        }
    }
    assert(occurs_at(line, phrase, at as int));
    assert(conflict_at(line, at as int));
    let front = line.take(at as int);
    assert(front.last() == ' ') by {
        assert(front[front.len() - 1] == line[at - 1]);
        assert(line[at - 1] == whole[15]);
    }
    let context = front.drop_last();
    assert(context.last() == ':') by {
        assert(context[context.len() - 1] == line[at - 2]);
        assert(line[at - 2] == whole[14]);
    }
    assert(trimmed_end(context) == context);
    assert(trimmed_end(front) == trimmed_end(context));
    assert(has_suffix(context, "bind:"@)) by {
        let tail = context.skip(context.len() - 5);
        assert forall|place: int| 0 <= place < 5 implies tail[place] == #[trigger] "bind:"@[place] by {
            assert(tail[place] == line[at - 6 + place]);
            assert(line[at - 6 + place] == whole[10 + place]);
        }
        assert(tail =~= "bind:"@);
        assert(context.subrange(context.len() - 5, context.len() as int) =~= "bind:"@);
    }
    assert(taken_line(line));
    lemma_one_line(line);
    assert(split(line, '\n', '\n')[0] == line);
}

proof fn lemma_one_line(text: Seq<char>)
    requires
        !text.contains('\n'),
    ensures
        split(text, '\n', '\n') == seq![text],
    decreases text.len(),
{
    if text.len() > 0 {
        let rest = text.drop_last();
        assert(!rest.contains('\n')) by {
            if rest.contains('\n') {
                let at = choose|at: int| 0 <= at < rest.len() && rest[at] == '\n';
                assert(text[at] == '\n');
            }
        }
        lemma_one_line(rest);
        assert(text[text.len() - 1] == text.last());
        assert(rest.push(text.last()) =~= text);
        assert(seq![rest].drop_last().push(text) =~= seq![text]);
    } else {
        assert(text =~= Seq::empty());
    }
}

/// Signals that were sent leave nothing to report; a command that failed leaves what it
/// printed, and one that could not be run its error.
pub proof fn law_failed_signals_are_reported(sent: Result<CommandOutput, WslError>)
    ensures
        signal_failure(sent) is None <==> (sent is Ok && sent->Ok_0.success),
        sent matches Ok(output) ==> !output.success ==> signal_failure(sent) == Some(output.stderr@),
        sent matches Err(WslError::Command(reason)) ==> signal_failure(sent) == Some("command failed: "@ + reason@),
{
}

/// Drafting with a model needs another file than the model itself, one that is there and
/// that the engine can reach; without such drafting there is no draft model.
pub proof fn law_draft_model_is_another_file(
    model: ModelRecord,
    settings: LaunchSettings,
    draft_is_file: bool,
    style: PathStyle,
)
    ensures
        settings.speculative_type == Some(SpeculativeType::DraftDflash) ==> (draft_fits(
            model,
            settings,
            draft_is_file,
            style,
        ) <==> settings.draft_model is Some && draft_is_file && !same_path(
            model.path@,
            settings.draft_model->0@,
            style,
        ) && reachable(settings.draft_model->0@)),
        settings.speculative_type != Some(SpeculativeType::DraftDflash) ==> (draft_fits(
            model,
            settings,
            draft_is_file,
            style,
        ) <==> settings.draft_model is None),
{
}

/// A path that the engine can reach is on a drive, does not climb, and names no stream
/// and no device; the reason of a refusal says whether it climbs.
pub proof fn law_reachable_paths_stay_on_their_drive(path: Seq<char>, index: int)
    ensures
        reachable(path) ==> path.len() >= 3 && is_alphabetic(path[0]) && path[1] == ':' && (path[2] == '\\'
            || path[2] == '/'),
        reachable(path) && 0 <= index < components(path).len() ==> components(path)[index] != seq!['.', '.']
            && !components(path)[index].contains(':'),
        path.len() >= 3 && is_alphabetic(path[0]) && path[1] == ':' && (path[2] == '\\' || path[2] == '/')
            && components(path).contains(seq!['.', '.']) ==> !reachable(path) && path_refusal(path)
            == "path traversal is not allowed"@,
        !reachable(path) && !components(path).contains(seq!['.', '.']) ==> path_refusal(path)
            == "path must be an absolute Windows drive path"@,
{
    if reachable(path) && 0 <= index < components(path).len() {
        let name = components(path)[index];
        assert(!refused_component(name));
        if name.contains(':') {
            assert(name.len() > 0);
        }
    }
}

/// No file of Windows has the name of a device, with whatever extension and in whatever
/// case, nor one that ends in a dot or a space.
pub proof fn law_no_file_is_a_device(name: Seq<char>, digit: char)
    requires
        name.len() > 0,
    ensures
        name.last() == '.' || name.last() == ' ' || name.contains(':') ==> refused_component(name),
        device_name(lowered(stem(name))) ==> refused_component(name),
        device_name(seq!['c', 'o', 'n']) && device_name(seq!['p', 'r', 'n']) && device_name(seq!['a', 'u', 'x'])
            && device_name(seq!['n', 'u', 'l']),
        !device_name(seq!['c', 'o', 'm', '0']) && !device_name(seq!['l', 'p', 't', '0']),
        device_name(seq!['c', 'o', 'm', digit]) <==> '1' <= digit <= '9',
        device_name(seq!['l', 'p', 't', digit]) <==> '1' <= digit <= '9',
{
    assert(seq!['c', 'o', 'm', '0'].len() == 4 && seq!['l', 'p', 't', '0'].len() == 4);
    assert(seq!['c', 'o', 'm', digit].take(3) =~= seq!['c', 'o', 'm']);
    assert(seq!['l', 'p', 't', digit].take(3) =~= seq!['l', 'p', 't']);
    assert(seq!['c', 'o', 'm', digit].len() == 4 && seq!['l', 'p', 't', digit].len() == 4);
}

/// A drive is found under its letter in lower case, and a name in a directory there
/// under the same name, with whichever separator it is written.
pub proof fn law_names_are_found_in_their_directories(path: Seq<char>, separator: char, name: Seq<char>)
    requires
        drive_root(path),
        path.len() > 3,
        separator == '\\' || separator == '/',
        name.len() > 0,
        !name.contains('\\'),
        !name.contains('/'),
    ensures
        mounted(path + seq![separator] + name) == mounted(path) + seq!['/'] + name,
        mounted(path).take(6) == "/mnt/"@ + seq![ascii_lower(path[0])],
        mounted(path.take(3)) == "/mnt/"@ + seq![ascii_lower(path[0])],
{
    let longer = path + seq![separator] + name;
    assert(longer.skip(3) =~= path.skip(3) + seq![separator] + name);
    law_last_piece_stands_behind_a_separator(path.skip(3), separator, name, '\\', '/');
    let parts = components(path);
    assert(components(longer) == parts.push(name));
    assert(parts.push(name).drop_last() =~= parts);
    assert(longer[0] == path[0]);
    assert(mounted(longer) =~= mounted(path) + seq!['/'] + name);
    reveal_strlit("/mnt/");
    assert(mounted(path).take(6) =~= "/mnt/"@ + seq![ascii_lower(path[0])]);
    let root = path.take(3);
    assert(root.skip(3) =~= Seq::empty());
    assert(components(root) == seq![Seq::<char>::empty()]);
    assert(seq![Seq::<char>::empty()].drop_last() =~= Seq::empty());
    assert(slashed(components(root)) =~= Seq::empty()) by {
        reveal_with_fuel(slashed, 2);
    }
    assert(mounted(root) =~= "/mnt/"@ + seq![ascii_lower(path[0])]);
}

/// A version is kept but for the line breaks at its end.
pub proof fn law_version_loses_only_its_line_end(version: Seq<char>, broken: Seq<char>)
    requires
        version.len() > 0 ==> version.last() != '\n' && version.last() != '\r',
    ensures
        without_breaks(version) == version,
        without_breaks(version.push('\n')) == version,
        without_breaks(version.push('\r').push('\n')) == version,
        without_breaks(broken).len() <= broken.len(),
        without_breaks(broken) == broken.take(without_breaks(broken).len() as int),
    decreases broken.len(),
{
    reveal_with_fuel(without_breaks, 3);
    assert(version.push('\n').drop_last() =~= version);
    assert(version.push('\r').drop_last() =~= version);
    assert(version.push('\r').push('\n').drop_last() =~= version.push('\r'));
    assert(without_breaks(version.push('\r')) == version);
    if broken.len() > 0 && (broken.last() == '\r' || broken.last() == '\n') {
        law_version_loses_only_its_line_end(version, broken.drop_last());
        let kept = without_breaks(broken).len() as int;
        assert(broken.drop_last().take(kept) =~= broken.take(kept));
    } else {
        assert(broken.take(broken.len() as int) =~= broken);
    }
}

/// While an engine starts it is looked at until it is late; who answers is checked
/// before it counts, and only the launched process does.
pub proof fn law_start_is_watched(
    healthy: bool,
    late: bool,
    polled: PollStep,
    checked: PollStep,
    owned: Result<(), WslError>,
)
    requires
        call_ensures(after_health_poll, (Ok::<bool, WslError>(healthy), late), polled),
        call_ensures(after_health_check, (Ok::<bool, WslError>(healthy),), checked),
        call_ensures(after_owner_check, (Ok::<bool, WslError>(healthy),), owned),
    ensures
        polled is CheckOwner <==> healthy,
        polled is Wait <==> !healthy && !late,
        polled is Failed <==> !healthy && late,
        polled matches PollStep::Failed(error) ==> (error matches WslError::Command(reason) && reason@
            == "readiness timed out"@),
        checked is CheckOwner <==> healthy,
        checked is Failed <==> !healthy,
        owned is Ok <==> healthy,
        owned matches Err(error) ==> error == WslError::NonOwnedEndpoint,
{
}

/// A look that fails ends the start with its own error.
pub proof fn law_failed_look_ends_the_start(
    error: WslError,
    late: bool,
    polled: PollStep,
    checked: PollStep,
    owned: Result<(), WslError>,
)
    requires
        call_ensures(after_health_poll, (Err::<bool, WslError>(error), late), polled),
        call_ensures(after_health_check, (Err::<bool, WslError>(error),), checked),
        call_ensures(after_owner_check, (Err::<bool, WslError>(error),), owned),
    ensures
        polled == PollStep::Failed(error),
        checked == PollStep::Failed(error),
        owned == Err::<(), WslError>(error),
{
}

/// A launch is tried three times where somebody else took its port, and once
/// otherwise.
pub proof fn law_launch_is_tried_three_times(attempt: u32, error: WslError, done: ReadyStep, failed: ReadyStep)
    requires
        call_ensures(ready_step, (attempt, &Ok::<(), WslError>(())), done),
        call_ensures(ready_step, (attempt, &Err::<(), WslError>(error)), failed),
    ensures
        done == ReadyStep::Done,
        failed == ReadyStep::Retry <==> (error is AddressInUse || error is NonOwnedEndpoint) && attempt <= 2,
        failed != ReadyStep::Retry ==> failed == ReadyStep::Fail,
{
}

/// A process is asked to end and waited for; where that fails or takes too long it is
/// killed; it counts as stopped once nobody answers any more.
pub proof fn law_stop_goes_step_by_step(
    sent: Result<CommandOutput, WslError>,
    flag: bool,
    late: bool,
    asked: StopStep,
    waited: StopStep,
    killed: StopStep,
    checked: StopStep,
    gone: StopStep,
)
    requires
        call_ensures(after_term, (&sent,), asked),
        call_ensures(after_term_wait, (flag,), waited),
        call_ensures(after_kill, (sent,), killed),
        call_ensures(after_endpoint_check, (flag, late), checked),
        call_ensures(after_exit_check, (flag, late), gone),
    ensures
        asked is AwaitExit <==> sent is Ok && sent->Ok_0.success,
        asked !is AwaitExit ==> asked is SendKill,
        waited is CheckEndpoint <==> flag,
        waited is SendKill <==> !flag,
        killed is AwaitKilled <==> sent is Ok && sent->Ok_0.success,
        killed !is AwaitKilled ==> killed is Failed,
        sent matches Err(error) ==> killed == StopStep::Failed(error),
        checked is Stopped <==> !flag,
        checked is CheckEndpoint <==> flag && !late,
        checked is Failed <==> flag && late,
        gone is Stopped <==> !flag,
        gone is CheckEndpoint <==> flag && !late,
        gone is Failed <==> flag && late,
{
}

/// A killed process that ends is checked once more; one that does not end, and one
/// that cannot be waited for, are failures.
pub proof fn law_killed_process_has_to_end(code: i32, error: WslError, ended: StopStep, failed: StopStep, silent: StopStep)
    requires
        call_ensures(after_kill_wait, (Some(Ok::<i32, WslError>(code)),), ended),
        call_ensures(after_kill_wait, (Some(Err::<i32, WslError>(error)),), failed),
        call_ensures(after_kill_wait, (None::<Result<i32, WslError>>,), silent),
    ensures
        ended is CheckEndpoint,
        failed == StopStep::Failed(error),
        silent matches StopStep::Failed(reason) && (reason matches WslError::Command(text) && text@
            == "owned process did not exit"@),
{
}

/// An engine that ends before it is ready failed for want of its address, or with its
/// status and what it wrote last.
pub proof fn law_early_exit_is_classified(status: &str, tail: &[u8], error: WslError)
    requires
        call_ensures(classify_pre_ready_exit, (status, tail), error),
    ensures
        error is AddressInUse <==> address_taken(lossy_text(tail@)),
        error !is AddressInUse ==> (error matches WslError::Command(reason) && reason@
            == "engine exited before readiness: "@ + status@ + ": "@ + lossy_text(tail@)),
{
}

/// The owner of a port is read from the list of sockets; a list that could not be had
/// is a failure.
pub proof fn law_owner_is_read_from_the_sockets(output: CommandOutput, pid: u32, result: Result<bool, WslError>)
    requires
        call_ensures(endpoint_owned, (&output, pid), result),
    ensures
        result is Ok <==> output.success,
        result matches Ok(owned) ==> (owned <==> occurs(output.stdout@, "pid="@ + decimal(pid as nat) + ","@)),
        result matches Err(error) ==> error.message_text() == "command failed: "@ + output.stderr@,
{
}

/// A launch names the distribution, the script, the executable, the model and then
/// the settings.
pub proof fn law_launch_names_what_it_starts(
    distribution: &str,
    executable: &str,
    model: &str,
    settings: Vec<String>,
    argv: Vec<String>,
)
    requires
        call_ensures(launch_argv, (distribution, executable, model, &settings), argv),
    ensures
        argv@.len() == 9 + settings@.len(),
        texts(argv@)[0] == "-d"@ && texts(argv@)[1] == distribution@ && texts(argv@)[2] == "--"@,
        texts(argv@)[3] == "sh"@ && texts(argv@)[4] == "-c"@,
        texts(argv@)[7] == executable@ && texts(argv@)[8] == model@,
        forall|index: int| 0 <= index < settings@.len() ==> texts(argv@)[9 + index] == #[trigger] texts(settings@)[index],
{
    assert(texts(argv@).len() == argv@.len());
}

/// A signal is sent to the process that was started, named by its number and its
/// start.
pub proof fn law_signal_names_its_process(distribution: &str, owned: OwnedPid, signal: Signal, argv: Vec<String>)
    requires
        call_ensures(guarded_signal_argv, (distribution, owned, signal), argv),
    ensures
        argv@.len() == 9,
        texts(argv@)[0] == "-d"@ && texts(argv@)[1] == distribution@ && texts(argv@)[2] == "--"@,
        texts(argv@)[3] == "sh"@ && texts(argv@)[4] == "-s"@,
        texts(argv@)[6] == signal.word_text(),
        texts(argv@)[7] == decimal(owned.pid as nat),
        texts(argv@)[8] == decimal(owned.start_time as nat),
{
    assert(texts(argv@).len() == argv@.len());
}

/// A model that cannot be reached is not launched, nor one with a draft model that
/// does not fit; otherwise the settings stay, with the draft model where the engine
/// finds it.
pub proof fn law_launch_is_checked(
    model: ModelRecord,
    settings: LaunchSettings,
    draft_is_file: bool,
    style: PathStyle,
    result: Result<LaunchSettings, AppError>,
)
    requires
        call_ensures(validate_launch, (&model, &settings, draft_is_file, style), result),
    ensures
        result is Ok <==> reachable(model.path@) && draft_fits(model, settings, draft_is_file, style),
        reachable(model.path@) ==> (result matches Err(error) ==> error == AppError::InvalidSetting("draft_model")),
        result matches Ok(prepared) ==> {
            &&& prepared.context_length == settings.context_length
            &&& prepared.gpu_layers == settings.gpu_layers
            &&& prepared.cpu_threads == settings.cpu_threads
            &&& prepared.batch_size == settings.batch_size
            &&& prepared.parallel_slots == settings.parallel_slots
            &&& prepared.flash_attention == settings.flash_attention
            &&& prepared.kv_cache_type == settings.kv_cache_type
            &&& prepared.speculative_type == settings.speculative_type
            &&& prepared.draft_model is Some <==> settings.draft_model is Some
            &&& settings.draft_model matches Some(path) ==> prepared.draft_model->0@ == mounted(path@)
        },
{
}

/// A probe holds of the executable that it was made of, at its place and in its
/// distribution; one that was replaced or written to is probed anew.
pub proof fn law_probe_holds_of_its_executable(
    snapshot: ProbeSnapshot,
    distribution: &str,
    executable: &str,
    identity: ExecutableIdentity,
    reused: Option<ProbeSnapshot>,
)
    requires
        call_ensures(reusable_snapshot, (Some(snapshot), distribution, executable, &identity), reused),
    ensures
        reused is Some <==> {
            &&& snapshot.distribution@ == distribution@
            &&& snapshot.executable_path@ == executable@
            &&& snapshot.executable_identity.device == identity.device
            &&& snapshot.executable_identity.inode == identity.inode
            &&& snapshot.executable_identity.size == identity.size
            &&& snapshot.executable_identity.modified_seconds == identity.modified_seconds
        },
        reused matches Some(found) ==> found == snapshot,
{
}

proof fn lemma_decimal_has_no_tab(value: nat)
    ensures
        !decimal(value).contains('\t'),
        decimal(value).len() > 0,
        is_digit(decimal(value)[0]),
        is_digit(decimal(value).last()),
{
    lemma_decimal_reads_back(value);
    let text = decimal(value);
    assert(is_digit(text[0]) && is_digit(text[text.len() - 1]));
    if text.contains('\t') {
        let at = choose|at: int| 0 <= at < text.len() && text[at] == '\t';
        assert(is_digit(text[at]));
    }
}

/// The identity of an executable is read back from its four numbers between tabs, in
/// the order of device, file, size and time.
pub proof fn law_identity_is_read_back(device: u64, inode: u64, size: u64, seconds: nat)
    requires
        seconds <= 0x7fff_ffff_ffff_ffff,
    ensures
        identity_of(
            decimal(device as nat) + seq!['\t'] + decimal(inode as nat) + seq!['\t'] + decimal(size as nat) + seq!['\t']
                + decimal(seconds) + seq!['\n'],
        ) == Some(ExecutableIdentity { device, inode, size, modified_seconds: seconds as i64 }),
{
    let one = decimal(device as nat);
    let two = decimal(inode as nat);
    let three = decimal(size as nat);
    let four = decimal(seconds);
    lemma_decimal_has_no_tab(device as nat);
    lemma_decimal_has_no_tab(inode as nat);
    lemma_decimal_has_no_tab(size as nat);
    lemma_decimal_has_no_tab(seconds);
    let first = one + seq!['\t'] + two;
    let second = first + seq!['\t'] + three;
    let line = second + seq!['\t'] + four;
    let raw = line + seq!['\n'];
    law_text_without_separators_is_one_piece(one, '\t', '\t');
    law_last_piece_stands_behind_a_separator(one, '\t', two, '\t', '\t');
    law_last_piece_stands_behind_a_separator(first, '\t', three, '\t', '\t');
    law_last_piece_stands_behind_a_separator(second, '\t', four, '\t', '\t');
    assert(raw[0] == one[0]);
    assert(line.last() == four.last());
    law_white_space_characters(one[0]);
    law_white_space_characters(four.last());
    law_white_space_characters('\n');
    assert(trimmed_start(raw) == raw);
    assert(raw.drop_last() =~= line);
    assert(trimmed_end(line) == line);
    assert(trimmed(raw) == line);
    law_numbers_are_read_back(device as nat, u64::MAX as nat);
    law_numbers_are_read_back(inode as nat, u64::MAX as nat);
    law_numbers_are_read_back(size as nat, u64::MAX as nat);
    law_numbers_are_read_back(seconds, u64::MAX as nat);
    let fields = split(line, '\t', '\t');
    assert(fields == seq![one].push(two).push(three).push(four));
    assert(fields.len() == 4 && fields[0] == one && fields[1] == two && fields[2] == three && fields[3] == four);
}

/// An engine is started on the address of this machine and the port that it is
/// given, before its own settings.
pub proof fn law_engine_listens_on_this_machine(port: u16, settings: Vec<String>, args: Vec<String>)
    requires
        call_ensures(launch_args, (port, &settings), args),
    ensures
        args@.len() == settings@.len() + 4,
        texts(args@)[0] == "--host"@ && texts(args@)[1] == "127.0.0.1"@,
        texts(args@)[2] == "--port"@ && texts(args@)[3] == decimal(port as nat),
        texts(args@).skip(4) == texts(settings@),
{
    assert(texts(args@).len() == args@.len());
    assert(texts(args@).skip(4) =~= texts(settings@));
}

/// The sockets that are asked for are those that listen on the engine's port.
pub proof fn law_sockets_of_the_port_are_listed(distribution: &str, port: u16, argv: Vec<String>)
    requires
        call_ensures(endpoint_owner_argv, (distribution, port), argv),
    ensures
        argv@.len() == 9,
        texts(argv@)[1] == distribution@,
        texts(argv@)[3] == "ss"@ && texts(argv@)[5] == "-ltnp"@,
        texts(argv@)[8] == seq![':'] + decimal(port as nat),
{
    assert(texts(argv@).len() == argv@.len());
}

/// A signal that was not sent fails with its own error, and one that had no effect
/// with what was written of it.
pub proof fn law_signals_succeed_or_fail(sent: Result<CommandOutput, WslError>, result: Result<(), WslError>)
    requires
        call_ensures(signal_result, (sent,), result),
    ensures
        result is Ok <==> sent is Ok && sent->Ok_0.success,
        sent matches Err(error) ==> result == Err::<(), WslError>(error),
        sent matches Ok(output) ==> (!output.success ==> result == Err::<(), WslError>(WslError::Command(output.stderr))),
{
}

} // verus!
