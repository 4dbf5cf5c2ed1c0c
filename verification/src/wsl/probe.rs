//! What is known of an engine's executable: its identity, its version and the
//! options it has.

use vstd::prelude::*;

use crate::launcher::capability::{EngineCapabilities, LaunchSettings};
use crate::text::{
    add_text, chars_of, parse_signed, parse_unsigned, part_of, rows, same, same_text, signed_number, split,
    split_chars, string_of, texts, trim, trimmed, unsigned_number,
};

verus! {

/// What tells one executable from another.
#[derive(Clone, Copy, Debug, PartialEq, Eq, Structural)]
pub struct ExecutableIdentity {
    pub device: u64,
    pub inode: u64,
    pub size: u64,
    pub modified_seconds: i64,
}

/// What was found out about an executable.
#[derive(Debug, PartialEq, Eq)]
pub struct ProbeSnapshot {
    pub distribution: String,
    pub executable_path: String,
    pub executable_identity: ExecutableIdentity,
    pub version_raw: String,
    pub help_raw: String,
    pub capabilities: EngineCapabilities,
    pub probed_at: u64,
}

impl Clone for ProbeSnapshot {
    fn clone(&self) -> (result: Self)
        ensures
            result == *self,
    {
        ProbeSnapshot {
            distribution: self.distribution.clone(),
            executable_path: self.executable_path.clone(),
            executable_identity: self.executable_identity,
            version_raw: self.version_raw.clone(),
            help_raw: self.help_raw.clone(),
            capabilities: self.capabilities,
            probed_at: self.probed_at,
        }
    }
}

impl ProbeSnapshot {
    /// What the output of the executable tells, found out at `probed_at`.
    pub fn new(
        distribution: String,
        executable_path: String,
        executable_identity: ExecutableIdentity,
        version_raw: String,
        help_raw: String,
        probed_at: u64,
    ) -> (result: Self)
        ensures
            result.distribution == distribution,
            result.executable_path == executable_path,
            result.executable_identity == executable_identity,
            result.version_raw == version_raw,
            result.help_raw == help_raw,
            result.capabilities == offered(help_raw@),
            result.probed_at == probed_at,
    {
        let capabilities = capabilities_from_help(help_raw.as_str());
        ProbeSnapshot {
            distribution,
            executable_path,
            executable_identity,
            version_raw,
            help_raw,
            capabilities,
            probed_at,
        }
    }

    /// The snapshot is of this very executable.
    pub open spec fn describes(self, distribution: Seq<char>, executable: Seq<char>, identity: ExecutableIdentity) -> bool {
        self.distribution@ == distribution && self.executable_path@ == executable && self.executable_identity
            == identity
    }

    /// Whether the snapshot still holds of an executable.
    pub fn is_valid_for(&self, distribution: &str, executable_path: &str, identity: &ExecutableIdentity) -> (result:
        bool)
        ensures
            result == self.describes(distribution@, executable_path@, *identity),
    {
        same_text(self.distribution.as_str(), distribution) && same_text(
            self.executable_path.as_str(),
            executable_path,
        ) && self.executable_identity == *identity
    }
}

/// Why a probe could not be read.
#[derive(Debug)]
pub enum ProbeError {
    InvalidIdentity,
    Io(String),
    Json(String),
}

impl ProbeError {
    pub open spec fn message_text(self) -> Seq<char> {
        match self {
            ProbeError::InvalidIdentity => "invalid stat output"@,
            ProbeError::Io(reason) => reason@,
            ProbeError::Json(reason) => reason@,
        }
    }

    pub fn to_string(&self) -> (result: String)
        ensures
            result@ == self.message_text(),
    {
        match self {
            ProbeError::InvalidIdentity => "invalid stat output".to_owned(),
            ProbeError::Io(reason) => reason.clone(),
            ProbeError::Json(reason) => reason.clone(),
        }
    }
}

/// The command that asks the executable for `option`.
pub fn probe_argv(distribution: &str, executable: &str, option: &str) -> (result: Vec<String>)
    ensures
        texts(result@) == seq!["-d"@, distribution@, "--"@, executable@, option@],
{
    let mut argv: Vec<String> = Vec::new();
    assert(texts(argv@) =~= Seq::empty());
    add_text(&mut argv, "-d");
    add_text(&mut argv, distribution);
    add_text(&mut argv, "--");
    add_text(&mut argv, executable);
    add_text(&mut argv, option);
    argv
}

/// The command that tells the identity of the executable.
pub fn stat_argv(distribution: &str, executable: &str) -> (result: Vec<String>)
    ensures
        texts(result@) == seq![
            "-d"@,
            distribution@,
            "--"@,
            "stat"@,
            "-Lc"@,
            "%d\t%i\t%s\t%Y"@,
            "--"@,
            executable@,
        ],
{
    let mut argv: Vec<String> = Vec::new();
    assert(texts(argv@) =~= Seq::empty());
    add_text(&mut argv, "-d");
    add_text(&mut argv, distribution);
    add_text(&mut argv, "--");
    add_text(&mut argv, "stat");
    add_text(&mut argv, "-Lc");
    add_text(&mut argv, "%d\t%i\t%s\t%Y");
    add_text(&mut argv, "--");
    add_text(&mut argv, executable);
    argv
}

/// `text` without the line breaks at its end.
pub open spec fn without_breaks(text: Seq<char>) -> Seq<char>
    decreases text.len(),
{
    if text.len() > 0 && (text.last() == '\r' || text.last() == '\n') {
        without_breaks(text.drop_last())
    } else {
        text
    }
}

/// The version without the line breaks at its end.
pub fn capture_version(raw: &str) -> (result: String)
    ensures
        result@ == without_breaks(raw@),
{
    let text = chars_of(raw);
    let mut end: usize = text.len();
    assert(text@.take(end as int) =~= text@);
    while end > 0 && (text[end - 1] == '\r' || text[end - 1] == '\n')
        invariant
            end <= text@.len(),
            text@ == raw@,
            without_breaks(raw@) == without_breaks(text@.take(end as int)),
        decreases end,
    {
        assert(text@.take(end as int).drop_last() =~= text@.take(end - 1));
        end = end - 1;
    }
    let kept = part_of(&text, 0, end);
    assert(kept@ =~= text@.take(end as int));
    string_of(&kept)
}

/// The identity in four fields between tabs.
pub open spec fn identity_of(raw: Seq<char>) -> Option<ExecutableIdentity> {
    let fields = split(trimmed(raw), '\t', '\t');
    if fields.len() != 4 {
        None
    } else {
        match (
            unsigned_number(fields[0], u64::MAX as nat),
            unsigned_number(fields[1], u64::MAX as nat),
            unsigned_number(fields[2], u64::MAX as nat),
            signed_number(fields[3]),
        ) {
            (Some(device), Some(inode), Some(size), Some(modified)) => Some(
                ExecutableIdentity {
                    device: device as u64,
                    inode: inode as u64,
                    size: size as u64,
                    modified_seconds: modified as i64,
                },
            ),
            _ => None,
        }
    }
}

/// The identity that `stat` printed.
pub fn parse_identity(raw: &str) -> (result: Result<ExecutableIdentity, ProbeError>)
    ensures
        match result {
            Ok(identity) => identity_of(raw@) == Some(identity),
            Err(error) => identity_of(raw@) is None && error == ProbeError::InvalidIdentity,
        },
{
    let fields = split_chars(&trim(&chars_of(raw)), '\t', '\t');
    let ghost names = split(trimmed(raw@), '\t', '\t');
    assert(rows(fields@) == names);
    if fields.len() != 4 {
        return Err(ProbeError::InvalidIdentity);
    }
    proof {
        assert(names[0] == fields@[0]@ && names[1] == fields@[1]@ && names[2] == fields@[2]@ && names[3]
            == fields@[3]@);
    }
    let device = parse_unsigned(&fields[0], u64::MAX);
    let inode = parse_unsigned(&fields[1], u64::MAX);
    let size = parse_unsigned(&fields[2], u64::MAX);
    let modified = parse_signed(&fields[3]);
    match (device, inode, size, modified) {
        (Some(device), Some(inode), Some(size), Some(modified_seconds)) => Ok(
            ExecutableIdentity { device, inode, size, modified_seconds },
        ),
        _ => Err(ProbeError::InvalidIdentity),
    }
}

/// White space of ASCII, which words of a help text stand between.
pub open spec fn ascii_space(character: char) -> bool {
    character == ' ' || character == '\t' || character == '\n' || character == '\r' || character == '\u{c}'
}

/// A mark that may stand around an option in a help text.
pub open spec fn option_mark(character: char) -> bool {
    character == ',' || character == '[' || character == ']' || character == '='
}

/// A word stands from `from` to `to` that is `option` but for marks around it.
pub open spec fn offered_between(help: Seq<char>, option: Seq<char>, from: int, to: int) -> bool {
    &&& 0 <= from <= to <= help.len()
    &&& from == 0 || ascii_space(help[from - 1])
    &&& to == help.len() || ascii_space(help[to])
    &&& forall|place: int| from <= place < to ==> !ascii_space(#[trigger] help[place])
    &&& unmarked(help.subrange(from, to)) == option
}

/// A word without the marks at its end.
pub open spec fn unmarked_end(word: Seq<char>) -> Seq<char>
    decreases word.len(),
{
    if word.len() > 0 && option_mark(word.last()) {
        unmarked_end(word.drop_last())
    } else {
        word
    }
}

/// A word without the marks around it.
pub open spec fn unmarked(word: Seq<char>) -> Seq<char>
    decreases word.len(),
{
    if word.len() > 0 && option_mark(word[0]) {
        unmarked(word.skip(1))
    } else {
        unmarked_end(word)
    }
}

/// The help text offers `option`.
pub open spec fn offers(help: Seq<char>, option: Seq<char>) -> bool {
    exists|from: int, to: int| offered_between(help, option, from, to)
}

/// The options that a help text offers.
pub open spec fn offered(help: Seq<char>) -> EngineCapabilities {
    EngineCapabilities {
        context_length: offers(help, "--ctx-size"@) || offers(help, "-c"@),
        gpu_layers: offers(help, "--gpu-layers"@) || offers(help, "--n-gpu-layers"@) || offers(help, "-ngl"@),
        cpu_threads: offers(help, "--threads"@) || offers(help, "-t"@),
        batch_size: offers(help, "--batch-size"@) || offers(help, "-b"@),
        parallel_slots: offers(help, "--parallel"@) || offers(help, "-np"@),
        flash_attention: offers(help, "--flash-attn"@) || offers(help, "--flash-attention"@),
        kv_cache_type: offers(help, "--cache-type-k"@) && offers(help, "--cache-type-v"@),
        speculative_type: offers(help, "--spec-type"@),
        draft_model: offers(help, "--spec-draft-model"@) || offers(help, "--model-draft"@) || offers(
            help,
            "-md"@,
        ),
    }
}

fn is_ascii_space(character: char) -> (result: bool)
    ensures
        result == ascii_space(character),
{
    character == ' ' || character == '\t' || character == '\n' || character == '\r' || character == '\u{c}'
}

fn is_option_mark(character: char) -> (result: bool)
    ensures
        result == option_mark(character),
{
    character == ',' || character == '[' || character == ']' || character == '='
}

fn strip_marks(word: &[char]) -> (result: Vec<char>)
    ensures
        result@ == unmarked(word@),
{
    let mut start: usize = 0;
    assert(word@.skip(0) =~= word@);
    while start < word.len() && is_option_mark(word[start])
        invariant
            start <= word@.len(),
            unmarked(word@) == unmarked(word@.skip(start as int)),
        decreases word@.len() - start,
    {
        assert(word@.skip(start as int).skip(1) =~= word@.skip(start + 1));
        start = start + 1;
    }
    let ghost rest = word@.skip(start as int);
    let mut end: usize = word.len();
    assert(rest.take(end - start) =~= rest);
    while end > start && is_option_mark(word[end - 1])
        invariant
            start <= end <= word@.len(),
            rest == word@.skip(start as int),
            unmarked_end(rest) == unmarked_end(rest.take(end - start)),
        decreases end,
    {
        assert(rest.take(end - start).drop_last() =~= rest.take(end - start - 1));
        assert(rest.take(end - start).last() == word@[end - 1]);
        end = end - 1;
    }
    let result = part_of(word, start, end);
    assert(result@ =~= rest.take(end - start));
    assert(start < end ==> rest.take(end - start).last() == word@[end - 1]);
    result
}

/// Whether the help text offers `option`.
fn help_offers(help: &[char], option: &str) -> (result: bool)
    ensures
        result == offers(help@, option@),
{
    let wanted = chars_of(option);
    let mut from: usize = 0;
    let total: usize = help.len();
    loop
        invariant
            total == help@.len(),
            from <= total,
            wanted@ == option@,
            from == 0 || ascii_space(help@[from - 1]),
            forall|start: int, end: int|
                0 <= start < from ==> !#[trigger] offered_between(help@, option@, start, end),
        decreases total - from + 1,
    {
        let mut to: usize = from;
        while to < total && !is_ascii_space(help[to])
            invariant
                total == help@.len(),
                from <= to <= total,
                forall|place: int| from <= place < to ==> !ascii_space(#[trigger] help@[place]),
            decreases total - to,
        {
            to = to + 1;
        }
        let word = part_of(help, from, to);
        if same(&strip_marks(&word), &wanted) {
            assert(offered_between(help@, option@, from as int, to as int));
            return true;
        }
        assert forall|start: int, end: int| 0 <= start <= to implies !#[trigger] offered_between(
            help@,
            option@,
            start,
            end,
        ) by {
            if offered_between(help@, option@, start, end) {
                if start > from {
                    assert(!ascii_space(help@[start - 1]));
                } else {
                    assert(start == from);
                    if end < to {
                        assert(!ascii_space(help@[end]));
                    }
                    if end > to {
                        assert(ascii_space(help@[to as int]));
                    }
                }
            }
        }
        if to >= total {
            return false;
        }
        from = to + 1;
    }
}

/// The options that a help text offers, under any of their names.
pub fn capabilities_from_help(help: &str) -> (result: EngineCapabilities)
    ensures
        result == offered(help@),
        result.speculative_type ==> offers(help@, "--spec-type"@),
        result.kv_cache_type ==> offers(help@, "--cache-type-k"@) && offers(help@, "--cache-type-v"@),
        result.flash_attention ==> offers(help@, "--flash-attn"@) || offers(help@, "--flash-attention"@),
        result.context_length ==> offers(help@, "--ctx-size"@) || offers(help@, "-c"@),
        result.gpu_layers ==> offers(help@, "--gpu-layers"@) || offers(help@, "--n-gpu-layers"@) || offers(
            help@,
            "-ngl"@,
        ),
        result.cpu_threads ==> offers(help@, "--threads"@) || offers(help@, "-t"@),
        result.batch_size ==> offers(help@, "--batch-size"@) || offers(help@, "-b"@),
        result.parallel_slots ==> offers(help@, "--parallel"@) || offers(help@, "-np"@),
        result.draft_model ==> offers(help@, "--spec-draft-model"@) || offers(help@, "--model-draft"@) || offers(
            help@,
            "-md"@,
        ),
{
    let text = chars_of(help);
    EngineCapabilities {
        context_length: help_offers(&text, "--ctx-size") || help_offers(&text, "-c"),
        gpu_layers: help_offers(&text, "--gpu-layers") || help_offers(&text, "--n-gpu-layers") || help_offers(
            &text,
            "-ngl",
        ),
        cpu_threads: help_offers(&text, "--threads") || help_offers(&text, "-t"),
        batch_size: help_offers(&text, "--batch-size") || help_offers(&text, "-b"),
        parallel_slots: help_offers(&text, "--parallel") || help_offers(&text, "-np"),
        flash_attention: help_offers(&text, "--flash-attn") || help_offers(&text, "--flash-attention"),
        kv_cache_type: help_offers(&text, "--cache-type-k") && help_offers(&text, "--cache-type-v"),
        speculative_type: help_offers(&text, "--spec-type"),
        draft_model: help_offers(&text, "--spec-draft-model") || help_offers(&text, "--model-draft") || help_offers(
            &text,
            "-md",
        ),
    }
}

/// A setting is taken for understood where the help text offers its option, under one
/// of its names, and nowhere else; the cache needs both of its options.
pub proof fn law_options_are_understood_by_name(help: Seq<char>)
    ensures
        ({
            let understood = offered(help);
            &&& understood.context_length <==> offers(help, "--ctx-size"@) || offers(help, "-c"@)
            &&& understood.gpu_layers <==> offers(help, "--gpu-layers"@) || offers(help, "--n-gpu-layers"@) || offers(
                help,
                "-ngl"@,
            )
            &&& understood.cpu_threads <==> offers(help, "--threads"@) || offers(help, "-t"@)
            &&& understood.batch_size <==> offers(help, "--batch-size"@) || offers(help, "-b"@)
            &&& understood.parallel_slots <==> offers(help, "--parallel"@) || offers(help, "-np"@)
            &&& understood.flash_attention <==> offers(help, "--flash-attn"@) || offers(help, "--flash-attention"@)
            &&& understood.kv_cache_type <==> offers(help, "--cache-type-k"@) && offers(help, "--cache-type-v"@)
            &&& understood.speculative_type <==> offers(help, "--spec-type"@)
            &&& understood.draft_model <==> offers(help, "--spec-draft-model"@) || offers(help, "--model-draft"@)
                || offers(help, "-md"@)
        }),
{
}

/// A launch with one setting passes its option where the help text offers it under one
/// of its names, and nothing otherwise.
pub proof fn law_only_offered_options_are_passed(help: Seq<char>, settings: LaunchSettings)
    ensures
        ({
            let bare = LaunchSettings::unset();
            let draft = LaunchSettings { speculative_type: settings.speculative_type, ..bare };
            let cache = LaunchSettings { kv_cache_type: settings.kv_cache_type, ..bare };
            let context = LaunchSettings { context_length: settings.context_length, ..bare };
            &&& bare.rendered_args(offered(help)).len() == 0
            &&& draft.rendered_args(offered(help)).len() > 0 <==> settings.speculative_type is Some && offers(
                help,
                "--spec-type"@,
            )
            &&& cache.rendered_args(offered(help)).len() > 0 <==> settings.kv_cache_type is Some && offers(
                help,
                "--cache-type-k"@,
            ) && offers(help, "--cache-type-v"@)
            &&& context.rendered_args(offered(help)).len() > 0 <==> settings.context_length is Some && (offers(
                help,
                "--ctx-size"@,
            ) || offers(help, "-c"@))
        }),
{
}

proof fn lemma_unmarked_end(word: Seq<char>)
    ensures
        unmarked_end(word).len() <= word.len(),
        unmarked_end(word) == word.take(unmarked_end(word).len() as int),
        forall|place: int| unmarked_end(word).len() <= place < word.len() ==> option_mark(#[trigger] word[place]),
    decreases word.len(),
{
    if word.len() > 0 && option_mark(word.last()) {
        lemma_unmarked_end(word.drop_last());
        let kept = unmarked_end(word).len() as int;
        assert(word.drop_last().take(kept) =~= word.take(kept));
        assert forall|place: int| kept <= place < word.len() implies option_mark(#[trigger] word[place]) by {
            if place < word.len() - 1 {
                assert(word.drop_last()[place] == word[place]);
            }
        }
    } else {
        assert(word.take(word.len() as int) =~= word);
    }
}

proof fn lemma_unmarked(word: Seq<char>) -> (start: int)
    ensures
        0 <= start,
        start + unmarked(word).len() <= word.len(),
        unmarked(word) == word.subrange(start, start + unmarked(word).len()),
        forall|place: int| 0 <= place < start ==> option_mark(#[trigger] word[place]),
        forall|place: int| start + unmarked(word).len() <= place < word.len() ==> option_mark(#[trigger] word[place]),
    decreases word.len(),
{
    if word.len() > 0 && option_mark(word[0]) {
        let rest = word.skip(1);
        let inner = lemma_unmarked(rest);
        assert(rest.subrange(inner, inner + unmarked(rest).len()) =~= word.subrange(
            inner + 1,
            inner + 1 + unmarked(word).len(),
        ));
        assert forall|place: int| 0 <= place < inner + 1 implies option_mark(#[trigger] word[place]) by {
            if place > 0 {
                assert(rest[place - 1] == word[place]);
            }
        }
        assert forall|place: int| inner + 1 + unmarked(word).len() <= place < word.len() implies option_mark(
            #[trigger] word[place],
        ) by {
            assert(rest[place - 1] == word[place]);
        }
        inner + 1
    } else {
        lemma_unmarked_end(word);
        assert(word.take(unmarked(word).len() as int) =~= word.subrange(0, unmarked(word).len() as int));
        0
    }
}

/// An option that a help text offers stands in it, with white space, a comma, a bracket
/// or an equals sign around it, or the end of the text.
pub proof fn law_offered_option_stands_in_the_help(help: Seq<char>, option: Seq<char>)
    requires
        offers(help, option),
    ensures
        exists|at: int|
            {
                &&& 0 <= at && at + option.len() <= help.len()
                &&& #[trigger] help.subrange(at, at + option.len()) == option
                &&& at == 0 || " \t\n\r\u{c},[]="@.contains(help[at - 1])
                &&& at + option.len() == help.len() || " \t\n\r\u{c},[]="@.contains(help[at + option.len()])
            },
{
    let (from, to) = choose|from: int, to: int| offered_between(help, option, from, to);
    let word = help.subrange(from, to);
    let start = lemma_unmarked(word);
    let at = from + start;
    let around = " \t\n\r\u{c},[]="@;
    reveal_strlit(" \t\n\r\u{c},[]=");
    assert(around[0] == ' ' && around[1] == '\t' && around[2] == '\n' && around[3] == '\r' && around[4] == '\u{c}'
        && around[5] == ',' && around[6] == '[' && around[7] == ']' && around[8] == '=');
    assert(help.subrange(at, at + option.len()) =~= word.subrange(start, start + option.len()));
    if start > 0 {
        assert(word[start - 1] == help[at - 1]);
    }
    if start + option.len() < word.len() {
        assert(word[start + option.len()] == help[at + option.len()]);
    }
}

/// An option that stands alone between white space is offered.
pub proof fn law_option_that_stands_alone_is_offered(before: Seq<char>, option: Seq<char>, after: Seq<char>)
    requires
        option.len() > 0,
        before.len() == 0 || before.last() == ' ' || before.last() == '\n',
        after.len() == 0 || after[0] == ' ' || after[0] == '\n' || after[0] == ',',
        after.len() > 1 && after[0] == ',' ==> after[1] == ' ',
        forall|place: int|
            0 <= place < option.len() ==> !ascii_space(#[trigger] option[place]) && !option_mark(option[place]),
    ensures
        offers(before + option + after, option),
{
    let help = before + option + after;
    let from = before.len() as int;
    let end = from + option.len();
    let to = if after.len() > 0 && after[0] == ',' {
        end + 1
    } else {
        end
    };
    let word = help.subrange(from, to);
    assert forall|place: int| from <= place < to implies !ascii_space(#[trigger] help[place]) by {
        if place < end {
            assert(help[place] == option[place - from]);
        }
    }
    assert(word[0] == option[0]);
    if to > end {
        assert(word.drop_last() =~= option);
        assert(word.last() == ',');
        assert(option.last() == option[option.len() - 1]);
        assert(unmarked_end(option) == option);
        assert(unmarked(word) == option);
    } else {
        assert(word =~= option);
        assert(option.last() == option[option.len() - 1]);
    }
    assert(offered_between(help, option, from, to));
}

} // verus!
