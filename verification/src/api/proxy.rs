//! Passing inference requests on to the engine: the request's body, the headers
//! that may pass, and the engine's endpoint.

use vstd::prelude::*;

use super::error::ApiError;
use super::gateway::GatewayLimits;
use super::models::{find_model, model_with_key, ApiModel};
use crate::domain::error::{optional_str, optional_text};
use crate::json::{json_at, read_json, JsonPlace, JsonText};
use crate::launcher::lifecycle::LifecycleSnapshot;
use crate::launcher::model::ModelId;
use crate::text::{
    all_digits, chars_of, digits_value, joined, lowered, parse_unsigned, rows, same, same_text, split, split_chars,
    texts, to_lowered, trim, trimmed,
};

verus! {

/// What can go wrong with a request that is passed on, in the order in which it is
/// noticed.
#[derive(Clone, Copy, Debug, PartialEq, Eq, Structural)]
pub enum ProxyFailure {
    TooManyHeaders,
    TooManyConnections,
    BodyFailed,
    BodyTooLarge,
    InvalidJson,
    ModelRequired,
    StartTimedOut,
    NoEndpoint,
    InvalidEndpoint,
    AnswerTimedOut,
    AnswerFailed,
    AnswerUnusable,
}

impl ProxyFailure {
    pub open spec fn status_number(self) -> u16 {
        match self {
            ProxyFailure::TooManyHeaders => 431,
            ProxyFailure::BodyFailed => 400,
            ProxyFailure::BodyTooLarge => 413,
            ProxyFailure::InvalidJson => 400,
            ProxyFailure::ModelRequired => 400,
            _ => 503,
        }
    }

    pub open spec fn code_text(self) -> Seq<char> {
        match self {
            ProxyFailure::TooManyHeaders => "header_limits_exceeded"@,
            ProxyFailure::TooManyConnections => "connection_limit"@,
            ProxyFailure::BodyFailed => "invalid_request"@,
            ProxyFailure::BodyTooLarge => "request_too_large"@,
            ProxyFailure::InvalidJson => "invalid_request"@,
            ProxyFailure::ModelRequired => "model_required"@,
            ProxyFailure::StartTimedOut => "model_starting"@,
            ProxyFailure::NoEndpoint => "engine_unavailable"@,
            ProxyFailure::InvalidEndpoint => "invalid_upstream"@,
            ProxyFailure::AnswerTimedOut => "upstream_timeout"@,
            ProxyFailure::AnswerFailed => "upstream_unavailable"@,
            ProxyFailure::AnswerUnusable => "proxy_error"@,
        }
    }

    pub open spec fn message_text(self) -> Seq<char> {
        match self {
            ProxyFailure::TooManyHeaders => "too many request headers"@,
            ProxyFailure::TooManyConnections => "too many active connections"@,
            ProxyFailure::BodyFailed => "request body stream failed"@,
            ProxyFailure::BodyTooLarge => "request body is too large"@,
            ProxyFailure::InvalidJson => "request body is not valid JSON"@,
            ProxyFailure::ModelRequired => "model is required"@,
            ProxyFailure::StartTimedOut => "model is starting"@,
            ProxyFailure::NoEndpoint => "engine endpoint is unavailable"@,
            ProxyFailure::InvalidEndpoint => "engine endpoint is invalid"@,
            ProxyFailure::AnswerTimedOut => "upstream response headers timed out"@,
            ProxyFailure::AnswerFailed => "upstream request failed"@,
            ProxyFailure::AnswerUnusable => "failed to construct response"@,
        }
    }

    /// What the client is told. Only what can pass by itself is worth another try.
    pub fn error(self) -> (result: ApiError)
        ensures
            result.is(
                self.status_number(),
                self.code_text(),
                self.message_text(),
                self.status_number() == 503,
            ),
    {
        match self {
            ProxyFailure::TooManyHeaders => ApiError::headers(
                "header_limits_exceeded",
                "too many request headers",
            ),
            ProxyFailure::TooManyConnections => ApiError::unavailable(
                "connection_limit",
                "too many active connections",
            ),
            ProxyFailure::BodyFailed => ApiError::bad_request("invalid_request", "request body stream failed"),
            ProxyFailure::BodyTooLarge => ApiError::payload("request_too_large", "request body is too large"),
            ProxyFailure::InvalidJson => ApiError::bad_request(
                "invalid_request",
                "request body is not valid JSON",
            ),
            ProxyFailure::ModelRequired => ApiError::bad_request("model_required", "model is required"),
            ProxyFailure::StartTimedOut => ApiError::unavailable("model_starting", "model is starting"),
            ProxyFailure::NoEndpoint => ApiError::unavailable(
                "engine_unavailable",
                "engine endpoint is unavailable",
            ),
            ProxyFailure::InvalidEndpoint => ApiError::unavailable(
                "invalid_upstream",
                "engine endpoint is invalid",
            ),
            ProxyFailure::AnswerTimedOut => ApiError::unavailable(
                "upstream_timeout",
                "upstream response headers timed out",
            ),
            ProxyFailure::AnswerFailed => ApiError::unavailable("upstream_unavailable", "upstream request failed"),
            ProxyFailure::AnswerUnusable => ApiError::unavailable("proxy_error", "failed to construct response"),
        }
    }
}

/// Refuses a request with too many headers.
pub fn check_header_count(count: usize, limits: &GatewayLimits) -> (result: Result<(), ProxyFailure>)
    ensures
        result == (if count > limits.max_headers {
            Err(ProxyFailure::TooManyHeaders)
        } else {
            Ok(())
        }),
{
    if count > limits.max_headers {
        Err(ProxyFailure::TooManyHeaders)
    } else {
        Ok(())
    }
}

/// How many bytes of a body are read at once.
pub const READ_ROOM: usize = 8192;

/// How much of a body has come.
#[derive(Clone, Copy, Debug, PartialEq, Eq, Structural)]
pub struct SpoolBudget {
    pub total: usize,
    pub limit: usize,
}

impl SpoolBudget {
    pub fn new(limit: usize) -> (result: Self)
        ensures
            result == (SpoolBudget { total: 0, limit }),
    {
        SpoolBudget { total: 0, limit }
    }

    /// Counts another chunk. A body that exceeds the limit is refused.
    pub fn take(&mut self, chunk_bytes: usize) -> (result: Result<(), ProxyFailure>)
        ensures
            final(self).limit == old(self).limit,
            match result {
                Ok(_) => old(self).total + chunk_bytes <= old(self).limit && final(self).total == old(self).total
                    + chunk_bytes,
                Err(failure) => old(self).total + chunk_bytes > old(self).limit && final(self).total
                    == old(self).total && failure == ProxyFailure::BodyTooLarge,
            },
    {
        if let Some(total) = self.total.checked_add(chunk_bytes) {
            if total <= self.limit {
                self.total = total;
                return Ok(());
            }
        }
        Err(ProxyFailure::BodyTooLarge)
    }
}

/// The bytes of some chunks, one after another, from `from` on.
pub open spec fn joined_chunks(chunks: Seq<&[u8]>, from: int) -> Seq<u8>
    decreases chunks.len() - from,
{
    if from < 0 || from >= chunks.len() {
        Seq::empty()
    } else {
        chunks[from]@ + joined_chunks(chunks, from + 1)
    }
}

/// What is left of some chunks when the first `index` of them and `offset` bytes of
/// the next were read.
pub open spec fn chunks_left(chunks: Seq<&[u8]>, index: int, offset: int) -> Seq<Seq<u8>> {
    Seq::new(
        (chunks.len() - index) as nat,
        |place: int|
            if place == 0 {
                chunks[index]@.skip(offset)
            } else {
                chunks[index + place]@
            },
    )
}

/// Chunks without the empty ones at the front.
pub open spec fn from_first_byte(chunks: Seq<Seq<u8>>) -> Seq<Seq<u8>>
    decreases chunks.len(),
{
    if chunks.len() > 0 && chunks[0].len() == 0 {
        from_first_byte(chunks.skip(1))
    } else {
        chunks
    }
}

/// Reads the bytes of a body that came in chunks.
pub struct ChunkReader<'a> {
    chunks: &'a [&'a [u8]],
    index: usize,
    offset: usize,
}

impl<'a> View for ChunkReader<'a> {
    type V = Seq<u8>;

    /// The bytes that are still to be read.
    closed spec fn view(&self) -> Seq<u8> {
        joined_chunks(self.chunks@, self.index as int).skip(self.offset as int)
    }
}

impl<'a> ChunkReader<'a> {
    #[verifier::type_invariant]
    spec fn within(self) -> bool {
        &&& self.index <= self.chunks@.len()
        &&& self.index < self.chunks@.len() ==> self.offset <= self.chunks@[self.index as int]@.len()
        &&& self.index == self.chunks@.len() ==> self.offset == 0
    }

    /// The chunks that are still to be read, the first of them as far as it is left.
    pub closed spec fn left(self) -> Seq<Seq<u8>> {
        chunks_left(self.chunks@, self.index as int, self.offset as int)
    }

    pub fn new(chunks: &'a [&'a [u8]]) -> (result: Self)
        ensures
            result@ == joined_chunks(chunks@, 0),
            result.left() == chunks_left(chunks@, 0, 0),
    {
        let reader = ChunkReader { chunks, index: 0, offset: 0 };
        assert(reader@ =~= joined_chunks(chunks@, 0));
        reader
    }

    /// The next bytes of the chunk at hand, at most `room`. None come only at the
    /// end, or where there is no room.
    pub fn read(&mut self, room: usize) -> (result: Vec<u8>)
        ensures
            result@.len() <= room,
            old(self)@ == result@ + final(self)@,
            result@.len() == 0 ==> room == 0 || old(self)@.len() == 0,
            ({
                let left = from_first_byte(old(self).left());
                if left.len() == 0 {
                    result@.len() == 0 && final(self).left().len() == 0
                } else {
                    let count = if left[0].len() < room {
                        left[0].len() as int
                    } else {
                        room as int
                    };
                    result@ == left[0].take(count) && final(self).left() == left.update(0, left[0].skip(count))
                }
            }),
    {
        proof {
            use_type_invariant(&*self);
        }
        let chunks = self.chunks;
        let mut index: usize = self.index;
        let mut offset: usize = self.offset;
        let ghost all = self@;
        let ghost left_before = self.left();
        while index < chunks.len() && offset == chunks[index].len()
            invariant
                index <= chunks@.len(),
                index < chunks@.len() ==> offset <= chunks@[index as int]@.len(),
                index == chunks@.len() ==> offset == 0,
                all == joined_chunks(chunks@, index as int).skip(offset as int),
                from_first_byte(left_before) == from_first_byte(
                    chunks_left(chunks@, index as int, offset as int),
                ),
            decreases chunks@.len() - index,
        {
            assert(chunks_left(chunks@, index as int, offset as int).skip(1) =~~= chunks_left(
                chunks@,
                index + 1,
                0,
            ));
            assert(joined_chunks(chunks@, index as int).skip(offset as int) =~= joined_chunks(
                chunks@,
                index + 1,
            ).skip(0));
            index = index + 1;
            offset = 0;
        }
        let mut bytes: Vec<u8> = Vec::new();
        if index >= chunks.len() {
            *self = ChunkReader { chunks, index, offset };
            assert(all =~= bytes@ + self@);
            assert(self.left() =~= Seq::empty());
            return bytes;
        }
        let chunk = chunks[index];
        let left: usize = chunk.len() - offset;
        let count: usize = if left < room {
            left
        } else {
            room
        };
        for place in offset..offset + count
            invariant
                offset + count <= chunk@.len(),
                bytes@ == chunk@.subrange(offset as int, place as int),
        {
            bytes.push(chunk[place]);
            assert(chunk@.subrange(offset as int, place + 1) =~= chunk@.subrange(offset as int, place as int).push(
                chunk@[place as int],
            ));
        }
        *self = ChunkReader { chunks, index, offset: offset + count };
        proof {
            let rest = joined_chunks(chunks@, index as int);
            assert(rest == chunk@ + joined_chunks(chunks@, index + 1));
            assert(all =~= bytes@ + self@);
            let left = chunks_left(chunks@, index as int, offset as int);
            assert(bytes@ =~= left[0].take(count as int));
            assert(self.left() =~~= left.update(0, left[0].skip(count as int)));
        }
        bytes
    }
}

/// The bytes of a body that came in chunks.
pub fn read_body(chunks: &[&[u8]]) -> (result: Vec<u8>)
    ensures
        result@ == joined_chunks(chunks@, 0),
{
    let mut reader = ChunkReader::new(chunks);
    let mut body: Vec<u8> = Vec::new();
    let ghost all = reader@;
    assert(body@ + reader@ =~= all);
    loop
        invariant
            body@ + reader@ == all,
        ensures
            body@ == all,
        decreases reader@.len(),
    {
        let mut bytes = reader.read(READ_ROOM);
        if bytes.len() == 0 {
            assert(body@ =~= all);
            break;
        }
        let ghost before = body@;
        let ghost read = bytes@;
        body.append(&mut bytes);
        assert(body@ + reader@ =~= before + (read + reader@));
    }
    body
}

/// What a body says of the model that it is for.
pub open spec fn key_in(place: JsonPlace) -> Result<Seq<char>, ProxyFailure> {
    match place {
        JsonPlace::Unreadable => Err(ProxyFailure::InvalidJson),
        JsonPlace::Text(key) => Ok(key),
        _ => Err(ProxyFailure::ModelRequired),
    }
}

/// What a body says of the model that it is for, given what stands under `model`.
pub fn key_of(place: JsonText) -> (result: Result<String, ProxyFailure>)
    ensures
        match result {
            Ok(key) => key_in(place@) == Ok::<Seq<char>, ProxyFailure>(key@),
            Err(failure) => key_in(place@) == Err::<Seq<char>, ProxyFailure>(failure),
        },
{
    match place {
        JsonText::Unreadable => Err(ProxyFailure::InvalidJson),
        JsonText::Text(key) => Ok(key),
        _ => Err(ProxyFailure::ModelRequired),
    }
}

/// The model that a body in chunks is for: the one whose key stands under `model`.
pub fn model_of_body<'a>(models: &'a Vec<ApiModel>, chunks: &[&[u8]]) -> (result: Result<&'a ApiModel, ApiError>)
    ensures
        match key_in(json_at(joined_chunks(chunks@, 0), "/model"@)) {
            Ok(key) => match result {
                Ok(model) => model_with_key(models@, key, 0) is Some && *model == models@[model_with_key(
                    models@,
                    key,
                    0,
                )->0],
                Err(error) => model_with_key(models@, key, 0) is None && error.is(
                    404,
                    "model_not_found"@,
                    "model was not found"@,
                    false,
                ),
            },
            Err(failure) => match result {
                Ok(_) => false,
                Err(error) => error.is(
                    failure.status_number(),
                    failure.code_text(),
                    failure.message_text(),
                    failure.status_number() == 503,
                ),
            },
        },
{
    let body = read_body(chunks);
    match key_of(read_json(&body, "/model")) {
        Ok(key) => find_model(models, key.as_str()),
        Err(failure) => Err(failure.error()),
    }
}

/// A header that is never passed on with a request.
pub open spec fn withheld_from_request(name: Seq<char>) -> bool {
    ||| name == "authorization"@
    ||| name == "proxy-authorization"@
    ||| name == "host"@
    ||| withheld_from_answer(name)
}

/// A header that is never passed back with an answer.
pub open spec fn withheld_from_answer(name: Seq<char>) -> bool {
    ||| name == "content-length"@
    ||| name == "connection"@
    ||| name == "keep-alive"@
    ||| name == "transfer-encoding"@
    ||| name == "upgrade"@
    ||| name == "te"@
    ||| name == "trailer"@
}

fn is_withheld_from_answer(name: &str) -> (result: bool)
    ensures
        result == withheld_from_answer(name@),
{
    same_text(name, "content-length") || same_text(name, "connection") || same_text(name, "keep-alive") || same_text(
        name,
        "transfer-encoding",
    ) || same_text(name, "upgrade") || same_text(name, "te") || same_text(name, "trailer")
}

/// Whether a header of this name may be passed on with a request.
pub fn safe_request_header(name: &str) -> (result: bool)
    ensures
        result == !withheld_from_request(name@),
{
    !(same_text(name, "authorization") || same_text(name, "proxy-authorization") || same_text(name, "host")
        || is_withheld_from_answer(name))
}

/// `name`, in lower case, is one of the names between commas in `value`.
pub open spec fn nominates(value: Seq<char>, name: Seq<char>) -> bool {
    let parts = split(value, ',', ',');
    exists|index: int|
        0 <= index < parts.len() && (#[trigger] trimmed(parts[index])).len() > 0 && lowered(trimmed(parts[index]))
            == name
}

/// One of the values names `name`.
pub open spec fn nominated(values: Seq<Seq<char>>, name: Seq<char>) -> bool {
    exists|index: int| 0 <= index < values.len() && nominates(#[trigger] values[index], name)
}

fn value_nominates(value: &str, name: &[char]) -> (result: bool)
    ensures
        result == nominates(value@, name@),
{
    let parts = split_chars(&chars_of(value), ',', ',');
    let ghost names = split(value@, ',', ',');
    for index in 0..parts.len()
        invariant
            rows(parts@) == names,
            names == split(value@, ',', ','),
            forall|earlier: int|
                0 <= earlier < index ==> !((#[trigger] trimmed(names[earlier])).len() > 0 && lowered(
                    trimmed(names[earlier]),
                ) == name@),
    {
        assert(names[index as int] == parts@[index as int]@);
        let part = trim(&parts[index]);
        if part.len() > 0 && same(&to_lowered(&part), name) {
            assert(trimmed(names[index as int]) == part@);
            return true;
        }
    }
    false
}

/// Whether the values of the connection headers name the header `name`, which is
/// then not passed on.
pub fn is_nominated(values: &Vec<String>, name: &str) -> (result: bool)
    ensures
        result == nominated(texts(values@), name@),
{
    let wanted = chars_of(name);
    for index in 0..values.len()
        invariant
            wanted@ == name@,
            forall|earlier: int| 0 <= earlier < index ==> !nominates(#[trigger] texts(values@)[earlier], name@),
    {
        assert(texts(values@)[index as int] == values@[index as int]@);
        if value_nominates(values[index].as_str(), &wanted) {
            return true;
        }
    }
    false
}

/// Whether a header of a request is passed on. `connection` are the values of the
/// request's connection headers.
pub fn passes_request_header(name: &str, connection: &Vec<String>) -> (result: bool)
    ensures
        result == (!withheld_from_request(name@) && !nominated(texts(connection@), name@)),
{
    safe_request_header(name) && !is_nominated(connection, name)
}

/// Whether a header of an answer is passed back. `connection` are the values of
/// the answer's connection headers.
pub fn passes_response_header(name: &str, connection: &Vec<String>) -> (result: bool)
    ensures
        result == (!withheld_from_answer(name@) && !nominated(texts(connection@), name@)),
{
    !is_withheld_from_answer(name) && !is_nominated(connection, name)
}

/// The parts of a URL that tell whether it may be used.
#[derive(Debug)]
pub struct UrlParts {
    pub scheme: String,
    pub host: Option<String>,
    pub port: Option<u16>,
    pub username: String,
    pub has_password: bool,
    pub has_fragment: bool,
}

pub struct UrlView {
    pub scheme: Seq<char>,
    pub host: Option<Seq<char>>,
    pub port: Option<u16>,
    pub username: Seq<char>,
    pub has_password: bool,
    pub has_fragment: bool,
}

impl View for UrlParts {
    type V = UrlView;

    open spec fn view(&self) -> UrlView {
        UrlView {
            scheme: self.scheme@,
            host: match self.host {
                Some(host) => Some(host@),
                None => None,
            },
            port: self.port,
            username: self.username@,
            has_password: self.has_password,
            has_fragment: self.has_fragment,
        }
    }
}

/// What `reqwest::Url::parse` reads from a text.
pub uninterp spec fn parsed_url(text: Seq<char>) -> Option<UrlView>;

/// Calls `reqwest::Url::parse` and takes the parts out of what it read.
#[verifier::external_body]
fn parse_url(text: &str) -> (result: Option<UrlParts>)
    ensures
        match result {
            Some(parts) => parsed_url(text@) == Some(parts@),
            None => parsed_url(text@) is None,
        },
{
    let url = reqwest::Url::parse(text).ok()?;
    Some(UrlParts {
        scheme: url.scheme().to_owned(),
        host: url.host_str().map(|host| host.to_owned()),
        port: url.port(),
        username: url.username().to_owned(),
        has_password: url.password().is_some(),
        has_fragment: url.fragment().is_some(),
    })
}

/// One number of an address: up to three digits, without a leading zero.
pub open spec fn octet(text: Seq<char>) -> Option<nat> {
    if 0 < text.len() <= 3 && all_digits(text) && (text.len() == 1 || text[0] != '0') && digits_value(text) <= 255 {
        Some(digits_value(text))
    } else {
        None
    }
}

/// An address in four numbers, the first of which is that of this machine.
pub open spec fn loopback_text(host: Seq<char>) -> bool {
    let parts = split(host, '.', '.');
    parts.len() == 4 && octet(parts[0]) == Some(127nat) && octet(parts[1]) is Some && octet(parts[2]) is Some
        && octet(parts[3]) is Some
}

/// The host is this machine.
pub open spec fn local_host(host: Seq<char>) -> bool {
    lowered(host) == seq!['l', 'o', 'c', 'a', 'l', 'h', 'o', 's', 't'] || loopback_text(host)
}

/// The URL of an engine on this machine: plain HTTP on a port of its own, and
/// nothing hidden in it.
pub open spec fn usable_endpoint(url: UrlView) -> bool {
    &&& url.scheme == "http"@
    &&& url.host is Some && local_host(url.host->0)
    &&& url.port is Some
    &&& url.username.len() == 0
    &&& !url.has_password
    &&& !url.has_fragment
}

fn read_octet(text: &[char]) -> (result: Option<u64>)
    ensures
        match result {
            Some(value) => octet(text@) == Some(value as nat),
            None => octet(text@) is None,
        },
{
    if text.len() == 0 || text.len() > 3 || (text.len() > 1 && text[0] == '0') || text[0] == '+' {
        return None;
    }
    parse_unsigned(text, 255)
}

fn is_loopback_text(host: &[char]) -> (result: bool)
    ensures
        result == loopback_text(host@),
{
    let parts = split_chars(host, '.', '.');
    let ghost names = split(host@, '.', '.');
    assert(rows(parts@) == names);
    if parts.len() != 4 {
        return false;
    }
    proof {
        assert(names[0] == parts@[0]@ && names[1] == parts@[1]@ && names[2] == parts@[2]@ && names[3]
            == parts@[3]@);
    }
    let first = match read_octet(&parts[0]) {
        Some(value) => value == 127,
        None => false,
    };
    first && read_octet(&parts[1]).is_some() && read_octet(&parts[2]).is_some() && read_octet(
        &parts[3],
    ).is_some()
}

fn is_local_host(host: &str) -> (result: bool)
    ensures
        result == local_host(host@),
{
    let text = chars_of(host);
    let name: [char; 9] = ['l', 'o', 'c', 'a', 'l', 'h', 'o', 's', 't'];
    assert(name@ =~= seq!['l', 'o', 'c', 'a', 'l', 'h', 'o', 's', 't']);
    same(&to_lowered(&text), &name) || is_loopback_text(&text)
}

/// Whether a URL of these parts may be used as the engine's endpoint.
pub fn check_endpoint(parts: &UrlParts) -> (result: Result<(), ProxyFailure>)
    ensures
        result == (if usable_endpoint(parts@) {
            Ok(())
        } else {
            Err(ProxyFailure::InvalidEndpoint)
        }),
{
    let local = match &parts.host {
        Some(host) => is_local_host(host.as_str()),
        None => false,
    };
    if same_text(parts.scheme.as_str(), "http") && local && parts.port.is_some() && parts.username.as_str().is_empty()
        && !parts.has_password && !parts.has_fragment {
        Ok(())
    } else {
        Err(ProxyFailure::InvalidEndpoint)
    }
}

/// Whether `value` may be used as the engine's endpoint.
pub fn validate_upstream(value: &str) -> (result: Result<(), ProxyFailure>)
    ensures
        result == (match parsed_url(value@) {
            Some(url) => if usable_endpoint(url) {
                Ok(())
            } else {
                Err(ProxyFailure::InvalidEndpoint)
            },
            None => Err(ProxyFailure::InvalidEndpoint),
        }),
{
    match parse_url(value) {
        Some(parts) => check_endpoint(&parts),
        None => Err(ProxyFailure::InvalidEndpoint),
    }
}

/// The engine that requests for a model go to: the one that runs the model, or else
/// the one that is set for all.
pub fn endpoint_for(lifecycle: &LifecycleSnapshot, model: ModelId, set: Option<&str>) -> (result: Option<String>)
    ensures
        optional_text(result) == (match (lifecycle.process, lifecycle.endpoint) {
            (Some(process), Some(endpoint)) => if process.model_id == model {
                Some(endpoint@)
            } else {
                optional_str(set)
            },
            _ => optional_str(set),
        }),
{
    if let Some(process) = lifecycle.process {
        if process.model_id == model {
            if let Some(endpoint) = &lifecycle.endpoint {
                return Some(endpoint.clone());
            }
        }
    }
    match set {
        Some(endpoint) => Some(endpoint.to_owned()),
        None => None,
    }
}

/// Where a request is passed on to: the same path and query at the engine.
pub fn upstream_url(upstream: &str, path_and_query: Option<&str>) -> (result: String)
    ensures
        result@ == upstream@ + (match path_and_query {
            Some(path) => path@,
            None => "/"@,
        }),
{
    match path_and_query {
        Some(path) => joined(upstream, path),
        None => joined(upstream, "/"),
    }
}

} // verus!
