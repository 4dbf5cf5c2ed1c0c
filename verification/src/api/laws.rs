//! What the HTTP interface owes to its clients and its owner: who is let in, what is
//! passed on, and what a refused request is told.

use vstd::prelude::*;

use super::auth::{
    accepted, fields_check, first_refused, hex_text, password_matches, phc_check, token_text, tried, AuthErrorView, PhcView,
    TokenStoreView,
};
use super::error::ApiError;
use super::gateway::{
    authenticate, bearer_of, header_bytes, limit_headers, may_pass, Authentication, GatewayConfig, GatewayConfigError,
    GatewayLimits, HeaderSize, HostAddress,
};
use super::models::{check_unload, find_model, is_instance, model_with_key, ApiModel, LoadRequest, LoadResponse, UnloadRequest};
use super::proxy::{
    endpoint_for, joined_chunks, key_in, local_host, loopback_text, nominated, nominates, octet, upstream_url, usable_endpoint, withheld_from_answer,
    withheld_from_request, ProxyFailure, UrlView,
};
use crate::json::JsonPlace;
use crate::launcher::error::AppError;
use crate::launcher::lifecycle::LifecycleSnapshot;
use crate::launcher::lifecycle_model::ProcessContext;
use crate::launcher::model::{hex_digit, uuid_text, ModelId, ModelRecord};
use crate::text::{digits_value, is_digit, lowered, split, trimmed};

verus! {

/// A store with tokens accepts exactly what one of its hashes was made of; no other
/// text, and nothing that only its stand-in was made of.
pub proof fn law_only_tokens_are_accepted(store: TokenStoreView, candidate: Seq<char>)
    requires
        store.hashes.len() > 0,
    ensures
        accepted(store, candidate) <==> exists|index: int|
            0 <= index < store.hashes.len() && password_matches(#[trigger] store.hashes[index], candidate),
{
    if exists|index: int|
        0 <= index < store.hashes.len() && password_matches(#[trigger] store.hashes[index], candidate) {
        let index = choose|index: int|
            0 <= index < store.hashes.len() && password_matches(#[trigger] store.hashes[index], candidate);
        assert(password_matches(tried(store)[index], candidate));
    }
    if accepted(store, candidate) {
        let index = choose|index: int|
            0 <= index < tried(store).len() && password_matches(#[trigger] tried(store)[index], candidate);
        assert(password_matches(store.hashes[index], candidate));
    }
}

/// A token is its mark and two lower-case hexadecimal digits for every random byte.
pub proof fn law_token_writes_its_bytes(bytes: Seq<u8>, index: int)
    requires
        0 <= index < bytes.len(),
    ensures
        token_text(bytes).len() == 3 + 2 * bytes.len(),
        token_text(bytes).take(3) == "ml_"@,
        ({
            let high = bytes[index] / 16;
            let low = bytes[index] % 16;
            &&& token_text(bytes)[3 + 2 * index] == "0123456789abcdef"@[high as int]
            &&& token_text(bytes)[4 + 2 * index] == "0123456789abcdef"@[low as int]
        }),
{
    reveal_strlit("ml_");
    reveal_strlit("0123456789abcdef");
    lemma_hex_digits(bytes, index);
    assert(token_text(bytes).take(3) =~= "ml_"@);
}

proof fn lemma_hex_digits(bytes: Seq<u8>, index: int)
    ensures
        hex_text(bytes).len() == 2 * bytes.len(),
        0 <= index < bytes.len() ==> hex_text(bytes)[2 * index] == "0123456789abcdef"@[bytes[index] as int / 16]
            && hex_text(bytes)[2 * index + 1] == "0123456789abcdef"@[bytes[index] as int % 16],
    decreases bytes.len(),
{
    reveal_strlit("0123456789abcdef");
    if bytes.len() > 0 {
        lemma_hex_digits(bytes.drop_last(), index);
        if index == bytes.len() - 1 {
            let before = hex_text(bytes.drop_last());
            assert(hex_text(bytes)[2 * index] == hex_digit(bytes[index] as int / 16));
            assert(hex_text(bytes)[2 * index + 1] == hex_digit(bytes[index] as int % 16));
        } else if 0 <= index < bytes.len() {
            assert(bytes.drop_last()[index] == bytes[index]);
        }
    }
}

/// A stored hash is used only where it is of the one algorithm and version that tokens are
/// made with, neither too weak nor too costly, and whole; otherwise the first thing
/// that is wrong with it is told.
pub proof fn law_usable_hashes_are_strong_and_cheap(fields: PhcView)
    ensures
        fields_check(fields) is Ok <==> {
            &&& fields.algorithm == "argon2id"@
            &&& fields.version == Some(19u32)
            &&& fields.memory is Some && 8192 <= fields.memory->0 <= 65_536
            &&& fields.passes is Some && 1 <= fields.passes->0 <= 10
            &&& fields.lanes is Some && 1 <= fields.lanes->0 <= 8
            &&& fields.salt_length is Some && 8 <= fields.salt_length->0 <= 64
            &&& fields.output_length is Some && 16 <= fields.output_length->0 <= 64
        },
        fields.algorithm != "argon2id"@ ==> fields_check(fields) == Err::<(), AuthErrorView>(AuthErrorView::Algorithm),
        fields.algorithm == "argon2id"@ && fields.version != Some(19u32) ==> fields_check(fields) == Err::<
            (),
            AuthErrorView,
        >(AuthErrorView::Version),
        fields_check(fields) == Err::<(), AuthErrorView>(AuthErrorView::MissingParameter) ==> fields.memory is None
            || fields.passes is None || fields.lanes is None,
        fields_check(fields) == Err::<(), AuthErrorView>(AuthErrorView::LimitExceeded) ==> !(8192 <= fields.memory->0
            <= 65_536 && 1 <= fields.passes->0 <= 10 && 1 <= fields.lanes->0 <= 8),
        fields_check(fields) == Err::<(), AuthErrorView>(AuthErrorView::Malformed) ==> fields.salt_length is None
            || fields.output_length is None || !(8 <= fields.salt_length->0 <= 64) || !(16
            <= fields.output_length->0 <= 64),
{
}

/// Stored hashes are used only where each of them can be; the first that cannot be is the
/// one that is told of.
pub proof fn law_every_stored_hash_is_checked(hashes: Seq<Seq<char>>, from: int)
    requires
        0 <= from <= hashes.len(),
    ensures
        first_refused(hashes, from) is None <==> forall|index: int|
            from <= index < hashes.len() ==> phc_check(#[trigger] hashes[index]) is Ok,
        first_refused(hashes, from) matches Some(error) ==> exists|index: int|
            {
                &&& from <= index < hashes.len()
                &&& phc_check(#[trigger] hashes[index]) == Err::<(), AuthErrorView>(error)
                &&& forall|earlier: int| from <= earlier < index ==> phc_check(#[trigger] hashes[earlier]) is Ok
            },
    decreases hashes.len() - from,
{
    if from < hashes.len() {
        law_every_stored_hash_is_checked(hashes, from + 1);
        if phc_check(hashes[from]) is Ok {
            if first_refused(hashes, from + 1) is Some {
                let error = first_refused(hashes, from + 1)->0;
                let index = choose|index: int|
                    {
                        &&& from + 1 <= index < hashes.len()
                        &&& phc_check(#[trigger] hashes[index]) == Err::<(), AuthErrorView>(error)
                        &&& forall|earlier: int|
                            from + 1 <= earlier < index ==> phc_check(#[trigger] hashes[earlier]) is Ok
                    };
                assert(phc_check(hashes[index]) == Err::<(), AuthErrorView>(error));
            }
        } else {
            assert(phc_check(hashes[from]) == Err::<(), AuthErrorView>(first_refused(hashes, from)->0));
        }
    }
}

/// A client presents its token behind the word of its scheme, and behind nothing else.
pub proof fn law_token_stands_behind_its_scheme(token: Seq<char>, value: Seq<char>)
    ensures
        bearer_of("Bearer "@ + token) == Some(token),
        bearer_of(value) matches Some(found) ==> value == "Bearer "@ + found,
{
    reveal_strlit("Bearer ");
    let scheme = seq!['B', 'e', 'a', 'r', 'e', 'r', ' '];
    assert("Bearer "@ =~= scheme);
    assert(("Bearer "@ + token).subrange(0, 7) =~= scheme);
    assert(("Bearer "@ + token).skip(7) =~= token);
    if bearer_of(value) is Some {
        assert(value =~= value.subrange(0, 7) + value.skip(7));
    }
}

/// With authentication a request gets in only with a token that is accepted; without it
/// every request does.
pub proof fn law_only_accepted_tokens_get_in(authentication: Authentication, header: Option<&str>, token: Seq<char>)
    ensures
        authentication is Disabled ==> may_pass(authentication, header),
        authentication is Tokens && header is None ==> !may_pass(authentication, header),
        authentication matches Authentication::Tokens(store) ==> (header matches Some(value) ==> value@ == "Bearer "@
            + token ==> (may_pass(authentication, header) <==> accepted(store@, token))),
        authentication is Tokens && may_pass(authentication, header) ==> header is Some && bearer_of(header->0@)
            is Some,
{
    law_token_stands_behind_its_scheme(token, token);
}

/// Only 127.0.0.0/8 and ::1 stay on this machine; an interface that anyone on the network
/// reaches without a token is exposed.
pub proof fn law_exposed_is_reachable_without_a_token(config: GatewayConfig)
    ensures
        config.bind matches HostAddress::V4(number) ==> (config.bind.loopback() <==> 0x7f00_0000 <= number
            <= 0x7fff_ffff),
        config.bind matches HostAddress::V6(number) ==> (config.bind.loopback() <==> number == 1),
        config.exposed() <==> !config.bind.loopback() && config.authentication is Disabled,
{
}

/// Headers take the bytes of all their names and values.
pub proof fn law_every_header_byte_counts(headers: Seq<HeaderSize>, more: HeaderSize)
    ensures
        header_bytes(Seq::empty()) == 0,
        header_bytes(headers.push(more)) == header_bytes(headers) + more.name_bytes + more.value_bytes,
{
    assert(headers.push(more).drop_last() =~= headers);
}

/// A model is found by its key, the first one with that key; a key that no model has
/// finds none.
pub proof fn law_models_are_found_by_key(models: Seq<ApiModel>, key: Seq<char>, from: int)
    requires
        0 <= from <= models.len(),
    ensures
        match model_with_key(models, key, from) {
            Some(at) => from <= at < models.len() && models[at].record.key@ == key && (forall|earlier: int|
                from <= earlier < at ==> (#[trigger] models[earlier]).record.key@ != key),
            None => forall|index: int|
                from <= index < models.len() ==> (#[trigger] models[index]).record.key@ != key,
        },
    decreases models.len() - from,
{
    if from < models.len() && models[from].record.key@ != key {
        law_models_are_found_by_key(models, key, from + 1);
    }
}

/// An instance is the one that runs, named by the number of its model.
pub proof fn law_only_the_running_instance_is_unloaded(process: Option<ProcessContext>, instance: Seq<char>)
    ensures
        process is None ==> !is_instance(process, instance),
        process matches Some(running) ==> (is_instance(process, instance) <==> instance == uuid_text(
            running.model_id.number(),
        )),
{
}

/// What a request that cannot be passed on is told: the fault of a client has a status of
/// its own, and everything else may be tried again.
pub proof fn law_failures_are_told_apart(failure: ProxyFailure)
    ensures
        failure.status_number() == (if failure == ProxyFailure::TooManyHeaders {
            431
        } else if failure == ProxyFailure::BodyTooLarge {
            413
        } else if failure == ProxyFailure::BodyFailed || failure == ProxyFailure::InvalidJson || failure
            == ProxyFailure::ModelRequired {
            400
        } else {
            503int
        }),
        failure == ProxyFailure::TooManyHeaders ==> failure.code_text() == "header_limits_exceeded"@,
        failure == ProxyFailure::TooManyConnections ==> failure.code_text() == "connection_limit"@,
        failure == ProxyFailure::BodyFailed ==> failure.code_text() == "invalid_request"@,
        failure == ProxyFailure::BodyTooLarge ==> failure.code_text() == "request_too_large"@,
        failure == ProxyFailure::InvalidJson ==> failure.code_text() == "invalid_request"@,
        failure == ProxyFailure::ModelRequired ==> failure.code_text() == "model_required"@,
        failure == ProxyFailure::StartTimedOut ==> failure.code_text() == "model_starting"@,
        failure == ProxyFailure::NoEndpoint ==> failure.code_text() == "engine_unavailable"@,
        failure == ProxyFailure::InvalidEndpoint ==> failure.code_text() == "invalid_upstream"@,
        failure == ProxyFailure::AnswerTimedOut ==> failure.code_text() == "upstream_timeout"@,
        failure == ProxyFailure::AnswerFailed ==> failure.code_text() == "upstream_unavailable"@,
        failure == ProxyFailure::AnswerUnusable ==> failure.code_text() == "proxy_error"@,
{
}

/// A body is its chunks one after another.
pub proof fn law_body_is_its_chunks(chunks: Seq<&[u8]>, from: int)
    requires
        0 <= from <= chunks.len(),
    ensures
        from < chunks.len() ==> joined_chunks(chunks, from).take(chunks[from]@.len() as int) == chunks[from]@,
        from < chunks.len() ==> joined_chunks(chunks, from).skip(chunks[from]@.len() as int) == joined_chunks(
            chunks,
            from + 1,
        ),
        from == chunks.len() ==> joined_chunks(chunks, from).len() == 0,
{
    if from < chunks.len() {
        let all = joined_chunks(chunks, from);
        assert(all.take(chunks[from]@.len() as int) =~= chunks[from]@);
        assert(all.skip(chunks[from]@.len() as int) =~= joined_chunks(chunks, from + 1));
    }
}

/// A request names its model by a text; a body that is no JSON and one without such a text
/// are told apart.
pub proof fn law_request_names_its_model(place: JsonPlace)
    ensures
        place matches JsonPlace::Text(key) ==> key_in(place) == Ok::<Seq<char>, ProxyFailure>(key),
        place == JsonPlace::Unreadable ==> key_in(place) == Err::<Seq<char>, ProxyFailure>(ProxyFailure::InvalidJson),
        place !is Text && place != JsonPlace::Unreadable ==> key_in(place) == Err::<Seq<char>, ProxyFailure>(
            ProxyFailure::ModelRequired,
        ),
{
}

/// The engine never sees a client's credentials; what concerns one connection only is passed
/// on in neither direction, and every other header is.
pub proof fn law_headers_of_one_connection_stay_there(name: Seq<char>)
    ensures
        withheld_from_answer(name) <==> {
            ||| name == "connection"@
            ||| name == "keep-alive"@
            ||| name == "transfer-encoding"@
            ||| name == "upgrade"@
            ||| name == "te"@
            ||| name == "trailer"@
            ||| name == "content-length"@
        },
        withheld_from_request(name) <==> {
            ||| withheld_from_answer(name)
            ||| name == "authorization"@
            ||| name == "proxy-authorization"@
            ||| name == "host"@
        },
{
}

/// A header that a connection names, alone or in a list and in whatever case, is not
/// passed on.
pub proof fn law_named_headers_stay_there(values: Seq<Seq<char>>, at: int, part: int)
    requires
        0 <= at < values.len(),
        0 <= part < split(values[at], ',', ',').len(),
        trimmed(split(values[at], ',', ',')[part]).len() > 0,
    ensures
        nominated(values, lowered(trimmed(split(values[at], ',', ',')[part]))),
{
    let name = lowered(trimmed(split(values[at], ',', ',')[part]));
    assert(nominates(values[at], name));
}

/// A header that no connection names is not held back on that account.
pub proof fn law_unnamed_headers_are_not_held_back(values: Seq<Seq<char>>, name: Seq<char>)
    requires
        nominated(values, name),
    ensures
        exists|at: int, part: int|
            0 <= at < values.len() && 0 <= part < split(values[at], ',', ',').len() && lowered(
                #[trigger] trimmed(split(values[at], ',', ',')[part]),
            ) == name,
        name.len() > 0,
{
    let at = choose|at: int| 0 <= at < values.len() && nominates(#[trigger] values[at], name);
    let parts = split(values[at], ',', ',');
    let part = choose|part: int|
        0 <= part < parts.len() && (#[trigger] trimmed(parts[part])).len() > 0 && lowered(trimmed(parts[part]))
            == name;
    assert(lowered(trimmed(split(values[at], ',', ',')[part])) == name);
}

/// Requests are passed on to this machine only: by plain HTTP, to a host that is local, on a
/// port of its own, without credentials or a fragment.
pub proof fn law_upstream_is_this_machine(url: UrlView)
    ensures
        usable_endpoint(url) ==> url.scheme == "http"@ && url.port is Some && url.username.len() == 0
            && !url.has_password && !url.has_fragment && url.host is Some,
        usable_endpoint(url) ==> lowered(url.host->0) == seq!['l', 'o', 'c', 'a', 'l', 'h', 'o', 's', 't'] || (split(
            url.host->0,
            '.',
            '.',
        ).len() == 4 && split(url.host->0, '.', '.')[0] == seq!['1', '2', '7']),
        url.scheme == "http"@ && url.host is Some && local_host(url.host->0) && url.port is Some
            && url.username.len() == 0 && !url.has_password && !url.has_fragment ==> usable_endpoint(url),
{
    if usable_endpoint(url) && loopback_text(url.host->0) {
        let first = split(url.host->0, '.', '.')[0];
        assert(octet(first) == Some(127nat));
        lemma_octet_text(first);
        assert(first =~= seq!['1', '2', '7']);
    }
}

proof fn lemma_octet_text(text: Seq<char>)
    requires
        octet(text) == Some(127nat),
    ensures
        text =~= seq!['1', '2', '7'],
{
    reveal_with_fuel(digits_value, 4);
    let one = text.drop_last();
    let two = one.drop_last();
    assert(forall|index: int| 0 <= index < text.len() ==> is_digit(#[trigger] text[index]));
    if text.len() == 3 {
        assert(text[0] == two.last() && text[1] == one.last() && text[2] == text.last());
        assert(two.drop_last().len() == 0);
    } else if text.len() == 2 {
        assert(text[0] == one.last() && text[1] == text.last());
        assert(two.len() == 0);
    } else {
        assert(one.len() == 0);
        assert(text[0] == text.last());
    }
}

/// What a client is told of an error: an unknown model is not found, another model is
/// in the way, a wrong setting is its own fault, and for anything else it may try
/// again.
pub proof fn law_errors_are_told_to_clients(error: AppError, told: ApiError)
    requires
        call_ensures(ApiError::from_core, (&error,), told),
    ensures
        told.status == 404 <==> error == AppError::ModelNotFound,
        told.status == 409 <==> error == AppError::ModelBusy,
        told.status == 400 <==> error is InvalidSetting || error is InvalidModelKey,
        told.status == 404 || told.status == 409 || told.status == 400 || told.status == 503,
        told.retry_after <==> told.status == 503,
        told.code@ == error.code_text(),
        error is InvalidSetting || error is InvalidModelKey ==> told.message@ == "invalid model configuration"@,
        told.status != 400 && error !is ModelStarting && told.status == 503 ==> told.message@
            == "model engine is unavailable"@,
        told.status == 404 || told.status == 409 || error is ModelStarting ==> told.message@ == error.message_text(),
{
}

/// An exposed interface is served only where that was allowed, and then with a
/// warning; one that is not is served without.
pub proof fn law_exposure_is_refused_unless_allowed(
    config: GatewayConfig,
    result: Result<Vec<&'static str>, GatewayConfigError>,
)
    requires
        call_ensures(GatewayConfig::validate, (&config,), result),
    ensures
        result is Err <==> config.exposed() && !config.allow_insecure_lan,
        result matches Ok(warnings) ==> (warnings@.len() > 0 <==> config.exposed()),
        result matches Ok(warnings) ==> warnings@.len() <= 1 && (config.exposed() ==> warnings@[0]@
            == "API is exposed to the LAN without authentication"@),
{
}

/// A request without the right token is unauthorised, and told nothing else.
pub proof fn law_refused_clients_are_unauthorised(
    authentication: Authentication,
    header: Option<&str>,
    result: Result<(), ApiError>,
)
    requires
        call_ensures(authenticate, (&authentication, header), result),
    ensures
        result is Ok <==> may_pass(authentication, header),
        result matches Err(error) ==> error.status == 401 && error.code@ == "unauthorized"@ && error.message@
            == "authentication failed"@ && !error.retry_after,
{
}

/// Too many headers or too many bytes of them are refused, and no others.
pub proof fn law_headers_are_limited(headers: Vec<HeaderSize>, limits: GatewayLimits, result: Result<(), ApiError>)
    requires
        call_ensures(limit_headers, (&headers, &limits), result),
    ensures
        headers@.len() <= limits.max_headers && header_bytes(headers@) <= limits.max_header_bytes ==> result is Ok,
        headers@.len() > limits.max_headers ==> result is Err,
        header_bytes(headers@) > limits.max_header_bytes ==> result is Err,
        result matches Err(error) ==> error.status == 431 && error.code@ == "too_many_headers"@ && !error.retry_after,
{
}

/// A model is looked up by its key; where no model has it, the client is told so.
pub proof fn law_missing_models_are_not_found(
    models: Vec<ApiModel>,
    key: &str,
    result: Result<&'static ApiModel, ApiError>,
)
    requires
        call_ensures(find_model, (&models, key), result),
    ensures
        result is Ok <==> model_with_key(models@, key@, 0) is Some,
        result matches Err(error) ==> error.status == 404 && error.code@ == "model_not_found"@ && error.message@
            == "model was not found"@ && !error.retry_after,
{
}

/// Only the instance that runs can be unloaded.
pub proof fn law_missing_instances_are_not_found(
    process: Option<ProcessContext>,
    request: UnloadRequest,
    result: Result<(), ApiError>,
)
    requires
        call_ensures(check_unload, (process, &request), result),
    ensures
        process is None ==> result is Err,
        result is Ok <==> is_instance(process, request.instance_id@),
        result matches Err(error) ==> error.status == 404 && error.code@ == "model_instance_not_found"@ && error.message@
            == "model instance was not found"@,
{
}

/// A load is answered with the instance, and with the settings where they were asked
/// for.
pub proof fn law_loads_are_answered(model: ModelRecord, request: LoadRequest, answer: LoadResponse)
    requires
        call_ensures(LoadResponse::loaded, (&model, &request), answer),
    ensures
        answer.kind@ == "llm_instance"@,
        answer.status@ == "loaded"@,
        answer.model_instance_id@ == uuid_text(model.id.number()),
        answer.load_config is Some <==> request.echo_load_config,
        answer.load_config matches Some(config) ==> config.context_length == request.context_length
            && config.eval_batch_size == request.eval_batch_size && config.flash_attention == request.flash_attention,
{
}

/// A request goes to the endpoint of the process that serves its model, and to the
/// one that was set where no process does.
pub proof fn law_requests_go_to_their_process(
    lifecycle: LifecycleSnapshot,
    model: ModelId,
    set: Option<&str>,
    endpoint: Option<String>,
)
    requires
        call_ensures(endpoint_for, (&lifecycle, model, set), endpoint),
    ensures
        lifecycle.process matches Some(process) ==> (lifecycle.endpoint matches Some(own) ==> (process.model_id == model
            ==> endpoint is Some && endpoint->0@ == own@)),
        lifecycle.process is None || lifecycle.endpoint is None || lifecycle.process->0.model_id != model ==> (
        endpoint is Some <==> set is Some),
        lifecycle.process is None || lifecycle.endpoint is None || lifecycle.process->0.model_id != model ==> (
        set matches Some(text) ==> endpoint->0@ == text@),
{
}

/// The path of a request stands behind the engine's address.
pub proof fn law_path_follows_the_address(upstream: &str, path: &str, named: String, unnamed: String)
    requires
        call_ensures(upstream_url, (upstream, Some(path)), named),
        call_ensures(upstream_url, (upstream, None::<&str>), unnamed),
    ensures
        named@ == upstream@ + path@,
        unnamed@ == upstream@ + "/"@,
{
}

} // verus!
