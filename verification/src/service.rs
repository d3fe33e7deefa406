//! The step from a resolved endpoint and a decoded body to an answer.

use crate::config::Config;
use crate::handlers::{
    create_item, echo, exhausted_text, health_check, list_items, AppError, CreateItemRequest,
    EchoRequest, EchoResponse, HealthResponse,
};
use crate::items::{item_views, next_id, with_created, Item, ItemStore};
use crate::message::{
    STATUS_BAD_REQUEST, STATUS_CREATED, STATUS_INTERNAL_SERVER_ERROR, STATUS_OK,
};
use crate::router::Endpoint;
use vstd::prelude::*;

verus! {

/// What the handlers share: the configuration and the version, which never
/// change, and the item store.
pub struct AppState {
    pub config: Config,
    pub version: String,
    pub store: ItemStore,
}

/// The body of a request, once it has been decoded.
#[derive(Debug)]
pub enum Payload {
    /// No body was decoded.
    Empty,
    /// The body of an echo request.
    Echo(EchoRequest),
    /// The body of a request to make a record.
    CreateItem(CreateItemRequest),
    /// The body could not be read as what the endpoint expects.
    Malformed,
}

/// The body of an answer, yet to be encoded.
#[derive(Debug)]
pub enum Reply {
    Health(HealthResponse),
    Echo(EchoResponse),
    Items(Vec<Item>),
    Created(Item),
    /// The body of the request was not what the endpoint expects.
    Rejected,
    /// The handler failed.
    Failed(AppError),
}

/// A status with the body that goes with it.
#[derive(Debug)]
pub struct Answer {
    pub status: u16,
    pub reply: Reply,
}

/// Whether `answer` is what the health probe owes under `state`.
pub open spec fn is_health_answer(state: AppState, answer: Answer) -> bool {
    &&& answer.status == STATUS_OK
    &&& answer.reply matches Reply::Health(health)
    &&& health.status@ == "healthy"@
    &&& health.version@ == state.version@
    &&& health.environment@ == state.config.environment@
}

/// Whether `answer` is what the echo endpoint owes to `payload`: the text
/// and its length in bytes, or a refusal where the body is anything but an
/// echo request.
pub open spec fn is_echo_answer(payload: Payload, answer: Answer) -> bool {
    match payload {
        Payload::Echo(request) => {
            &&& answer.status == STATUS_OK
            &&& answer.reply matches Reply::Echo(response)
            &&& response.echo@ == request.message@
            &&& response.length == vstd::utf8::encode_utf8(request.message@).len()
        },
        _ => answer.status == STATUS_BAD_REQUEST && answer.reply is Rejected,
    }
}

/// Whether `answer` is the list of `state`'s records.
pub open spec fn is_list_answer(state: AppState, answer: Answer) -> bool {
    &&& answer.status == STATUS_OK
    &&& answer.reply matches Reply::Items(items)
    &&& item_views(items@) == state.store@
}

/// Whether `answer` and the store `after` are what a request to make a
/// record owes, given the store `before`: the record at the end of the store
/// and in the answer; a failure, with the store unchanged, where no id is
/// left; a refusal, with the store unchanged, where the body is anything but
/// such a request.
pub open spec fn is_create_answer(
    before: ItemStore,
    payload: Payload,
    answer: Answer,
    after: ItemStore,
) -> bool {
    match payload {
        Payload::CreateItem(request) => if next_id(before@) <= u32::MAX {
            &&& answer.status == STATUS_CREATED
            &&& answer.reply matches Reply::Created(item)
            &&& after@ == with_created(before@, request.name@, request.description@)
            &&& item@ == after@.last()
        } else {
            &&& answer.status == STATUS_INTERNAL_SERVER_ERROR
            &&& answer.reply matches Reply::Failed(error)
            &&& error.detail@ == exhausted_text()
            &&& after@ == before@
        },
        _ => answer.status == STATUS_BAD_REQUEST && answer.reply is Rejected && after@ == before@,
    }
}

/// Answers a request that the router resolved to `endpoint`. The health
/// probe and the list ignore the body. A body that is not what the endpoint
/// expects is refused with status 400 and changes nothing, so that requests
/// which follow are answered as if it had never come. Only a record that is
/// made changes the store; configuration and version never change.
pub fn respond(state: &mut AppState, endpoint: Endpoint, payload: Payload) -> (answer: Answer)
    ensures
        final(state).config == old(state).config,
        final(state).version == old(state).version,
        endpoint != Endpoint::CreateItem ==> final(state).store@ == old(state).store@,
        match endpoint {
            Endpoint::Health => is_health_answer(*old(state), answer),
            Endpoint::Echo => is_echo_answer(payload, answer),
            Endpoint::ListItems => is_list_answer(*old(state), answer),
            Endpoint::CreateItem => is_create_answer(
                old(state).store,
                payload,
                answer,
                final(state).store,
            ),
        },
{
    match endpoint {
        Endpoint::Health => Answer {
            status: STATUS_OK,
            reply: Reply::Health(health_check(&state.config, state.version.as_str())),
        },
        Endpoint::Echo => match payload {
            Payload::Echo(request) => Answer { status: STATUS_OK, reply: Reply::Echo(echo(request)) },
            _ => Answer { status: STATUS_BAD_REQUEST, reply: Reply::Rejected },
        },
        Endpoint::ListItems => Answer {
            status: STATUS_OK,
            reply: Reply::Items(list_items(&state.store)),
        },
        Endpoint::CreateItem => match payload {
            Payload::CreateItem(request) => match create_item(&mut state.store, request) {
                Ok((status, item)) => Answer { status, reply: Reply::Created(item) },
                Err(error) => Answer {
                    status: STATUS_INTERNAL_SERVER_ERROR,
                    reply: Reply::Failed(error),
                },
            },
            _ => Answer { status: STATUS_BAD_REQUEST, reply: Reply::Rejected },
        },
    }
}

} // verus!
