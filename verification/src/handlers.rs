//! The handlers: what each endpoint answers, from decoded values to values
//! that are yet to be encoded.

use crate::config::Config;
use crate::headers::{header_room, new_headers, no_entries};
use crate::items::{item_views, next_id, with_created, Item, ItemStore};
use crate::message::{Response, ResponseView, STATUS_CREATED, STATUS_INTERNAL_SERVER_ERROR};
use vstd::prelude::*;
use vstd::string::*;

verus! {

/// What the health probe reports.
#[derive(Debug)]
pub struct HealthResponse {
    pub status: String,
    pub version: String,
    pub environment: String,
}

/// Reports that the service is up, with the version it was built as and the
/// label of its deployment. The answer depends on nothing but these two.
pub fn health_check(config: &Config, version: &str) -> (health: HealthResponse)
    ensures
        health.status@ == "healthy"@,
        health.version@ == version@,
        health.environment@ == config.environment@,
{
    HealthResponse {
        status: "healthy".to_owned(),
        version: version.to_owned(),
        environment: config.environment.clone(),
    }
}

/// A text to send back.
#[derive(Debug)]
pub struct EchoRequest {
    pub message: String,
}

/// The text that was sent, with its length in bytes.
#[derive(Debug)]
pub struct EchoResponse {
    pub echo: String,
    pub length: usize,
}

/// Sends the message back, with the number of bytes of its UTF-8 form.
pub fn echo(payload: EchoRequest) -> (response: EchoResponse)
    ensures
        response.echo@ == payload.message@,
        response.length == vstd::utf8::encode_utf8(payload.message@).len(),
        vstd::utf8::is_ascii_chars(payload.message@) ==> response.length == payload.message@.len(),
{
    proof {
        if vstd::utf8::is_ascii_chars(payload.message@) {
            vstd::utf8::is_ascii_chars_encode_utf8(payload.message@);
        }
    }
    let length = payload.message.as_str().as_bytes().len();
    EchoResponse { length, echo: payload.message }
}

/// A copy of every record of the store, in order.
pub fn list_items(store: &ItemStore) -> (items: Vec<Item>)
    ensures
        item_views(items@) == store@,
{
    store.list()
}

/// The texts of a record to make.
#[derive(Debug)]
pub struct CreateItemRequest {
    pub name: String,
    pub description: String,
}

/// A failure inside a handler. It keeps the detail for the log; the client
/// is told no more than that something failed.
#[derive(Debug)]
pub struct AppError {
    pub detail: String,
}

/// What a client is told of any failure.
pub open spec fn failure_text() -> Seq<char> {
    "Something went wrong"@
}

/// The response that reports any failure, as plain values.
pub open spec fn failure_response() -> ResponseView {
    ResponseView {
        status: STATUS_INTERNAL_SERVER_ERROR,
        headers: no_entries(),
        body: vstd::utf8::encode_utf8(failure_text()),
    }
}

/// What is logged when the store has no id left.
pub open spec fn exhausted_text() -> Seq<char> {
    "no item id is left"@
}

impl AppError {
    /// A failure with the given detail.
    pub fn new(detail: String) -> (error: AppError)
        ensures
            error.detail == detail,
    {
        AppError { detail }
    }

    /// The response that reports the failure: status 500, no headers yet
    /// and room for them, and a body that is the same for every failure and
    /// holds none of the detail.
    pub fn into_response(self) -> (response: Response)
        ensures
            response@ == failure_response(),
            header_room(response.headers),
    {
        Response {
            status: STATUS_INTERNAL_SERVER_ERROR,
            headers: new_headers(),
            body: "Something went wrong".as_bytes_vec(),
        }
    }
}

/// Makes a record from `payload` under the next id and reports it with the
/// status 201. Empty texts are accepted. Fails, and leaves the store as it
/// was, only where the largest id is already `u32::MAX`.
pub fn create_item(store: &mut ItemStore, payload: CreateItemRequest) -> (created: Result<
    (u16, Item),
    AppError,
>)
    ensures
        next_id(old(store)@) <= u32::MAX ==> created is Ok && created.unwrap().0 == STATUS_CREATED
            && final(store)@ == with_created(
            old(store)@,
            payload.name@,
            payload.description@,
        ) && created.unwrap().1@ == final(store)@.last(),
        next_id(old(store)@) > u32::MAX ==> created is Err && created.unwrap_err().detail@
            == exhausted_text() && final(store)@ == old(store)@,
{
    match store.create(payload.name, payload.description) {
        Some(item) => Ok((STATUS_CREATED, item)),
        None => Err(AppError::new("no item id is left".to_owned())),
    }
}

} // verus!
