//! The correlation-id layer: every request gets a fresh identifier, which is
//! written into the request's headers before it is passed on and into the
//! response's headers before it leaves.

use crate::handlers::{failure_response, AppError};
use crate::headers::{header_entries, header_room, is_plain_name, is_value_text, try_insert};
use crate::message::{Request, RequestView, Response, ResponseView};
use http::HeaderMap;
use http::HeaderValue;
use uuid::Uuid;
use vstd::prelude::*;
use vstd::string::*;
use vstd::utf8::*;

verus! {

/// The header that carries the identifier.
pub const REQUEST_ID_HEADER: &'static str = "x-request-id";

/// Whether `c` is a hexadecimal digit in lower case.
pub open spec fn is_lower_hex(c: char) -> bool {
    ('0' <= c && c <= '9') || ('a' <= c && c <= 'f')
}

/// Whether position `i` of an identifier holds a hyphen.
pub open spec fn is_hyphen_position(i: int) -> bool {
    i == 8 || i == 13 || i == 18 || i == 23
}

/// The written form of a random identifier: 36 characters, in groups of 8, 4,
/// 4, 4 and 12 lower-case hexadecimal digits with a hyphen between them; the
/// third group begins with `4`, the fourth with `8`, `9`, `a` or `b`.
pub open spec fn is_uuid_text(text: Seq<char>) -> bool {
    &&& text.len() == 36
    &&& forall|i: int|
        0 <= i < 36 ==> if is_hyphen_position(i) {
            #[trigger] text[i] == '-'
        } else {
            is_lower_hex(text[i])
        }
    &&& text[14] == '4'
    &&& (text[19] == '8' || text[19] == '9' || text[19] == 'a' || text[19] == 'b')
}

/// The bytes of a text that holds ASCII characters only: one for each
/// character.
pub open spec fn ascii_bytes(text: Seq<char>) -> Seq<u8> {
    Seq::new(text.len(), |i: int| text[i] as u8)
}

/// `Uuid::new_v4`, written out by `to_string`.
///
/// Believed of them: whatever the random bits are, the text is the hyphenated
/// lower-case form of a version 4 identifier. Nothing is claimed of which one,
/// nor that two calls differ. The call does not return where the operating
/// system has no random bytes to give.
#[verifier::external_body]
fn new_uuid_text() -> (text: String)
    ensures
        is_uuid_text(text@),
{
    Uuid::new_v4().to_string()
}

/// An identifier's text holds ASCII only and can be a header value.
pub proof fn lemma_uuid_text_is_value(text: Seq<char>)
    requires
        is_uuid_text(text),
    ensures
        is_ascii_chars(text),
        is_value_text(text),
        encode_utf8(text) == ascii_bytes(text),
{
    assert forall|i: int| 0 <= i < text.len() implies '\0' <= #[trigger] text[i] <= '\u{7f}'
        && crate::headers::is_value_char(text[i]) by {
        if is_hyphen_position(i) {
            assert(text[i] == '-');
        } else {
            assert(is_lower_hex(text[i]));
        }
    }
    is_ascii_chars_encode_utf8(text);
    assert(encode_utf8(text) =~= ascii_bytes(text));
}

/// The name of the header is a plain header name.
pub proof fn lemma_header_name_is_plain()
    ensures
        is_plain_name(REQUEST_ID_HEADER@),
{
    reveal_strlit("x-request-id");
    let name = REQUEST_ID_HEADER@;
    assert(name.len() == 12);
    assert forall|i: int| 0 <= i < name.len() implies crate::headers::is_name_char(
        #[trigger] name[i],
    ) by {
        if i == 0 {
        } else if i == 1 {
        } else if i == 2 {
        } else if i == 3 {
        } else if i == 4 {
        } else if i == 5 {
        } else if i == 6 {
        } else if i == 7 {
        } else if i == 8 {
        } else if i == 9 {
        } else if i == 10 {
        } else {
        }
    }
}

/// What a header map holds once `id` has been written into it.
pub open spec fn stamped(
    entries: Map<Seq<char>, Seq<Seq<u8>>>,
    id: Seq<char>,
) -> Map<Seq<char>, Seq<Seq<u8>>> {
    entries.insert(REQUEST_ID_HEADER@, seq![ascii_bytes(id)])
}

/// The identifier of one request.
pub struct CorrelationId {
    text: String,
}

impl View for CorrelationId {
    type V = Seq<char>;

    closed spec fn view(&self) -> Seq<char> {
        self.text@
    }
}

impl CorrelationId {
    #[verifier::type_invariant]
    spec fn well_formed(self) -> bool {
        is_uuid_text(self.text@)
    }

    /// Makes a fresh identifier from 122 random bits.
    pub fn generate() -> (id: CorrelationId)
        ensures
            is_uuid_text(id@),
    {
        CorrelationId { text: new_uuid_text() }
    }

    /// The identifier as text.
    pub fn as_str(&self) -> (text: &str)
        ensures
            text@ == self@,
            is_uuid_text(self@),
    {
        proof {
            use_type_invariant(self);
        }
        self.text.as_str()
    }

    /// Writes the identifier into `headers` under [`REQUEST_ID_HEADER`],
    /// in place of whatever stood there. A map that has room takes the
    /// entry; one that has none stays as it is. The result says which.
    pub fn stamp(&self, headers: &mut HeaderMap<HeaderValue>) -> (stored: bool)
        ensures
            is_uuid_text(self@),
            stored == header_room(*old(headers)),
            stored ==> header_entries(*final(headers)) == stamped(
                header_entries(*old(headers)),
                self@,
            ),
            !stored ==> header_entries(*final(headers)) == header_entries(*old(headers)),
    {
        proof {
            use_type_invariant(self);
            lemma_header_name_is_plain();
            lemma_uuid_text_is_value(self.text@);
        }
        try_insert(headers, REQUEST_ID_HEADER, self.text.as_str())
    }

    /// The response that reports `error` under this identifier: the
    /// failure response, which tells the client nothing of the detail, with
    /// the identifier written into it.
    pub fn report(&self, error: AppError) -> (response: Response)
        ensures
            is_uuid_text(self@),
            response@ == response_with_id(failure_response(), self@),
    {
        let mut response = error.into_response();
        let stored = self.stamp(&mut response.headers);
        assert(stored);
        response
    }
}

/// `request` with `id` written into its headers.
pub open spec fn request_with_id(request: RequestView, id: Seq<char>) -> RequestView {
    RequestView { headers: stamped(request.headers, id), ..request }
}

/// `response` with `id` written into its headers.
pub open spec fn response_with_id(response: ResponseView, id: Seq<char>) -> ResponseView {
    ResponseView { headers: stamped(response.headers, id), ..response }
}

/// The identifier that the inner handler reads on the request is the one
/// that the client reads on the response: both maps hold, under
/// [`REQUEST_ID_HEADER`], the one value that spells `id`, whatever either
/// held before, and every other header is as it was. Two identifiers that
/// are spelled alike are the same.
pub proof fn lemma_response_carries_request_id(
    request: RequestView,
    answer: ResponseView,
    id: Seq<char>,
    other: Seq<char>,
)
    requires
        is_uuid_text(id),
        is_uuid_text(other),
    ensures
        request_with_id(request, id).headers[REQUEST_ID_HEADER@] == seq![ascii_bytes(id)],
        response_with_id(answer, id).headers[REQUEST_ID_HEADER@] == request_with_id(
            request,
            id,
        ).headers[REQUEST_ID_HEADER@],
        forall|name: Seq<char>|
            name != REQUEST_ID_HEADER@ ==> (response_with_id(answer, id).headers.contains_key(name)
                == answer.headers.contains_key(name) && #[trigger] response_with_id(
                answer,
                id,
            ).headers[name] == answer.headers[name]),
        ascii_bytes(id) == ascii_bytes(other) ==> id == other,
{
    if ascii_bytes(id) == ascii_bytes(other) {
        lemma_uuid_text_is_value(id);
        lemma_uuid_text_is_value(other);
        assert forall|i: int| 0 <= i < 36 implies id[i] == other[i] by {
            assert(ascii_bytes(id)[i] == id[i] as u8);
            assert(ascii_bytes(other)[i] == other[i] as u8);
            assert('\0' <= id[i] <= '\u{7f}');
            assert('\0' <= other[i] <= '\u{7f}');
        }
        assert(id =~= other);
    }
}

/// What the layer makes of an outcome of the inner handler before the
/// identifier is written: the handler's answer, or the failure response.
pub open spec fn outcome_response(outcome: Result<Response, AppError>) -> ResponseView {
    match outcome {
        Ok(answer) => answer@,
        Err(_) => failure_response(),
    }
}

/// Whether the response made of `outcome` has room for the identifier. The
/// failure response always has.
pub open spec fn outcome_room(outcome: Result<Response, AppError>) -> bool {
    match outcome {
        Ok(answer) => header_room(answer.headers),
        Err(_) => true,
    }
}

/// The detail of the failure, where `outcome` is one.
pub open spec fn outcome_failure(outcome: Result<Response, AppError>) -> Option<Seq<char>> {
    match outcome {
        Ok(_) => None,
        Err(error) => Some(error.detail@),
    }
}

/// The detail of a failure as plain values.
pub open spec fn failure_view(failure: Option<String>) -> Option<Seq<char>> {
    match failure {
        Some(detail) => Some(detail@),
        None => None,
    }
}

/// What became of one request that went through the layer.
pub struct Passage {
    /// What the inner handler answered, or the failure response where it
    /// failed, with the identifier written into it if its headers had room.
    pub response: Response,
    /// Whether the request carried the identifier when it was passed on.
    pub request_stamped: bool,
    /// Whether the response carries the identifier.
    pub response_stamped: bool,
    /// The detail of the inner handler's failure, for the log.
    pub failure: Option<String>,
}

/// Puts a [`RequestIdMiddleware`] around a handler.
#[derive(Clone)]
pub struct RequestIdLayer;

impl RequestIdLayer {
    pub fn new() -> (layer: RequestIdLayer) {
        RequestIdLayer
    }

    /// Wraps `inner`.
    pub fn layer<S>(&self, inner: S) -> (middleware: RequestIdMiddleware<S>)
        ensures
            middleware.inner == inner,
    {
        RequestIdMiddleware { inner }
    }
}

/// A handler with the correlation-id layer around it.
#[derive(Clone)]
pub struct RequestIdMiddleware<S> {
    pub inner: S,
}

/// Whether `passage` is what the layer owes for `request` under the
/// identifier `id`, given that the inner handler was handed `passed` and
/// came back with `outcome`.
///
/// A request whose headers have room is passed on with `id` as the one value
/// of [`REQUEST_ID_HEADER`], in place of any that the client sent; one
/// without room is passed on as it came. The response is the handler's
/// answer, or the failure response where the handler failed, with status and
/// body untouched; if its headers have room, and those of the failure
/// response always have, `id` is the one value of the header there too, in
/// place of any that the handler set.
pub open spec fn is_passage(
    request: Request,
    id: Seq<char>,
    passed: Request,
    outcome: Result<Response, AppError>,
    passage: Passage,
) -> bool {
    &&& passage.request_stamped == header_room(request.headers)
    &&& passed@ == if passage.request_stamped {
        request_with_id(request@, id)
    } else {
        request@
    }
    &&& passage.response_stamped == outcome_room(outcome)
    &&& passage.response@ == if passage.response_stamped {
        response_with_id(outcome_response(outcome), id)
    } else {
        outcome_response(outcome)
    }
    &&& failure_view(passage.failure) == outcome_failure(outcome)
}

/// Where request and response have room, the response carries the very value
/// that the inner handler read on the request, and that value spells the
/// identifier.
pub proof fn lemma_passage_carries_id(
    request: Request,
    id: Seq<char>,
    passed: Request,
    outcome: Result<Response, AppError>,
    passage: Passage,
)
    requires
        is_passage(request, id, passed, outcome, passage),
        passage.request_stamped,
        passage.response_stamped,
    ensures
        passed@.headers.contains_key(REQUEST_ID_HEADER@),
        passage.response@.headers.contains_key(REQUEST_ID_HEADER@),
        passed@.headers[REQUEST_ID_HEADER@] == seq![ascii_bytes(id)],
        passage.response@.headers[REQUEST_ID_HEADER@] == passed@.headers[REQUEST_ID_HEADER@],
{
}

impl<S: Fn(Request) -> Result<Response, AppError>> RequestIdMiddleware<S> {
    /// Handles `request` under the identifier `id`: writes `id` into the
    /// request, calls the inner handler once with it, and writes `id` into
    /// what the handler answered, or into the failure response where the
    /// handler failed. See [`is_passage`].
    pub fn call_with_id(&self, request: Request, id: &CorrelationId) -> (passage: Passage)
        requires
            forall|passed: Request| call_requires(self.inner, (passed,)),
        ensures
            is_uuid_text(id@),
            passage.request_stamped == header_room(request.headers),
            exists|passed: Request, outcome: Result<Response, AppError>|
                {
                    &&& call_ensures(self.inner, (passed,), outcome)
                    &&& is_passage(request, id@, passed, outcome, passage)
                    &&& passage.request_stamped && passage.response_stamped ==> {
                        &&& passed@.headers[REQUEST_ID_HEADER@] == seq![ascii_bytes(id@)]
                        &&& passage.response@.headers[REQUEST_ID_HEADER@]
                            == passed@.headers[REQUEST_ID_HEADER@]
                    }
                },
            passage.response_stamped ==> passage.response@.headers.contains_key(
                REQUEST_ID_HEADER@,
            ) && passage.response@.headers[REQUEST_ID_HEADER@] == seq![ascii_bytes(id@)],
    {
        let ghost given = request;
        let mut forwarded = request;
        let request_stamped = id.stamp(&mut forwarded.headers);
        let ghost passed = forwarded;
        let outcome = (self.inner)(forwarded);
        let ghost outcome_seen = outcome;
        assert(call_ensures(self.inner, (passed,), outcome_seen));
        let passage = match outcome {
            Ok(answer) => {
                let mut response = answer;
                let response_stamped = id.stamp(&mut response.headers);
                Passage { response, request_stamped, response_stamped, failure: None }
            },
            Err(error) => {
                let detail = error.detail.clone();
                let response = id.report(error);
                Passage { response, request_stamped, response_stamped: true, failure: Some(detail) }
            },
        };
        assert(is_passage(given, id@, passed, outcome_seen, passage)) by {
            assert(passed@ == if request_stamped {
                request_with_id(given@, id@)
            } else {
                given@
            });
        }
        passage
    }

    /// Handles `request` under a fresh identifier: see
    /// [`Self::call_with_id`] and [`is_passage`].
    pub fn call(&mut self, request: Request) -> (passage: Passage)
        requires
            forall|passed: Request| call_requires(old(self).inner, (passed,)),
        ensures
            final(self).inner == old(self).inner,
            passage.request_stamped == header_room(request.headers),
            exists|id: Seq<char>, passed: Request, outcome: Result<Response, AppError>|
                {
                    &&& is_uuid_text(id)
                    &&& call_ensures(old(self).inner, (passed,), outcome)
                    &&& is_passage(request, id, passed, outcome, passage)
                    &&& passage.request_stamped && passage.response_stamped ==> {
                        &&& passed@.headers[REQUEST_ID_HEADER@] == seq![ascii_bytes(id)]
                        &&& passage.response@.headers[REQUEST_ID_HEADER@]
                            == passed@.headers[REQUEST_ID_HEADER@]
                    }
                },
    {
        let id = CorrelationId::generate();
        self.call_with_id(request, &id)
    }
}

} // verus!
