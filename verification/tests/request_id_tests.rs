use http::{HeaderMap, HeaderValue};
use rust_dev_server::handlers::AppError;
use rust_dev_server::message::{Method, Request, Response};
use rust_dev_server::middleware::request_id::{CorrelationId, RequestIdLayer, REQUEST_ID_HEADER};
use uuid::{Uuid, Variant};

fn request(path: &str) -> Request {
    Request { method: Method::Get, path: path.to_string(), headers: HeaderMap::new(), body: Vec::new() }
}

/// Answers with the identifier it read on the request as the body.
fn reflect(request: Request) -> Result<Response, AppError> {
    let seen = request.headers.get(REQUEST_ID_HEADER).map(|value| value.as_bytes().to_vec());
    let mut headers = HeaderMap::new();
    headers.insert("content-type", HeaderValue::from_static("text/plain"));
    Ok(Response { status: 200, headers, body: seen.unwrap_or_default() })
}

/// Fails with the identifier it read on the request as the detail.
fn fail(request: Request) -> Result<Response, AppError> {
    let seen = request.headers.get(REQUEST_ID_HEADER).unwrap().to_str().unwrap().to_string();
    Err(AppError::new(seen))
}

#[test]
fn generated_id_is_a_hyphenated_version_4_uuid() {
    let id = CorrelationId::generate();
    let text = id.as_str();
    assert_eq!(text.len(), 36);
    for (i, c) in text.chars().enumerate() {
        if i == 8 || i == 13 || i == 18 || i == 23 {
            assert_eq!(c, '-');
        } else {
            assert!(c.is_ascii_digit() || ('a'..='f').contains(&c), "{:?} at {}", c, i);
        }
    }
    let parsed = Uuid::parse_str(text).unwrap();
    assert_eq!(parsed.get_version_num(), 4);
    assert_eq!(parsed.get_variant(), Variant::RFC4122);
    assert_eq!(parsed.to_string(), text);
}

#[test]
fn generated_ids_differ() {
    let mut seen = std::collections::HashSet::new();
    for _ in 0..2000 {
        assert!(seen.insert(CorrelationId::generate().as_str().to_string()));
    }
}

#[test]
fn header_name_is_x_request_id() {
    assert_eq!(REQUEST_ID_HEADER, "x-request-id");
}

#[test]
fn stamp_writes_the_id_under_the_header() {
    let id = CorrelationId::generate();
    let mut headers = HeaderMap::new();
    headers.insert("accept", HeaderValue::from_static("*/*"));
    assert!(id.stamp(&mut headers));
    assert_eq!(headers.get("x-request-id").unwrap().to_str().unwrap(), id.as_str());
    assert_eq!(headers.get("accept").unwrap(), "*/*");
    assert_eq!(headers.len(), 2);
}

#[test]
fn stamp_replaces_every_earlier_value() {
    let id = CorrelationId::generate();
    let mut headers = HeaderMap::new();
    headers.append("X-Request-Id", HeaderValue::from_static("from-the-client"));
    headers.append("x-request-id", HeaderValue::from_static("and-another"));
    assert_eq!(headers.get_all("x-request-id").iter().count(), 2);
    assert!(id.stamp(&mut headers));
    let values: Vec<&HeaderValue> = headers.get_all("x-request-id").iter().collect();
    assert_eq!(values.len(), 1);
    assert_eq!(values[0].as_bytes(), id.as_str().as_bytes());
}

#[test]
fn stamp_twice_is_stamp_once() {
    let id = CorrelationId::generate();
    let mut headers = HeaderMap::new();
    assert!(id.stamp(&mut headers));
    assert!(id.stamp(&mut headers));
    assert_eq!(headers.len(), 1);
    assert_eq!(headers.get("x-request-id").unwrap().to_str().unwrap(), id.as_str());
}

#[test]
fn response_carries_the_id_that_the_handler_saw() {
    let mut service = RequestIdLayer::new().layer(reflect);
    let passage = service.call(request("/api/health"));
    assert!(passage.request_stamped);
    assert!(passage.response_stamped);
    let on_response = passage.response.headers.get("x-request-id").unwrap().as_bytes().to_vec();
    assert_eq!(on_response.len(), 36);
    assert_eq!(passage.response.body, on_response);
    assert!(Uuid::parse_str(std::str::from_utf8(&on_response).unwrap()).is_ok());
}

#[test]
fn layer_leaves_status_body_and_other_headers_alone() {
    let inner = |request: Request| {
        let mut headers = HeaderMap::new();
        headers.insert("content-type", HeaderValue::from_static("application/json"));
        headers.insert("x-request-id", HeaderValue::from_static("set-by-the-handler"));
        Ok(Response { status: 404, headers, body: request.path.into_bytes() })
    };
    let mut service = RequestIdLayer::new().layer(inner);
    let passage = service.call(request("/missing"));
    assert_eq!(passage.response.status, 404);
    assert_eq!(passage.response.body, b"/missing".to_vec());
    assert_eq!(passage.response.headers.get("content-type").unwrap(), "application/json");
    assert_eq!(passage.response.headers.len(), 2);
    assert_ne!(passage.response.headers.get("x-request-id").unwrap(), "set-by-the-handler");
    assert_eq!(passage.response.headers.get_all("x-request-id").iter().count(), 1);
    assert!(passage.failure.is_none());
}

#[test]
fn client_cannot_choose_the_id() {
    let seen_by_handler = std::cell::RefCell::new(Vec::new());
    let inner = |request: Request| {
        for value in request.headers.get_all("x-request-id") {
            seen_by_handler.borrow_mut().push(value.as_bytes().to_vec());
        }
        Ok(Response { status: 200, headers: HeaderMap::new(), body: Vec::new() })
    };
    let mut from_client = request("/api/health");
    from_client.headers.append("x-request-id", HeaderValue::from_static("abc"));
    from_client.headers.append("X-Request-ID", HeaderValue::from_static("def"));
    let mut service = RequestIdLayer::new().layer(&inner);
    let passage = service.call(from_client);
    assert!(passage.request_stamped && passage.response_stamped);
    let seen = seen_by_handler.borrow();
    assert_eq!(seen.len(), 1);
    assert_eq!(seen[0].len(), 36);
    assert_ne!(seen[0], b"abc".to_vec());
    assert_eq!(passage.response.headers.get("x-request-id").unwrap().as_bytes(), &seen[0][..]);
}

#[test]
fn failure_of_the_handler_is_reported_under_the_same_id() {
    let mut service = RequestIdLayer::new().layer(fail);
    let passage = service.call(request("/api/items"));
    assert!(passage.request_stamped);
    assert!(passage.response_stamped);
    assert_eq!(passage.response.status, 500);
    assert_eq!(passage.response.body, b"Something went wrong".to_vec());
    let on_response = passage.response.headers.get("x-request-id").unwrap().to_str().unwrap();
    assert_eq!(passage.failure.as_deref(), Some(on_response));
    assert_eq!(passage.response.headers.len(), 1);
    assert!(Uuid::parse_str(on_response).is_ok());
}

#[test]
fn report_makes_the_failure_response_with_the_id() {
    let id = CorrelationId::generate();
    let response = id.report(AppError::new("the disk is full".to_string()));
    assert_eq!(response.status, 500);
    assert_eq!(response.body, b"Something went wrong".to_vec());
    assert_eq!(response.headers.len(), 1);
    assert_eq!(response.headers.get("x-request-id").unwrap().to_str().unwrap(), id.as_str());
}

#[test]
fn two_ids_give_two_header_values() {
    let service = RequestIdLayer::new().layer(reflect);
    let first = CorrelationId::generate();
    let second = CorrelationId::generate();
    assert_ne!(first.as_str(), second.as_str());
    let a = service.call_with_id(request("/"), &first);
    let b = service.call_with_id(request("/"), &second);
    assert_ne!(
        a.response.headers.get("x-request-id").unwrap(),
        b.response.headers.get("x-request-id").unwrap()
    );
}

#[test]
fn every_call_gets_an_id_of_its_own() {
    let mut service = RequestIdLayer::new().layer(reflect);
    let first = service.call(request("/"));
    let second = service.call(request("/"));
    assert_ne!(first.response.body, second.response.body);
    assert_eq!(first.response.headers.get("x-request-id").unwrap().as_bytes(), &first.response.body[..]);
    assert_eq!(second.response.headers.get("x-request-id").unwrap().as_bytes(), &second.response.body[..]);
}

#[test]
fn call_with_id_uses_the_given_id_on_both_sides() {
    let service = RequestIdLayer::new().layer(reflect);
    let id = CorrelationId::generate();
    let passage = service.call_with_id(request("/api/items"), &id);
    assert!(passage.request_stamped && passage.response_stamped);
    assert_eq!(passage.response.body, id.as_str().as_bytes().to_vec());
    assert_eq!(passage.response.headers.get("x-request-id").unwrap().to_str().unwrap(), id.as_str());
}

#[test]
fn inner_handler_is_called_once() {
    let calls = std::cell::Cell::new(0u32);
    let inner = |_request: Request| {
        calls.set(calls.get() + 1);
        Ok(Response { status: 204, headers: HeaderMap::new(), body: Vec::new() })
    };
    let mut service = RequestIdLayer::new().layer(&inner);
    let passage = service.call(request("/"));
    assert_eq!(passage.response.status, 204);
    assert_eq!(calls.get(), 1);
}

#[test]
fn layers_nest_and_the_outer_id_is_the_one_sent() {
    let inner = RequestIdLayer::new().layer(reflect);
    let middle =
        move |request: Request| Ok(inner.call_with_id(request, &CorrelationId::generate()).response);
    let mut outer = RequestIdLayer::new().layer(middle);
    let passage = outer.call(request("/"));
    let sent = passage.response.headers.get_all("x-request-id").iter().count();
    assert_eq!(sent, 1);
    assert_eq!(passage.response.headers.get("x-request-id").unwrap().len(), 36);
}
