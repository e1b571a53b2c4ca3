use weather_fanout::failure::ErrorKind;
use weather_fanout::query::{accept_request, default_count, get_query, Query, QueryParams, RawQuery};
use weather_fanout::response::respond;

fn decoded(city: &str, count: Option<u32>) -> RawQuery {
    RawQuery::Decoded(QueryParams { city: city.to_string(), count })
}

#[test]
fn default_count_is_ten() {
    assert_eq!(default_count(), 10);
}

#[test]
fn default_query_is_portland() {
    let q = Query::default();
    assert_eq!(q.city, "Portland");
    assert_eq!(q.count, 10);
}

#[test]
fn absent_query_resolves_to_fallback() {
    let q = get_query(RawQuery::Absent).unwrap();
    assert_eq!(q.city, "Portland");
    assert_eq!(q.count, 10);
}

#[test]
fn decoded_query_without_count_gets_default() {
    let q = get_query(decoded("Salem", None)).unwrap();
    assert_eq!(q.city, "Salem");
    assert_eq!(q.count, 10);
}

#[test]
fn decoded_query_keeps_count() {
    let q = get_query(decoded("Portland", Some(2))).unwrap();
    assert_eq!(q.city, "Portland");
    assert_eq!(q.count, 2);
}

#[test]
fn zero_count_is_bad_request() {
    let f = get_query(decoded("Portland", Some(0))).unwrap_err();
    assert_eq!(f.kind, ErrorKind::BadInput);
    assert_eq!(f.chain, vec!["getting location name".to_string(), "nonzero count required".to_string()]);
    let reply = respond(Err(f));
    assert_eq!(reply.status, 400);
    assert!(!reply.json);
    assert_eq!(reply.body, "getting location name\n\nCaused by:\n    nonzero count required");
}

#[test]
fn malformed_query_is_bad_request() {
    let f = get_query(RawQuery::Malformed("missing field `city`".to_string())).unwrap_err();
    assert_eq!(f.kind, ErrorKind::BadInput);
    assert_eq!(f.chain, vec!["getting location name".to_string(), "missing field `city`".to_string()]);
    assert_eq!(respond(Err(f)).status, 400);
}

#[test]
fn get_request_is_resolved() {
    let q = accept_request(&"GET".to_string(), decoded("Bend", Some(4))).unwrap();
    assert_eq!(q.city, "Bend");
    assert_eq!(q.count, 4);
}

#[test]
fn post_is_method_not_allowed_before_validation() {
    let f = accept_request(&"POST".to_string(), decoded("Portland", Some(0))).unwrap_err();
    assert_eq!(f.kind, ErrorKind::BadMethod);
    assert_eq!(f.chain, vec!["unsupported method POST".to_string()]);
    let reply = respond(Err(f));
    assert_eq!(reply.status, 405);
    assert_eq!(reply.body, "unsupported method POST");

    let f = accept_request(&"PUT".to_string(), RawQuery::Malformed("bad".to_string())).unwrap_err();
    assert_eq!(f.kind, ErrorKind::BadMethod);
    assert_eq!(respond(Err(f)).status, 405);
}

#[test]
fn get_with_zero_count_is_bad_request() {
    let f = accept_request(&"GET".to_string(), decoded("Portland", Some(0))).unwrap_err();
    assert_eq!(respond(Err(f)).status, 400);
}
