use api_tester::client::BodyPlacement;
use api_tester::client::Method;
use api_tester::client::Request;
use api_tester::client::RequestClient;
use api_tester::client::Tester;
use api_tester::error::TesterError;
use api_tester::json::Json;

fn num(n: u64) -> Json {
    Json::Number(serde_json::Number::from(n))
}

fn quiz() -> Json {
    Json::Object(vec![
        ("name".to_string(), Json::String("Quiz A".to_string())),
        ("id".to_string(), num(1)),
    ])
}

fn backend() -> RequestClient {
    RequestClient::new("http://localhost:3000".to_string())
}

fn bare(method: Method, url: &str) -> Request {
    Request { method, url: url.to_string(), query: vec![], json: None }
}

const ALL: [Method; 9] = [
    Method::OPTIONS,
    Method::GET,
    Method::POST,
    Method::PUT,
    Method::DELETE,
    Method::HEAD,
    Method::TRACE,
    Method::CONNECT,
    Method::PATCH,
];

#[test]
fn the_url_joins_base_and_endpoint_with_a_slash() {
    assert_eq!(backend().url("admin/quiz"), "http://localhost:3000/admin/quiz");
    assert_eq!(backend().url("/admin/quiz"), "http://localhost:3000//admin/quiz");
    assert_eq!(backend().url(""), "http://localhost:3000/");
    assert_eq!(RequestClient::new(String::new()).url("x"), "/x");
    assert_eq!(backend().base_url(), "http://localhost:3000");
}

#[test]
fn each_method_places_the_body() {
    assert_eq!(Method::GET.body_placement(), BodyPlacement::Query);
    assert_eq!(Method::DELETE.body_placement(), BodyPlacement::Query);
    assert_eq!(Method::POST.body_placement(), BodyPlacement::Payload);
    assert_eq!(Method::PUT.body_placement(), BodyPlacement::Payload);
    assert_eq!(Method::HEAD.body_placement(), BodyPlacement::Dropped);
    assert_eq!(Method::OPTIONS.body_placement(), BodyPlacement::Dropped);
    assert_eq!(Method::TRACE.body_placement(), BodyPlacement::Dropped);
    assert_eq!(Method::CONNECT.body_placement(), BodyPlacement::Dropped);
    assert_eq!(Method::PATCH.body_placement(), BodyPlacement::Dropped);
}

#[test]
fn without_a_body_every_method_gives_a_bare_request() {
    for method in ALL {
        assert_eq!(
            backend().request(method, "clear", None),
            Ok(bare(method, "http://localhost:3000/clear"))
        );
    }
}

#[test]
fn get_and_delete_encode_the_body_into_the_query() {
    for method in [Method::GET, Method::DELETE] {
        assert_eq!(
            backend().request(method, "admin/quiz", Some(&quiz())),
            Ok(Request {
                method,
                url: "http://localhost:3000/admin/quiz".to_string(),
                query: vec![("data".to_string(), "id=1&name=Quiz+A".to_string())],
                json: None,
            })
        );
    }
}

#[test]
fn post_and_put_carry_the_body_as_it_is() {
    for method in [Method::POST, Method::PUT] {
        assert_eq!(
            backend().request(method, "admin/quiz", Some(&quiz())),
            Ok(Request {
                method,
                url: "http://localhost:3000/admin/quiz".to_string(),
                query: vec![],
                json: Some(quiz()),
            })
        );
    }
}

#[test]
fn the_other_methods_leave_the_body_behind() {
    for method in [Method::OPTIONS, Method::HEAD, Method::TRACE, Method::CONNECT, Method::PATCH] {
        assert_eq!(
            backend().request(method, "admin/quiz", Some(&quiz())),
            Ok(bare(method, "http://localhost:3000/admin/quiz"))
        );
    }
}

#[test]
fn a_body_without_an_encoding_is_a_serialization_failure() {
    let nested = Json::Object(vec![("list".to_string(), Json::Array(vec![num(1)]))]);
    assert_eq!(
        backend().request(Method::GET, "admin/quiz", Some(&nested)),
        Err(TesterError::SerializationFailure {
            endpoint: "admin/quiz".to_string(),
            cause: "unsupported value".to_string(),
        })
    );
    assert_eq!(
        backend().request(Method::DELETE, "admin/quiz", Some(&num(1))),
        Err(TesterError::SerializationFailure {
            endpoint: "admin/quiz".to_string(),
            cause: "top-level serializer supports only maps and structs".to_string(),
        })
    );
    assert!(backend().request(Method::POST, "admin/quiz", Some(&nested)).is_ok());
}

#[test]
fn the_encoding_escapes_what_a_query_cannot_hold() {
    let body = Json::Object(vec![
        ("q".to_string(), Json::String("a&b=c d".to_string())),
        ("on".to_string(), Json::Bool(true)),
    ]);
    assert_eq!(
        backend().request(Method::GET, "search", Some(&body)),
        Ok(Request {
            method: Method::GET,
            url: "http://localhost:3000/search".to_string(),
            query: vec![("data".to_string(), "on=true&q=a%26b%3Dc+d".to_string())],
            json: None,
        })
    );
}

#[test]
fn an_encoded_body_becomes_the_pair_named_data() {
    assert_eq!(
        backend().query_request(Method::GET, "admin/quiz", Ok("id=1".to_string())),
        Ok(Request {
            method: Method::GET,
            url: "http://localhost:3000/admin/quiz".to_string(),
            query: vec![("data".to_string(), "id=1".to_string())],
            json: None,
        })
    );
    assert_eq!(
        backend().query_request(Method::DELETE, "admin/quiz", Ok(String::new())),
        Ok(Request {
            method: Method::DELETE,
            url: "http://localhost:3000/admin/quiz".to_string(),
            query: vec![("data".to_string(), String::new())],
            json: None,
        })
    );
}

#[test]
fn a_failed_encoding_becomes_a_serialization_failure() {
    assert_eq!(
        backend().query_request(Method::GET, "admin/quiz", Err("no".to_string())),
        Err(TesterError::SerializationFailure {
            endpoint: "admin/quiz".to_string(),
            cause: "no".to_string(),
        })
    );
}

#[test]
fn both_backends_get_the_same_request() {
    let tester =
        Tester::new("http://candidate".to_string(), "http://reference".to_string());
    let (to_client, to_actual) =
        tester.requests("admin/quiz", Method::POST, Some(&quiz())).unwrap();
    assert_eq!(
        to_client,
        Request {
            method: Method::POST,
            url: "http://candidate/admin/quiz".to_string(),
            query: vec![],
            json: Some(quiz()),
        }
    );
    assert_eq!(
        to_actual,
        Request {
            method: Method::POST,
            url: "http://reference/admin/quiz".to_string(),
            query: vec![],
            json: Some(quiz()),
        }
    );
    let (to_client, to_actual) = tester.requests("admin/quiz", Method::GET, Some(&quiz())).unwrap();
    assert_eq!(to_client.query, vec![("data".to_string(), "id=1&name=Quiz+A".to_string())]);
    assert_eq!(to_actual.query, to_client.query);
    assert_eq!(to_actual.url, "http://reference/admin/quiz");
}

#[test]
fn a_body_without_an_encoding_stops_both_requests() {
    let tester =
        Tester::new("http://candidate".to_string(), "http://reference".to_string());
    let nested = Json::Object(vec![("o".to_string(), Json::Object(vec![]))]);
    assert_eq!(
        tester.requests("admin/quiz", Method::GET, Some(&nested)),
        Err(TesterError::SerializationFailure {
            endpoint: "admin/quiz".to_string(),
            cause: "unsupported value".to_string(),
        })
    );
}
