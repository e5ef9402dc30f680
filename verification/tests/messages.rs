use api_tester::endpoints::endpoints;
use api_tester::error::clone_path;
use api_tester::error::decimal_text;
use api_tester::error::failure_message;
use api_tester::error::mismatch_message;
use api_tester::error::render_path;
use api_tester::error::PathSegment;
use api_tester::error::TesterError;
use api_tester::json::Json;

fn num(n: u64) -> Json {
    Json::Number(serde_json::Number::from(n))
}

fn key(k: &str) -> PathSegment {
    PathSegment::Key(k.to_string())
}

#[test]
fn numerals_are_decimal() {
    assert_eq!(decimal_text(0), "0");
    assert_eq!(decimal_text(7), "7");
    assert_eq!(decimal_text(10), "10");
    assert_eq!(decimal_text(1234567890), "1234567890");
    assert_eq!(decimal_text(usize::MAX), usize::MAX.to_string());
}

#[test]
fn a_path_is_written_between_brackets() {
    assert_eq!(render_path(&vec![]), "[]");
    assert_eq!(render_path(&vec![key("id")]), "[\"id\"]");
    assert_eq!(render_path(&vec![PathSegment::Index(12)]), "[12]");
    assert_eq!(
        render_path(&vec![key("items"), PathSegment::Index(0), key("id")]),
        "[\"items\", 0, \"id\"]"
    );
    assert_eq!(key("a b").text(), "\"a b\"");
    assert_eq!(PathSegment::Index(305).text(), "305");
}

#[test]
fn a_copied_path_is_the_same_path() {
    let path = vec![key("items"), PathSegment::Index(0), key("id")];
    assert_eq!(clone_path(&path), path);
    assert_eq!(clone_path(&vec![]), vec![]);
}

#[test]
fn a_transport_failure_names_endpoint_and_cause() {
    let e = TesterError::TransportFailure {
        endpoint: "/admin/quiz".to_string(),
        cause: "connection refused".to_string(),
    };
    assert_eq!(e.message(), "Transport failure at endpoint `/admin/quiz`: connection refused");
    assert_eq!(e.endpoint(), "/admin/quiz");
}

#[test]
fn a_serialization_failure_names_endpoint_and_cause() {
    let e = TesterError::SerializationFailure {
        endpoint: "/clear".to_string(),
        cause: "unsupported value".to_string(),
    };
    assert_eq!(e.message(), "Serialization failure at endpoint `/clear`: unsupported value");
    assert_eq!(e.endpoint(), "/clear");
}

#[test]
fn a_mismatch_names_endpoint_path_and_both_values() {
    let e = TesterError::JsonTypeMismatch {
        endpoint: "/admin/quiz".to_string(),
        path: vec![key("id")],
        client_value: Json::String("1".to_string()),
        actual_value: num(1),
    };
    assert_eq!(
        e.message(),
        "JSON type mismatch at endpoint `/admin/quiz`.\nPath: [\"id\"]\nClient Value: String(\"1\")\nActual Value: Number(1)"
    );
    assert_eq!(e.endpoint(), "/admin/quiz");
}

#[test]
fn a_mismatch_shows_whole_values() {
    let e = TesterError::JsonTypeMismatch {
        endpoint: "/admin/quiz/list".to_string(),
        path: vec![],
        client_value: Json::Array(vec![num(1), Json::Null]),
        actual_value: Json::Object(vec![
            ("open".to_string(), Json::Bool(true)),
            ("id".to_string(), num(2)),
        ]),
    };
    assert_eq!(
        e.message(),
        "JSON type mismatch at endpoint `/admin/quiz/list`.\nPath: []\nClient Value: Array [Number(1), Null]\nActual Value: Object {\"id\": Number(2), \"open\": Bool(true)}"
    );
}

#[test]
fn each_endpoint_has_its_template() {
    assert_eq!(endpoints::adminAuthRegister.template(), "/admin/auth/register");
    assert_eq!(endpoints::adminAuthLogin.template(), "/admin/auth/login");
    assert_eq!(endpoints::adminUserDetails.template(), "/admin/user/details");
    assert_eq!(endpoints::adminUserPassword.template(), "/admin/user/password");
    assert_eq!(endpoints::adminQuizList.template(), "/admin/quiz/list");
    assert_eq!(endpoints::adminQuiz.template(), "/admin/quiz");
    assert_eq!(endpoints::adminQuizId.template(), "/admin/quiz/{}");
    assert_eq!(endpoints::adminQuizIdName.template(), "/admin/quiz/{}/name");
    assert_eq!(endpoints::adminQuizIdDescription.template(), "/admin/quiz/{}/description");
    assert_eq!(endpoints::clear.template(), "/clear");
    assert_eq!(endpoints::adminAuthLogout.template(), "/admin/auth/logout");
    assert_eq!(endpoints::adminQuizTrash.template(), "/admin/quiz/trash");
    assert_eq!(endpoints::adminQuizIdRestore.template(), "/admin/quiz/{}/restore");
    assert_eq!(endpoints::adminQuizTrashEmpty.template(), "/admin/quiz/trash/empty");
    assert_eq!(endpoints::adminQuizIdTransfer.template(), "/admin/quiz/{}/transfer");
}

#[test]
fn a_failed_call_is_described_by_step_endpoint_and_cause() {
    assert_eq!(
        failure_message("Transport", "/clear", "timed out"),
        "Transport failure at endpoint `/clear`: timed out"
    );
    assert_eq!(failure_message("", "", ""), " failure at endpoint ``: ");
}

#[test]
fn a_mismatch_is_described_by_the_texts_given() {
    assert_eq!(
        mismatch_message("/clear", &vec![PathSegment::Index(1), key("a")], "LEFT", "RIGHT"),
        "JSON type mismatch at endpoint `/clear`.\nPath: [1, \"a\"]\nClient Value: LEFT\nActual Value: RIGHT"
    );
    assert_eq!(
        mismatch_message("", &vec![], "", ""),
        "JSON type mismatch at endpoint ``.\nPath: []\nClient Value: \nActual Value: "
    );
}

#[test]
fn numbers_are_shown_as_they_are() {
    let e = TesterError::JsonTypeMismatch {
        endpoint: "/n".to_string(),
        path: vec![PathSegment::Index(0)],
        client_value: Json::Number(serde_json::Number::from(-12i64)),
        actual_value: Json::Number(serde_json::Number::from_f64(1.5).unwrap()),
    };
    assert_eq!(
        e.message(),
        "JSON type mismatch at endpoint `/n`.\nPath: [0]\nClient Value: Number(-12)\nActual Value: Number(1.5)"
    );
}

#[test]
fn failures_are_made_from_endpoint_and_cause() {
    assert_eq!(
        TesterError::transport("/clear", "connection refused".to_string()),
        TesterError::TransportFailure {
            endpoint: "/clear".to_string(),
            cause: "connection refused".to_string(),
        }
    );
    assert_eq!(
        TesterError::serialization("/clear", "unsupported value".to_string()),
        TesterError::SerializationFailure {
            endpoint: "/clear".to_string(),
            cause: "unsupported value".to_string(),
        }
    );
}
