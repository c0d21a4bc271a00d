use unrest::responder::{render_with, respond_failure};
use unrest::{Error, ErrorKind, Responder};

fn body_text(e: Error) -> String {
    String::from_utf8(e.respond().body().clone()).unwrap()
}

#[test]
fn each_kind_has_its_status() {
    assert_eq!(Error::RouterError.status_code(), 404);
    assert_eq!(Error::ParamParseError("x".to_string()).status_code(), 400);
    assert_eq!(Error::ParamNotFound("x".to_string()).status_code(), 400);
    assert_eq!(Error::HyperError("x".to_string()).status_code(), 400);
    assert_eq!(Error::FromDataError("x".to_string()).status_code(), 422);
    assert_eq!(Error::StateNotFound("x".to_string()).status_code(), 500);
    assert_eq!(Error::OtherUsersFault("x".to_string()).status_code(), 400);
    assert_eq!(Error::OtherServersFault("x".to_string()).status_code(), 500);
}

#[test]
fn kinds_map_to_the_same_status_as_their_failures() {
    assert_eq!(ErrorKind::RouterError.status_code(), 404);
    assert_eq!(ErrorKind::ParamParseError.status_code(), 400);
    assert_eq!(ErrorKind::ParamNotFound.status_code(), 400);
    assert_eq!(ErrorKind::HyperError.status_code(), 400);
    assert_eq!(ErrorKind::FromDataError.status_code(), 422);
    assert_eq!(ErrorKind::StateNotFound.status_code(), 500);
    assert_eq!(ErrorKind::OtherUsersFault.status_code(), 400);
    assert_eq!(ErrorKind::OtherServersFault.status_code(), 500);
}

#[test]
fn kind_and_text_of_a_failure() {
    let e = Error::StateNotFound("db: Pool".to_string());
    assert_eq!(e.kind(), ErrorKind::StateNotFound);
    assert_eq!(e.text(), "db: Pool");
    assert_eq!(Error::RouterError.kind(), ErrorKind::RouterError);
    assert_eq!(Error::RouterError.text(), "");
}

#[test]
fn new_builds_the_failure_of_a_kind() {
    assert_eq!(
        Error::new(ErrorKind::OtherUsersFault, "no"),
        Error::OtherUsersFault("no".to_string())
    );
    assert_eq!(Error::new(ErrorKind::RouterError, "dropped"), Error::RouterError);
    assert_eq!(
        Error::new(ErrorKind::HyperError, "reset"),
        Error::HyperError("reset".to_string())
    );
}

#[test]
fn kind_names() {
    assert_eq!(ErrorKind::RouterError.name(), "RouterError");
    assert_eq!(ErrorKind::ParamParseError.name(), "ParamParseError");
    assert_eq!(ErrorKind::ParamNotFound.name(), "ParamNotFound");
    assert_eq!(ErrorKind::HyperError.name(), "HyperError");
    assert_eq!(ErrorKind::FromDataError.name(), "FromDataError");
    assert_eq!(ErrorKind::StateNotFound.name(), "StateNotFound");
    assert_eq!(ErrorKind::OtherUsersFault.name(), "OtherUsersFault");
    assert_eq!(ErrorKind::OtherServersFault.name(), "OtherServersFault");
}

#[test]
fn a_failure_is_rendered_like_its_debug_form() {
    assert_eq!(Error::RouterError.render(), "RouterError");
    assert_eq!(
        Error::ParamNotFound("first".to_string()).render(),
        "ParamNotFound(\"first\")"
    );
    let e = Error::FromDataError("bad \"quote\"\n".to_string());
    assert_eq!(e.render(), format!("{:?}", e));
    assert_eq!(e.render(), "FromDataError(\"bad \\\"quote\\\"\\n\")");
}

#[test]
fn router_error_responds_with_404() {
    let r = Error::RouterError.respond();
    assert_eq!(r.status(), 404);
    assert_eq!(r.header("Content-Type"), Some("application/json"));
    assert_eq!(r.header_count(), 1);
    assert_eq!(
        String::from_utf8(r.body().clone()).unwrap(),
        "{'status': 'error', 'msg': 'RouterError' }"
    );
}

#[test]
fn the_body_of_a_failure_names_kind_and_text() {
    assert_eq!(
        body_text(Error::ParamParseError("invalid digit found in string".to_string())),
        "{'status': 'error', 'msg': 'ParamParseError(\"invalid digit found in string\")' }"
    );
    assert_eq!(
        body_text(Error::OtherServersFault("down".to_string())),
        "{'status': 'error', 'msg': 'OtherServersFault(\"down\")' }"
    );
}

#[test]
fn every_kind_is_answered() {
    let all = vec![
        Error::RouterError,
        Error::ParamParseError("a".to_string()),
        Error::ParamNotFound("b".to_string()),
        Error::HyperError("c".to_string()),
        Error::FromDataError("d".to_string()),
        Error::StateNotFound("e".to_string()),
        Error::OtherUsersFault("f".to_string()),
        Error::OtherServersFault("g".to_string()),
    ];
    for e in all {
        let status = e.status_code();
        let name = e.kind().name();
        let r = e.respond();
        assert_eq!(r.status(), status);
        assert!(String::from_utf8(r.body().clone()).unwrap().contains(name));
        assert_eq!(r.header("Content-Type"), Some("application/json"));
    }
}

#[test]
fn a_failure_is_written_from_its_kind_and_its_quoted_text() {
    assert_eq!(render_with(ErrorKind::RouterError, "\"ignored\""), "RouterError");
    assert_eq!(
        render_with(ErrorKind::HyperError, "\"reset\""),
        "HyperError(\"reset\")"
    );
    assert_eq!(render_with(ErrorKind::StateNotFound, ""), "StateNotFound()");
}

#[test]
fn a_written_failure_becomes_the_body_of_its_response() {
    let r = respond_failure(ErrorKind::FromDataError, "FromDataError(\"x\")");
    assert_eq!(r.status(), 422);
    assert_eq!(r.header("Content-Type"), Some("application/json"));
    assert_eq!(
        String::from_utf8(r.body().clone()).unwrap(),
        "{'status': 'error', 'msg': 'FromDataError(\"x\")' }"
    );
    assert_eq!(r, Error::FromDataError("x".to_string()).respond());
}
