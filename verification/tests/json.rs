use serde_json::Value;
use unrest::json::respond_encoded;
use unrest::{Error, FromData, Json, Responder};

#[test]
fn json_is_decoded_from_the_body() {
    let got = Json::<Value>::from_data(b"{\"test\": \"x\", \"count\": 3}").unwrap();
    let value = got.into_inner();
    assert_eq!(value["test"], Value::String("x".to_string()));
    assert_eq!(value["count"].as_u64(), Some(3));
    assert_eq!(value, serde_json::from_str::<Value>("{\"count\":3,\"test\":\"x\"}").unwrap());
}

#[test]
fn malformed_json_is_a_from_data_error() {
    let err = Json::<Value>::from_data(b"{\"test\": ").unwrap_err();
    let expected = serde_json::from_slice::<Value>(b"{\"test\": ").unwrap_err().to_string();
    assert_eq!(err, Error::FromDataError(expected));
    assert_eq!(err.status_code(), 422);
    assert!(err.text().starts_with("EOF while parsing"));
    assert!(Json::<Value>::from_data(b"").is_err());
    assert!(Json::<Value>::from_data(&[0xff, 0xfe]).is_err());
}

#[test]
fn json_responds_with_its_encoding() {
    let value = serde_json::from_str::<Value>("{\"b\": [1, 2, null], \"a\": \"x\"}").unwrap();
    let r = Json(value.clone()).respond();
    assert_eq!(r.status(), 200);
    assert_eq!(r.header("Content-Type"), Some("application/json"));
    assert_eq!(r.header_count(), 1);
    assert_eq!(r.body(), &serde_json::to_vec(&value).unwrap());
    assert_eq!(serde_json::from_slice::<Value>(r.body()).unwrap(), value);
    let r = Json(Value::Null).respond();
    assert_eq!(r.body(), &b"null".to_vec());
}

#[test]
fn what_the_decoder_made_becomes_the_payload() {
    let ok: Result<Json<u32>, Error> = Json::from_decoded(Ok(5));
    assert_eq!(ok.unwrap().into_inner(), 5);
    let err: Result<Json<u32>, Error> = Json::from_decoded(Err("expected value".to_string()));
    assert_eq!(err.unwrap_err(), Error::FromDataError("expected value".to_string()));
}

#[test]
fn what_the_encoder_made_becomes_the_response() {
    let r = respond_encoded(Ok(b"[1]".to_vec()));
    assert_eq!(r.status(), 200);
    assert_eq!(r.header("Content-Type"), Some("application/json"));
    assert_eq!(r.body(), &b"[1]".to_vec());
    let r = respond_encoded(Err("key must be a string".to_string()));
    assert_eq!(r.status(), 500);
    assert_eq!(r, Error::OtherServersFault("key must be a string".to_string()).respond());
}
