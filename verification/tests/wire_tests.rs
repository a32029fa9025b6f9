use authsrv::wire::AddAccountError;
use authsrv::wire::GetTokenError;
use authsrv::wire::WireValue;
use authsrv::wire::decode_get_reply;
use authsrv::wire::decode_insert_reply;
use authsrv::wire::decode_set_reply;

#[test]
fn test_decode_insert_reply() {
    assert!(matches!(decode_insert_reply(WireValue::Integer(1)), Ok(true)));
    assert!(matches!(decode_insert_reply(WireValue::Integer(0)), Ok(false)));
    assert!(matches!(
        decode_insert_reply(WireValue::Integer(2)),
        Err(AddAccountError::UnexpectedResp(WireValue::Integer(2)))
    ));
    assert!(matches!(
        decode_insert_reply(WireValue::Nil),
        Err(AddAccountError::UnexpectedResp(WireValue::Nil))
    ));
}

#[test]
fn test_decode_get_reply() {
    assert!(matches!(decode_get_reply(WireValue::Nil), Ok(None)));
    let bulk = decode_get_reply(WireValue::Bulk(String::from("payload")));
    assert!(matches!(bulk, Ok(Some(s)) if s == "payload"));
    assert!(matches!(
        decode_get_reply(WireValue::Integer(1)),
        Err(GetTokenError::UnexpectedResp(WireValue::Integer(1)))
    ));
}

#[test]
fn test_decode_set_reply() {
    assert!(decode_set_reply(WireValue::Simple(String::from("OK"))).is_ok());
    assert!(matches!(
        decode_set_reply(WireValue::Nil),
        Err(GetTokenError::UnexpectedResp(WireValue::Nil))
    ));
}

#[test]
fn test_error_descriptions() {
    assert_eq!(
        AddAccountError::UnexpectedResp(WireValue::Nil).describe(),
        "unexpected response from the store"
    );
    assert_eq!(
        GetTokenError::DeserializationError.describe(),
        "stored account record is corrupt"
    );
    assert_eq!(
        GetTokenError::UnexpectedResp(WireValue::Other).describe(),
        "unexpected response from the store"
    );
}
