use jsender::body::{frame_error, frame_fail, frame_jsend, frame_success};
use jsender::dto::JSendStatus;

#[test]
fn frame_success_wraps_data_text() {
    assert_eq!(
        frame_success(b"[1,2]"),
        b"{\"status\":\"success\",\"data\":[1,2]}".to_vec()
    );
}

#[test]
fn frame_fail_wraps_data_text() {
    assert_eq!(
        frame_fail(b"{}"),
        b"{\"status\":\"fail\",\"data\":{}}".to_vec()
    );
}

#[test]
fn frame_error_with_message_only() {
    assert_eq!(
        frame_error(b"\"m\"", None, None),
        b"{\"status\":\"error\",\"message\":\"m\"}".to_vec()
    );
}

#[test]
fn frame_error_with_all_members() {
    assert_eq!(
        frame_error(b"\"m\"", Some(b"7"), Some(b"null")),
        b"{\"status\":\"error\",\"message\":\"m\",\"code\":7,\"data\":null}".to_vec()
    );
}

#[test]
fn frame_error_with_data_only() {
    assert_eq!(
        frame_error(b"\"m\"", None, Some(b"[]")),
        b"{\"status\":\"error\",\"message\":\"m\",\"data\":[]}".to_vec()
    );
}

#[test]
fn frame_jsend_writes_present_members_in_order() {
    assert_eq!(
        frame_jsend(JSendStatus::Error, Some(b"\"m\""), Some(b"3"), None),
        b"{\"status\":\"error\",\"message\":\"m\",\"code\":3}".to_vec()
    );
    assert_eq!(
        frame_jsend(JSendStatus::Success, None, None, Some(b"null")),
        b"{\"status\":\"success\",\"data\":null}".to_vec()
    );
    assert_eq!(
        frame_jsend(JSendStatus::Fail, None, None, Some(b"{}")),
        b"{\"status\":\"fail\",\"data\":{}}".to_vec()
    );
}
