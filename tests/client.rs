use nsg::error::NsgError;
use nsg::number::parse_u32;
use nsg::payload::{LoginPayload, Payload};
use nsg::serializable_int_error_kind::SerializableIntErrorKind;
use nsg::session::{session_alive, session_code};

fn chars(s: &str) -> Vec<char> {
    s.chars().collect()
}

#[test]
fn failure_kinds_are_tried_in_order() {
    assert_eq!(NsgError::from_failure(true, true, true, true, true), NsgError::ReqwestTimeout);
    assert_eq!(NsgError::from_failure(false, true, true, false, false), NsgError::ReqwestRequestError);
    assert_eq!(NsgError::from_failure(false, false, true, true, false), NsgError::ReqwestConnectError);
    assert_eq!(NsgError::from_failure(false, false, false, true, true), NsgError::ReqwestDecodeError);
    assert_eq!(NsgError::from_failure(false, false, false, false, true), NsgError::ReqwestBodyError);
    assert_eq!(NsgError::from_failure(false, false, false, false, false), NsgError::ReqwestUnknownError);
}

#[test]
fn session_code_is_read_from_its_line() {
    let page = "<script>\r\n  var x = 1;\r\n    sessioncode:\"ab12cd\",\r\n  other: 2\r\n</script>";
    assert_eq!(session_code(page), Some("ab12cd".to_string()));
    assert_eq!(session_code("nothing here"), None);
}

#[test]
fn login_form_means_no_session() {
    assert!(!session_alive("<form id=\"logoform\"></form>"));
    assert!(session_alive("<table></table>"));
}

#[test]
fn payloads_carry_their_fields() {
    let login = LoginPayload::new("user", "hash");
    assert_eq!(login.action, "user/login");
    assert_eq!(login.login, "user");
    assert_eq!(login.password, "hash");
    assert_eq!(login.remember, 0);
    let page = Payload::work_schedule("2024-05-17");
    assert_eq!(page.action, "workschedule1");
    assert_eq!(page.city, "");
    assert_eq!(page.data, "2024-05-17");
}

#[test]
fn numbers_read_as_the_standard_library_reads_them() {
    assert_eq!(parse_u32(&chars("+5")), Ok(5));
    assert_eq!(parse_u32(&chars("007")), Ok(7));
    assert_eq!(parse_u32(&chars("")), Err(SerializableIntErrorKind::Empty));
    assert_eq!(parse_u32(&chars("+")), Err(SerializableIntErrorKind::InvalidDigit));
    assert_eq!(parse_u32(&chars("-5")), Err(SerializableIntErrorKind::InvalidDigit));
    assert_eq!(parse_u32(&chars("4294967295")), Ok(4294967295));
    assert_eq!(parse_u32(&chars("4294967296")), Err(SerializableIntErrorKind::PosOverflow));
    assert_eq!(parse_u32(&chars("99999999999x")), Err(SerializableIntErrorKind::PosOverflow));
    assert_eq!(parse_u32(&chars("12 ")), Err(SerializableIntErrorKind::InvalidDigit));
}
