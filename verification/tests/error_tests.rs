use mpv_client::error::{check, check_with_code, Error, ERROR_GENERIC, ERROR_NOMEM, ERROR_PROPERTY_NOT_FOUND};

#[test]
fn success_code_is_ok() {
    assert_eq!(check(0), Ok(()));
}

#[test]
fn error_codes_are_errors() {
    assert_eq!(check(ERROR_PROPERTY_NOT_FOUND), Err(Error::new(-8)));
    assert_eq!(check(-20).unwrap_err().code(), -20);
    assert_eq!(check(5), Err(Error::new(5)));
}

#[test]
fn non_negative_codes_are_values() {
    assert_eq!(check_with_code(0), Ok(0));
    assert_eq!(check_with_code(3), Ok(3));
    assert_eq!(check_with_code(-2), Err(Error::new(ERROR_NOMEM)));
}

#[test]
fn generic_error() {
    assert_eq!(Error::generic().code(), ERROR_GENERIC);
    let bytes = vec![0xffu8, 0xfe];
    let utf8_error = std::str::from_utf8(&bytes).unwrap_err();
    let e: Error = utf8_error.into();
    assert_eq!(e.code(), -20);
}

#[test]
fn error_message() {
    assert_eq!(Error::new(-20).message("unspecified error"), "[-20] unspecified error");
    assert_eq!(Error::new(0).message("success"), "[0] success");
    assert_eq!(Error::new(7).message(""), "[7] ");
    assert_eq!(Error::new(i32::MIN).message("x"), "[-2147483648] x");
}
