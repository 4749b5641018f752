use mpv_client::client::{client_name, osd_args};
use mpv_client::text::push_decimal;

#[test]
fn client_names() {
    assert_eq!(client_name(None), None);
    assert_eq!(client_name(Some("")), None);
    assert_eq!(client_name(Some("helper")), Some("helper".to_string()));
}

#[test]
fn osd_command_arguments() {
    assert_eq!(osd_args("hello", 1500), vec!["show-text".to_string(), "hello".to_string(), "1500".to_string()]);
    assert_eq!(osd_args("", 0), vec!["show-text".to_string(), String::new(), "0".to_string()]);
}

#[test]
fn decimal_rendering() {
    let mut s = String::from("n=");
    push_decimal(&mut s, 0);
    assert_eq!(s, "n=0");
    let mut t = String::new();
    push_decimal(&mut t, u128::MAX);
    assert_eq!(t, u128::MAX.to_string());
    let mut u = String::new();
    push_decimal(&mut u, 1000000007);
    assert_eq!(u, "1000000007");
}
