use rlisp::error::Error;

#[test]
fn errors_display_their_message() {
    let e = Error::reading("unexpected `)`".to_string());
    assert!(e.is_parse_error());
    assert_eq!(e.to_string(), "unexpected `)`");
    let e = Error::compiling("nai".to_string());
    assert!(!e.is_parse_error());
    assert_eq!(e.to_string(), "nai");
}
