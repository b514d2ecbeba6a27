use llm_call::headers::{request_headers, HeaderError};

#[test]
fn the_key_goes_into_the_authorization() {
    let headers = request_headers("sk-123").unwrap();
    assert_eq!(headers.len(), 2);
    assert_eq!(headers.get("content-type").unwrap().to_str().unwrap(), "application/json");
    assert_eq!(headers.get("authorization").unwrap().to_str().unwrap(), "Bearer sk-123");
}

#[test]
fn an_empty_key_and_a_tab_can_stand_in_a_header() {
    let headers = request_headers("").unwrap();
    assert_eq!(headers.get("authorization").unwrap().as_bytes(), b"Bearer ");
    let headers = request_headers("a\tb").unwrap();
    assert_eq!(headers.get("authorization").unwrap().as_bytes(), b"Bearer a\tb");
}

#[test]
fn text_beyond_ascii_can_stand_in_a_header() {
    let headers = request_headers("cl\u{e9}").unwrap();
    assert_eq!(
        headers.get("authorization").unwrap().as_bytes(),
        "Bearer cl\u{e9}".as_bytes()
    );
}

#[test]
fn control_characters_cannot_stand_in_a_header() {
    for key in ["a\nb", "a\r", "\u{0}", "\u{7f}", "\u{1f}"] {
        let error = request_headers(key).unwrap_err();
        assert_eq!(error, HeaderError::InvalidApiKey);
        assert_eq!(error.message(), "failed to parse header value");
    }
}
