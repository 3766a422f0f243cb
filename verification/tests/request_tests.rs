use decork::request::{
    authorization_header, connect_request, encode_credential, is_encodable, request_with_token,
};

fn standard(text: &str) -> String {
    base64::Engine::encode(&base64::prelude::BASE64_STANDARD, text)
}

#[test]
fn request_without_credential_has_no_header() {
    assert_eq!(
        connect_request("example.com:443", None),
        "CONNECT example.com:443 HTTP/1.0\r\n\r\n"
    );
}

#[test]
fn request_with_credential_is_byte_exact() {
    assert_eq!(
        connect_request("example.com:443", Some("alice:secret")),
        "CONNECT example.com:443 HTTP/1.0\r\nProxy-Authorization: Basic YWxpY2U6c2VjcmV0\r\n\r\n"
    );
}

#[test]
fn request_keeps_the_protocol_version() {
    let request = connect_request("10.0.0.1:22", None);
    assert!(request.starts_with("CONNECT 10.0.0.1:22 HTTP/1.0\r\n"));
    assert!(!request.contains("HTTP/1.1"));
}

#[test]
fn destination_is_passed_through_verbatim() {
    assert_eq!(
        connect_request("[::1]:8443", None),
        "CONNECT [::1]:8443 HTTP/1.0\r\n\r\n"
    );
    assert_eq!(connect_request("", None), "CONNECT  HTTP/1.0\r\n\r\n");
}

#[test]
fn credential_is_encoded() {
    assert_eq!(encode_credential("alice:secret"), "YWxpY2U6c2VjcmV0");
    assert_ne!(encode_credential("alice:secret"), "alice:secret");
}

#[test]
fn bare_username_is_padded() {
    assert_eq!(encode_credential("alice"), "YWxpY2U=");
    assert_eq!(encode_credential("al"), "YWw=");
    assert_eq!(encode_credential("a"), "YQ==");
}

#[test]
fn empty_credential_still_gives_a_header() {
    assert_eq!(encode_credential(""), "");
    assert_eq!(
        connect_request("example.com:443", Some("")),
        "CONNECT example.com:443 HTTP/1.0\r\nProxy-Authorization: Basic \r\n\r\n"
    );
}

#[test]
fn credential_is_encoded_from_its_utf8_bytes() {
    assert_eq!(encode_credential("\u{fc}:p"), "w7w6cA==");
}

#[test]
fn credential_with_trailing_newline_is_encoded_as_it_is() {
    assert_eq!(encode_credential("alice:secret\n"), "YWxpY2U6c2VjcmV0Cg==");
}

#[test]
fn header_matches_the_encoder_for_many_credentials() {
    let credentials = [
        "",
        "a",
        "ab",
        "abc",
        "user:pass",
        "user:",
        ":pass",
        "with space:and\ttab",
        "\u{65e5}\u{672c}:\u{8a9e}",
        "a-very-long-user-name-that-spans-several-groups:and-an-equally-long-password",
    ];
    for credential in credentials {
        let expected = format!(
            "CONNECT host:1 HTTP/1.0\r\nProxy-Authorization: Basic {}\r\n\r\n",
            standard(credential)
        );
        assert_eq!(connect_request("host:1", Some(credential)), expected);
    }
}

#[test]
fn token_is_placed_as_given() {
    assert_eq!(
        request_with_token("example.com:443", Some("dG9rZW4=")),
        "CONNECT example.com:443 HTTP/1.0\r\nProxy-Authorization: Basic dG9rZW4=\r\n\r\n"
    );
    assert_eq!(
        request_with_token("example.com:443", None),
        "CONNECT example.com:443 HTTP/1.0\r\n\r\n"
    );
}

#[test]
fn request_ends_with_one_empty_line() {
    for credential in [None, Some("alice:secret")] {
        let request = connect_request("example.com:443", credential);
        assert!(request.ends_with("\r\n\r\n"));
        assert_eq!(request.matches("\r\n\r\n").count(), 1);
    }
}

#[test]
fn header_presents_the_token() {
    assert_eq!(
        authorization_header("YWxpY2U6c2VjcmV0"),
        "Proxy-Authorization: Basic YWxpY2U6c2VjcmV0\r\n"
    );
    assert_eq!(authorization_header(""), "Proxy-Authorization: Basic \r\n");
}

#[test]
fn header_for_a_credential_is_its_encoding_and_nothing_else() {
    for credential in ["alice:secret", "bob", "", "x:y:z"] {
        let expected = format!("Proxy-Authorization: Basic {}\r\n", standard(credential));
        assert_eq!(authorization_header(&encode_credential(credential)), expected);
    }
}

#[test]
fn credentials_of_any_sensible_length_can_be_encoded() {
    assert!(is_encodable(""));
    assert!(is_encodable("alice:secret"));
    let long = "x".repeat(1 << 20);
    assert!(is_encodable(&long));
    assert_eq!(encode_credential(&long).len(), 1398104);
}
