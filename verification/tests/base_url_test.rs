use icloud_album_rs::base_url::{calculate_partition, char_to_base62, get_base_url, BaseUrlError};

#[test]
fn test_char_to_base62() {
    // Digits (0-9)
    assert_eq!(char_to_base62('0').unwrap(), 0);
    assert_eq!(char_to_base62('9').unwrap(), 9);

    // Uppercase letters (A-Z)
    assert_eq!(char_to_base62('A').unwrap(), 10);
    assert_eq!(char_to_base62('Z').unwrap(), 35);

    // Lowercase letters (a-z)
    assert_eq!(char_to_base62('a').unwrap(), 36);
    assert_eq!(char_to_base62('z').unwrap(), 61);

    // Invalid character
    assert!(char_to_base62('!').is_err());
    match char_to_base62('!') {
        Err(BaseUrlError::InvalidBase62Char(c)) => assert_eq!(c, '!'),
        _ => panic!("Expected InvalidBase62Char error"),
    }
}

#[test]
fn test_calculate_partition() {
    assert_eq!(calculate_partition("A0z5qAGN1JIFd3y").unwrap(), 11);
    assert_eq!(calculate_partition("B0z5qAGN1JIFd3y").unwrap(), 12);
    assert_eq!(calculate_partition("a0z5qAGN1JIFd3y").unwrap(), 37);
    assert_eq!(calculate_partition("z0z5qAGN1JIFd3y").unwrap(), 22);

    // Empty string is rejected
    assert!(calculate_partition("").is_err());
    match calculate_partition("") {
        Err(BaseUrlError::EmptyToken) => (),
        _ => panic!("Expected EmptyToken error"),
    }

    // Invalid first character is rejected
    assert!(calculate_partition("!abc").is_err());
    match calculate_partition("!abc") {
        Err(BaseUrlError::InvalidBase62Char(c)) => assert_eq!(c, '!'),
        _ => panic!("Expected InvalidBase62Char error"),
    }
}

#[test]
fn test_get_base_url() {
    let token = "A0z5qAGN1JIFd3y";
    let expected = "https://p11-sharedstreams.icloud.com/A0z5qAGN1JIFd3y/sharedstreams/";
    assert_eq!(get_base_url(token).unwrap(), expected);

    let token = "B0z5qAGN1JIFd3y";
    let expected = "https://p12-sharedstreams.icloud.com/B0z5qAGN1JIFd3y/sharedstreams/";
    assert_eq!(get_base_url(token).unwrap(), expected);

    let token = "";
    assert!(matches!(get_base_url(token), Err(BaseUrlError::EmptyToken)));

    let token = "!invalid";
    assert!(matches!(
        get_base_url(token),
        Err(BaseUrlError::InvalidBase62Char('!'))
    ));
}

#[test]
fn test_get_base_url_with_different_tokens() {
    let token = "A0z5qAGN1JIFd3y";
    let expected = "https://p11-sharedstreams.icloud.com/A0z5qAGN1JIFd3y/sharedstreams/";
    assert_eq!(get_base_url(token).unwrap(), expected);

    let token = "B0z5qAGN1JIFd3y";
    let expected = "https://p12-sharedstreams.icloud.com/B0z5qAGN1JIFd3y/sharedstreams/";
    assert_eq!(get_base_url(token).unwrap(), expected);

    let token = "a0z5qAGN1JIFd3y";
    let expected = "https://p37-sharedstreams.icloud.com/a0z5qAGN1JIFd3y/sharedstreams/";
    assert_eq!(get_base_url(token).unwrap(), expected);

    let token = "1234567890";
    let expected = "https://p02-sharedstreams.icloud.com/1234567890/sharedstreams/";
    assert_eq!(get_base_url(token).unwrap(), expected);
}

#[test]
fn test_base_url_error_message() {
    assert_eq!(
        BaseUrlError::InvalidBase62Char('!').message(),
        "Invalid base62 character: !"
    );
    assert_eq!(BaseUrlError::EmptyToken.message(), "Empty token provided");
}

#[test]
fn test_get_base_url_with_invalid_input() {
    let token = "";
    match get_base_url(token) {
        Err(BaseUrlError::EmptyToken) => (),
        other => panic!("Expected EmptyToken error, got {:?}", other),
    }

    let token = "!invalid";
    match get_base_url(token) {
        Err(BaseUrlError::InvalidBase62Char(c)) => assert_eq!(c, '!'),
        other => panic!("Expected InvalidBase62Char error, got {:?}", other),
    }
}
