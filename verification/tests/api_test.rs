use icloud_album_rs::api::{
    classify_asset_status, get_string_field, get_u32_field, parse_api_response,
    process_webasseturls_response, validate_api_schema, validate_webasseturls_response, ApiError,
    AssetStatusOutcome, FieldSeverity, ValidationFailure,
};
use icloud_album_rs::json::JsonValue;
use icloud_album_rs::models::{Derivative, Image};

fn s(x: &str) -> String {
    x.to_string()
}

fn jstr(x: &str) -> JsonValue {
    JsonValue::Str(s(x))
}

fn jnum(n: u64) -> JsonValue {
    JsonValue::UInt(n)
}

fn obj(entries: Vec<(String, JsonValue)>) -> JsonValue {
    JsonValue::Object(entries)
}

fn sample_derivative(checksum: &str, file_size: u64, width: u64, height: u64) -> JsonValue {
    obj(vec![
        (s("checksum"), jstr(checksum)),
        (s("fileSize"), jnum(file_size)),
        (s("width"), jnum(width)),
        (s("height"), jnum(height)),
    ])
}

fn create_sample_api_response() -> JsonValue {
    obj(vec![
        (s("streamName"), jstr("Test Album")),
        (s("userFirstName"), jstr("John")),
        (s("userLastName"), jstr("Doe")),
        (s("streamCtag"), jstr("12345")),
        (s("itemsReturned"), jnum(2)),
        (s("locations"), obj(vec![])),
        (
            s("photos"),
            JsonValue::Array(vec![
                obj(vec![
                    (s("photoGuid"), jstr("photo123")),
                    (
                        s("derivatives"),
                        obj(vec![
                            (s("1"), sample_derivative("abc123", 12345, 800, 600)),
                            (s("2"), sample_derivative("def456", 54321, 1600, 1200)),
                        ]),
                    ),
                    (s("caption"), jstr("Test image 1")),
                    (s("dateCreated"), jstr("2023-01-01")),
                    (s("batchDateCreated"), jstr("2023-01-01")),
                    (s("width"), jnum(1600)),
                    (s("height"), jnum(1200)),
                ]),
                obj(vec![
                    (s("photoGuid"), jstr("photo456")),
                    (
                        s("derivatives"),
                        obj(vec![(s("1"), sample_derivative("ghi789", 23456, 800, 600))]),
                    ),
                    (s("caption"), jstr("Test image 2")),
                    (s("dateCreated"), jstr("2023-01-02")),
                    (s("batchDateCreated"), jstr("2023-01-02")),
                    (s("width"), jnum(800)),
                    (s("height"), jnum(600)),
                ]),
            ]),
        ),
    ])
}

fn create_sample_asset_urls_response() -> JsonValue {
    obj(vec![(
        s("items"),
        obj(vec![
            (
                s("photo123"),
                obj(vec![
                    (s("url_location"), jstr("example1.icloud.com")),
                    (s("url_path"), jstr("/path/to/image1.jpg")),
                ]),
            ),
            (
                s("photo456"),
                obj(vec![
                    (s("url_location"), jstr("example2.icloud.com")),
                    (s("url_path"), jstr("/path/to/image2.jpg")),
                ]),
            ),
            (
                s("photo789"),
                obj(vec![
                    (s("url_location"), jstr("example3.icloud.com")),
                    (s("url_path"), jstr("/path/to/image3.jpg")),
                ]),
            ),
        ]),
    )])
}

fn deriv<'a>(img: &'a Image, key: &str) -> Option<&'a Derivative> {
    img.derivatives
        .iter()
        .find(|(k, _)| k == key)
        .map(|(_, d)| d)
}

fn url_of<'a>(urls: &'a [(String, String)], key: &str) -> Option<&'a String> {
    urls.iter().find(|(k, _)| k == key).map(|(_, u)| u)
}

#[test]
fn run_api_tests() {
    println!("API decoding is exercised by the tests in this file.");
}

#[test]
fn test_api_response() {
    let data = create_sample_api_response();
    let (photos, metadata) = parse_api_response(&data).unwrap();

    assert_eq!(metadata.stream_name, "Test Album");
    assert_eq!(metadata.user_first_name, "John");
    assert_eq!(metadata.user_last_name, "Doe");
    assert_eq!(metadata.stream_ctag, "12345");
    assert_eq!(metadata.items_returned, 2);

    assert_eq!(photos.len(), 2);
    assert_eq!(photos[0].photo_guid, "photo123");
    assert_eq!(photos[0].derivatives.len(), 2);
    assert_eq!(
        deriv(&photos[0], "1").map(|d| d.checksum.clone()),
        Some("abc123".to_string())
    );
    assert_eq!(photos[1].photo_guid, "photo456");
    assert_eq!(photos[1].derivatives.len(), 1);
    assert_eq!(
        deriv(&photos[1], "1").map(|d| d.checksum.clone()),
        Some("ghi789".to_string())
    );
}

#[test]
fn test_asset_urls() {
    let data = create_sample_asset_urls_response();
    let urls = process_webasseturls_response(&data).unwrap();

    assert_eq!(urls.len(), 3);
    assert_eq!(
        url_of(&urls, "photo123").unwrap(),
        "https://example1.icloud.com/path/to/image1.jpg"
    );
    assert_eq!(
        url_of(&urls, "photo456").unwrap(),
        "https://example2.icloud.com/path/to/image2.jpg"
    );
    assert_eq!(
        url_of(&urls, "photo789").unwrap(),
        "https://example3.icloud.com/path/to/image3.jpg"
    );
}

#[test]
fn test_string_field_severity_policy() {
    let data = obj(vec![(s("name"), jstr("value")), (s("bad"), jnum(7))]);

    // Present and well typed: the value, under any severity.
    assert_eq!(
        get_string_field(&data, "name", "d", FieldSeverity::Required).unwrap(),
        "value"
    );

    // Missing under Required: a missing-field error naming the field.
    match get_string_field(&data, "gone", "d", FieldSeverity::Required) {
        Err(ApiError::MissingFieldError(f)) => assert_eq!(f, "gone"),
        other => panic!("Expected MissingFieldError, got {:?}", other),
    }

    // Missing under Optional and Lenient: the default.
    assert_eq!(
        get_string_field(&data, "gone", "d", FieldSeverity::Optional).unwrap(),
        "d"
    );
    assert_eq!(
        get_string_field(&data, "gone", "d", FieldSeverity::Lenient).unwrap(),
        "d"
    );

    // Wrong type under Required: an error; under Optional: the default.
    assert!(get_string_field(&data, "bad", "d", FieldSeverity::Required).is_err());
    assert_eq!(
        get_string_field(&data, "bad", "d", FieldSeverity::Optional).unwrap(),
        "d"
    );
}

#[test]
fn test_u32_field_coercion() {
    let data = obj(vec![
        (s("native"), jnum(42)),
        (s("text"), jstr("17")),
        (s("junk"), jstr("many")),
        (s("huge"), jnum(5_000_000_000)),
    ]);

    // Native number and numeric string both decode.
    assert_eq!(
        get_u32_field(&data, "native", 0, FieldSeverity::Required).unwrap(),
        42
    );
    assert_eq!(
        get_u32_field(&data, "text", 0, FieldSeverity::Required).unwrap(),
        17
    );

    // A non-numeric string is a parse error under Required, the default
    // otherwise.
    match get_u32_field(&data, "junk", 9, FieldSeverity::Required) {
        Err(ApiError::JsonParseError(_)) => (),
        other => panic!("Expected JsonParseError, got {:?}", other),
    }
    assert_eq!(
        get_u32_field(&data, "junk", 9, FieldSeverity::Optional).unwrap(),
        9
    );

    // A number beyond u32 is too large.
    assert!(get_u32_field(&data, "huge", 0, FieldSeverity::Required).is_err());
    assert_eq!(
        get_u32_field(&data, "huge", 3, FieldSeverity::Lenient).unwrap(),
        3
    );
}

#[test]
fn test_validate_api_schema_webstream() {
    // A response with no fields at all: three issues.
    let empty = obj(vec![]);
    let issues = validate_api_schema(&empty, "webstream");
    assert_eq!(issues.len(), 3);
    assert_eq!(issues[0].0, "streamName");
    assert!(matches!(issues[0].1, ValidationFailure::Missing));
    assert_eq!(issues[1].0, "streamCtag");
    assert_eq!(issues[2].0, "photos");

    // A photo without its identifier is reported under its index.
    let data = obj(vec![
        (s("streamName"), jstr("A")),
        (s("streamCtag"), jstr("c")),
        (
            s("photos"),
            JsonValue::Array(vec![obj(vec![(s("derivatives"), obj(vec![]))])]),
        ),
    ]);
    let issues = validate_api_schema(&data, "webstream");
    assert_eq!(issues.len(), 1);
    assert_eq!(issues[0].0, "photos[0].photoGuid");
    assert!(matches!(issues[0].1, ValidationFailure::Missing));

    // A photos field of the wrong type.
    let data = obj(vec![
        (s("streamName"), jstr("A")),
        (s("streamCtag"), jstr("c")),
        (s("photos"), jstr("nope")),
    ]);
    let issues = validate_api_schema(&data, "webstream");
    assert_eq!(issues.len(), 1);
    assert_eq!(issues[0].0, "photos");
    assert!(matches!(issues[0].1, ValidationFailure::WrongType));
}

#[test]
fn test_webasseturls_missing_items_is_hard_error() {
    // The items mapping is required: without it validation and processing
    // both fail.
    let empty = obj(vec![]);
    match validate_webasseturls_response(&empty) {
        Err(ApiError::JsonParseError(_)) => (),
        other => panic!("Expected JsonParseError, got {:?}", other),
    }
    match process_webasseturls_response(&empty) {
        Err(ApiError::MissingFieldError(f)) => assert_eq!(f, "items"),
        other => panic!("Expected MissingFieldError, got {:?}", other),
    }

    // Items of the wrong type is just as fatal for processing.
    let bad = obj(vec![(s("items"), jstr("nope"))]);
    match process_webasseturls_response(&bad) {
        Err(ApiError::JsonParseError(m)) => assert_eq!(m, "'items' field is not an object"),
        other => panic!("Expected JsonParseError, got {:?}", other),
    }

    // Per-item trouble is skipped, not fatal.
    let partial = obj(vec![(
        s("items"),
        obj(vec![
            (
                s("good"),
                obj(vec![
                    (s("url_location"), jstr("host")),
                    (s("url_path"), jstr("/p")),
                ]),
            ),
            (s("empty_loc"), obj(vec![
                (s("url_location"), jstr("")),
                (s("url_path"), jstr("/p")),
            ])),
            (s("no_path"), obj(vec![(s("url_location"), jstr("host"))])),
        ]),
    )]);
    assert!(validate_webasseturls_response(&partial).is_err() == false);
    let urls = process_webasseturls_response(&partial).unwrap();
    assert_eq!(urls.len(), 1);
    assert_eq!(url_of(&urls, "good").unwrap(), "https://host/p");
}

#[test]
fn test_partial_failure_degraded() {
    // A 400 on the asset-URL endpoint is the batch-rejection signal: the
    // fetch proceeds with an empty URL mapping instead of failing.
    assert_eq!(classify_asset_status(400), AssetStatusOutcome::DegradedEmpty);
    assert_eq!(classify_asset_status(200), AssetStatusOutcome::Success);
    assert_eq!(classify_asset_status(500), AssetStatusOutcome::Failure);

    let data = create_sample_api_response();
    let (mut photos, metadata) = parse_api_response(&data).unwrap();
    let empty_urls: Vec<(String, String)> = Vec::new();
    icloud_album_rs::enrich::enrich_photos_with_urls(&mut photos, &empty_urls);

    // Metadata and photos survive; no derivative gained a URL.
    assert_eq!(metadata.stream_name, "Test Album");
    assert_eq!(photos.len(), 2);
    for photo in &photos {
        for (_, d) in &photo.derivatives {
            assert_eq!(d.url, None);
        }
    }
}

#[test]
fn test_error_messages() {
    assert_eq!(
        ApiError::NetworkError(s("timed out")).message(),
        "Network error: timed out"
    );
    assert_eq!(
        ApiError::JsonParseError(s("bad body")).message(),
        "JSON parse error: bad body"
    );
    assert_eq!(
        ApiError::MissingFieldError(s("items")).message(),
        "Missing field in response: items"
    );
    assert_eq!(
        ApiError::RequestError {
            status: Some(404),
            message: s("gone")
        }
        .message(),
        "Request error (status 404): gone"
    );
    assert_eq!(
        ApiError::RequestError {
            status: None,
            message: s("gone")
        }
        .message(),
        "Request error: gone"
    );
    assert_eq!(
        ApiError::RetryError(s("spent")).message(),
        "Retry error: spent"
    );
    assert_eq!(ApiError::Other(s("odd")).message(), "Error: odd");
}

#[test]
fn test_missing_stream_name_is_fatal() {
    let data = obj(vec![(s("streamCtag"), jstr("c"))]);
    match parse_api_response(&data) {
        Err(ApiError::MissingFieldError(f)) => assert_eq!(f, "streamName"),
        other => panic!("Expected MissingFieldError, got {:?}", other),
    }
}

#[test]
fn test_malformed_photo_is_skipped() {
    // The second photo lacks a photoGuid, so only the first survives; the
    // response as a whole still parses.
    let data = obj(vec![
        (s("streamName"), jstr("Album")),
        (
            s("photos"),
            JsonValue::Array(vec![
                obj(vec![
                    (s("photoGuid"), jstr("ok")),
                    (s("derivatives"), obj(vec![])),
                ]),
                obj(vec![(s("derivatives"), obj(vec![]))]),
            ]),
        ),
    ]);
    let (photos, metadata) = parse_api_response(&data).unwrap();
    assert_eq!(metadata.stream_name, "Album");
    assert_eq!(metadata.user_first_name, "");
    assert_eq!(metadata.items_returned, 0);
    assert_eq!(photos.len(), 1);
    assert_eq!(photos[0].photo_guid, "ok");
}
