use icloud_album_rs::api::{parse_api_response, parse_derivative, parse_image};
use icloud_album_rs::json::JsonValue;
use icloud_album_rs::models::{Derivative, DeserializeContext, ICloudResponse, Image, Metadata};

fn s(x: &str) -> String {
    x.to_string()
}

fn jstr(x: &str) -> JsonValue {
    JsonValue::Str(s(x))
}

fn jnum(n: u64) -> JsonValue {
    JsonValue::UInt(n)
}

fn obj(entries: Vec<(String, JsonValue)>) -> JsonValue {
    JsonValue::Object(entries)
}

fn deriv<'a>(img: &'a Image, key: &str) -> Option<&'a Derivative> {
    img.derivatives
        .iter()
        .find(|(k, _)| k == key)
        .map(|(_, d)| d)
}

#[test]
fn test_derivative_deserialization() {
    let data = obj(vec![
        (s("checksum"), jstr("abc123")),
        (s("fileSize"), jnum(12345)),
        (s("width"), jnum(800)),
        (s("height"), jnum(600)),
        (s("url"), jstr("https://example.com/image.jpg")),
    ]);

    let derivative = parse_derivative(&data).unwrap();

    assert_eq!(derivative.checksum, "abc123");
    assert_eq!(derivative.file_size, Some(12345));
    assert_eq!(derivative.width, Some(800));
    assert_eq!(derivative.height, Some(600));
    assert_eq!(
        derivative.url,
        Some("https://example.com/image.jpg".to_string())
    );
}

#[test]
fn test_image_deserialization() {
    let data = obj(vec![
        (s("photoGuid"), jstr("photo123")),
        (
            s("derivatives"),
            obj(vec![
                (
                    s("1"),
                    obj(vec![
                        (s("checksum"), jstr("abc123")),
                        (s("fileSize"), jnum(12345)),
                        (s("width"), jnum(800)),
                        (s("height"), jnum(600)),
                    ]),
                ),
                (
                    s("2"),
                    obj(vec![
                        (s("checksum"), jstr("def456")),
                        (s("fileSize"), jnum(54321)),
                        (s("width"), jnum(1600)),
                        (s("height"), jnum(1200)),
                    ]),
                ),
            ]),
        ),
        (s("caption"), jstr("Test image")),
        (s("dateCreated"), jstr("2023-01-01")),
        (s("batchDateCreated"), jstr("2023-01-01")),
        (s("width"), jnum(1600)),
        (s("height"), jnum(1200)),
    ]);

    let image = parse_image(&data).unwrap();

    assert_eq!(image.photo_guid, "photo123");
    assert_eq!(image.derivatives.len(), 2);
    assert_eq!(deriv(&image, "1").unwrap().checksum, "abc123");
    assert_eq!(deriv(&image, "2").unwrap().checksum, "def456");
    assert_eq!(image.caption, Some("Test image".to_string()));
    assert_eq!(image.date_created, Some("2023-01-01".to_string()));
    assert_eq!(image.width, Some(1600));
    assert_eq!(image.height, Some(1200));
}

#[test]
fn test_metadata_deserialization() {
    let data = obj(vec![
        (s("streamName"), jstr("My Album")),
        (s("userFirstName"), jstr("John")),
        (s("userLastName"), jstr("Doe")),
        (s("streamCtag"), jstr("ctag123")),
        (s("itemsReturned"), jnum(10)),
        (s("locations"), obj(vec![])),
    ]);

    let (_, metadata) = parse_api_response(&data).unwrap();

    assert_eq!(metadata.stream_name, "My Album");
    assert_eq!(metadata.user_first_name, "John");
    assert_eq!(metadata.user_last_name, "Doe");
    assert_eq!(metadata.stream_ctag, "ctag123");
    assert_eq!(metadata.items_returned, 10);
}

#[test]
fn test_api_response_deserialization() {
    // The item count arrives as a string here; the decoder coerces it.
    let data = obj(vec![
        (
            s("photos"),
            JsonValue::Array(vec![obj(vec![
                (s("photoGuid"), jstr("photo123")),
                (
                    s("derivatives"),
                    obj(vec![(
                        s("1"),
                        obj(vec![
                            (s("checksum"), jstr("abc123")),
                            (s("fileSize"), jnum(12345)),
                            (s("width"), jnum(800)),
                            (s("height"), jnum(600)),
                        ]),
                    )]),
                ),
                (s("caption"), jstr("Test image")),
                (s("dateCreated"), jstr("2023-01-01")),
                (s("width"), jnum(1600)),
                (s("height"), jnum(1200)),
            ])]),
        ),
        (s("streamName"), jstr("My Album")),
        (s("userFirstName"), jstr("John")),
        (s("userLastName"), jstr("Doe")),
        (s("streamCtag"), jstr("ctag123")),
        (s("itemsReturned"), jstr("10")),
        (s("locations"), obj(vec![])),
    ]);

    let (photos, metadata) = parse_api_response(&data).unwrap();

    assert_eq!(photos.len(), 1);
    assert_eq!(photos[0].photo_guid, "photo123");
    assert_eq!(metadata.stream_name, "My Album");
    assert_eq!(metadata.user_first_name, "John");
    assert_eq!(metadata.user_last_name, "Doe");
    assert_eq!(metadata.stream_ctag, "ctag123");
    assert_eq!(metadata.items_returned, 10);
}

#[test]
fn test_icloud_response_construction() {
    let metadata = Metadata {
        stream_name: "My Album".to_string(),
        user_first_name: "John".to_string(),
        user_last_name: "Doe".to_string(),
        stream_ctag: "ctag123".to_string(),
        items_returned: 1,
        locations: JsonValue::Object(vec![]),
    };

    let derivatives = vec![(
        "1".to_string(),
        Derivative {
            checksum: "abc123".to_string(),
            file_size: Some(12345),
            width: Some(800),
            height: Some(600),
            url: Some("https://example.com/image.jpg".to_string()),
        },
    )];

    let image = Image {
        photo_guid: "photo123".to_string(),
        derivatives,
        caption: Some("Test image".to_string()),
        date_created: Some("2023-01-01".to_string()),
        batch_date_created: Some("2023-01-01".to_string()),
        width: Some(1600),
        height: Some(1200),
    };

    let icloud_response = ICloudResponse {
        metadata,
        photos: vec![image],
    };

    assert_eq!(icloud_response.metadata.stream_name, "My Album");
    assert_eq!(icloud_response.photos.len(), 1);
    assert_eq!(icloud_response.photos[0].photo_guid, "photo123");
}

#[test]
fn test_deserialize_context_path() {
    let empty = DeserializeContext::new();
    assert_eq!(empty.path_string(), "unknown field");

    let mut ctx = DeserializeContext::with_context("photos");
    ctx.push("derivatives");
    let extended = ctx.extend("width");
    assert_eq!(extended.path_string(), "photos > derivatives > width");
    assert_eq!(ctx.path_string(), "photos > derivatives");

    let last = ctx.pop();
    assert_eq!(last, Some("derivatives".to_string()));
    assert_eq!(ctx.path_string(), "photos");
}
