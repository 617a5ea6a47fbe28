use icloud_album_rs::api::{collect_photo_guids, parse_api_response, process_webasseturls_response};
use icloud_album_rs::base_url::get_base_url;
use icloud_album_rs::enrich::enrich_photos_with_urls;
use icloud_album_rs::json::JsonValue;
use icloud_album_rs::models::{Derivative, ICloudResponse, Image};
use icloud_album_rs::redirect::redirect_target;

fn s(x: &str) -> String {
    x.to_string()
}

fn jstr(x: &str) -> JsonValue {
    JsonValue::Str(s(x))
}

fn jnum(n: u64) -> JsonValue {
    JsonValue::UInt(n)
}

fn obj(entries: Vec<(String, JsonValue)>) -> JsonValue {
    JsonValue::Object(entries)
}

fn create_webstream_response() -> JsonValue {
    obj(vec![
        (s("streamName"), jstr("Test Album")),
        (s("userFirstName"), jstr("John")),
        (s("userLastName"), jstr("Doe")),
        (s("streamCtag"), jstr("12345")),
        (s("itemsReturned"), jnum(2)),
        (s("locations"), obj(vec![])),
        (
            s("photos"),
            JsonValue::Array(vec![obj(vec![
                (s("photoGuid"), jstr("photo123")),
                (
                    s("derivatives"),
                    obj(vec![(
                        s("1"),
                        obj(vec![
                            (s("checksum"), jstr("checksum1")),
                            (s("fileSize"), jnum(12345)),
                            (s("width"), jnum(800)),
                            (s("height"), jnum(600)),
                        ]),
                    )]),
                ),
                (s("caption"), jstr("Test image 1")),
                (s("dateCreated"), jstr("2023-01-01")),
                (s("batchDateCreated"), jstr("2023-01-01")),
                (s("width"), jnum(800)),
                (s("height"), jnum(600)),
            ])]),
        ),
    ])
}

fn create_webasseturls_response() -> JsonValue {
    obj(vec![(
        s("items"),
        obj(vec![(
            s("checksum1"),
            obj(vec![
                (s("url_location"), jstr("example1.icloud.com")),
                (s("url_path"), jstr("/path/to/image1.jpg")),
            ]),
        )]),
    )])
}

fn deriv<'a>(img: &'a Image, key: &str) -> Option<&'a Derivative> {
    img.derivatives
        .iter()
        .find(|(k, _)| k == key)
        .map(|(_, d)| d)
}

#[test]
fn run_integration_tests() {
    println!("The fetch pipeline's decisions are exercised by the tests in this file.");
}

#[test]
fn test_icloud_photos() {
    let token = "test_token";

    // Resolve the partition URL from the token.
    let base_url = get_base_url(token).unwrap();

    // The probe answers with the relocation status and a replacement host.
    let redirect_response = obj(vec![(
        s("X-Apple-MMe-Host"),
        jstr("p42-sharedstreams.icloud.com"),
    )]);
    let redirected_url = redirect_target(330, &redirect_response, &base_url, token);
    assert_eq!(
        redirected_url,
        format!("https://{}/{}/sharedstreams/", "p42-sharedstreams.icloud.com", token)
    );

    // Decode the album response.
    let webstream_response = create_webstream_response();
    let (mut photos, metadata) = parse_api_response(&webstream_response).unwrap();

    // Collect the identifiers for the asset-URL request.
    let photo_guids = collect_photo_guids(&photos);
    assert_eq!(photo_guids, vec!["photo123".to_string()]);

    // Decode the asset-URL response and enrich.
    let webasseturls_response = create_webasseturls_response();
    let all_urls = process_webasseturls_response(&webasseturls_response).unwrap();
    enrich_photos_with_urls(&mut photos, &all_urls);

    let response = ICloudResponse { metadata, photos };

    assert_eq!(response.metadata.stream_name, "Test Album");
    assert_eq!(response.metadata.user_first_name, "John");
    assert_eq!(response.metadata.user_last_name, "Doe");

    assert_eq!(response.photos.len(), 1);
    assert_eq!(response.photos[0].photo_guid, "photo123");
    assert_eq!(
        deriv(&response.photos[0], "1").unwrap().url,
        Some("https://example1.icloud.com/path/to/image1.jpg".to_string())
    );
}
