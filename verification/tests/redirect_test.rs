use icloud_album_rs::json::JsonValue;
use icloud_album_rs::redirect::redirect_target;

fn s(x: &str) -> String {
    x.to_string()
}

#[test]
fn run_redirect_tests() {
    println!("Redirect decisions are exercised by the tests in this file.");
}

#[test]
fn test_no_redirect() {
    // An ordinary 200 answer leaves the base URL untouched.
    let body = JsonValue::Object(vec![(s("data"), JsonValue::Str(s("no redirect")))]);
    let base = "https://p11-sharedstreams.icloud.com/test_token/sharedstreams/";
    let result = redirect_target(200, &body, base, "test_token");
    assert_eq!(result, base);
}

#[test]
fn test_with_redirect() {
    // The relocation status with a host field rewrites the base URL.
    let body = JsonValue::Object(vec![(
        s("X-Apple-MMe-Host"),
        JsonValue::Str(s("p42-sharedstreams.icloud.com")),
    )]);
    let base = "https://p11-sharedstreams.icloud.com/test_token/sharedstreams/";
    let result = redirect_target(330, &body, base, "test_token");
    assert_eq!(
        result,
        "https://p42-sharedstreams.icloud.com/test_token/sharedstreams/"
    );
}

#[test]
fn test_missing_host() {
    // The relocation status without a usable host keeps the base URL.
    let body = JsonValue::Object(vec![(
        s("message"),
        JsonValue::Str(s("Redirect without host information")),
    )]);
    let base = "https://p11-sharedstreams.icloud.com/test_token/sharedstreams/";
    let result = redirect_target(330, &body, base, "test_token");
    assert_eq!(result, base);
}

#[test]
fn test_redirect_host_wrong_type() {
    // A host field that is not a string is no usable redirect either.
    let body = JsonValue::Object(vec![(s("X-Apple-MMe-Host"), JsonValue::UInt(42))]);
    let base = "https://p11-sharedstreams.icloud.com/test_token/sharedstreams/";
    let result = redirect_target(330, &body, base, "test_token");
    assert_eq!(result, base);
}
