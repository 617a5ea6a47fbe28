//! The service's nonstandard relocation signal.
//!
//! A probe request may come back with the custom status 330 and a body that
//! names a replacement host. Only that combination moves the base URL;
//! every other status, and a 330 without a usable host, keeps it unchanged.

use vstd::prelude::*;
use vstd::string::StringExecFns;
use crate::json::spec_json_get;
use crate::json::JsonModel;
use crate::json::JsonValue;

verus! {

/// The base URL after the probe: rewritten to the named host exactly when
/// the status is the relocation code and the body names a host; otherwise
/// the original URL.
pub open spec fn spec_redirect_target(
    status: u16,
    body: JsonModel,
    base_url: Seq<char>,
    token: Seq<char>,
) -> Seq<char> {
    if status == 330 {
        match spec_json_get(body, "X-Apple-MMe-Host"@) {
            Some(JsonModel::Str(host)) => "https://"@ + host + "/"@ + token + "/sharedstreams/"@,
            _ => base_url,
        }
    } else {
        base_url
    }
}

/// Decides what the probe's answer does to the base URL.
///
/// Status 330 with a string host field rewrites the URL to
/// `https://{host}/{token}/sharedstreams/`; any other status, and a 330
/// without a usable host field, keeps the original URL.
pub fn redirect_target(status: u16, body: &JsonValue, base_url: &str, token: &str) -> (r: String)
    ensures
        r@ == spec_redirect_target(status, body@, base_url@, token@),
{
    if status == 330 {
        match body.get("X-Apple-MMe-Host") {
            Some(host_val) => match host_val.as_str() {
                Some(host) => {
                    let mut url = String::from_str("https://");
                    url.append(host.as_str());
                    url.append("/");
                    url.append(token);
                    url.append("/sharedstreams/");
                    url
                },
                None => String::from_str(base_url),
            },
            None => String::from_str(base_url),
        }
    } else {
        String::from_str(base_url)
    }
}

} // verus!
