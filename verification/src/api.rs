//! Decoding and validation of the two endpoint responses.
//!
//! The album endpoint answers with metadata and a photo list; the asset-URL
//! endpoint answers with a mapping from photo identifiers to URL parts. Both
//! are decoded tolerantly: per-field severities decide whether a missing or
//! mistyped field is a hard error or is replaced by a default, and a
//! malformed photo entry is skipped without aborting the batch.

use vstd::prelude::*;
use vstd::string::StringExecFns;
use crate::models::derivs_model;
use crate::models::opt_str_model;
use crate::models::Derivative;
use crate::models::DerivativeModel;
use crate::models::Image;
use crate::models::ImageModel;
use crate::models::Metadata;
use crate::models::MetadataModel;
use crate::json::arr_model;
use crate::json::spec_as_str;
use crate::json::spec_json_get;
use crate::json::spec_lenient_u32;
use crate::json::spec_lenient_u64;
use crate::json::JsonModel;
use crate::json::JsonValue;
use crate::json::lenient_u32;
use crate::json::lenient_u64;
use crate::strutil::spec_u64_string;
use crate::strutil::str_eq;
use crate::strutil::u64_to_string;

verus! {

/// Errors from the fetch pipeline.
#[derive(Debug)]
pub enum ApiError {
    /// A transport failure, described by the transport's message.
    NetworkError(String),
    /// The response body could not be read as the expected JSON shape.
    JsonParseError(String),
    /// A required field was missing from the response.
    MissingFieldError(String),
    /// A request failed with a status code.
    RequestError { status: Option<u16>, message: String },
    /// All retry attempts were used up.
    RetryError(String),
    /// Any other failure.
    Other(String),
}

/// The mathematical shape of an `ApiError`.
#[verifier::ext_equal]
pub enum ApiErrorModel {
    NetworkError(Seq<char>),
    JsonParseError(Seq<char>),
    MissingFieldError(Seq<char>),
    RequestError { status: Option<u16>, message: Seq<char> },
    RetryError(Seq<char>),
    Other(Seq<char>),
}

impl View for ApiError {
    type V = ApiErrorModel;

    open spec fn view(&self) -> ApiErrorModel {
        match *self {
            ApiError::NetworkError(m) => ApiErrorModel::NetworkError(m@),
            ApiError::JsonParseError(m) => ApiErrorModel::JsonParseError(m@),
            ApiError::MissingFieldError(m) => ApiErrorModel::MissingFieldError(m@),
            ApiError::RequestError { status, message } => ApiErrorModel::RequestError {
                status,
                message: message@,
            },
            ApiError::RetryError(m) => ApiErrorModel::RetryError(m@),
            ApiError::Other(m) => ApiErrorModel::Other(m@),
        }
    }
}

/// The user-readable text of an error: its kind, the status code when one is
/// known, and the underlying message.
pub open spec fn spec_error_message(e: ApiErrorModel) -> Seq<char> {
    match e {
        ApiErrorModel::NetworkError(m) => "Network error: "@ + m,
        ApiErrorModel::JsonParseError(m) => "JSON parse error: "@ + m,
        ApiErrorModel::MissingFieldError(f) => "Missing field in response: "@ + f,
        ApiErrorModel::RequestError { status, message } => match status {
            Some(s) => "Request error (status "@ + spec_u64_string(s as int) + "): "@ + message,
            None => "Request error: "@ + message,
        },
        ApiErrorModel::RetryError(m) => "Retry error: "@ + m,
        ApiErrorModel::Other(m) => "Error: "@ + m,
    }
}

impl ApiError {
    /// Renders the error as user-readable text.
    pub fn message(&self) -> (r: String)
        ensures
            r@ == spec_error_message(self@),
    {
        match self {
            ApiError::NetworkError(m) => {
                let mut s = String::from_str("Network error: ");
                s.append(m.as_str());
                s
            },
            ApiError::JsonParseError(m) => {
                let mut s = String::from_str("JSON parse error: ");
                s.append(m.as_str());
                s
            },
            ApiError::MissingFieldError(f) => {
                let mut s = String::from_str("Missing field in response: ");
                s.append(f.as_str());
                s
            },
            ApiError::RequestError { status, message } => match status {
                Some(code) => {
                    let mut s = String::from_str("Request error (status ");
                    let num = u64_to_string(*code as u64);
                    s.append(num.as_str());
                    s.append("): ");
                    s.append(message.as_str());
                    s
                },
                None => {
                    let mut s = String::from_str("Request error: ");
                    s.append(message.as_str());
                    s
                },
            },
            ApiError::RetryError(m) => {
                let mut s = String::from_str("Retry error: ");
                s.append(m.as_str());
                s
            },
            ApiError::Other(m) => {
                let mut s = String::from_str("Error: ");
                s.append(m.as_str());
                s
            },
        }
    }
}

/// How strictly a missing or mistyped field is treated.
#[derive(Debug, Clone, Copy, PartialEq, Eq, Structural)]
pub enum FieldSeverity {
    /// The field must be present and well typed.
    Required,
    /// The field may be absent or mistyped; a default takes its place.
    Optional,
    /// As `Optional`, for fields whose absence is expected in normal
    /// operation.
    Lenient,
}

/// Why a field failed validation.
#[derive(Debug, Clone, PartialEq, Eq)]
pub enum ValidationFailure {
    /// The field is missing.
    Missing,
    /// The field has the wrong type.
    WrongType,
    /// The field's value is invalid, with the reason.
    InvalidValue(String),
}

/// The mathematical shape of a `ValidationFailure`.
#[verifier::ext_equal]
pub enum ValidationFailureModel {
    Missing,
    WrongType,
    InvalidValue(Seq<char>),
}

impl View for ValidationFailure {
    type V = ValidationFailureModel;

    open spec fn view(&self) -> ValidationFailureModel {
        match *self {
            ValidationFailure::Missing => ValidationFailureModel::Missing,
            ValidationFailure::WrongType => ValidationFailureModel::WrongType,
            ValidationFailure::InvalidValue(m) => ValidationFailureModel::InvalidValue(m@),
        }
    }
}

/// What string extraction yields for a field: the string when present and
/// well typed; otherwise the default under `Optional` or `Lenient`, and a
/// missing-field error under `Required`.
pub open spec fn spec_string_field(
    m: JsonModel,
    field: Seq<char>,
    default: Seq<char>,
    severity: FieldSeverity,
) -> Result<Seq<char>, ApiErrorModel> {
    match spec_json_get(m, field) {
        Some(v) => match spec_as_str(v) {
            Some(s) => Ok(s),
            None => match severity {
                FieldSeverity::Required => Err(
                    ApiErrorModel::MissingFieldError(
                        field + " (required field with wrong type)"@,
                    ),
                ),
                _ => Ok(default),
            },
        },
        None => match severity {
            FieldSeverity::Required => Err(ApiErrorModel::MissingFieldError(field)),
            _ => Ok(default),
        },
    }
}

/// What numeric extraction yields for a field: a nonnegative integer in
/// range, or a decimal string, is the value; anything else is the default
/// under `Optional` or `Lenient` and a typed error under `Required`.
pub open spec fn spec_u32_field(
    m: JsonModel,
    field: Seq<char>,
    default: u32,
    severity: FieldSeverity,
) -> Result<u32, ApiErrorModel> {
    match spec_json_get(m, field) {
        Some(v) => match v {
            JsonModel::UInt(n) => if n <= u32::MAX {
                Ok(n as u32)
            } else {
                match severity {
                    FieldSeverity::Required => Err(
                        ApiErrorModel::JsonParseError(
                            "Field '"@ + field + "' is too large for u32"@,
                        ),
                    ),
                    _ => Ok(default),
                }
            },
            JsonModel::Str(s) => match crate::strutil::spec_parse_u32(s) {
                Some(n) => Ok(n),
                None => match severity {
                    FieldSeverity::Required => Err(
                        ApiErrorModel::JsonParseError(
                            "Failed to parse '"@ + field + "' as u32"@,
                        ),
                    ),
                    _ => Ok(default),
                },
            },
            _ => match severity {
                FieldSeverity::Required => Err(
                    ApiErrorModel::MissingFieldError(
                        field + " (required field with wrong type)"@,
                    ),
                ),
                _ => Ok(default),
            },
        },
        None => match severity {
            FieldSeverity::Required => Err(ApiErrorModel::MissingFieldError(field)),
            _ => Ok(default),
        },
    }
}

/// Extracts a string field under the given severity policy.
pub fn get_string_field(
    data: &JsonValue,
    field_name: &str,
    default: &str,
    severity: FieldSeverity,
) -> (r: Result<String, ApiError>)
    ensures
        match r {
            Ok(s) => spec_string_field(data@, field_name@, default@, severity) == Ok::<
                Seq<char>,
                ApiErrorModel,
            >(s@),
            Err(e) => spec_string_field(data@, field_name@, default@, severity) == Err::<
                Seq<char>,
                ApiErrorModel,
            >(e@),
        },
{
    match data.get(field_name) {
        Some(value) => match value.as_str() {
            Some(s) => Ok(s.clone()),
            None => match severity {
                FieldSeverity::Required => {
                    let mut msg = String::from_str(field_name);
                    msg.append(" (required field with wrong type)");
                    Err(ApiError::MissingFieldError(msg))
                },
                _ => Ok(String::from_str(default)),
            },
        },
        None => match severity {
            FieldSeverity::Required => Err(
                ApiError::MissingFieldError(String::from_str(field_name)),
            ),
            _ => Ok(String::from_str(default)),
        },
    }
}

/// Extracts a numeric field under the given severity policy, tolerating
/// either a native number or a numeric string.
pub fn get_u32_field(
    data: &JsonValue,
    field_name: &str,
    default: u32,
    severity: FieldSeverity,
) -> (r: Result<u32, ApiError>)
    ensures
        match r {
            Ok(n) => spec_u32_field(data@, field_name@, default, severity) == Ok::<
                u32,
                ApiErrorModel,
            >(n),
            Err(e) => spec_u32_field(data@, field_name@, default, severity) == Err::<
                u32,
                ApiErrorModel,
            >(e@),
        },
{
    match data.get(field_name) {
        Some(value) => match value {
            JsonValue::UInt(n) => {
                if *n <= u32::MAX as u64 {
                    Ok(*n as u32)
                } else {
                    match severity {
                        FieldSeverity::Required => {
                            let mut msg = String::from_str("Field '");
                            msg.append(field_name);
                            msg.append("' is too large for u32");
                            Err(ApiError::JsonParseError(msg))
                        },
                        _ => Ok(default),
                    }
                }
            },
            JsonValue::Str(s) => match crate::strutil::parse_u32(s.as_str()) {
                Some(n) => Ok(n),
                None => match severity {
                    FieldSeverity::Required => {
                        let mut msg = String::from_str("Failed to parse '");
                        msg.append(field_name);
                        msg.append("' as u32");
                        Err(ApiError::JsonParseError(msg))
                    },
                    _ => Ok(default),
                },
            },
            _ => match severity {
                FieldSeverity::Required => {
                    let mut msg = String::from_str(field_name);
                    msg.append(" (required field with wrong type)");
                    Err(ApiError::MissingFieldError(msg))
                },
                _ => Ok(default),
            },
        },
        None => match severity {
            FieldSeverity::Required => Err(
                ApiError::MissingFieldError(String::from_str(field_name)),
            ),
            _ => Ok(default),
        },
    }
}

/// The view of an issue list.
pub open spec fn issues_model(v: Seq<(String, ValidationFailure)>) -> Seq<
    (Seq<char>, ValidationFailureModel),
> {
    Seq::new(v.len(), |i: int| (v[i].0@, v[i].1@))
}

/// The field path under which a photo's issues are reported.
pub open spec fn spec_photo_prefix(i: int) -> Seq<char> {
    "photos["@ + spec_u64_string(i) + "]"@
}

/// The issues of one photo entry: a missing identifier, a missing derivative
/// mapping, or one of the wrong type.
pub open spec fn spec_photo_issues(p: JsonModel, i: int) -> Seq<
    (Seq<char>, ValidationFailureModel),
> {
    let prefix = spec_photo_prefix(i);
    (if spec_json_get(p, "photoGuid"@) is None {
        seq![(prefix + ".photoGuid"@, ValidationFailureModel::Missing)]
    } else {
        Seq::empty()
    }) + (if spec_json_get(p, "derivatives"@) is None {
        seq![(prefix + ".derivatives"@, ValidationFailureModel::Missing)]
    } else {
        Seq::empty()
    }) + (match spec_json_get(p, "derivatives"@) {
        Some(d) => if !(d is Object) {
            seq![(prefix + ".derivatives"@, ValidationFailureModel::WrongType)]
        } else {
            Seq::empty()
        },
        None => Seq::empty(),
    })
}

/// The issues of the photo entries from index `i` on.
pub open spec fn spec_photos_issues_from(elems: Seq<JsonModel>, i: int) -> Seq<
    (Seq<char>, ValidationFailureModel),
>
    decreases elems.len() - i,
{
    if 0 <= i < elems.len() {
        spec_photo_issues(elems[i], i) + spec_photos_issues_from(elems, i + 1)
    } else {
        Seq::empty()
    }
}

/// The issues the album response deserves: the change-tag and name fields
/// must exist, the photo list must exist and be an array, and each photo is
/// checked in turn.
pub open spec fn spec_validate_webstream(m: JsonModel) -> Seq<
    (Seq<char>, ValidationFailureModel),
> {
    let head = (if spec_json_get(m, "streamName"@) is None {
        seq![("streamName"@, ValidationFailureModel::Missing)]
    } else {
        Seq::empty()
    }) + (if spec_json_get(m, "streamCtag"@) is None {
        seq![("streamCtag"@, ValidationFailureModel::Missing)]
    } else {
        Seq::empty()
    });
    match spec_json_get(m, "photos"@) {
        Some(p) => match p {
            JsonModel::Array(elems) => head + spec_photos_issues_from(elems, 0),
            _ => head + seq![("photos"@, ValidationFailureModel::WrongType)],
        },
        None => head + seq![("photos"@, ValidationFailureModel::Missing)],
    }
}

/// The issues of one asset-URL item: each must name a location and a path.
pub open spec fn spec_asset_item_issues(guid: Seq<char>, v: JsonModel) -> Seq<
    (Seq<char>, ValidationFailureModel),
> {
    let prefix = "items."@ + guid;
    (if spec_json_get(v, "url_location"@) is None {
        seq![(prefix + ".url_location"@, ValidationFailureModel::Missing)]
    } else {
        Seq::empty()
    }) + (if spec_json_get(v, "url_path"@) is None {
        seq![(prefix + ".url_path"@, ValidationFailureModel::Missing)]
    } else {
        Seq::empty()
    })
}

/// The issues of the asset-URL items from index `i` on.
pub open spec fn spec_asset_items_issues_from(
    entries: Seq<(Seq<char>, JsonModel)>,
    i: int,
) -> Seq<(Seq<char>, ValidationFailureModel)>
    decreases entries.len() - i,
{
    if 0 <= i < entries.len() {
        spec_asset_item_issues(entries[i].0, entries[i].1) + spec_asset_items_issues_from(
            entries,
            i + 1,
        )
    } else {
        Seq::empty()
    }
}

/// The issues the asset-URL response deserves: the items mapping must exist
/// and be an object, and each item is checked in turn.
pub open spec fn spec_validate_webasseturls(m: JsonModel) -> Seq<
    (Seq<char>, ValidationFailureModel),
> {
    match spec_json_get(m, "items"@) {
        Some(items) => match items {
            JsonModel::Object(entries) => spec_asset_items_issues_from(entries, 0),
            _ => seq![("items"@, ValidationFailureModel::WrongType)],
        },
        None => seq![("items"@, ValidationFailureModel::Missing)],
    }
}

/// The issues a response deserves under the named schema; an unknown schema
/// name checks nothing.
pub open spec fn spec_validate_schema(m: JsonModel, schema: Seq<char>) -> Seq<
    (Seq<char>, ValidationFailureModel),
> {
    if schema == "webstream"@ {
        spec_validate_webstream(m)
    } else if schema == "webasseturls"@ {
        spec_validate_webasseturls(m)
    } else {
        Seq::empty()
    }
}

/// Validates a response against the named endpoint schema, reporting every
/// missing or mistyped field rather than stopping at the first.
pub fn validate_api_schema(data: &JsonValue, schema_name: &str) -> (issues: Vec<
    (String, ValidationFailure),
>)
    ensures
        issues_model(issues@) == spec_validate_schema(data@, schema_name@),
{
    let mut issues: Vec<(String, ValidationFailure)> = Vec::new();
    if str_eq(schema_name, "webstream") {
        if data.get("streamName").is_none() {
            issues.push((String::from_str("streamName"), ValidationFailure::Missing));
        }
        if data.get("streamCtag").is_none() {
            issues.push((String::from_str("streamCtag"), ValidationFailure::Missing));
        }
        let ghost head = issues_model(issues@);
        match data.get("photos") {
            Some(photos) => {
                match photos.as_array() {
                    Some(elems) => {
                        let ghost ments = arr_model(elems@);
                        proof {
                            assert(head + spec_photos_issues_from(ments, 0) =~= spec_validate_schema(
                                data@,
                                schema_name@,
                            ));
                        }
                        let mut i: usize = 0;
                        while i < elems.len()
                            invariant
                                0 <= i <= ments.len(),
                                ments == arr_model(elems@),
                                ments.len() == elems@.len(),
                                issues_model(issues@) + spec_photos_issues_from(ments, i as int)
                                    =~= spec_validate_schema(data@, schema_name@),
                            decreases ments.len() - i,
                        {
                            let ghost pre = issues_model(issues@);
                            let mut prefix = String::from_str("photos[");
                            let num = u64_to_string(i as u64);
                            prefix.append(num.as_str());
                            prefix.append("]");
                            assert(prefix@ == spec_photo_prefix(i as int));
                            let photo = &elems[i];
                            assert(photo@ == ments[i as int]);
                            if photo.get("photoGuid").is_none() {
                                let mut path = prefix.clone();
                                path.append(".photoGuid");
                                issues.push((path, ValidationFailure::Missing));
                            }
                            if photo.get("derivatives").is_none() {
                                let mut path = prefix.clone();
                                path.append(".derivatives");
                                issues.push((path, ValidationFailure::Missing));
                            }
                            match photo.get("derivatives") {
                                Some(derivatives) => {
                                    if !derivatives.is_object() {
                                        let mut path = prefix.clone();
                                        path.append(".derivatives");
                                        issues.push((path, ValidationFailure::WrongType));
                                    }
                                },
                                None => {},
                            }
                            proof {
                                assert(issues_model(issues@) =~= pre + spec_photo_issues(
                                    ments[i as int],
                                    i as int,
                                ));
                            }
                            i += 1;
                        }
                    },
                    None => {
                        issues.push((String::from_str("photos"), ValidationFailure::WrongType));
                        proof {
                            assert(issues_model(issues@) =~= spec_validate_schema(
                                data@,
                                schema_name@,
                            ));
                        }
                    },
                }
            },
            None => {
                issues.push((String::from_str("photos"), ValidationFailure::Missing));
                proof {
                    assert(issues_model(issues@) =~= spec_validate_schema(data@, schema_name@));
                }
            },
        }
    } else if str_eq(schema_name, "webasseturls") {
        match data.get("items") {
            Some(items) => {
                match items.as_object() {
                    Some(entries) => {
                        let ghost ments = crate::json::obj_model(entries@);
                        let mut i: usize = 0;
                        while i < entries.len()
                            invariant
                                0 <= i <= ments.len(),
                                ments.len() == entries@.len(),
                                ments == crate::json::obj_model(entries@),
                                issues_model(issues@) + spec_asset_items_issues_from(
                                    ments,
                                    i as int,
                                ) =~= spec_validate_schema(data@, schema_name@),
                            decreases ments.len() - i,
                        {
                            let ghost pre = issues_model(issues@);
                            let mut prefix = String::from_str("items.");
                            prefix.append(entries[i].0.as_str());
                            let item = &entries[i].1;
                            assert(item@ == ments[i as int].1);
                            if item.get("url_location").is_none() {
                                let mut path = prefix.clone();
                                path.append(".url_location");
                                issues.push((path, ValidationFailure::Missing));
                            }
                            if item.get("url_path").is_none() {
                                let mut path = prefix.clone();
                                path.append(".url_path");
                                issues.push((path, ValidationFailure::Missing));
                            }
                            proof {
                                assert(issues_model(issues@) =~= pre + spec_asset_item_issues(
                                    ments[i as int].0,
                                    ments[i as int].1,
                                ));
                            }
                            i += 1;
                        }
                    },
                    None => {
                        issues.push((String::from_str("items"), ValidationFailure::WrongType));
                        proof {
                            assert(issues_model(issues@) =~= spec_validate_schema(
                                data@,
                                schema_name@,
                            ));
                        }
                    },
                }
            },
            None => {
                issues.push((String::from_str("items"), ValidationFailure::Missing));
                proof {
                    assert(issues_model(issues@) =~= spec_validate_schema(data@, schema_name@));
                }
            },
        }
    }
    proof {
        assert(issues_model(issues@) =~= spec_validate_schema(data@, schema_name@));
    }
    issues
}

/// What decoding an optional string field yields: the string when present,
/// nothing when absent or null, and a failure on any other shape.
pub open spec fn spec_opt_string(m: JsonModel, key: Seq<char>) -> Result<Option<Seq<char>>, ()> {
    match spec_json_get(m, key) {
        None => Ok(None),
        Some(JsonModel::Null) => Ok(None),
        Some(JsonModel::Str(s)) => Ok(Some(s)),
        Some(_) => Err(()),
    }
}

/// Decodes an optional string field: absent or null is `None`, a string is
/// itself, and any other shape is an error.
pub fn opt_string_field(v: &JsonValue, key: &str) -> (r: Result<Option<String>, ()>)
    ensures
        match r {
            Ok(o) => spec_opt_string(v@, key@) == Ok::<Option<Seq<char>>, ()>(opt_str_model(o)),
            Err(_) => spec_opt_string(v@, key@) is Err,
        },
{
    match v.get(key) {
        None => Ok(None),
        Some(f) => {
            if f.is_null() {
                Ok(None)
            } else {
                match f.as_str() {
                    Some(s) => Ok(Some(s.clone())),
                    None => Err(()),
                }
            }
        },
    }
}

/// What decoding one derivative yields: it must be an object with a string
/// checksum and, if a URL is already present, a string or null one; sizes and
/// dimensions are decoded leniently.
pub open spec fn spec_parse_derivative(m: JsonModel) -> Option<DerivativeModel> {
    match spec_json_get(m, "checksum"@) {
        Some(JsonModel::Str(checksum)) => match spec_opt_string(m, "url"@) {
            Ok(url) => Some(
                DerivativeModel {
                    checksum,
                    file_size: match spec_json_get(m, "fileSize"@) {
                        Some(v) => spec_lenient_u64(v),
                        None => None,
                    },
                    width: match spec_json_get(m, "width"@) {
                        Some(v) => spec_lenient_u32(v),
                        None => None,
                    },
                    height: match spec_json_get(m, "height"@) {
                        Some(v) => spec_lenient_u32(v),
                        None => None,
                    },
                    url,
                },
            ),
            Err(_) => None,
        },
        _ => None,
    }
}

/// Decodes one derivative.
pub fn parse_derivative(v: &JsonValue) -> (r: Option<Derivative>)
    ensures
        match r {
            Some(d) => spec_parse_derivative(v@) == Some(d@),
            None => spec_parse_derivative(v@) is None,
        },
{
    let checksum = match v.get("checksum") {
        Some(c) => match c.as_str() {
            Some(s) => s.clone(),
            None => {
                return None;
            },
        },
        None => {
            return None;
        },
    };
    let url = match opt_string_field(v, "url") {
        Ok(u) => u,
        Err(_) => {
            return None;
        },
    };
    let file_size = match v.get("fileSize") {
        Some(f) => lenient_u64(f),
        None => None,
    };
    let width = match v.get("width") {
        Some(f) => lenient_u32(f),
        None => None,
    };
    let height = match v.get("height") {
        Some(f) => lenient_u32(f),
        None => None,
    };
    Some(Derivative { checksum, file_size, width, height, url })
}

/// What decoding a derivative mapping yields: every entry must decode, in
/// order, or the whole mapping fails.
pub open spec fn spec_parse_derivs(entries: Seq<(Seq<char>, JsonModel)>) -> Option<
    Seq<(Seq<char>, DerivativeModel)>,
>
    decreases entries.len(),
{
    if entries.len() == 0 {
        Some(Seq::empty())
    } else {
        match spec_parse_derivative(entries[0].1) {
            None => None,
            Some(d) => match spec_parse_derivs(entries.skip(1)) {
                None => None,
                Some(rest) => Some(seq![(entries[0].0, d)] + rest),
            },
        }
    }
}

/// Decodes a derivative mapping entry by entry.
pub fn parse_derivs(entries: &Vec<(String, JsonValue)>) -> (r: Option<Vec<(String, Derivative)>>)
    ensures
        match r {
            Some(out) => spec_parse_derivs(crate::json::obj_model(entries@)) == Some(
                derivs_model(out@),
            ),
            None => spec_parse_derivs(crate::json::obj_model(entries@)) is None,
        },
{
    let ghost ments = crate::json::obj_model(entries@);
    let mut out: Vec<(String, Derivative)> = Vec::new();
    proof {
        assert(ments.skip(0) =~= ments);
        assert(derivs_model(out@) =~= Seq::<(Seq<char>, DerivativeModel)>::empty());
    }
    let mut i: usize = 0;
    while i < entries.len()
        invariant
            0 <= i <= ments.len(),
            ments == crate::json::obj_model(entries@),
            ments.len() == entries@.len(),
            match spec_parse_derivs(ments.skip(i as int)) {
                Some(rest) => spec_parse_derivs(ments) == Some(derivs_model(out@) + rest),
                None => spec_parse_derivs(ments) is None,
            },
        decreases ments.len() - i,
    {
        proof {
            assert(ments.skip(i as int)[0] == ments[i as int]);
            assert(ments.skip(i as int).skip(1) =~= ments.skip(i + 1));
        }
        match parse_derivative(&entries[i].1) {
            Some(d) => {
                let ghost pre = derivs_model(out@);
                out.push((entries[i].0.clone(), d));
                proof {
                    assert(derivs_model(out@) =~= pre.push((ments[i as int].0, d@)));
                    if spec_parse_derivs(ments.skip(i + 1)) is Some {
                        let rest = spec_parse_derivs(ments.skip(i + 1))->Some_0;
                        assert(spec_parse_derivs(ments.skip(i as int)) == Some(
                            seq![(ments[i as int].0, d@)] + rest,
                        ));
                        assert(pre + (seq![(ments[i as int].0, d@)] + rest) =~= derivs_model(out@)
                            + rest);
                    }
                }
            },
            None => {
                return None;
            },
        }
        i += 1;
    }
    proof {
        assert(ments.skip(ments.len() as int).len() == 0);
        assert(derivs_model(out@) + Seq::<(Seq<char>, DerivativeModel)>::empty() =~= derivs_model(
            out@,
        ));
    }
    Some(out)
}

/// What decoding one photo yields: it needs a string identifier and a
/// derivative mapping whose entries all decode; captions and dates may be
/// absent or null, dimensions are decoded leniently.
pub open spec fn spec_parse_image(m: JsonModel) -> Option<ImageModel> {
    match spec_json_get(m, "photoGuid"@) {
        Some(JsonModel::Str(photo_guid)) => match spec_json_get(m, "derivatives"@) {
            Some(JsonModel::Object(dentries)) => match spec_parse_derivs(dentries) {
                Some(derivatives) => match (
                    spec_opt_string(m, "caption"@),
                    spec_opt_string(m, "dateCreated"@),
                    spec_opt_string(m, "batchDateCreated"@),
                ) {
                    (Ok(caption), Ok(date_created), Ok(batch_date_created)) => Some(
                        ImageModel {
                            photo_guid,
                            derivatives,
                            caption,
                            date_created,
                            batch_date_created,
                            width: match spec_json_get(m, "width"@) {
                                Some(v) => spec_lenient_u32(v),
                                None => None,
                            },
                            height: match spec_json_get(m, "height"@) {
                                Some(v) => spec_lenient_u32(v),
                                None => None,
                            },
                        },
                    ),
                    _ => None,
                },
                None => None,
            },
            _ => None,
        },
        _ => None,
    }
}

/// Decodes one photo entry.
pub fn parse_image(v: &JsonValue) -> (r: Option<Image>)
    ensures
        match r {
            Some(img) => spec_parse_image(v@) == Some(img@),
            None => spec_parse_image(v@) is None,
        },
{
    let photo_guid = match v.get("photoGuid") {
        Some(g) => match g.as_str() {
            Some(s) => s.clone(),
            None => {
                return None;
            },
        },
        None => {
            return None;
        },
    };
    let derivatives = match v.get("derivatives") {
        Some(d) => match d.as_object() {
            Some(dentries) => match parse_derivs(dentries) {
                Some(ds) => ds,
                None => {
                    return None;
                },
            },
            None => {
                return None;
            },
        },
        None => {
            return None;
        },
    };
    let caption = match opt_string_field(v, "caption") {
        Ok(c) => c,
        Err(_) => {
            return None;
        },
    };
    let date_created = match opt_string_field(v, "dateCreated") {
        Ok(c) => c,
        Err(_) => {
            return None;
        },
    };
    let batch_date_created = match opt_string_field(v, "batchDateCreated") {
        Ok(c) => c,
        Err(_) => {
            return None;
        },
    };
    let width = match v.get("width") {
        Some(f) => lenient_u32(f),
        None => None,
    };
    let height = match v.get("height") {
        Some(f) => lenient_u32(f),
        None => None,
    };
    let img = Image {
        photo_guid,
        derivatives,
        caption,
        date_created,
        batch_date_created,
        width,
        height,
    };
    proof {
        assert(img@ =~= spec_parse_image(v@)->Some_0);
    }
    Some(img)
}

/// What decoding the photo list yields: each entry that decodes, in order;
/// malformed entries are skipped.
pub open spec fn spec_photos_from(elems: Seq<JsonModel>) -> Seq<ImageModel>
    decreases elems.len(),
{
    if elems.len() == 0 {
        Seq::empty()
    } else {
        (match spec_parse_image(elems[0]) {
            Some(img) => seq![img],
            None => Seq::empty(),
        }) + spec_photos_from(elems.skip(1))
    }
}

/// The photos of an album response: the decodable entries of its photo list,
/// or none at all when the list is missing or not an array.
pub open spec fn spec_parse_photos(m: JsonModel) -> Seq<ImageModel> {
    match spec_json_get(m, "photos"@) {
        Some(JsonModel::Array(elems)) => spec_photos_from(elems),
        _ => Seq::empty(),
    }
}

/// What decoding the whole album response yields. The album name is the one
/// required field; owner names, change tag and item count fall back to
/// defaults, and the location blob is carried through.
pub open spec fn spec_parse_api_response(m: JsonModel) -> Result<
    (Seq<ImageModel>, MetadataModel),
    ApiErrorModel,
> {
    match spec_string_field(m, "streamName"@, "Unknown Album"@, FieldSeverity::Required) {
        Err(e) => Err(e),
        Ok(stream_name) => Ok(
            (
                spec_parse_photos(m),
                MetadataModel {
                    stream_name,
                    user_first_name: spec_string_field(
                        m,
                        "userFirstName"@,
                        ""@,
                        FieldSeverity::Optional,
                    )->Ok_0,
                    user_last_name: spec_string_field(
                        m,
                        "userLastName"@,
                        ""@,
                        FieldSeverity::Optional,
                    )->Ok_0,
                    stream_ctag: spec_string_field(
                        m,
                        "streamCtag"@,
                        ""@,
                        FieldSeverity::Optional,
                    )->Ok_0,
                    items_returned: spec_u32_field(
                        m,
                        "itemsReturned"@,
                        0,
                        FieldSeverity::Optional,
                    )->Ok_0,
                    locations: match spec_json_get(m, "locations"@) {
                        Some(l) => l,
                        None => JsonModel::Null,
                    },
                },
            ),
        ),
    }
}

/// Decodes the album response into its photos and metadata.
///
/// A missing or mistyped album name is the one hard error; a malformed photo
/// entry is skipped, and the other metadata fields fall back to defaults.
pub fn parse_api_response(data: &JsonValue) -> (r: Result<(Vec<Image>, Metadata), ApiError>)
    ensures
        match r {
            Ok(pm) => spec_parse_api_response(data@) == Ok::<_, ApiErrorModel>(
                (pm.0.deep_view(), pm.1@),
            ),
            Err(e) => spec_parse_api_response(data@) == Err::<
                (Seq<ImageModel>, MetadataModel),
                ApiErrorModel,
            >(e@),
        },
{
    let mut photos: Vec<Image> = Vec::new();
    proof {
        assert(photos.deep_view() =~= Seq::<ImageModel>::empty());
    }
    match data.get("photos") {
        Some(photos_val) => {
            match photos_val.as_array() {
                Some(elems) => {
                    let ghost ments = arr_model(elems@);
                    proof {
                        assert(ments.skip(0) =~= ments);
                    }
                    let mut i: usize = 0;
                    while i < elems.len()
                        invariant
                            0 <= i <= ments.len(),
                            ments == arr_model(elems@),
                            ments.len() == elems@.len(),
                            photos.deep_view() + spec_photos_from(ments.skip(i as int))
                                == spec_photos_from(ments),
                        decreases ments.len() - i,
                    {
                        proof {
                            assert(ments.skip(i as int)[0] == ments[i as int]);
                            assert(ments.skip(i as int).skip(1) =~= ments.skip(i + 1));
                        }
                        let ghost pre = photos.deep_view();
                        match parse_image(&elems[i]) {
                            Some(img) => {
                                photos.push(img);
                                proof {
                                    assert(photos.deep_view() =~= pre.push(img@));
                                    assert(pre + (seq![img@] + spec_photos_from(ments.skip(i + 1)))
                                        =~= photos.deep_view() + spec_photos_from(
                                        ments.skip(i + 1),
                                    ));
                                }
                            },
                            None => {},
                        }
                        i += 1;
                    }
                    proof {
                        assert(ments.skip(ments.len() as int).len() == 0);
                        assert(photos.deep_view() + Seq::<ImageModel>::empty()
                            =~= photos.deep_view());
                    }
                },
                None => {},
            }
        },
        None => {},
    }
    assert(photos.deep_view() == spec_parse_photos(data@));
    let stream_name = get_string_field(data, "streamName", "Unknown Album", FieldSeverity::Required)?;
    let user_first_name = get_string_field(data, "userFirstName", "", FieldSeverity::Optional)?;
    let user_last_name = get_string_field(data, "userLastName", "", FieldSeverity::Optional)?;
    let stream_ctag = get_string_field(data, "streamCtag", "", FieldSeverity::Optional)?;
    let items_returned = get_u32_field(data, "itemsReturned", 0, FieldSeverity::Optional)?;
    let locations = match data.get("locations") {
        Some(value) => value.duplicate(),
        None => JsonValue::Null,
    };
    let metadata = Metadata {
        stream_name,
        user_first_name,
        user_last_name,
        stream_ctag,
        items_returned,
        locations,
    };
    proof {
        assert(metadata@ =~= spec_parse_api_response(data@)->Ok_0.1);
    }
    Ok((photos, metadata))
}

/// The identifiers of a photo list, in order.
pub open spec fn spec_photo_guids(photos: Seq<ImageModel>) -> Seq<Seq<char>> {
    Seq::new(photos.len(), |i: int| photos[i].photo_guid)
}

/// Collects the identifier of every photo, in order, for the asset-URL
/// request.
pub fn collect_photo_guids(photos: &Vec<Image>) -> (r: Vec<String>)
    ensures
        r.deep_view() == spec_photo_guids(photos.deep_view()),
{
    let mut guids: Vec<String> = Vec::new();
    let mut i: usize = 0;
    while i < photos.len()
        invariant
            0 <= i <= photos@.len(),
            guids@.len() == i,
            forall|k: int| 0 <= k < i ==> (#[trigger] guids@[k])@ == photos@[k]@.photo_guid,
        decreases photos@.len() - i,
    {
        let ghost prev = guids@;
        let g = photos[i].photo_guid.clone();
        guids.push(g);
        proof {
            assert(forall|k: int| 0 <= k < i ==> prev[k] == #[trigger] guids@[k]);
        }
        i += 1;
    }
    proof {
        assert forall|k: int| 0 <= k < photos@.len() implies (#[trigger] guids.deep_view()[k])
            == spec_photo_guids(photos.deep_view())[k] by {
            assert(guids.deep_view()[k] == guids@[k]@);
            assert(photos.deep_view()[k] == photos@[k]@);
        }
        assert(guids.deep_view() =~= spec_photo_guids(photos.deep_view()));
    }
    guids
}

/// Whether an issue list blames the `items` field itself.
pub open spec fn spec_has_items_issue(issues: Seq<(Seq<char>, ValidationFailureModel)>) -> bool {
    exists|i: int| 0 <= i < issues.len() && (#[trigger] issues[i]).0 == "items"@
}

/// What validating the asset-URL response yields: an error exactly when the
/// `items` field itself is missing or mistyped; per-item issues are
/// tolerated.
pub open spec fn spec_validate_webasseturls_result(m: JsonModel) -> Result<(), ApiErrorModel> {
    let issues = spec_validate_webasseturls(m);
    if spec_has_items_issue(issues) {
        Err(
            ApiErrorModel::JsonParseError(
                "Critical schema validation issues: "@ + spec_u64_string(issues.len() as int),
            ),
        )
    } else {
        Ok(())
    }
}

/// Validates the asset-URL response: a missing or mistyped `items` mapping is
/// a hard error, every other issue is tolerated.
pub fn validate_webasseturls_response(data: &JsonValue) -> (r: Result<(), ApiError>)
    ensures
        match r {
            Ok(_) => spec_validate_webasseturls_result(data@) is Ok,
            Err(e) => spec_validate_webasseturls_result(data@) == Err::<(), ApiErrorModel>(e@),
        },
{
    proof {
        reveal_strlit("webstream");
        reveal_strlit("webasseturls");
    }
    let issues = validate_api_schema(data, "webasseturls");
    let ghost imodel = issues_model(issues@);
    let mut found = false;
    let mut i: usize = 0;
    while i < issues.len()
        invariant
            0 <= i <= imodel.len(),
            imodel == issues_model(issues@),
            imodel.len() == issues@.len(),
            found == exists|k: int| 0 <= k < i && (#[trigger] imodel[k]).0 == "items"@,
        decreases imodel.len() - i,
    {
        if str_eq(issues[i].0.as_str(), "items") {
            found = true;
            proof {
                assert(imodel[i as int].0 == "items"@);
            }
        }
        i += 1;
    }
    proof {
        reveal_strlit("webstream");
        reveal_strlit("webasseturls");
        assert("webasseturls"@.len() != "webstream"@.len());
        assert(imodel == spec_validate_webasseturls(data@));
    }
    if found {
        let mut msg = String::from_str("Critical schema validation issues: ");
        let num = u64_to_string(issues.len() as u64);
        msg.append(num.as_str());
        Err(ApiError::JsonParseError(msg))
    } else {
        assert(!spec_has_items_issue(imodel));
        Ok(())
    }
}

/// The view of a checksum-to-URL (or identifier-to-URL) list.
pub open spec fn url_map_model(v: Seq<(String, String)>) -> Seq<(Seq<char>, Seq<char>)> {
    Seq::new(v.len(), |i: int| (v[i].0@, v[i].1@))
}

/// The full download URL of one asset-URL item: `https://` followed by its
/// location and path, both of which must be nonempty strings.
pub open spec fn spec_asset_url_of(v: JsonModel) -> Option<Seq<char>> {
    match (spec_json_get(v, "url_location"@), spec_json_get(v, "url_path"@)) {
        (Some(JsonModel::Str(loc)), Some(JsonModel::Str(path))) => if loc.len() > 0 && path.len()
            > 0 {
            Some("https://"@ + loc + path)
        } else {
            None
        },
        _ => None,
    }
}

/// The identifier-to-URL pairs of the asset-URL items, in order; items
/// without usable URL parts are skipped.
pub open spec fn spec_asset_entries(entries: Seq<(Seq<char>, JsonModel)>) -> Seq<
    (Seq<char>, Seq<char>),
>
    decreases entries.len(),
{
    if entries.len() == 0 {
        Seq::empty()
    } else {
        (match spec_asset_url_of(entries[0].1) {
            Some(url) => seq![(entries[0].0, url)],
            None => Seq::empty(),
        }) + spec_asset_entries(entries.skip(1))
    }
}

/// What processing the asset-URL response yields: the identifier-to-URL
/// pairs, or a hard error when the `items` mapping is missing or not an
/// object.
pub open spec fn spec_process_webasseturls(m: JsonModel) -> Result<
    Seq<(Seq<char>, Seq<char>)>,
    ApiErrorModel,
> {
    match spec_json_get(m, "items"@) {
        None => Err(ApiErrorModel::MissingFieldError("items"@)),
        Some(items) => match items {
            JsonModel::Object(entries) => Ok(spec_asset_entries(entries)),
            _ => Err(ApiErrorModel::JsonParseError("'items' field is not an object"@)),
        },
    }
}

/// Extracts the identifier-to-URL pairs from the asset-URL response.
///
/// Without a usable `items` mapping nothing can be enriched, so that is a
/// hard error; an individual item with missing, mistyped or empty URL parts
/// is skipped.
pub fn process_webasseturls_response(data: &JsonValue) -> (r: Result<
    Vec<(String, String)>,
    ApiError,
>)
    ensures
        match r {
            Ok(urls) => spec_process_webasseturls(data@) == Ok::<_, ApiErrorModel>(
                url_map_model(urls@),
            ),
            Err(e) => spec_process_webasseturls(data@) == Err::<
                Seq<(Seq<char>, Seq<char>)>,
                ApiErrorModel,
            >(e@),
        },
{
    let items = match data.get("items") {
        Some(items) => items,
        None => {
            return Err(ApiError::MissingFieldError(String::from_str("items")));
        },
    };
    let entries = match items.as_object() {
        Some(o) => o,
        None => {
            return Err(ApiError::JsonParseError(String::from_str("'items' field is not an object")));
        },
    };
    let ghost ments = crate::json::obj_model(entries@);
    let mut results: Vec<(String, String)> = Vec::new();
    proof {
        assert(ments.skip(0) =~= ments);
        assert(url_map_model(results@) =~= Seq::<(Seq<char>, Seq<char>)>::empty());
    }
    let mut i: usize = 0;
    while i < entries.len()
        invariant
            0 <= i <= ments.len(),
            ments == crate::json::obj_model(entries@),
            ments.len() == entries@.len(),
            url_map_model(results@) + spec_asset_entries(ments.skip(i as int))
                == spec_asset_entries(ments),
        decreases ments.len() - i,
    {
        proof {
            assert(ments.skip(i as int)[0] == ments[i as int]);
            assert(ments.skip(i as int).skip(1) =~= ments.skip(i + 1));
        }
        let ghost pre = url_map_model(results@);
        let value = &entries[i].1;
        let mut usable = true;
        let mut url = String::from_str("https://");
        match value.get("url_location") {
            Some(loc) => match loc.as_str() {
                Some(s) => {
                    if s.as_str().is_empty() {
                        usable = false;
                    } else {
                        url.append(s.as_str());
                    }
                },
                None => {
                    usable = false;
                },
            },
            None => {
                usable = false;
            },
        }
        if usable {
            match value.get("url_path") {
                Some(path) => match path.as_str() {
                    Some(s) => {
                        if s.as_str().is_empty() {
                            usable = false;
                        } else {
                            url.append(s.as_str());
                        }
                    },
                    None => {
                        usable = false;
                    },
                },
                None => {
                    usable = false;
                },
            }
        }
        if usable {
            results.push((entries[i].0.clone(), url));
            proof {
                assert(url_map_model(results@) =~= pre.push(
                    (ments[i as int].0, spec_asset_url_of(ments[i as int].1)->Some_0),
                ));
                assert(pre + (seq![(ments[i as int].0, spec_asset_url_of(ments[i as int].1)->Some_0)]
                    + spec_asset_entries(ments.skip(i + 1))) =~= url_map_model(results@)
                    + spec_asset_entries(ments.skip(i + 1)));
            }
        } else {
            proof {
                assert(spec_asset_url_of(ments[i as int].1) is None);
            }
        }
        i += 1;
    }
    proof {
        assert(ments.skip(ments.len() as int).len() == 0);
        assert(url_map_model(results@) + Seq::<(Seq<char>, Seq<char>)>::empty() =~= url_map_model(
            results@,
        ));
    }
    Ok(results)
}

/// How the asset-URL phase treats a response status.
#[derive(Debug, Clone, Copy, PartialEq, Eq, Structural)]
pub enum AssetStatusOutcome {
    /// The request succeeded; the body holds the URL mapping.
    Success,
    /// The service rejected the batch; enrichment proceeds with an empty
    /// mapping rather than failing the fetch.
    DegradedEmpty,
    /// Any other failure status, to be classified by the retry policy.
    Failure,
}

/// Classifies the asset-URL endpoint's response status: 2xx succeeds, 400 is
/// the batch-rejection signal and degrades to an empty mapping, everything
/// else is a failure.
pub fn classify_asset_status(status: u16) -> (r: AssetStatusOutcome)
    ensures
        status == 400 ==> r == AssetStatusOutcome::DegradedEmpty,
        200 <= status < 300 ==> r == AssetStatusOutcome::Success,
        !(status == 400 || 200 <= status < 300) ==> r == AssetStatusOutcome::Failure,
{
    if status == 400 {
        AssetStatusOutcome::DegradedEmpty
    } else if 200 <= status && status < 300 {
        AssetStatusOutcome::Success
    } else {
        AssetStatusOutcome::Failure
    }
}

} // verus!
