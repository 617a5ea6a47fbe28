//! Content-type detection, extension mapping, derivative selection, and
//! download file naming.

use vstd::prelude::*;
use vstd::string::StrSliceExecFns;
use vstd::string::StringExecFns;
use crate::models::derivs_model;
use crate::models::Derivative;
use crate::models::DerivativeModel;
use crate::models::Image;
use crate::strutil::spec_contains_sub;
use crate::strutil::spec_u64_string;
use crate::strutil::str_contains_sub;
use crate::strutil::str_eq;
use crate::strutil::u64_to_string;

verus! {

/// The file extension for a MIME type; unknown types default to `.jpg`.
pub open spec fn spec_extension_for(mime: Seq<char>) -> Seq<char> {
    if mime == "image/jpeg"@ {
        ".jpg"@
    } else if mime == "image/png"@ {
        ".png"@
    } else if mime == "image/heic"@ {
        ".heic"@
    } else if mime == "image/heif"@ {
        ".heif"@
    } else if mime == "video/mp4"@ {
        ".mp4"@
    } else if mime == "video/quicktime"@ {
        ".mov"@
    } else if mime == "image/gif"@ {
        ".gif"@
    } else {
        ".jpg"@
    }
}

/// Maps a MIME type to its file extension, defaulting to `.jpg`.
pub fn extension_from_mime_type(mime_type: &str) -> (r: String)
    ensures
        r@ == spec_extension_for(mime_type@),
{
    if str_eq(mime_type, "image/jpeg") {
        String::from_str(".jpg")
    } else if str_eq(mime_type, "image/png") {
        String::from_str(".png")
    } else if str_eq(mime_type, "image/heic") {
        String::from_str(".heic")
    } else if str_eq(mime_type, "image/heif") {
        String::from_str(".heif")
    } else if str_eq(mime_type, "video/mp4") {
        String::from_str(".mp4")
    } else if str_eq(mime_type, "video/quicktime") {
        String::from_str(".mov")
    } else if str_eq(mime_type, "image/gif") {
        String::from_str(".gif")
    } else {
        String::from_str(".jpg")
    }
}

/// The MIME type a content prefix reveals, if any. The signatures are
/// ordered: the QuickTime test must come before the generic ISO-BMFF test it
/// overlaps with.
pub open spec fn spec_sniff(bytes: Seq<u8>) -> Option<Seq<char>> {
    if bytes.len() >= 12 {
        if bytes[0] == 0xFF && bytes[1] == 0xD8 && bytes[2] == 0xFF {
            Some("image/jpeg"@)
        } else if bytes[0] == 0x89 && bytes[1] == 0x50 && bytes[2] == 0x4E && bytes[3] == 0x47
            && bytes[4] == 0x0D && bytes[5] == 0x0A && bytes[6] == 0x1A && bytes[7] == 0x0A {
            Some("image/png"@)
        } else if bytes[4] == 0x66 && bytes[5] == 0x74 && bytes[6] == 0x79 && bytes[7] == 0x70
            && bytes[8] == 0x71 && bytes[9] == 0x74 {
            Some("video/quicktime"@)
        } else if bytes[4] == 0x66 && bytes[5] == 0x74 && bytes[6] == 0x79 && bytes[7] == 0x70 {
            Some("video/mp4"@)
        } else if bytes[0] == 0x47 && bytes[1] == 0x49 && bytes[2] == 0x46 && bytes[3] == 0x38 && (
        bytes[4] == 0x37 || bytes[4] == 0x39) && bytes[5] == 0x61 {
            Some("image/gif"@)
        } else if bytes.len() > 12 && bytes[4] == 0x66 && bytes[5] == 0x74 && bytes[6] == 0x79
            && bytes[7] == 0x70 && bytes[8] == 0x68 && bytes[9] == 0x65 && bytes[10] == 0x69 && (
        bytes[11] == 0x63 || bytes[11] == 0x66) {
            if bytes[11] == 0x63 {
                Some("image/heic"@)
            } else {
                Some("image/heif"@)
            }
        } else {
            None
        }
    } else {
        None
    }
}

/// What mime_guess answers for a path: a pure function of the path's
/// characters.
pub uninterp spec fn mime_guess_of(name: Seq<char>) -> Seq<char>;

/// Relies on mime_guess::from_path(..).first_or_octet_stream(): the guess is
/// computed from the path's extension alone (no disk access), so it depends
/// only on the path's characters.
#[verifier::external_body]
fn guess_mime_from_path(name: &str) -> (r: String)
    ensures
        r@ == mime_guess_of(name@),
{
    mime_guess::from_path(name).first_or_octet_stream().to_string()
}

/// The MIME type detection answers: the sniffed type when a signature
/// matches, else the filename-based guess when a hint is given, else
/// `image/jpeg`.
pub open spec fn spec_detect_mime(bytes: Seq<u8>, filename: Option<Seq<char>>) -> Seq<char> {
    match spec_sniff(bytes) {
        Some(m) => m,
        None => match filename {
            Some(name) => mime_guess_of(name),
            None => "image/jpeg"@,
        },
    }
}

/// Detects the MIME type of content from its magic bytes, falling back to a
/// filename-based guess and finally to `image/jpeg`.
pub fn detect_mime_type(bytes: &[u8], filename: Option<&str>) -> (r: String)
    ensures
        r@ == spec_detect_mime(bytes@, match filename {
            Some(f) => Some(f@),
            None => None,
        }),
{
    if bytes.len() >= 12 {
        if bytes[0] == 0xFF && bytes[1] == 0xD8 && bytes[2] == 0xFF {
            return String::from_str("image/jpeg");
        }
        if bytes[0] == 0x89 && bytes[1] == 0x50 && bytes[2] == 0x4E && bytes[3] == 0x47 && bytes[4]
            == 0x0D && bytes[5] == 0x0A && bytes[6] == 0x1A && bytes[7] == 0x0A {
            return String::from_str("image/png");
        }
        if bytes[4] == 0x66 && bytes[5] == 0x74 && bytes[6] == 0x79 && bytes[7] == 0x70 && bytes[8]
            == 0x71 && bytes[9] == 0x74 {
            return String::from_str("video/quicktime");
        }
        if bytes[4] == 0x66 && bytes[5] == 0x74 && bytes[6] == 0x79 && bytes[7] == 0x70 {
            return String::from_str("video/mp4");
        }
        if bytes[0] == 0x47 && bytes[1] == 0x49 && bytes[2] == 0x46 && bytes[3] == 0x38 && (bytes[4]
            == 0x37 || bytes[4] == 0x39) && bytes[5] == 0x61 {
            return String::from_str("image/gif");
        }
        if bytes.len() > 12 && bytes[4] == 0x66 && bytes[5] == 0x74 && bytes[6] == 0x79 && bytes[7]
            == 0x70 && bytes[8] == 0x68 && bytes[9] == 0x65 && bytes[10] == 0x69 && (bytes[11]
            == 0x63 || bytes[11] == 0x66) {
            if bytes[11] == 0x63 {
                return String::from_str("image/heic");
            } else {
                return String::from_str("image/heif");
            }
        }
    }
    match filename {
        Some(name) => guess_mime_from_path(name),
        None => String::from_str("image/jpeg"),
    }
}

/// The extension the content deserves: its detected MIME type's extension.
pub fn get_extension_for_content(bytes: &[u8], filename: Option<&str>) -> (r: String)
    ensures
        r@ == spec_extension_for(
            spec_detect_mime(bytes@, match filename {
                Some(f) => Some(f@),
                None => None,
            }),
        ),
{
    let mime_type = detect_mime_type(bytes, filename);
    extension_from_mime_type(mime_type.as_str())
}

/// What lowercasing answers for a string: a pure function of its characters.
pub uninterp spec fn lower_of(s: Seq<char>) -> Seq<char>;

/// Relies on str::to_lowercase: the result depends on the characters alone.
#[verifier::external_body]
fn to_lowercase(s: &str) -> (r: String)
    ensures
        r@ == lower_of(s@),
{
    s.to_lowercase()
}

/// Whether a derivative key marks a likely-original tier: its lowercase form
/// contains "original" or "full", or it is one of the conventionally
/// reserved keys for top-quality tiers.
pub open spec fn spec_is_original_key(key: Seq<char>) -> bool {
    spec_contains_sub(lower_of(key), "original"@) || spec_contains_sub(lower_of(key), "full"@)
        || key == "3"@ || key == "4"@
}

/// Decides whether a derivative key marks a likely-original tier. The test
/// is a heuristic over the service's naming conventions, not authoritative.
pub fn is_original_key(key: &str) -> (r: bool)
    ensures
        r == spec_is_original_key(key@),
{
    let lowered = to_lowercase(key);
    str_contains_sub(lowered.as_str(), "original") || str_contains_sub(lowered.as_str(), "full")
        || str_eq(key, "3") || str_eq(key, "4")
}

/// Whether a derivative has a resolved URL.
pub open spec fn spec_has_url(d: DerivativeModel) -> bool {
    d.url is Some
}

/// Whether a derivative declares both dimensions.
pub open spec fn spec_has_dims(d: DerivativeModel) -> bool {
    d.width is Some && d.height is Some
}

/// The declared pixel count of a derivative with dimensions.
pub open spec fn spec_resolution(d: DerivativeModel) -> int {
    d.width->Some_0 * d.height->Some_0
}

/// The preference class of a usable derivative, smaller being better:
/// dimensioned likely-originals, then undimensioned likely-originals, then
/// dimensioned candidates, then the rest.
pub open spec fn spec_tier(e: (Seq<char>, DerivativeModel)) -> int {
    if spec_is_original_key(e.0) && spec_has_dims(e.1) {
        1
    } else if spec_is_original_key(e.0) {
        2
    } else if spec_has_dims(e.1) {
        3
    } else {
        4
    }
}

/// Whether `a` is strictly preferred over `b`: a smaller tier, or within the
/// dimensioned tiers a strictly larger resolution.
pub open spec fn spec_better(a: (Seq<char>, DerivativeModel), b: (Seq<char>, DerivativeModel)) -> bool {
    if spec_tier(a) != spec_tier(b) {
        spec_tier(a) < spec_tier(b)
    } else if spec_tier(a) == 1 || spec_tier(a) == 3 {
        spec_resolution(a.1) > spec_resolution(b.1)
    } else {
        false
    }
}

/// The index the selection policy picks among the entries from `i` on: the
/// strictly best usable derivative, the earliest among equals.
pub open spec fn spec_select_from(entries: Seq<(Seq<char>, DerivativeModel)>, i: int) -> Option<int>
    decreases entries.len() - i,
{
    if 0 <= i < entries.len() {
        let rest = spec_select_from(entries, i + 1);
        if !spec_has_url(entries[i].1) {
            rest
        } else {
            match rest {
                None => Some(i),
                Some(k) => if spec_better(entries[k], entries[i]) {
                    Some(k)
                } else {
                    Some(i)
                },
            }
        }
    } else {
        None
    }
}

/// The index the selection policy picks, if any derivative is usable.
pub open spec fn spec_select(entries: Seq<(Seq<char>, DerivativeModel)>) -> Option<int> {
    spec_select_from(entries, 0)
}

/// Whatever the policy picks is a real entry and has a URL: a derivative
/// without a resolved URL is never selected, and an empty mapping selects
/// nothing.
pub proof fn lemma_selected_usable(entries: Seq<(Seq<char>, DerivativeModel)>, i: int)
    requires
        0 <= i <= entries.len(),
    ensures
        match spec_select_from(entries, i) {
            Some(k) => i <= k < entries.len() && spec_has_url(entries[k].1),
            None => forall|k: int| i <= k < entries.len() ==> !spec_has_url((#[trigger] entries[k]).1),
        },
    decreases entries.len() - i,
{
    if i < entries.len() {
        lemma_selected_usable(entries, i + 1);
    }
}

/// Whatever the policy picks is optimal: no usable entry is strictly
/// preferred over the selected one, so a likely-original is chosen whenever
/// one is usable, and resolution decides within its tier.
pub proof fn lemma_selected_optimal(entries: Seq<(Seq<char>, DerivativeModel)>, i: int)
    requires
        0 <= i <= entries.len(),
    ensures
        match spec_select_from(entries, i) {
            Some(k) => forall|j: int|
                i <= j < entries.len() && spec_has_url((#[trigger] entries[j]).1) ==> !spec_better(
                    entries[j],
                    entries[k],
                ),
            None => true,
        },
    decreases entries.len() - i,
{
    if i < entries.len() {
        lemma_selected_optimal(entries, i + 1);
        lemma_selected_usable(entries, i + 1);
    }
}

/// Decides whether `a` is strictly preferred over `b`.
fn better(a: &(String, Derivative), b: &(String, Derivative)) -> (r: bool)
    ensures
        r == spec_better((a.0@, a.1@), (b.0@, b.1@)),
{
    let ta = tier(a);
    let tb = tier(b);
    if ta != tb {
        ta < tb
    } else if ta == 1 || ta == 3 {
        resolution(&a.1) > resolution(&b.1)
    } else {
        false
    }
}

/// The preference class of an entry.
fn tier(e: &(String, Derivative)) -> (r: u8)
    ensures
        r as int == spec_tier((e.0@, e.1@)),
{
    let orig = is_original_key(e.0.as_str());
    let dims = e.1.width.is_some() && e.1.height.is_some();
    if orig && dims {
        1
    } else if orig {
        2
    } else if dims {
        3
    } else {
        4
    }
}

/// The declared pixel count of a dimensioned derivative.
fn resolution(d: &Derivative) -> (r: u64)
    requires
        spec_has_dims(d@),
    ensures
        r == spec_resolution(d@),
{
    let w = match d.width {
        Some(w) => w,
        None => 0,
    };
    let h = match d.height {
        Some(h) => h,
        None => 0,
    };
    proof {
        assert((w as u64) * (h as u64) <= u64::MAX) by (nonlinear_arith)
            requires
                w <= u32::MAX,
                h <= u32::MAX,
        ;
    }
    (w as u64) * (h as u64)
}

/// Selects the derivative to download, preferring likely-originals over raw
/// resolution, then resolution, then any derivative with a URL.
///
/// The answer is the key, the derivative, and its URL; a photo none of whose
/// derivatives has a resolved URL yields nothing.
pub fn select_best_derivative<'a>(derivatives: &'a Vec<(String, Derivative)>) -> (r: Option<
    (String, &'a Derivative, String),
>)
    ensures
        match r {
            Some(sel) => {
                &&& spec_select(derivs_model(derivatives@)) matches Some(idx)
                &&& sel.0@ == derivatives@[idx].0@
                &&& sel.1 == &derivatives@[idx].1
                &&& derivatives@[idx].1@.url == Some(sel.2@)
            },
            None => spec_select(derivs_model(derivatives@)) is None,
        },
{
    let ghost ments = derivs_model(derivatives@);
    let mut best: Option<usize> = None;
    let mut i: usize = derivatives.len();
    while i > 0
        invariant
            0 <= i <= ments.len(),
            ments == derivs_model(derivatives@),
            ments.len() == derivatives@.len(),
            match best {
                Some(b) => i <= b < ments.len() && spec_select_from(ments, i as int) == Some(
                    b as int,
                ),
                None => spec_select_from(ments, i as int) is None,
            },
        decreases i,
    {
        i -= 1;
        let e = &derivatives[i];
        proof {
            assert(ments[i as int] == (e.0@, e.1@));
        }
        if e.1.url.is_some() {
            best = match best {
                None => Some(i),
                Some(k) => {
                    if better(&derivatives[k], e) {
                        Some(k)
                    } else {
                        Some(i)
                    }
                },
            };
        }
    }
    match best {
        None => None,
        Some(idx) => {
            proof {
                lemma_selected_usable(ments, 0);
            }
            let key = derivatives[idx].0.clone();
            let d = &derivatives[idx].1;
            let url = match &d.url {
                Some(u) => u.clone(),
                None => {
                    proof {
                        assert(false);
                    }
                    String::new()
                },
            };
            Some((key, d, url))
        },
    }
}

/// The filename character set the sanitizer allows: path separators and
/// shell-special characters become underscores.
pub open spec fn spec_sanitize_char(c: char) -> char {
    if c == '/' || c == '\\' || c == ':' || c == '*' || c == '?' || c == '"' || c == '<' || c == '>'
        || c == '|' {
        '_'
    } else {
        c
    }
}

/// A caption with unsafe filename characters replaced.
pub open spec fn spec_sanitized(s: Seq<char>) -> Seq<char> {
    Seq::new(s.len(), |i: int| spec_sanitize_char(s[i]))
}

/// The base filename for a download: the custom name, or the sanitized
/// caption, or nothing, always carrying the photo identifier, and a
/// one-based position number when one is given alongside a caption or
/// nothing.
pub open spec fn spec_base_filename(
    guid: Seq<char>,
    caption: Option<Seq<char>>,
    index: Option<int>,
    custom: Option<Seq<char>>,
) -> Seq<char> {
    match custom {
        Some(name) => guid + "_"@ + name,
        None => match caption {
            Some(c) => match index {
                Some(idx) => spec_u64_string(idx + 1) + "_"@ + guid + "_"@ + spec_sanitized(c),
                None => guid + "_"@ + spec_sanitized(c),
            },
            None => match index {
                Some(idx) => spec_u64_string(idx + 1) + "_"@ + guid,
                None => guid,
            },
        },
    }
}

/// Replaces unsafe filename characters in a caption by underscores.
fn sanitize_caption(caption: &str) -> (r: String)
    ensures
        r@ == spec_sanitized(caption@),
{
    let len = caption.unicode_len();
    let mut s = String::new();
    let mut i: usize = 0;
    while i < len
        invariant
            0 <= i <= len,
            len == caption@.len(),
            s@ =~= spec_sanitized(caption@).take(i as int),
        decreases len - i,
    {
        let c = caption.get_char(i);
        let mapped: char = if c == '/' || c == '\\' || c == ':' || c == '*' || c == '?' || c == '"'
            || c == '<' || c == '>' || c == '|' {
            '_'
        } else {
            c
        };
        s.push(mapped);
        proof {
            assert(s@ =~= spec_sanitized(caption@).take(i + 1));
        }
        i += 1;
    }
    proof {
        assert(spec_sanitized(caption@).take(len as int) =~= spec_sanitized(caption@));
    }
    s
}

/// Builds the filename a downloaded photo is saved under: a base name from
/// the custom name, caption, and position, followed by the extension.
pub fn build_download_filename(
    photo: &Image,
    index: Option<usize>,
    custom_filename: Option<String>,
    extension: &str,
) -> (r: String)
    requires
        index is Some ==> index->Some_0 < usize::MAX,
    ensures
        r@ == spec_base_filename(
            photo@.photo_guid,
            photo@.caption,
            match index {
                Some(i) => Some(i as int),
                None => None,
            },
            match custom_filename {
                Some(n) => Some(n@),
                None => None,
            },
        ) + extension@,
{
    let mut base: String;
    match custom_filename {
        Some(custom_name) => {
            base = photo.photo_guid.clone();
            base.append("_");
            base.append(custom_name.as_str());
        },
        None => {
            match &photo.caption {
                Some(caption) => {
                    let sanitized = sanitize_caption(caption.as_str());
                    match index {
                        Some(idx) => {
                            base = u64_to_string((idx + 1) as u64);
                            base.append("_");
                            base.append(photo.photo_guid.as_str());
                            base.append("_");
                            base.append(sanitized.as_str());
                        },
                        None => {
                            base = photo.photo_guid.clone();
                            base.append("_");
                            base.append(sanitized.as_str());
                        },
                    }
                },
                None => {
                    match index {
                        Some(idx) => {
                            base = u64_to_string((idx + 1) as u64);
                            base.append("_");
                            base.append(photo.photo_guid.as_str());
                        },
                        None => {
                            base = photo.photo_guid.clone();
                        },
                    }
                },
            }
        },
    }
    base.append(extension);
    base
}

} // verus!
