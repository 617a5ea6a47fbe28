//! Data types for album responses: photo derivatives, photos, album
//! metadata, and the combined response handed back to the caller. Each type
//! has a mathematical view that the contracts speak of.

use vstd::prelude::*;
use vstd::string::StringExecFns;
use crate::json::JsonModel;
use crate::json::JsonValue;

verus! {

/// The view of an optional string: the characters, when present.
pub open spec fn opt_str_model(o: Option<String>) -> Option<Seq<char>> {
    match o {
        Some(s) => Some(s@),
        None => None,
    }
}

/// One size/quality variant of a photo.
///
/// The checksum joins the derivative to its download URL, which is absent
/// until enrichment fills it in.
#[derive(Debug, Clone)]
pub struct Derivative {
    /// Content hash identifying the derivative.
    pub checksum: String,
    /// File size in bytes, when the service reported one.
    pub file_size: Option<u64>,
    /// Width in pixels, when reported.
    pub width: Option<u32>,
    /// Height in pixels, when reported.
    pub height: Option<u32>,
    /// Download URL, filled in by enrichment.
    pub url: Option<String>,
}

/// The mathematical shape of a `Derivative`.
#[verifier::ext_equal]
pub struct DerivativeModel {
    pub checksum: Seq<char>,
    pub file_size: Option<u64>,
    pub width: Option<u32>,
    pub height: Option<u32>,
    pub url: Option<Seq<char>>,
}

impl View for Derivative {
    type V = DerivativeModel;

    open spec fn view(&self) -> DerivativeModel {
        DerivativeModel {
            checksum: self.checksum@,
            file_size: self.file_size,
            width: self.width,
            height: self.height,
            url: opt_str_model(self.url),
        }
    }
}

/// The view of a derivative list: key and derivative, in order.
pub open spec fn derivs_model(entries: Seq<(String, Derivative)>) -> Seq<
    (Seq<char>, DerivativeModel),
> {
    Seq::new(entries.len(), |i: int| (entries[i].0@, entries[i].1@))
}

/// A photo of the album, with its derivative variants keyed by name.
///
/// Keys are unique within one photo; their order carries no meaning.
#[derive(Debug, Clone)]
pub struct Image {
    /// Unique identifier of the photo within a response.
    pub photo_guid: String,
    /// The derivative variants, keyed by the service's tier names.
    pub derivatives: Vec<(String, Derivative)>,
    /// Optional caption.
    pub caption: Option<String>,
    /// Creation date, as the service sent it.
    pub date_created: Option<String>,
    /// Batch creation date, as the service sent it.
    pub batch_date_created: Option<String>,
    /// Width in pixels of the original, when reported.
    pub width: Option<u32>,
    /// Height in pixels of the original, when reported.
    pub height: Option<u32>,
}

/// The mathematical shape of an `Image`.
#[verifier::ext_equal]
pub struct ImageModel {
    pub photo_guid: Seq<char>,
    pub derivatives: Seq<(Seq<char>, DerivativeModel)>,
    pub caption: Option<Seq<char>>,
    pub date_created: Option<Seq<char>>,
    pub batch_date_created: Option<Seq<char>>,
    pub width: Option<u32>,
    pub height: Option<u32>,
}

impl DeepView for Image {
    type V = ImageModel;

    open spec fn deep_view(&self) -> ImageModel {
        self.view()
    }
}

impl View for Image {
    type V = ImageModel;

    open spec fn view(&self) -> ImageModel {
        ImageModel {
            photo_guid: self.photo_guid@,
            derivatives: derivs_model(self.derivatives@),
            caption: opt_str_model(self.caption),
            date_created: opt_str_model(self.date_created),
            batch_date_created: opt_str_model(self.batch_date_created),
            width: self.width,
            height: self.height,
        }
    }
}

/// Metadata of a shared album.
#[derive(Debug)]
pub struct Metadata {
    /// Name of the album.
    pub stream_name: String,
    /// First name of the album owner.
    pub user_first_name: String,
    /// Last name of the album owner.
    pub user_last_name: String,
    /// Change tag for tracking updates.
    pub stream_ctag: String,
    /// Number of items the server claims it returned.
    pub items_returned: u32,
    /// Location information, kept as the structured blob the service sent.
    pub locations: JsonValue,
}

/// The mathematical shape of `Metadata`.
#[verifier::ext_equal]
pub struct MetadataModel {
    pub stream_name: Seq<char>,
    pub user_first_name: Seq<char>,
    pub user_last_name: Seq<char>,
    pub stream_ctag: Seq<char>,
    pub items_returned: u32,
    pub locations: JsonModel,
}

impl View for Metadata {
    type V = MetadataModel;

    open spec fn view(&self) -> MetadataModel {
        MetadataModel {
            stream_name: self.stream_name@,
            user_first_name: self.user_first_name@,
            user_last_name: self.user_last_name@,
            stream_ctag: self.stream_ctag@,
            items_returned: self.items_returned,
            locations: self.locations@,
        }
    }
}

/// The processed response: metadata and photos with URLs filled in.
#[derive(Debug)]
pub struct ICloudResponse {
    /// Metadata about the album.
    pub metadata: Metadata,
    /// The photos, enriched with download URLs where available.
    pub photos: Vec<Image>,
}

/// The mathematical shape of an `ICloudResponse`.
#[verifier::ext_equal]
pub struct ICloudResponseModel {
    pub metadata: MetadataModel,
    pub photos: Seq<ImageModel>,
}

impl View for ICloudResponse {
    type V = ICloudResponseModel;

    open spec fn view(&self) -> ICloudResponseModel {
        ICloudResponseModel { metadata: self.metadata@, photos: self.photos.deep_view() }
    }
}

/// The joined text of a context path, or a fixed placeholder for an empty
/// one.
pub open spec fn spec_path_string(path: Seq<Seq<char>>) -> Seq<char>
    decreases path.len(),
{
    if path.len() == 0 {
        "unknown field"@
    } else if path.len() == 1 {
        path[0]
    } else {
        spec_path_string(path.drop_last()) + " > "@ + path.last()
    }
}

/// A breadcrumb of field names, threaded through decoding so that warnings
/// can say where a tolerated inconsistency sat.
#[derive(Debug)]
pub struct DeserializeContext {
    context_path: Vec<String>,
}

impl View for DeserializeContext {
    type V = Seq<Seq<char>>;

    closed spec fn view(&self) -> Seq<Seq<char>> {
        self.context_path.deep_view()
    }
}

impl DeserializeContext {
    /// An empty context.
    pub fn new() -> (r: Self)
        ensures
            r@ == Seq::<Seq<char>>::empty(),
    {
        let r = Self { context_path: Vec::new() };
        proof {
            assert(r@ =~= Seq::<Seq<char>>::empty());
        }
        r
    }

    /// A context holding a single element.
    pub fn with_context(context: &str) -> (r: Self)
        ensures
            r@ =~= seq![context@],
    {
        let mut ctx = Self::new();
        ctx.push(context);
        proof {
            assert(ctx@ =~= seq![context@]);
        }
        ctx
    }

    /// Appends one element to the path.
    pub fn push(&mut self, context: &str)
        ensures
            final(self)@ == old(self)@.push(context@),
    {
        self.context_path.push(String::from_str(context));
        proof {
            assert(self@ =~= old(self)@.push(context@));
        }
    }

    /// Removes and returns the last element of the path.
    pub fn pop(&mut self) -> (r: Option<String>)
        ensures
            old(self)@.len() > 0 ==> final(self)@ == old(self)@.drop_last() && r is Some
                && r->Some_0@ == old(self)@.last(),
            old(self)@.len() == 0 ==> final(self)@ == old(self)@ && r is None,
    {
        let r = self.context_path.pop();
        proof {
            if old(self)@.len() > 0 {
                assert(self@ =~= old(self)@.drop_last());
            } else {
                assert(self@ =~= old(self)@);
            }
        }
        r
    }

    /// A copy of the context with one more element at the end.
    pub fn extend(&self, context: &str) -> (r: Self)
        ensures
            r@ == self@.push(context@),
    {
        let mut new_ctx = Self { context_path: self.context_path.clone() };
        proof {
            assert(new_ctx@ =~= self@);
        }
        new_ctx.push(context);
        new_ctx
    }

    /// The path as text: elements joined by a separator, or a placeholder
    /// when the path is empty.
    pub fn path_string(&self) -> (r: String)
        ensures
            r@ == spec_path_string(self@),
    {
        let len = self.context_path.len();
        if len == 0 {
            return String::from_str("unknown field");
        }
        let mut s = String::from_str(self.context_path[0].as_str());
        proof {
            assert(self@.take(1) =~= seq![self@[0]]);
        }
        let mut i: usize = 1;
        while i < len
            invariant
                1 <= i <= len,
                len == self@.len(),
                len == self.context_path@.len(),
                s@ == spec_path_string(self@.take(i as int)),
            decreases len - i,
        {
            s.append(" > ");
            s.append(self.context_path[i].as_str());
            proof {
                assert(self@.take(i + 1).drop_last() =~= self@.take(i as int));
                assert(self@.take(i + 1).last() == self@[i as int]);
            }
            i += 1;
        }
        proof {
            assert(self@.take(len as int) =~= self@);
        }
        s
    }
}

} // verus!
