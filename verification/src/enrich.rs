//! Merging fetched URLs into photo derivatives.
//!
//! Enrichment walks every derivative of every photo and, where its checksum
//! is a key of the checksum-to-URL mapping, assigns that URL. Unmatched
//! derivatives keep whatever URL they had; there is no error path.

use vstd::prelude::*;
use crate::api::url_map_model;
use crate::models::derivs_model;
use crate::models::opt_str_model;
use crate::models::Derivative;
use crate::models::DerivativeModel;
use crate::models::Image;
use crate::models::ImageModel;

verus! {

/// The first URL bound to `key` in the mapping.
pub open spec fn spec_url_lookup(urls: Seq<(Seq<char>, Seq<char>)>, key: Seq<char>) -> Option<
    Seq<char>,
>
    decreases urls.len(),
{
    if urls.len() == 0 {
        None
    } else if urls[0].0 == key {
        Some(urls[0].1)
    } else {
        spec_url_lookup(urls.skip(1), key)
    }
}

/// One derivative after enrichment: its URL is the mapped one when its
/// checksum is a key of the mapping, and is untouched otherwise.
pub open spec fn spec_enrich_derivative(
    d: DerivativeModel,
    urls: Seq<(Seq<char>, Seq<char>)>,
) -> DerivativeModel {
    match spec_url_lookup(urls, d.checksum) {
        Some(url) => DerivativeModel { url: Some(url), ..d },
        None => d,
    }
}

/// One photo after enrichment: each derivative enriched, all else untouched.
pub open spec fn spec_enrich_image(img: ImageModel, urls: Seq<(Seq<char>, Seq<char>)>) -> ImageModel {
    ImageModel {
        derivatives: Seq::new(
            img.derivatives.len(),
            |i: int| (img.derivatives[i].0, spec_enrich_derivative(img.derivatives[i].1, urls)),
        ),
        ..img
    }
}

/// A photo list after enrichment.
pub open spec fn spec_enrich(
    photos: Seq<ImageModel>,
    urls: Seq<(Seq<char>, Seq<char>)>,
) -> Seq<ImageModel> {
    Seq::new(photos.len(), |i: int| spec_enrich_image(photos[i], urls))
}

/// Entries before the first match do not change what lookup finds.
proof fn lemma_url_lookup_skip(urls: Seq<(Seq<char>, Seq<char>)>, key: Seq<char>, i: int)
    requires
        0 <= i <= urls.len(),
        forall|k: int| 0 <= k < i ==> (#[trigger] urls[k]).0 != key,
    ensures
        spec_url_lookup(urls, key) == spec_url_lookup(urls.skip(i), key),
    decreases i,
{
    if i > 0 {
        assert(urls[0].0 != key);
        assert(forall|k: int| 0 <= k < i - 1 ==> (#[trigger] urls.skip(1)[k]).0 == urls[k + 1].0);
        lemma_url_lookup_skip(urls.skip(1), key, i - 1);
        assert(urls.skip(1).skip(i - 1) =~= urls.skip(i));
    } else {
        assert(urls.skip(0) =~= urls);
    }
}

/// Looks a checksum up in the URL mapping.
fn url_for<'a>(all_urls: &'a Vec<(String, String)>, key: &str) -> (r: Option<&'a String>)
    ensures
        match r {
            Some(u) => spec_url_lookup(url_map_model(all_urls@), key@) == Some(u@),
            None => spec_url_lookup(url_map_model(all_urls@), key@) is None,
        },
{
    let ghost urls = url_map_model(all_urls@);
    let mut i: usize = 0;
    while i < all_urls.len()
        invariant
            0 <= i <= urls.len(),
            urls == url_map_model(all_urls@),
            urls.len() == all_urls@.len(),
            forall|k: int| 0 <= k < i ==> (#[trigger] urls[k]).0 != key@,
        decreases urls.len() - i,
    {
        if crate::strutil::str_eq(all_urls[i].0.as_str(), key) {
            proof {
                assert(urls[i as int].0 == key@);
                lemma_url_lookup_skip(urls, key@, i as int);
                assert(urls.skip(i as int)[0] == urls[i as int]);
            }
            return Some(&all_urls[i].1);
        }
        proof {
            assert(urls[i as int].0 == all_urls@[i as int].0@);
        }
        i += 1;
    }
    proof {
        lemma_url_lookup_skip(urls, key@, urls.len() as int);
    }
    None
}

/// A copy of an optional string with the same characters.
fn clone_opt_string(o: &Option<String>) -> (r: Option<String>)
    ensures
        opt_str_model(r) == opt_str_model(*o),
{
    match o {
        Some(s) => Some(s.clone()),
        None => None,
    }
}

/// Fills in the URL of every derivative whose checksum the mapping knows.
///
/// Derivatives whose checksum is not a key of the mapping keep the URL they
/// had; nothing else about any photo changes.
pub fn enrich_photos_with_urls(photos: &mut Vec<Image>, all_urls: &Vec<(String, String)>)
    ensures
        final(photos).deep_view() == spec_enrich(old(photos).deep_view(), url_map_model(all_urls@)),
{
    let ghost urls = url_map_model(all_urls@);
    let ghost orig = photos.deep_view();
    let mut out: Vec<Image> = Vec::new();
    let mut i: usize = 0;
    while i < photos.len()
        invariant
            0 <= i <= orig.len(),
            orig == photos.deep_view(),
            orig.len() == photos@.len(),
            urls == url_map_model(all_urls@),
            out@.len() == i,
            forall|k: int| 0 <= k < i ==> (#[trigger] out.deep_view()[k]) == spec_enrich_image(
                orig[k],
                urls,
            ),
        decreases orig.len() - i,
    {
        let img = &photos[i];
        let ghost imodel = orig[i as int];
        proof {
            assert(imodel == img@);
        }
        let mut derivs: Vec<(String, Derivative)> = Vec::new();
        let mut j: usize = 0;
        while j < img.derivatives.len()
            invariant
                0 <= j <= imodel.derivatives.len(),
                imodel == img@,
                imodel.derivatives.len() == img.derivatives@.len(),
                urls == url_map_model(all_urls@),
                derivs@.len() == j,
                forall|k: int| 0 <= k < j ==> (#[trigger] derivs_model(derivs@)[k]) == (
                    imodel.derivatives[k].0,
                    spec_enrich_derivative(imodel.derivatives[k].1, urls),
                ),
            decreases imodel.derivatives.len() - j,
        {
            let entry = &img.derivatives[j];
            let d = &entry.1;
            proof {
                assert(imodel.derivatives[j as int] == (entry.0@, d@));
            }
            let url: Option<String> = match url_for(all_urls, d.checksum.as_str()) {
                Some(u) => Some(u.clone()),
                None => clone_opt_string(&d.url),
            };
            let enriched = Derivative {
                checksum: d.checksum.clone(),
                file_size: d.file_size,
                width: d.width,
                height: d.height,
                url,
            };
            proof {
                assert(enriched@ =~= spec_enrich_derivative(d@, urls));
            }
            let ghost dpre = derivs@;
            derivs.push((entry.0.clone(), enriched));
            proof {
                assert forall|k: int| 0 <= k < j + 1 implies (#[trigger] derivs_model(derivs@)[k])
                    == (
                    imodel.derivatives[k].0,
                    spec_enrich_derivative(imodel.derivatives[k].1, urls),
                ) by {
                    if k < j {
                        assert(derivs@[k] == dpre[k]);
                        assert(derivs_model(dpre)[k] == (
                            imodel.derivatives[k].0,
                            spec_enrich_derivative(imodel.derivatives[k].1, urls),
                        ));
                    } else {
                        assert(derivs@[k].0@ == entry.0@ && derivs@[k].1@ == enriched@);
                    }
                }
            }
            j += 1;
        }
        let new_img = Image {
            photo_guid: img.photo_guid.clone(),
            derivatives: derivs,
            caption: clone_opt_string(&img.caption),
            date_created: clone_opt_string(&img.date_created),
            batch_date_created: clone_opt_string(&img.batch_date_created),
            width: img.width,
            height: img.height,
        };
        proof {
            assert(derivs_model(new_img.derivatives@) =~= spec_enrich_image(imodel, urls).derivatives);
            assert(new_img@ =~= spec_enrich_image(imodel, urls));
        }
        let ghost opre = out.deep_view();
        let ghost pushed_model = new_img@;
        out.push(new_img);
        proof {
            assert forall|k: int| 0 <= k < i + 1 implies (#[trigger] out.deep_view()[k])
                == spec_enrich_image(orig[k], urls) by {
                if k < i {
                    assert(out@[k] == out@.drop_last()[k]);
                    assert(out.deep_view()[k] == opre[k]);
                } else {
                    assert(out.deep_view()[k] == pushed_model);
                }
            }
        }
        i += 1;
    }
    *photos = out;
    proof {
        assert(photos.deep_view() =~= spec_enrich(orig, urls));
    }
}

/// Enriching twice with the same mapping is the same as enriching once: a
/// URL assigned from the mapping is simply assigned again, and unmatched
/// derivatives stay as they were.
pub proof fn lemma_enrich_idempotent(photos: Seq<ImageModel>, urls: Seq<(Seq<char>, Seq<char>)>)
    ensures
        spec_enrich(spec_enrich(photos, urls), urls) == spec_enrich(photos, urls),
{
    assert forall|i: int| 0 <= i < photos.len() implies #[trigger] spec_enrich(
        spec_enrich(photos, urls),
        urls,
    )[i] == spec_enrich(photos, urls)[i] by {
        let img = photos[i];
        let e1 = spec_enrich_image(img, urls);
        let e2 = spec_enrich_image(e1, urls);
        assert forall|j: int| 0 <= j < img.derivatives.len() implies #[trigger] e2.derivatives[j]
            == e1.derivatives[j] by {
            let d = img.derivatives[j].1;
            let d1 = spec_enrich_derivative(d, urls);
            assert(d1.checksum == d.checksum);
            assert(spec_enrich_derivative(d1, urls) =~= d1);
        }
        assert(e2.derivatives =~= e1.derivatives);
        assert(e2 =~= e1);
    }
    assert(spec_enrich(spec_enrich(photos, urls), urls) =~= spec_enrich(photos, urls));
}

/// Enriching with an empty mapping changes nothing: no checksum can match,
/// so every derivative keeps the URL it had.
pub proof fn lemma_enrich_empty(photos: Seq<ImageModel>)
    ensures
        spec_enrich(photos, Seq::<(Seq<char>, Seq<char>)>::empty()) == photos,
{
    let urls = Seq::<(Seq<char>, Seq<char>)>::empty();
    assert forall|i: int| 0 <= i < photos.len() implies #[trigger] spec_enrich(photos, urls)[i]
        == photos[i] by {
        let img = photos[i];
        let e = spec_enrich_image(img, urls);
        assert forall|j: int| 0 <= j < img.derivatives.len() implies #[trigger] e.derivatives[j]
            == img.derivatives[j] by {
            assert(spec_enrich_derivative(img.derivatives[j].1, urls) =~= img.derivatives[j].1);
        }
        assert(e.derivatives =~= img.derivatives);
        assert(e =~= img);
    }
    assert(spec_enrich(photos, urls) =~= photos);
}

} // verus!
