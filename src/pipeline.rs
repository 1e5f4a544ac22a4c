//! Decisions of the image pipeline: which addresses are fetched, which fetched
//! images are uploaded, how a batch is collected, and how the record's content
//! is recomputed from the stored images.

use vstd::prelude::*;
use crate::ads::Ad;
use crate::extract::{
    container_of, get_container, get_message, get_title, image_sources, message_of,
    rewrite_sources, selected_attrs, strs_view, title_of, with_attrs, ExtractError,
    IMAGE_SELECTOR, SOURCE_ATTR,
};
use crate::text::{occurs_in, str_contains, str_eq};
use crate::urls::{
    canonical_of, opt_str_view, parsed_url, resolved, trusted_host, UrlModel, UrlParts,
    ASSET_ENDPOINT,
};

verus! {

/// Content fields recomputed from the images that reached the asset store.
pub struct Images {
    /// `None` leaves the stored thumbnail as it is.
    pub thumbnail: Option<String>,
    pub images: Vec<String>,
    pub title: String,
    pub message: String,
    pub html: String,
}

pub open spec fn urls_view(v: Seq<UrlParts>) -> Seq<UrlModel> {
    v.map_values(|u: UrlParts| u@)
}

/// The record's thumbnail followed by its gallery.
pub open spec fn image_texts(ad: Ad) -> Seq<Seq<char>> {
    seq![ad.thumbnail@] + strs_view(ad.images@)
}

/// The texts that parse, parsed, in order.
pub open spec fn parsed_all(texts: Seq<Seq<char>>) -> Seq<UrlModel>
    decreases texts.len(),
{
    if texts.len() == 0 {
        Seq::empty()
    } else {
        match parsed_url(texts.last()) {
            Some(u) => parsed_all(texts.drop_last()).push(u),
            None => parsed_all(texts.drop_last()),
        }
    }
}

/// The addresses fetched for `texts`: those that parse and are trusted,
/// resolved to their real targets, in order.
pub open spec fn plan_of(texts: Seq<Seq<char>>) -> Seq<UrlModel>
    decreases texts.len(),
{
    if texts.len() == 0 {
        Seq::empty()
    } else {
        let rest = plan_of(texts.drop_last());
        match parsed_url(texts.last()) {
            Some(u) => if trusted_host(u.1) {
                rest.push(resolved(u))
            } else {
                rest
            },
            None => rest,
        }
    }
}

impl Ad {
    /// The thumbnail and gallery addresses that parse, in that order.
    pub fn image_urls(&self) -> (r: Vec<UrlParts>)
        ensures
            urls_view(r@) == parsed_all(image_texts(*self)),
    {
        let ghost texts = image_texts(*self);
        let mut out: Vec<UrlParts> = Vec::new();
        let mut i: usize = 0;
        let n = self.images.len();
        assert(texts.subrange(0, 0) =~= Seq::<Seq<char>>::empty());
        while i <= n
            invariant
                n + 1 == texts.len(),
                texts == image_texts(*self),
                i <= n + 1,
                urls_view(out@) == parsed_all(texts.subrange(0, i as int)),
            decreases n + 1 - i,
        {
            let t = if i == 0 {
                self.thumbnail.as_str()
            } else {
                self.images[i - 1].as_str()
            };
            assert(t@ == texts[i as int]);
            assert(texts.subrange(0, i + 1).drop_last() =~= texts.subrange(0, i as int));
            match UrlParts::parse(t) {
                Some(u) => {
                    out.push(u);
                    assert(urls_view(out@) =~= urls_view(out@.drop_last()).push(u@));
                },
                None => {},
            }
            if i == n {
                assert(texts.subrange(0, n + 1) =~= texts);
                return out;
            }
            i = i + 1;
        }
        assert(texts.subrange(0, n + 1) =~= texts);
        out
    }

    /// The addresses to fetch: parsed thumbnail and gallery addresses whose
    /// host is trusted, each resolved to its real target. Untrusted addresses
    /// are dropped here and never fetched.
    pub fn fetch_plan(&self) -> (r: Vec<UrlParts>)
        ensures
            urls_view(r@) == plan_of(image_texts(*self)),
    {
        let ghost texts = image_texts(*self);
        let mut out: Vec<UrlParts> = Vec::new();
        let mut i: usize = 0;
        let n = self.images.len();
        assert(texts.subrange(0, 0) =~= Seq::<Seq<char>>::empty());
        while i <= n
            invariant
                n + 1 == texts.len(),
                texts == image_texts(*self),
                i <= n + 1,
                urls_view(out@) == plan_of(texts.subrange(0, i as int)),
            decreases n + 1 - i,
        {
            let t = if i == 0 {
                self.thumbnail.as_str()
            } else {
                self.images[i - 1].as_str()
            };
            assert(t@ == texts[i as int]);
            assert(texts.subrange(0, i + 1).drop_last() =~= texts.subrange(0, i as int));
            match UrlParts::parse(t) {
                Some(u) => {
                    if u.is_trusted_source() {
                        let target = u.real_target();
                        out.push(target);
                        assert(urls_view(out@) =~= urls_view(out@.drop_last()).push(target@));
                    }
                },
                None => {},
            }
            if i == n {
                assert(texts.subrange(0, n + 1) =~= texts);
                return out;
            }
            i = i + 1;
        }
        assert(texts.subrange(0, n + 1) =~= texts);
        out
    }
}

/// Every fetched address is the real target of a trusted address of the record.
pub proof fn lemma_plan_only_trusted(texts: Seq<Seq<char>>, k: int)
    requires
        0 <= k < plan_of(texts).len(),
    ensures
        exists|j: int|
            0 <= j < texts.len() && (#[trigger] parsed_url(texts[j])) is Some && trusted_host(
                parsed_url(texts[j])->Some_0.1,
            ) && plan_of(texts)[k] == resolved(parsed_url(texts[j])->Some_0),
    decreases texts.len(),
{
    let t = texts.drop_last();
    let rest = plan_of(t);
    if k < rest.len() {
        lemma_plan_only_trusted(t, k);
        let j = choose|j: int|
            0 <= j < t.len() && (#[trigger] parsed_url(t[j])) is Some && trusted_host(
                parsed_url(t[j])->Some_0.1,
            ) && rest[k] == resolved(parsed_url(t[j])->Some_0);
        assert(texts[j] == t[j]);
    } else {
        let j = texts.len() - 1;
        assert(parsed_url(texts[j]) is Some);
    }
}

/// The batch's collected addresses: all of `plan` where every item was fetched
/// and stored, in order; nothing where any item failed.
pub fn collect_batch(plan: &Vec<UrlParts>, outcomes: &Vec<bool>) -> (r: Option<Vec<UrlParts>>)
    ensures
        r is Some <==> (outcomes@.len() == plan@.len() && forall|i: int|
            0 <= i < outcomes@.len() ==> #[trigger] outcomes@[i]),
        r is Some ==> urls_view(r->Some_0@) == urls_view(plan@),
{
    if outcomes.len() != plan.len() {
        return None;
    }
    let mut out: Vec<UrlParts> = Vec::new();
    let mut i: usize = 0;
    while i < plan.len()
        invariant
            outcomes@.len() == plan@.len(),
            i <= plan@.len(),
            forall|j: int| 0 <= j < i ==> #[trigger] outcomes@[j],
            out@.len() == i,
            forall|j: int| 0 <= j < i ==> (#[trigger] out@[j])@ == plan@[j]@,
        decreases plan@.len() - i,
    {
        if !outcomes[i] {
            return None;
        }
        let u = plan[i].clone_parts();
        out.push(u);
        i = i + 1;
    }
    assert(urls_view(out@) =~= urls_view(plan@));
    Some(out)
}

/// The canonical address of the first stored image whose path occurs in the
/// recorded thumbnail.
pub open spec fn thumb_from(thumb: Seq<char>, imgs: Seq<UrlModel>) -> Option<Seq<char>>
    decreases imgs.len(),
{
    if imgs.len() == 0 {
        None
    } else if occurs_in(imgs[0].2, thumb) {
        Some(canonical_of(imgs[0].2))
    } else {
        thumb_from(thumb, imgs.drop_first())
    }
}

/// A stored image belongs to the gallery: its path occurs in no chosen
/// thumbnail and in some recorded gallery address.
pub open spec fn in_gallery(x: UrlModel, thumb: Option<Seq<char>>, recorded: Seq<Seq<char>>) -> bool {
    &&& !(thumb is Some && occurs_in(x.2, thumb->Some_0))
    &&& exists|j: int| 0 <= j < recorded.len() && occurs_in(x.2, #[trigger] recorded[j])
}

/// Canonical addresses of the stored images that belong to the gallery.
pub open spec fn gallery_from(thumb: Option<Seq<char>>, recorded: Seq<Seq<char>>, imgs: Seq<UrlModel>) -> Seq<
    Seq<char>,
>
    decreases imgs.len(),
{
    if imgs.len() == 0 {
        Seq::empty()
    } else {
        let rest = gallery_from(thumb, recorded, imgs.drop_last());
        if in_gallery(imgs.last(), thumb, recorded) {
            rest.push(canonical_of(imgs.last().2))
        } else {
            rest
        }
    }
}

/// New source of an image node: the canonical address of the stored image with
/// the same path as its (resolved) source, or empty where none was stored; a
/// source that does not parse stays.
pub open spec fn new_source(src: Option<Seq<char>>, imgs: Seq<UrlModel>) -> Seq<char> {
    match src {
        None => Seq::empty(),
        Some(x) => match parsed_url(x) {
            None => x,
            Some(u) => if exists|i: int| 0 <= i < imgs.len() && (#[trigger] imgs[i]).2 == resolved(u).2 {
                canonical_of(resolved(u).2)
            } else {
                Seq::empty()
            },
        },
    }
}

/// The record's markup with every image source rewritten.
pub open spec fn rewritten(html: Seq<char>, imgs: Seq<UrlModel>) -> Option<Seq<char>> {
    match selected_attrs(html, IMAGE_SELECTOR@, SOURCE_ATTR@) {
        Some(a) => with_attrs(
            html,
            IMAGE_SELECTOR@,
            SOURCE_ATTR@,
            a.map_values(|s: Option<Seq<char>>| new_source(s, imgs)),
        ),
        None => None,
    }
}

/// Why recomputing the content fails, if it does: the rewrite itself, then the
/// title, message and block container of the rewritten markup, in that order.
pub open spec fn images_error(html: Seq<char>, imgs: Seq<UrlModel>) -> Option<ExtractError> {
    match rewritten(html, imgs) {
        None => Some(ExtractError::Image),
        Some(doc) => if title_of(doc) is None {
            Some(ExtractError::Title)
        } else if message_of(doc) is None {
            Some(ExtractError::Message)
        } else if container_of(doc) is None {
            Some(ExtractError::Container)
        } else {
            None
        },
    }
}

/// The first stored image whose path occurs in `thumb`, as a canonical address.
fn pick_thumbnail(thumb: &str, imgs: &Vec<UrlParts>) -> (r: Option<String>)
    ensures
        opt_str_view(r) == thumb_from(thumb@, urls_view(imgs@)),
{
    let ghost iv = urls_view(imgs@);
    let mut i: usize = 0;
    assert(iv.subrange(0, iv.len() as int) =~= iv);
    while i < imgs.len()
        invariant
            i <= imgs@.len(),
            iv == urls_view(imgs@),
            thumb_from(thumb@, iv) == thumb_from(thumb@, iv.subrange(i as int, iv.len() as int)),
        decreases imgs@.len() - i,
    {
        let ghost rest = iv.subrange(i as int, iv.len() as int);
        assert(rest.drop_first() =~= iv.subrange(i + 1, iv.len() as int));
        assert(rest[0] == imgs@[i as int]@);
        if str_contains(thumb, imgs[i].path.as_str()) {
            return Some(imgs[i].canonical_url());
        }
        i = i + 1;
    }
    None
}

/// Whether `path` occurs in some recorded gallery address.
fn in_recorded(path: &str, recorded: &Vec<String>) -> (r: bool)
    ensures
        r == exists|j: int| 0 <= j < recorded@.len() && occurs_in(path@, #[trigger] strs_view(recorded@)[j]),
{
    let mut j: usize = 0;
    while j < recorded.len()
        invariant
            j <= recorded@.len(),
            forall|q: int| 0 <= q < j ==> !occurs_in(path@, #[trigger] strs_view(recorded@)[q]),
        decreases recorded@.len() - j,
    {
        if str_contains(recorded[j].as_str(), path) {
            assert(occurs_in(path@, strs_view(recorded@)[j as int]));
            return true;
        }
        j = j + 1;
    }
    false
}

/// The canonical address for the stored image whose path is that of
/// `target`, or empty where none was stored.
fn stored_source(target: &UrlParts, imgs: &Vec<UrlParts>) -> (r: String)
    ensures
        r@ == (if exists|i: int| 0 <= i < imgs@.len() && (#[trigger] urls_view(imgs@)[i]).2 == target@.2 {
            canonical_of(target@.2)
        } else {
            Seq::empty()
        }),
{
    let mut i: usize = 0;
    while i < imgs.len()
        invariant
            i <= imgs@.len(),
            forall|q: int| 0 <= q < i ==> (#[trigger] urls_view(imgs@)[q]).2 != target@.2,
        decreases imgs@.len() - i,
    {
        if str_eq(imgs[i].path.as_str(), target.path.as_str()) {
            assert(urls_view(imgs@)[i as int].2 == target@.2);
            return target.canonical_url();
        }
        i = i + 1;
    }
    String::new()
}

impl Images {
    /// Recomputes the record's content from the images stored for it: the
    /// thumbnail and gallery as canonical addresses, every image source
    /// rewritten to its stored copy or blanked, and title, message and the
    /// first block container taken from the rewritten markup.
    pub fn from_ad(ad: &Ad, images: &Vec<UrlParts>) -> (r: Result<Images, ExtractError>)
        ensures
            match r {
                Ok(im) => {
                    let doc = rewritten(ad.html@, urls_view(images@))->Some_0;
                    &&& images_error(ad.html@, urls_view(images@)) is None
                    &&& opt_str_view(im.thumbnail) == thumb_from(ad.thumbnail@, urls_view(images@))
                    &&& strs_view(im.images@) == gallery_from(
                        opt_str_view(im.thumbnail),
                        strs_view(ad.images@),
                        urls_view(images@),
                    )
                    &&& Some(im.title@) == title_of(doc)
                    &&& Some(im.message@) == message_of(doc)
                    &&& Some(im.html@) == container_of(doc)
                },
                Err(e) => images_error(ad.html@, urls_view(images@)) == Some(e),
            },
    {
        let ghost iv = urls_view(images@);
        let ghost recorded = strs_view(ad.images@);
        let thumbnail = pick_thumbnail(ad.thumbnail.as_str(), images);
        let ghost tv = opt_str_view(thumbnail);
        let mut gallery: Vec<String> = Vec::new();
        let mut i: usize = 0;
        assert(iv.subrange(0, 0) =~= Seq::<UrlModel>::empty());
        while i < images.len()
            invariant
                i <= images@.len(),
                iv == urls_view(images@),
                recorded == strs_view(ad.images@),
                tv == opt_str_view(thumbnail),
                strs_view(gallery@) == gallery_from(tv, recorded, iv.subrange(0, i as int)),
            decreases images@.len() - i,
        {
            let x = &images[i];
            assert(iv.subrange(0, i + 1).drop_last() =~= iv.subrange(0, i as int));
            assert(iv.subrange(0, i + 1).last() == x@);
            let in_thumb = match &thumbnail {
                Some(t) => str_contains(t.as_str(), x.path.as_str()),
                None => false,
            };
            if !in_thumb && in_recorded(x.path.as_str(), &ad.images) {
                let c = x.canonical_url();
                gallery.push(c);
                assert(strs_view(gallery@) =~= strs_view(gallery@.drop_last()).push(c@));
            }
            i = i + 1;
        }
        assert(iv.subrange(0, i as int) =~= iv);
        let sources = match image_sources(ad.html.as_str()) {
            Some(s) => s,
            None => return Err(ExtractError::Image),
        };
        let ghost av = crate::extract::attrs_view(sources@);
        let mut values: Vec<String> = Vec::new();
        let mut k: usize = 0;
        while k < sources.len()
            invariant
                k <= sources@.len(),
                iv == urls_view(images@),
                av == crate::extract::attrs_view(sources@),
                values@.len() == k,
                forall|q: int| 0 <= q < k ==> (#[trigger] values@[q])@ == new_source(av[q], iv),
            decreases sources@.len() - k,
        {
            let v = match &sources[k] {
                None => String::new(),
                Some(src) => match UrlParts::parse(src.as_str()) {
                    None => src.clone(),
                    Some(u) => {
                        let target = u.real_target();
                        stored_source(&target, images)
                    },
                },
            };
            values.push(v);
            k = k + 1;
        }
        assert(strs_view(values@) =~= av.map_values(|s: Option<Seq<char>>| new_source(s, iv)));
        let doc = match rewrite_sources(ad.html.as_str(), &values) {
            Some(d) => d,
            None => return Err(ExtractError::Image),
        };
        let title = match get_title(doc.as_str()) {
            Ok(t) => t,
            Err(e) => return Err(e),
        };
        let message = match get_message(doc.as_str()) {
            Ok(m) => m,
            Err(e) => return Err(e),
        };
        let html = match get_container(doc.as_str()) {
            Ok(h) => h,
            Err(e) => return Err(e),
        };
        Ok(Images { thumbnail, images: gallery, title, message, html })
    }
}

/// `s` lies under the asset store's address space.
pub open spec fn is_canonical(s: Seq<char>) -> bool {
    ASSET_ENDPOINT@.len() <= s.len() && s.subrange(0, ASSET_ENDPOINT@.len() as int) == ASSET_ENDPOINT@
}

proof fn lemma_canonical_of(path: Seq<char>)
    ensures
        is_canonical(canonical_of(path)),
{
    assert(canonical_of(path).subrange(0, ASSET_ENDPOINT@.len() as int) =~= ASSET_ENDPOINT@);
}

/// Every gallery address recomputed from stored images lies under the asset
/// store; no upstream or third-party address remains.
pub proof fn lemma_gallery_canonical(
    thumb: Option<Seq<char>>,
    recorded: Seq<Seq<char>>,
    imgs: Seq<UrlModel>,
    k: int,
)
    requires
        0 <= k < gallery_from(thumb, recorded, imgs).len(),
    ensures
        is_canonical(gallery_from(thumb, recorded, imgs)[k]),
    decreases imgs.len(),
{
    let rest = gallery_from(thumb, recorded, imgs.drop_last());
    if k < rest.len() {
        lemma_gallery_canonical(thumb, recorded, imgs.drop_last(), k);
    } else {
        lemma_canonical_of(imgs.last().2);
    }
}

/// A recomputed thumbnail lies under the asset store.
pub proof fn lemma_thumbnail_canonical(thumb: Seq<char>, imgs: Seq<UrlModel>)
    requires
        thumb_from(thumb, imgs) is Some,
    ensures
        is_canonical(thumb_from(thumb, imgs)->Some_0),
    decreases imgs.len(),
{
    if occurs_in(imgs[0].2, thumb) {
        lemma_canonical_of(imgs[0].2);
    } else {
        lemma_thumbnail_canonical(thumb, imgs.drop_first());
    }
}

impl Ad {
    /// Writes recomputed content over the record: markup, gallery, title and
    /// message, and the thumbnail where one was found. Counters, targeting and
    /// suppression are untouched.
    pub fn apply_images(&mut self, im: &Images)
        ensures
            final(self).html@ == im.html@,
            strs_view(final(self).images@) == strs_view(im.images@),
            final(self).title@ == im.title@,
            final(self).message@ == im.message@,
            final(self).thumbnail@ == match im.thumbnail {
                Some(t) => t@,
                None => old(self).thumbnail@,
            },
            final(self).id == old(self).id,
            final(self).political == old(self).political,
            final(self).not_political == old(self).not_political,
            final(self).impressions == old(self).impressions,
            final(self).created_at == old(self).created_at,
            final(self).updated_at == old(self).updated_at,
            final(self).lang == old(self).lang,
            final(self).political_probability == old(self).political_probability,
            final(self).targeting == old(self).targeting,
            final(self).suppressed == old(self).suppressed,
    {
        self.html = im.html.clone();
        self.images = crate::ads::clone_strings(&im.images);
        self.title = im.title.clone();
        self.message = im.message.clone();
        match &im.thumbnail {
            Some(t) => {
                self.thumbnail = t.clone();
            },
            None => {},
        }
    }
}

} // verus!
