//! The persisted ad record: building it from a submission, merging later
//! submissions into it, suppression, and the read query over records.

use vstd::prelude::*;
use crate::extract::{
    gallery_of, get_image, get_images, get_message, get_title, message_of, strs_view,
    thumbnail_of, title_of, ExtractError,
};
use crate::urls::opt_str_view;

verus! {

/// One incoming observation of an ad.
pub struct AdPost {
    pub id: String,
    pub html: String,
    /// `Some(true)`: confirmed political; `Some(false)`: confirmed not
    /// political; `None`: unclassified, counted as an impression.
    pub political: Option<bool>,
    pub targeting: Option<String>,
}

/// The durable record for one ad id.
pub struct Ad {
    pub id: String,
    pub html: String,
    pub political: i32,
    pub not_political: i32,
    pub title: String,
    pub message: String,
    pub thumbnail: String,
    /// Microseconds since the Unix epoch.
    pub created_at: i64,
    /// Microseconds since the Unix epoch.
    pub updated_at: i64,
    pub lang: String,
    pub images: Vec<String>,
    pub impressions: i32,
    /// Externally computed probability that the ad is political, in millionths.
    pub political_probability: u32,
    pub targeting: Option<String>,
    pub suppressed: bool,
}

/// A candidate record built from one submission.
pub struct NewAd {
    pub id: String,
    pub html: String,
    pub political: i32,
    pub not_political: i32,
    pub title: String,
    pub message: String,
    pub thumbnail: String,
    pub lang: String,
    pub images: Vec<String>,
    pub impressions: i32,
    pub targeting: Option<String>,
}

/// A store write that would take a counter out of its range.
#[derive(Clone, Copy, Debug, PartialEq, Eq, Structural)]
pub enum StoreError {
    CounterOverflow,
}

/// The political, not-political and impression contributions of one
/// classification: exactly one of them is 1.
pub open spec fn contributions(political: Option<bool>) -> (int, int, int) {
    match political {
        Some(true) => (1, 0, 0),
        Some(false) => (0, 1, 0),
        None => (0, 0, 1),
    }
}

/// The first extraction failure of `html`, trying thumbnail, gallery, message
/// and title in that order.
pub open spec fn extraction_error(html: Seq<char>) -> Option<ExtractError> {
    if thumbnail_of(html) is None {
        Some(ExtractError::Image)
    } else if gallery_of(html) is None {
        Some(ExtractError::Image)
    } else if message_of(html) is None {
        Some(ExtractError::Message)
    } else if title_of(html) is None {
        Some(ExtractError::Title)
    } else {
        None
    }
}

/// Targeting after a write of `candidate`: the first non-empty value is kept.
pub open spec fn targeting_after(current: Option<Seq<char>>, candidate: Option<Seq<char>>) -> Option<
    Seq<char>,
> {
    if current is None {
        candidate
    } else {
        current
    }
}

/// The record with its suppression flag set.
pub open spec fn suppressed_record(ad: Ad) -> Ad {
    Ad { suppressed: true, ..ad }
}

fn clone_opt(o: &Option<String>) -> (r: Option<String>)
    ensures
        opt_str_view(r) == opt_str_view(*o),
{
    match o {
        Some(s) => Some(s.clone()),
        None => None,
    }
}

pub fn clone_strings(v: &Vec<String>) -> (r: Vec<String>)
    ensures
        strs_view(r@) == strs_view(v@),
{
    let mut out: Vec<String> = Vec::new();
    let mut i: usize = 0;
    while i < v.len()
        invariant
            i <= v@.len(),
            out@.len() == i,
            forall|j: int| 0 <= j < i ==> #[trigger] out@[j]@ == v@[j]@,
        decreases v@.len() - i,
    {
        out.push(v[i].clone());
        i = i + 1;
    }
    assert(strs_view(out@) =~= strs_view(v@));
    out
}

impl NewAd {
    /// The candidate's counter contributions are those of one classification.
    pub open spec fn wf(&self) -> bool {
        exists|p: Option<bool>|
            contributions(p) == (self.political as int, self.not_political as int, self.impressions as int)
    }

    /// Builds the candidate for `ad`, extracting thumbnail, gallery, message
    /// and title from its markup; fails with the first of them that is missing.
    pub fn new(ad: &AdPost, lang: &str) -> (r: Result<NewAd, ExtractError>)
        ensures
            match r {
                Ok(n) => {
                    &&& extraction_error(ad.html@) is None
                    &&& n.id@ == ad.id@
                    &&& n.html@ == ad.html@
                    &&& n.lang@ == lang@
                    &&& Some(n.thumbnail@) == thumbnail_of(ad.html@)
                    &&& Some(strs_view(n.images@)) == gallery_of(ad.html@)
                    &&& Some(n.message@) == message_of(ad.html@)
                    &&& Some(n.title@) == title_of(ad.html@)
                    &&& (n.political as int, n.not_political as int, n.impressions as int)
                        == contributions(ad.political)
                    &&& opt_str_view(n.targeting) == opt_str_view(ad.targeting)
                    &&& n.wf()
                },
                Err(e) => extraction_error(ad.html@) == Some(e),
            },
    {
        let html = ad.html.as_str();
        let thumbnail = match get_image(html) {
            Ok(t) => t,
            Err(e) => return Err(e),
        };
        let images = match get_images(html) {
            Ok(v) => v,
            Err(e) => return Err(e),
        };
        let message = match get_message(html) {
            Ok(m) => m,
            Err(e) => return Err(e),
        };
        let title = match get_title(html) {
            Ok(t) => t,
            Err(e) => return Err(e),
        };
        let political: i32 = match ad.political {
            Some(true) => 1,
            _ => 0,
        };
        let not_political: i32 = match ad.political {
            Some(false) => 1,
            _ => 0,
        };
        let impressions: i32 = match ad.political {
            None => 1,
            _ => 0,
        };
        let n = NewAd {
            id: ad.id.clone(),
            html: ad.html.clone(),
            political,
            not_political,
            title,
            message,
            thumbnail,
            lang: lang.to_string(),
            images,
            impressions,
            targeting: clone_opt(&ad.targeting),
        };
        assert(contributions(ad.political) == (
            n.political as int,
            n.not_political as int,
            n.impressions as int,
        ));
        Ok(n)
    }

    /// Whether writing this candidate over `stored` must also set targeting:
    /// only where it carries targeting and the record has none yet.
    pub fn needs_targeting_update(&self, stored: &Ad) -> (r: bool)
        ensures
            r == (self.targeting is Some && stored.targeting is None),
    {
        self.targeting.is_some() && stored.targeting.is_none()
    }

    /// The record inserted for an id seen for the first time, at time `now`.
    pub fn insert_record(&self, now: i64) -> (r: Ad)
        ensures
            inserted(*self, now, r),
    {
        Ad {
            id: self.id.clone(),
            html: self.html.clone(),
            political: self.political,
            not_political: self.not_political,
            title: self.title.clone(),
            message: self.message.clone(),
            thumbnail: self.thumbnail.clone(),
            created_at: now,
            updated_at: now,
            lang: self.lang.clone(),
            images: clone_strings(&self.images),
            impressions: self.impressions,
            political_probability: 0,
            targeting: clone_opt(&self.targeting),
            suppressed: false,
        }
    }

    /// The record stored after writing this candidate at time `now`: inserted
    /// where no record `existing` holds the id, else merged into it.
    pub fn save(&self, existing: Option<Ad>, now: i64) -> (r: Result<Ad, StoreError>)
        ensures
            match existing {
                None => r is Ok && inserted(*self, now, r->Ok_0),
                Some(old) => match r {
                    Ok(a) => merged(old, *self, now, a),
                    Err(e) => e == StoreError::CounterOverflow && !fits_merge(old, *self),
                },
            },
    {
        match existing {
            None => Ok(self.insert_record(now)),
            Some(old) => {
                let mut a = old;
                if a.apply_submission(self, now) {
                    Ok(a)
                } else {
                    Err(StoreError::CounterOverflow)
                }
            },
        }
    }
}

/// `ad` is the record inserted for `cand` at time `now`: every candidate field
/// verbatim, both timestamps `now`, no probability yet, not suppressed.
pub open spec fn inserted(cand: NewAd, now: i64, ad: Ad) -> bool {
    &&& ad.id@ == cand.id@
    &&& ad.html@ == cand.html@
    &&& ad.title@ == cand.title@
    &&& ad.message@ == cand.message@
    &&& ad.thumbnail@ == cand.thumbnail@
    &&& ad.lang@ == cand.lang@
    &&& strs_view(ad.images@) == strs_view(cand.images@)
    &&& ad.political == cand.political
    &&& ad.not_political == cand.not_political
    &&& ad.impressions == cand.impressions
    &&& opt_str_view(ad.targeting) == opt_str_view(cand.targeting)
    &&& ad.created_at == now
    &&& ad.updated_at == now
    &&& ad.political_probability == 0
    &&& !ad.suppressed
}

/// The counters of `ad` can take the candidate's contributions.
pub open spec fn fits_merge(ad: Ad, cand: NewAd) -> bool {
    &&& i32::MIN <= ad.political + cand.political <= i32::MAX
    &&& i32::MIN <= ad.not_political + cand.not_political <= i32::MAX
    &&& i32::MIN <= ad.impressions + cand.impressions <= i32::MAX
}

/// `after` is `before` with the candidate's contributions added to the
/// counters, `updated_at` set to `now`, targeting written once, and every
/// content field and the suppression flag untouched.
pub open spec fn merged(before: Ad, cand: NewAd, now: i64, after: Ad) -> bool {
    &&& after.political == before.political + cand.political
    &&& after.not_political == before.not_political + cand.not_political
    &&& after.impressions == before.impressions + cand.impressions
    &&& after.updated_at == now
    &&& opt_str_view(after.targeting) == targeting_after(
        opt_str_view(before.targeting),
        opt_str_view(cand.targeting),
    )
    &&& after.id == before.id
    &&& after.html == before.html
    &&& after.title == before.title
    &&& after.message == before.message
    &&& after.thumbnail == before.thumbnail
    &&& after.images == before.images
    &&& after.lang == before.lang
    &&& after.created_at == before.created_at
    &&& after.political_probability == before.political_probability
    &&& after.suppressed == before.suppressed
}

impl Ad {
    /// Merges a later submission for this id: adds its counter contributions,
    /// stamps `updated_at` and writes targeting only if none is stored. Returns
    /// `false`, leaving the record as it was, where a counter would overflow.
    pub fn apply_submission(&mut self, cand: &NewAd, now: i64) -> (r: bool)
        ensures
            r == fits_merge(*old(self), *cand),
            r ==> merged(*old(self), *cand, now, *final(self)),
            !r ==> *final(self) == *old(self),
    {
        let p = self.political as i64 + cand.political as i64;
        let np = self.not_political as i64 + cand.not_political as i64;
        let im = self.impressions as i64 + cand.impressions as i64;
        if p < i32::MIN as i64 || p > i32::MAX as i64 || np < i32::MIN as i64 || np
            > i32::MAX as i64 || im < i32::MIN as i64 || im > i32::MAX as i64 {
            return false;
        }
        self.political = p as i32;
        self.not_political = np as i32;
        self.impressions = im as i32;
        self.updated_at = now;
        if cand.needs_targeting_update(self) {
            self.targeting = clone_opt(&cand.targeting);
        }
        true
    }

    /// Hides the record from reads; it is never unset.
    pub fn suppress(&mut self)
        ensures
            *final(self) == suppressed_record(*old(self)),
    {
        self.suppressed = true;
    }
}

/// Each merged submission of a well-formed candidate raises exactly one of the
/// three counters, by exactly one, and leaves the other two as they were.
pub proof fn lemma_one_counter_per_submission(before: Ad, cand: NewAd, now: i64, after: Ad)
    requires
        cand.wf(),
        merged(before, cand, now, after),
    ensures
        ({
            let d = (
                after.political - before.political,
                after.not_political - before.not_political,
                after.impressions - before.impressions,
            );
            d == (1int, 0int, 0int) || d == (0int, 1int, 0int) || d == (0int, 0int, 1int)
        }),
{
    let p = choose|p: Option<bool>|
        contributions(p) == (cand.political as int, cand.not_political as int, cand.impressions as int);
    assert(contributions(p) == (cand.political as int, cand.not_political as int, cand.impressions as int));
}

/// Suppressing twice leaves the same record as suppressing once, and the
/// record is suppressed afterwards.
pub proof fn lemma_suppress_idempotent(ad: Ad)
    ensures
        suppressed_record(suppressed_record(ad)) == suppressed_record(ad),
        suppressed_record(ad).suppressed,
{
}

/// Merging a submission never clears suppression.
pub proof fn lemma_merge_keeps_suppression(before: Ad, cand: NewAd, now: i64, after: Ad)
    requires
        before.suppressed,
        merged(before, cand, now, after),
    ensures
        after.suppressed,
{
}

/// Targeting already stored survives any later submission.
pub proof fn lemma_targeting_kept(before: Ad, cand: NewAd, now: i64, after: Ad)
    requires
        before.targeting is Some,
        merged(before, cand, now, after),
    ensures
        opt_str_view(after.targeting) == opt_str_view(before.targeting),
{
}

/// Targeting is written once: after a submission carrying targeting `a` and a
/// later one carrying `b`, the record keeps `a`.
pub proof fn lemma_targeting_first_write_wins(
    start: Ad,
    first: NewAd,
    second: NewAd,
    t1: i64,
    t2: i64,
    mid: Ad,
    end: Ad,
)
    requires
        start.targeting is None,
        first.targeting is Some,
        merged(start, first, t1, mid),
        merged(mid, second, t2, end),
    ensures
        opt_str_view(end.targeting) == opt_str_view(first.targeting),
{
}

} // verus!
