use adingest::ads::{Ad, AdPost, NewAd, StoreError};
use adingest::query::{QueryOptions, QueryOrder, SearchConfig};

const HTML: &str = "<div><h5><a>Title</a></h5><img src=\"https://a.fbcdn.net/t.jpg\"><div class=\"userContent\"><p>msg</p></div></div>";

fn post(political: Option<bool>, targeting: Option<&str>) -> AdPost {
    AdPost {
        id: "ad-1".to_string(),
        html: HTML.to_string(),
        political,
        targeting: targeting.map(|t| t.to_string()),
    }
}

fn candidate(political: Option<bool>, targeting: Option<&str>) -> NewAd {
    NewAd::new(&post(political, targeting), "en-US").unwrap()
}

fn counters(ad: &Ad) -> (i32, i32, i32) {
    (ad.political, ad.not_political, ad.impressions)
}

fn record(lang: &str, probability: u32, suppressed: bool) -> Ad {
    let mut ad = candidate(None, None).insert_record(5);
    ad.lang = lang.to_string();
    ad.political_probability = probability;
    ad.suppressed = suppressed;
    ad
}

#[test]
fn classification_picks_one_counter() {
    let p = candidate(Some(true), None);
    assert_eq!((p.political, p.not_political, p.impressions), (1, 0, 0));
    let n = candidate(Some(false), None);
    assert_eq!((n.political, n.not_political, n.impressions), (0, 1, 0));
    let u = candidate(None, None);
    assert_eq!((u.political, u.not_political, u.impressions), (0, 0, 1));
}

#[test]
fn repeated_submissions_each_raise_one_counter() {
    let first = candidate(Some(true), None);
    let mut ad = first.save(None, 10).unwrap();
    assert_eq!(counters(&ad), (1, 0, 0));
    assert_eq!(ad.created_at, 10);
    ad = candidate(Some(true), None).save(Some(ad), 11).unwrap();
    assert_eq!(counters(&ad), (2, 0, 0));
    ad = candidate(Some(false), None).save(Some(ad), 12).unwrap();
    assert_eq!(counters(&ad), (2, 1, 0));
    ad = candidate(None, None).save(Some(ad), 13).unwrap();
    assert_eq!(counters(&ad), (2, 1, 1));
    assert_eq!(ad.updated_at, 13);
    assert_eq!(ad.created_at, 10);
}

#[test]
fn merge_leaves_content_untouched() {
    let mut ad = candidate(None, None).insert_record(1);
    ad.title = "kept".to_string();
    ad.html = "<div>kept</div>".to_string();
    let mut other = candidate(Some(false), None);
    other.title = "ignored".to_string();
    assert!(ad.apply_submission(&other, 2));
    assert_eq!(ad.title, "kept");
    assert_eq!(ad.html, "<div>kept</div>");
}

#[test]
fn counter_overflow_is_refused() {
    let mut ad = candidate(None, None).insert_record(1);
    ad.impressions = i32::MAX;
    let r = candidate(None, None).save(Some(ad), 2);
    assert!(matches!(r, Err(StoreError::CounterOverflow)));
    let mut ad = candidate(None, None).insert_record(1);
    ad.impressions = i32::MAX;
    assert!(!ad.apply_submission(&candidate(None, None), 3));
    assert_eq!(ad.impressions, i32::MAX);
    assert_eq!(ad.updated_at, 1);
}

#[test]
fn suppress_twice_equals_once() {
    let mut ad = candidate(None, None).insert_record(1);
    ad.suppress();
    assert!(ad.suppressed);
    ad.suppress();
    assert!(ad.suppressed);
    assert!(ad.apply_submission(&candidate(Some(true), None), 2));
    assert!(ad.suppressed);
}

#[test]
fn targeting_is_set_once() {
    let ad = candidate(None, Some("A")).save(None, 1).unwrap();
    assert_eq!(ad.targeting.as_deref(), Some("A"));
    let ad = candidate(None, Some("B")).save(Some(ad), 2).unwrap();
    assert_eq!(ad.targeting.as_deref(), Some("A"));

    let ad = candidate(None, None).save(None, 1).unwrap();
    assert_eq!(ad.targeting, None);
    let later = candidate(None, Some("A"));
    assert!(later.needs_targeting_update(&ad));
    let ad = later.save(Some(ad), 2).unwrap();
    assert_eq!(ad.targeting.as_deref(), Some("A"));
    let again = candidate(None, Some("B"));
    assert!(!again.needs_targeting_update(&ad));
    let ad = again.save(Some(ad), 3).unwrap();
    assert_eq!(ad.targeting.as_deref(), Some("A"));
}

fn options(search: Option<&str>, page: Option<&str>) -> QueryOptions {
    QueryOptions {
        search: search.map(|s| s.to_string()),
        page: page.map(|p| p.to_string()),
    }
}

#[test]
fn page_offset_is_clamped() {
    assert_eq!(options(None, Some("51")).offset(), 1000);
    assert_eq!(options(None, Some("50")).offset(), 1000);
    assert_eq!(options(None, Some("49")).offset(), 980);
    assert_eq!(options(None, Some("3")).offset(), 60);
    assert_eq!(options(None, Some("+2")).offset(), 40);
    assert_eq!(options(None, Some("0")).offset(), 0);
    assert_eq!(options(None, None).offset(), 0);
}

#[test]
fn unparsable_page_is_zero() {
    assert_eq!(options(None, Some("abc")).offset(), 0);
    assert_eq!(options(None, Some("")).offset(), 0);
    assert_eq!(options(None, Some("-1")).offset(), 0);
    assert_eq!(options(None, Some("18446744073709551616")).offset(), 0);
    assert_eq!(options(None, Some("18446744073709551615")).offset(), 1000);
}

#[test]
fn query_without_search_orders_by_recency() {
    let q = Ad::get_ads_by_lang("en-US", &options(None, Some("2")));
    assert_eq!(q.lang, "en-US");
    assert!(q.search.is_none());
    assert_eq!(q.order, QueryOrder::Newest);
    assert_eq!(q.offset, 40);
    assert_eq!(q.limit, 20);
    assert_eq!(q.min_political_probability, 800_000);
}

#[test]
fn query_search_uses_language_configuration() {
    let de = Ad::get_ads_by_lang("de-DE", &options(Some("wahl"), None));
    let s = de.search.unwrap();
    assert_eq!(s.config, SearchConfig::German);
    assert_eq!(s.terms, "wahl");
    assert_eq!(de.order, QueryOrder::Relevance);
    let en = Ad::get_ads_by_lang("en-US", &options(Some("vote"), Some("1")));
    assert_eq!(en.search.unwrap().config, SearchConfig::English);
    assert_eq!(en.order, QueryOrder::Relevance);
    assert_eq!(en.offset, 20);
}

#[test]
fn query_filters_probability_and_suppression() {
    let q = Ad::get_ads_by_lang("en-US", &options(None, None));
    assert!(!q.admits(&record("en-US", 790_000, false)));
    assert!(!q.admits(&record("en-US", 810_000, true)));
    assert!(!q.admits(&record("de-DE", 810_000, false)));
    assert!(!q.admits(&record("en-US", 800_000, false)));
    assert!(q.admits(&record("en-US", 810_000, false)));
}
