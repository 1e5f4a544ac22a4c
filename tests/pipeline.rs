use adingest::ads::Ad;
use adingest::extract::{get_image, get_images, get_message, get_title, ExtractError};
use adingest::pipeline::{collect_batch, Images};
use adingest::urls::{UrlParts, ASSET_ENDPOINT};

fn ad_markup(gallery_two: &str) -> String {
    format!(
        "<div class=\"_5pcr userContentWrapper\"><h5><a href=\"https://www.facebook.com/valerian\">Valerian</a></h5>\
         <img src=\"https://scontent.xx.fbcdn.net/v/t1.0-1/thumb.jpg\">\
         <div class=\"_5pbx userContent\"><p>See it in 3D this Friday.</p></div>\
         <img src=\"https://scontent.xx.fbcdn.net/v/t1.0-9/one.jpg\">\
         <img src=\"{}\"></div>",
        gallery_two
    )
}

fn saved_ad(html: &str) -> Ad {
    Ad {
        id: "test".to_string(),
        html: html.to_string(),
        political: 1,
        not_political: 2,
        title: get_title(html).unwrap(),
        message: get_message(html).unwrap(),
        thumbnail: get_image(html).unwrap(),
        created_at: 0,
        updated_at: 0,
        lang: "US".to_string(),
        images: get_images(html).unwrap(),
        impressions: 1,
        political_probability: 0,
        targeting: None,
        suppressed: false,
    }
}

fn cdn_ad() -> Ad {
    saved_ad(&ad_markup("https://scontent.xx.fbcdn.net/v/t1.0-9/two.jpg"))
}

#[test]
fn image_parsing() {
    let saved_ad = cdn_ad();
    let urls = saved_ad.image_urls();
    let images = Images::from_ad(&saved_ad, &urls).unwrap();
    assert!(images.html != saved_ad.html);
    assert!(!images.html.contains("fbcdn"));
    assert!(!images.html.contains("html"));
    assert!(images.images.len() == saved_ad.images.len());
    assert!(images.thumbnail.unwrap() != saved_ad.thumbnail);
}

#[test]
fn parses_address_parts() {
    let u = UrlParts::parse("https://scontent.xx.fbcdn.net/v/a.jpg?oh=1&url=x").unwrap();
    assert_eq!(u.host.as_deref(), Some("scontent.xx.fbcdn.net"));
    assert_eq!(u.path, "/v/a.jpg");
    assert_eq!(u.query, vec![("oh".to_string(), "1".to_string()), ("url".to_string(), "x".to_string())]);
    assert!(UrlParts::parse("not a url").is_none());
    assert!(UrlParts::parse("/relative/path.jpg").is_none());
}

#[test]
fn trust_policy() {
    let trusted = |s: &str| UrlParts::parse(s).unwrap().is_trusted_source();
    assert!(trusted("https://scontent.xx.fbcdn.net/a.jpg"));
    assert!(trusted("https://fbcdn.net/a.jpg"));
    assert!(trusted("https://pp-facebook-ads.s3.amazonaws.com/a.jpg"));
    assert!(!trusted("https://evil.example.com/a.jpg"));
    assert!(!trusted("https://fbcdn.net.evil.com/a.jpg"));
    assert!(!trusted("https://other.s3.amazonaws.com/a.jpg"));
}

#[test]
fn stored_images_are_not_uploaded_again() {
    let stored = UrlParts::parse("https://pp-facebook-ads.s3.amazonaws.com/v/a.jpg").unwrap();
    assert!(stored.is_stored());
    let cdn = UrlParts::parse("https://scontent.xx.fbcdn.net/v/a.jpg").unwrap();
    assert!(!cdn.is_stored());
}

#[test]
fn redirect_target_is_resolved() {
    let wrapped = UrlParts::parse(
        "https://external.xx.fbcdn.net/safe_image.php?d=1&url=https%3A%2F%2Fcdn.example.org%2Freal.png",
    )
    .unwrap();
    let target = wrapped.real_target();
    assert_eq!(target.host.as_deref(), Some("cdn.example.org"));
    assert_eq!(target.path, "/real.png");
    let plain = UrlParts::parse("https://a.fbcdn.net/p.jpg?url=%20not%20a%20url").unwrap();
    assert_eq!(plain.real_target().text, plain.text);
    let last = UrlParts::parse("https://a.fbcdn.net/p.jpg?url=https://x.org/1&url=https://y.org/2").unwrap();
    assert_eq!(last.real_target().host.as_deref(), Some("y.org"));
}

#[test]
fn upload_key_and_canonical_address() {
    let u = UrlParts::parse("https://scontent.xx.fbcdn.net/v/t1/a.jpg?oh=2").unwrap();
    assert_eq!(u.upload_key(), "v/t1/a.jpg");
    assert_eq!(
        u.canonical_url(),
        "https://pp-facebook-ads.s3.amazonaws.com/v/t1/a.jpg"
    );
}

#[test]
fn third_party_gallery_image_is_never_fetched_or_kept() {
    let ad = saved_ad(&ad_markup("https://evil.example.com/v/evil.jpg"));
    let plan = ad.fetch_plan();
    assert_eq!(plan.len(), 2);
    assert!(plan.iter().all(|u| u.host.as_deref() != Some("evil.example.com")));
    let outcomes = vec![true; plan.len()];
    let collected = collect_batch(&plan, &outcomes).unwrap();
    let images = Images::from_ad(&ad, &collected).unwrap();
    assert_eq!(images.images, vec![format!("{}v/t1.0-9/one.jpg", ASSET_ENDPOINT)]);
    assert!(!images.html.contains("evil.example.com"));
}

#[test]
fn successful_run_rehomes_every_image() {
    let mut ad = cdn_ad();
    let plan = ad.fetch_plan();
    assert_eq!(plan.len(), 3);
    let outcomes = vec![true, true, true];
    let collected = collect_batch(&plan, &outcomes).unwrap();
    let images = Images::from_ad(&ad, &collected).unwrap();
    ad.apply_images(&images);
    assert_eq!(ad.thumbnail, format!("{}v/t1.0-1/thumb.jpg", ASSET_ENDPOINT));
    assert_eq!(
        ad.images,
        vec![
            format!("{}v/t1.0-9/one.jpg", ASSET_ENDPOINT),
            format!("{}v/t1.0-9/two.jpg", ASSET_ENDPOINT)
        ]
    );
    assert!(!ad.html.contains("fbcdn.net"));
    assert_eq!(ad.title, "Valerian");
    assert_eq!(ad.message, "<p>See it in 3D this Friday.</p>");
    assert_eq!(ad.political, 1);
}

#[test]
fn any_failure_discards_the_batch() {
    let ad = cdn_ad();
    let before = ad.html.clone();
    let plan = ad.fetch_plan();
    assert!(collect_batch(&plan, &vec![true, false, true]).is_none());
    assert!(collect_batch(&plan, &vec![true, false]).is_none());
    assert!(collect_batch(&plan, &vec![false, true, true]).is_none());
    assert!(collect_batch(&plan, &vec![true, true, true]).is_some());
    assert_eq!(ad.html, before);
}

#[test]
fn uncollected_sources_are_blanked() {
    let ad = cdn_ad();
    let plan = ad.fetch_plan();
    let only_thumb = vec![plan[0].clone_parts()];
    let images = Images::from_ad(&ad, &only_thumb).unwrap();
    assert_eq!(images.images.len(), 0);
    assert_eq!(images.html.matches("src=\"\"").count(), 2);
    assert!(images.thumbnail.is_some());
}

#[test]
fn rewrite_without_container_fails() {
    let html = "<h5><a>t</a></h5><img src=\"https://a.fbcdn.net/x.jpg\"><span>m</span>";
    let mut ad = cdn_ad();
    ad.html = html.to_string();
    let r = Images::from_ad(&ad, &Vec::new());
    assert!(matches!(r, Err(ExtractError::Container)));
}

#[test]
fn rewrite_without_title_fails() {
    let html = "<div><img src=\"https://a.fbcdn.net/x.jpg\"><span>m</span></div>";
    let mut ad = cdn_ad();
    ad.html = html.to_string();
    let r = Images::from_ad(&ad, &Vec::new());
    assert!(matches!(r, Err(ExtractError::Title)));
}
