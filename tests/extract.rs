use adingest::ads::{AdPost, NewAd};
use adingest::extract::{get_image, get_images, get_message, get_title, ExtractError};
use kuchiki::traits::TendrilSink;

const MESSAGE: &str = "<p><a class=\"_58cn\" href=\"https://www.facebook.com/hashtag/valerian\"><span class=\"_5afx\"><span class=\"_58cl _5afz\">#</span><span class=\"_58cm\">Valerian</span></span></a> is “the best experience since ‘Avatar.’” See it in 3D and RealD3D theaters this Friday. Get tickets now: <a>ValerianTickets.com</a></p>";

fn ad_markup() -> String {
    format!(
        "<div class=\"_5pcr userContentWrapper\"><h5><a href=\"https://www.facebook.com/valerian\">Valerian</a></h5>\
         <img src=\"https://scontent.xx.fbcdn.net/v/t1.0-1/thumb.jpg\">\
         <div class=\"_5pbx userContent\">{}</div>\
         <img src=\"https://scontent.xx.fbcdn.net/v/t1.0-9/one.jpg\">\
         <img src=\"https://scontent.xx.fbcdn.net/v/t1.0-9/two.jpg\"></div>",
        MESSAGE
    )
}

fn text_of(markup: &str) -> String {
    kuchiki::parse_html().one(markup).text_contents()
}

#[test]
fn ad_parsing() {
    let post = AdPost {
        id: "test".to_string(),
        html: ad_markup(),
        political: None,
        targeting: None,
    };
    let new_ad = NewAd::new(&post, "en-US").unwrap();
    assert!(new_ad.thumbnail.len() > 0);
    assert_eq!(new_ad.images.len(), 2);
    assert!(new_ad.title.len() > 0);
    assert_eq!(text_of(&new_ad.message), text_of(MESSAGE));
}

#[test]
fn extracts_title_thumbnail_and_gallery() {
    let html = ad_markup();
    assert_eq!(get_title(&html).unwrap(), "Valerian");
    assert_eq!(
        get_image(&html).unwrap(),
        "https://scontent.xx.fbcdn.net/v/t1.0-1/thumb.jpg"
    );
    assert_eq!(
        get_images(&html).unwrap(),
        vec![
            "https://scontent.xx.fbcdn.net/v/t1.0-9/one.jpg".to_string(),
            "https://scontent.xx.fbcdn.net/v/t1.0-9/two.jpg".to_string()
        ]
    );
}

#[test]
fn title_falls_back_to_bold_text() {
    let html = "<div><strong>Bold title</strong><span class=\"fsl\">later</span></div>";
    assert_eq!(get_title(html).unwrap(), "Bold title");
}

#[test]
fn gallery_skips_nodes_without_source() {
    let html = "<div><img src=\"a.jpg\"><img alt=\"x\"><img src=\"c.jpg\"></div>";
    assert_eq!(get_images(html).unwrap(), vec!["c.jpg".to_string()]);
}

#[test]
fn gallery_of_single_image_is_empty() {
    let html = "<div><img src=\"a.jpg\"></div>";
    assert_eq!(get_images(html).unwrap(), Vec::<String>::new());
}

#[test]
fn message_keeps_markup_of_every_match() {
    let html = "<div class=\"userContent\"><p>one <b>bold</b></p><p>two</p></div>";
    assert_eq!(get_message(html).unwrap(), "<p>one <b>bold</b></p><p>two</p>");
}

#[test]
fn message_falls_back_to_later_strategy() {
    let html = "<div><div class=\"mbs\">block</div><span>inline</span></div>";
    assert_eq!(get_message(html).unwrap(), "<div class=\"mbs\">block</div>");
    let only_span = "<p><span>inline</span></p>";
    assert_eq!(get_message(only_span).unwrap(), "<span>inline</span>");
}

#[test]
fn missing_title_fails() {
    let html = "<div><img src=\"a.jpg\"><span>text</span></div>";
    assert_eq!(get_title(html), Err(ExtractError::Title));
}

#[test]
fn missing_image_fails() {
    let html = "<div><h5><a>t</a></h5><span>text</span></div>";
    assert_eq!(get_image(html), Err(ExtractError::Image));
    let post = AdPost { id: "x".to_string(), html: html.to_string(), political: None, targeting: None };
    assert!(matches!(NewAd::new(&post, "en-US"), Err(ExtractError::Image)));
}

#[test]
fn image_without_source_fails() {
    let html = "<div><img alt=\"x\"><span>text</span></div>";
    assert_eq!(get_image(html), Err(ExtractError::Image));
}

#[test]
fn missing_message_fails() {
    let html = "<div><h5><a>t</a></h5><img src=\"a.jpg\"></div>";
    assert_eq!(get_message(html), Err(ExtractError::Message));
    let post = AdPost { id: "x".to_string(), html: html.to_string(), political: None, targeting: None };
    assert!(matches!(NewAd::new(&post, "en-US"), Err(ExtractError::Message)));
}

#[test]
fn new_ad_without_title_fails() {
    let html = "<div><img src=\"a.jpg\"><span>text</span></div>";
    let post = AdPost { id: "x".to_string(), html: html.to_string(), political: None, targeting: None };
    assert!(matches!(NewAd::new(&post, "en-US"), Err(ExtractError::Title)));
}
