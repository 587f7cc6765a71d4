use gallery_crawl::detail::{parse_gallery, DetailError};
use gallery_crawl::gallery::Gallery;
use gallery_crawl::listing::{parse_list, PageError};
use gallery_crawl::markup::{document_fits, MAX_DOCUMENT_BYTES};
use gallery_crawl::resolve::{parse_real_image, resolve_probed, Resolution, ResolveError};

#[test]
fn documents_up_to_the_limit_fit() {
    assert_eq!(MAX_DOCUMENT_BYTES, 256 * 1024 * 1024);
    assert!(document_fits(""));
    assert!(document_fits("<html></html>"));
    let mut text = "a".repeat(MAX_DOCUMENT_BYTES);
    assert!(document_fits(&text));
    text.push('a');
    assert!(!document_fits(&text));
}

#[test]
fn the_limit_counts_bytes() {
    let mut text = "\u{e9}".repeat(MAX_DOCUMENT_BYTES / 2);
    assert_eq!(text.len(), MAX_DOCUMENT_BYTES);
    assert!(document_fits(&text));
    text.push('\u{e9}');
    assert!(!document_fits(&text));
}

#[test]
fn document_over_the_limit_is_refused_unread() {
    let mut html = String::from(
        "<div class=\"gl2e\"><div><a href=\"a\"><span class=\"glink\">A</span></a></div></div>\
         <div class=\"gt200\"><a href=\"s/1\">i</a></div><img id=\"img\" src=\"s.png\">",
    );
    let rest = MAX_DOCUMENT_BYTES + 1 - html.len();
    html.push_str(&" ".repeat(rest));
    assert_eq!(html.len(), MAX_DOCUMENT_BYTES + 1);

    let mut galleries = Vec::new();
    let mut cursor = Some("page1".to_string());
    assert_eq!(parse_list(&mut galleries, &mut cursor, &html), Err(PageError::TooLarge));
    assert!(galleries.is_empty());
    assert_eq!(cursor, Some("page1".to_string()));

    let mut gallery =
        Gallery { url: "g".to_string(), title: "T".to_string(), images: vec!["s/0".to_string()] };
    let mut cursor = Some("g".to_string());
    assert_eq!(parse_gallery(&mut gallery, &mut cursor, &html), Err(DetailError::TooLarge));
    assert_eq!(gallery.images, vec!["s/0"]);
    assert_eq!(cursor, Some("g".to_string()));
    let mut ended = None;
    assert_eq!(parse_gallery(&mut gallery, &mut ended, &html), Ok(()));

    assert_eq!(
        parse_real_image(&html, false),
        Resolution::Settled(Err(ResolveError::PageTooLarge))
    );
    assert_eq!(
        parse_real_image(&html, true),
        Resolution::Settled(Err(ResolveError::PageTooLarge))
    );
    assert_eq!(resolve_probed(&html, 200, None), Err(ResolveError::PageTooLarge));
    assert_eq!(resolve_probed(&html, 302, Some("l".to_string())), Ok("l".to_string()));
}
