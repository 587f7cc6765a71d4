use gallery_crawl::detail::{detail_from, parse_gallery, DetailPage};
use gallery_crawl::gallery::Gallery;

fn detail(images: &[&str], pager: &[&str]) -> String {
    let mut html = String::from("<html><body>");
    if !pager.is_empty() {
        html.push_str("<table class=\"ptt\"><tbody><tr>");
        for href in pager {
            html.push_str(&format!("<td><a href=\"{}\">p</a></td>", href));
        }
        html.push_str("</tr></tbody></table>");
    }
    for href in images {
        html.push_str(&format!("<div class=\"gt200\"><a href=\"{}\">i</a></div>", href));
    }
    html.push_str("</body></html>");
    html
}

fn gallery(images: &[&str]) -> Gallery {
    Gallery {
        url: "https://example.org/g/1/".to_string(),
        title: "Title".to_string(),
        images: images.iter().map(|s| s.to_string()).collect(),
    }
}

fn links(items: &[Option<&str>]) -> Vec<Option<String>> {
    items.iter().map(|l| l.map(|s| s.to_string())).collect()
}

#[test]
fn image_pages_are_appended_in_page_order() {
    let html = detail(&["s/1", "s/2", "s/3"], &["g?p=0", "g?p=1"]);
    let mut g = gallery(&["s/0"]);
    let mut cursor = Some("g?p=0".to_string());
    assert_eq!(parse_gallery(&mut g, &mut cursor, &html), Ok(()));
    assert_eq!(g, gallery(&["s/0", "s/1", "s/2", "s/3"]));
    assert_eq!(cursor, Some("g?p=1".to_string()));
}

#[test]
fn next_link_to_the_current_page_ends_the_traversal() {
    let html = detail(&["s/1"], &["g?p=0", "g?p=1"]);
    let mut g = gallery(&[]);
    let mut cursor = Some("g?p=1".to_string());
    assert_eq!(parse_gallery(&mut g, &mut cursor, &html), Ok(()));
    assert_eq!(cursor, None);
    assert_eq!(g, gallery(&["s/1"]));
}

#[test]
fn page_without_pagination_ends_the_traversal() {
    let html = detail(&["s/1", "s/2"], &[]);
    let mut g = gallery(&[]);
    let mut cursor = Some("g".to_string());
    assert_eq!(parse_gallery(&mut g, &mut cursor, &html), Ok(()));
    assert_eq!(cursor, None);
    assert_eq!(g, gallery(&["s/1", "s/2"]));
}

#[test]
fn next_control_without_address_ends_the_traversal() {
    let html = "<table class=\"ptt\"><tbody><tr><td><a href=\"g?p=0\">1</a></td>\
                <td><a>&gt;</a></td></tr></tbody></table>";
    let mut g = gallery(&[]);
    let mut cursor = Some("g?p=0".to_string());
    assert_eq!(parse_gallery(&mut g, &mut cursor, html), Ok(()));
    assert_eq!(cursor, None);
}

#[test]
fn only_the_last_cell_of_the_pagination_row_counts() {
    let html = detail(&[], &["first", "second", "third"]);
    let mut g = gallery(&[]);
    let mut cursor = Some("first".to_string());
    assert_eq!(parse_gallery(&mut g, &mut cursor, &html), Ok(()));
    assert_eq!(cursor, Some("third".to_string()));
}

#[test]
fn image_links_without_address_are_passed_over() {
    let html = "<div class=\"gt200\"><a href=\"s/1\">a</a></div>\
                <div class=\"gt200\"><a>b</a></div>\
                <div class=\"gt200\"><a href=\"s/3\">c</a></div>";
    let mut g = gallery(&[]);
    let mut cursor = Some("g".to_string());
    assert_eq!(parse_gallery(&mut g, &mut cursor, html), Ok(()));
    assert_eq!(g, gallery(&["s/1", "s/3"]));
}

#[test]
fn ended_traversal_leaves_the_gallery_alone() {
    let html = detail(&["s/1"], &["g?p=1"]);
    let mut g = gallery(&["s/0"]);
    let mut cursor = None;
    assert_eq!(parse_gallery(&mut g, &mut cursor, &html), Ok(()));
    assert_eq!(g, gallery(&["s/0"]));
    assert_eq!(cursor, None);
}

#[test]
fn traversal_over_three_pages() {
    let pages = [
        detail(&["s/1", "s/2"], &["g?p=0", "g?p=1"]),
        detail(&["s/3", "s/4"], &["g?p=0", "g?p=2"]),
        detail(&["s/5"], &["g?p=0", "g?p=2"]),
    ];
    let mut g = gallery(&[]);
    let mut cursor = Some("g?p=0".to_string());
    let mut visited = Vec::new();
    for html in &pages {
        visited.push(cursor.clone().unwrap());
        assert_eq!(parse_gallery(&mut g, &mut cursor, html), Ok(()));
    }
    assert_eq!(visited, vec!["g?p=0", "g?p=1", "g?p=2"]);
    assert_eq!(cursor, None);
    assert_eq!(g, gallery(&["s/1", "s/2", "s/3", "s/4", "s/5"]));
}

#[test]
fn detail_from_what_was_found() {
    assert_eq!(
        detail_from(&links(&[Some("a"), None, Some("b")]), &links(&[Some("next"), Some("x")]), "here"),
        DetailPage { images: vec!["a".to_string(), "b".to_string()], next: Some("next".to_string()) }
    );
    assert_eq!(
        detail_from(&links(&[]), &links(&[Some("here")]), "here"),
        DetailPage { images: Vec::new(), next: None }
    );
    assert_eq!(
        detail_from(&links(&[None]), &links(&[None, Some("next")]), "here"),
        DetailPage { images: Vec::new(), next: None }
    );
    assert_eq!(
        detail_from(&links(&[Some("a")]), &links(&[]), "here"),
        DetailPage { images: vec!["a".to_string()], next: None }
    );
}
