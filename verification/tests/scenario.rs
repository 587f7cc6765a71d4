use gallery_crawl::ban::{check, Attempt, FetchAction};
use gallery_crawl::detail::parse_gallery;
use gallery_crawl::download::{Destination, Outcome, TaskAction, TaskEvent};
use gallery_crawl::gallery::Gallery;
use gallery_crawl::listing::parse_list;
use gallery_crawl::resolve::{parse_real_image, Resolution};
use gallery_crawl::run::{run, Stage};
use gallery_crawl::schedule::{download_gallery, Downloads, PermitPool};

fn site(url: &str) -> String {
    let entry = |href: &str, title: &str| {
        format!(
            "<div class=\"gl2e\"><div><a href=\"{}\"><span class=\"glink\">{}</span></a></div></div>",
            href, title
        )
    };
    let image = |name: &str| {
        format!("<html><body><img id=\"img\" src=\"https://img.example.org/{}\"></body></html>", name)
    };
    match url {
        "https://example.org/" => format!(
            "<html><body>{}{}<a id=\"dnext\" href=\"https://example.org/?page=2\">&gt;</a></body></html>",
            entry("https://example.org/g/1/", "First / Gallery"),
            entry("https://example.org/g/2/", "Second")
        ),
        "https://example.org/?page=2" => {
            format!("<html><body>{}</body></html>", entry("https://example.org/g/3/", " Third "))
        },
        "https://example.org/g/1/" => "<html><body>\
            <div class=\"gt200\"><a href=\"https://example.org/s/a\">a</a></div>\
            <div class=\"gt200\"><a href=\"https://example.org/s/b\">b</a></div>\
            </body></html>"
            .to_string(),
        "https://example.org/g/2/" | "https://example.org/g/3/" => {
            "<html><body></body></html>".to_string()
        },
        "https://example.org/s/a" => image("a.jpg"),
        "https://example.org/s/b" => image("b.png"),
        other => panic!("no page at {}", other),
    }
}

fn fetch(url: &str) -> String {
    let body = site(url);
    assert_eq!(check(Attempt::First, &body), FetchAction::Deliver);
    body
}

fn crawl_listing(start: &str) -> Vec<Gallery> {
    let mut galleries = Vec::new();
    let mut cursor = Some(start.to_string());
    while let Some(url) = cursor.clone() {
        parse_list(&mut galleries, &mut cursor, &fetch(&url)).unwrap();
    }
    galleries
}

fn crawl_gallery(gallery: &mut Gallery) {
    let mut cursor = Some(gallery.url.clone());
    while let Some(url) = cursor.clone() {
        parse_gallery(gallery, &mut cursor, &fetch(&url)).unwrap();
    }
}

fn download(gallery: &Gallery, pool: PermitPool, files: &mut Vec<String>) -> PermitPool {
    let dest = Destination { root: "output".to_string(), title: gallery.title.clone() };
    let (mut downloads, mut todo) =
        download_gallery(Downloads::new(pool, dest, gallery.images.len()), None);
    while let Some((index, action)) = todo.pop() {
        let event = match action {
            TaskAction::Resolve => match parse_real_image(&fetch(&gallery.images[index]), false) {
                Resolution::Settled(outcome) => TaskEvent::Resolved(outcome),
                Resolution::Probe(url) => panic!("unexpected probe of {}", url),
            },
            TaskAction::Stat { .. } => TaskEvent::Existing(false),
            TaskAction::Fetch { .. } => TaskEvent::Fetched { status: 200 },
            TaskAction::Write { path } => {
                files.push(path);
                TaskEvent::Written
            },
            TaskAction::Finish(outcome) => {
                assert_eq!(outcome, Outcome::Saved);
                continue;
            },
            TaskAction::Idle | TaskAction::Launch => continue,
        };
        let (next, more) = download_gallery(downloads, Some((index, event)));
        downloads = next;
        todo.extend(more);
    }
    assert!(downloads.is_finished());
    downloads.into_pool()
}

#[test]
fn two_page_listing_yields_three_stubs_in_page_order() {
    let galleries = crawl_listing("https://example.org/");
    let summary: Vec<(&str, &str)> =
        galleries.iter().map(|g| (g.url.as_str(), g.title.as_str())).collect();
    assert_eq!(
        summary,
        vec![
            ("https://example.org/g/1/", "First  Gallery"),
            ("https://example.org/g/2/", "Second"),
            ("https://example.org/g/3/", "Third")
        ]
    );
    assert!(galleries.iter().all(|g| g.images.is_empty()));
}

#[test]
fn gallery_without_pagination_yields_two_downloads() {
    let mut gallery = crawl_listing("https://example.org/").remove(0);
    crawl_gallery(&mut gallery);
    assert_eq!(gallery.images, vec!["https://example.org/s/a", "https://example.org/s/b"]);
    let mut files = Vec::new();
    let pool = download(&gallery, PermitPool::new(1), &mut files);
    assert_eq!(pool.in_use(), 0);
    files.sort();
    assert_eq!(files, vec!["output/First  Gallery/0.jpg", "output/First  Gallery/1.png"]);
}

#[test]
fn whole_run_over_the_site() {
    let mut galleries = Vec::new();
    let mut pool = Some(PermitPool::new(2));
    let mut files = Vec::new();
    let mut stage = Stage::Listing;
    let mut order = Vec::new();
    while stage != Stage::Finished {
        order.push(stage);
        match stage {
            Stage::Listing => galleries = crawl_listing("https://example.org/"),
            Stage::Detailing(i) => crawl_gallery(&mut galleries[i]),
            Stage::Downloading(i) => {
                pool = Some(download(&galleries[i], pool.take().unwrap(), &mut files));
            },
            Stage::Finished => unreachable!(),
        }
        stage = run(stage, galleries.len());
    }
    assert_eq!(order.len(), 7);
    assert_eq!(galleries[0].images.len(), 2);
    assert!(galleries[1].images.is_empty());
    files.sort();
    assert_eq!(files, vec!["output/First  Gallery/0.jpg", "output/First  Gallery/1.png"]);
    assert_eq!(pool.unwrap().in_use(), 0);
}
