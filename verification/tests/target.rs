use gallery_crawl::target::{file_extension, output_path, plan_target, Target, TargetError};

#[test]
fn extension_follows_the_last_dot() {
    assert_eq!(file_extension("https://example.org/h/abc/1.jpg"), Ok("jpg".to_string()));
    assert_eq!(file_extension("https://example.org/a.b/c.tar.gz"), Ok("gz".to_string()));
    assert_eq!(file_extension(".png"), Ok("png".to_string()));
}

#[test]
fn extension_may_hold_what_follows_the_path() {
    assert_eq!(
        file_extension("https://example.org/1.jpg?token=5"),
        Ok("jpg?token=5".to_string())
    );
    assert_eq!(file_extension("https://example.org/image"), Ok("org/image".to_string()));
}

#[test]
fn address_without_a_dot_is_its_own_extension() {
    assert_eq!(file_extension("image"), Ok("image".to_string()));
}

#[test]
fn empty_extension_is_refused() {
    assert_eq!(file_extension("https://example.org/1."), Err(TargetError::NoExtension));
    assert_eq!(file_extension("."), Err(TargetError::NoExtension));
    assert_eq!(file_extension(""), Err(TargetError::NoExtension));
}

#[test]
fn path_is_root_title_index_extension() {
    assert_eq!(output_path("output", "ABCD", 0, "jpg"), "output/ABCD/0.jpg");
    assert_eq!(output_path("/tmp/out", "A B", 12, "png"), "/tmp/out/A B/12.png");
    assert_eq!(output_path("", "", 3, ""), "//3.");
}

#[test]
fn target_of_a_resolved_address() {
    assert_eq!(
        plan_target("output", "Title", 7, "https://example.org/h/7.webp".to_string()),
        Ok(Target {
            url: "https://example.org/h/7.webp".to_string(),
            path: "output/Title/7.webp".to_string(),
        })
    );
    assert_eq!(
        plan_target("output", "Title", 7, "https://example.org/h/7.".to_string()),
        Err(TargetError::NoExtension)
    );
}

#[test]
fn copy_of_a_target_is_equal() {
    let target = Target { url: "u".to_string(), path: "p".to_string() };
    assert_eq!(target.copy(), target);
}
