use codex_web::directory::DirectoryEntry;
use codex_web::directory::directory_page;
use codex_web::directory::filesystem_roots;
use codex_web::directory::requested_directory;
use codex_web::directory::sort_entries;
use codex_web::error::ErrorKind;

fn entry(name: &str) -> DirectoryEntry {
    DirectoryEntry {
        name: name.to_string(),
        path: format!("/tmp/{name}"),
        symlink: false,
    }
}

#[test]
fn listing_contains_only_directories_in_stable_order() {
    let sorted = sort_entries(vec![entry("zeta"), entry("Alpha"), entry("beta"), entry("alpha")]);
    assert_eq!(
        sorted.iter().map(|e| e.name.as_str()).collect::<Vec<_>>(),
        vec!["Alpha", "alpha", "beta", "zeta"]
    );
}

#[test]
fn listings_are_paged() {
    assert_eq!(directory_page(450, None), (0, 200, Some(200)));
    assert_eq!(directory_page(450, Some(200)), (200, 400, Some(400)));
    assert_eq!(directory_page(450, Some(400)), (400, 450, None));
    assert_eq!(directory_page(450, Some(999)), (450, 450, None));
    assert_eq!(directory_page(200, None), (0, 200, None));
    assert_eq!(filesystem_roots(), vec!["/".to_string()]);
}

#[test]
fn requested_directories() {
    assert_eq!(
        requested_directory(Some("/srv"), Some("/home/me".to_string())).expect("path"),
        "/srv"
    );
    assert_eq!(
        requested_directory(Some(""), Some("/home/me".to_string())).expect("home"),
        "/home/me"
    );
    let missing = requested_directory(None, None).expect_err("no home");
    assert_eq!(missing.kind, ErrorKind::NotFound);
    let long = "a".repeat(32 * 1024 + 1);
    let too_long = requested_directory(Some(&long), None).expect_err("long");
    assert_eq!(too_long.kind, ErrorKind::InvalidInput);
    assert_eq!(too_long.message, "directory path is too long");
}
