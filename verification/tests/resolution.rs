//! Lexical path resolution against the server root.
use file_server::{add_extension, resolve_under_root};

#[test]
fn plain_path_resolves_under_root() {
    let got = resolve_under_root(b"/srv/www", b"/docs/page.html");
    assert_eq!(got, Some(b"/srv/www/docs/page.html".to_vec()));
}

#[test]
fn traversal_never_resolves() {
    // the canonical escape attempt of the containment property
    assert_eq!(resolve_under_root(b"/srv/www", b"/../../etc/passwd"), None);
    assert_eq!(resolve_under_root(b"/srv/www", b"/a/../../etc/passwd"), None);
    assert_eq!(resolve_under_root(b"/srv/www", b".."), None);
}

#[test]
fn dot_dot_inside_root_is_resolved() {
    let got = resolve_under_root(b"/srv/www", b"/a/../b.txt");
    assert_eq!(got, Some(b"/srv/www/b.txt".to_vec()));
}

#[test]
fn dots_and_empty_segments_vanish() {
    assert_eq!(resolve_under_root(b"/srv/www", b"//a//./b"), Some(b"/srv/www/a/b".to_vec()));
    assert_eq!(resolve_under_root(b"/srv/www", b"/."), Some(b"/srv/www".to_vec()));
    assert_eq!(resolve_under_root(b"/srv/www", b"/"), Some(b"/srv/www".to_vec()));
}

#[test]
fn every_resolved_path_starts_with_root() {
    let attempts: [&[u8]; 5] = [
        b"/x/y/z",
        b"/a/../../b",
        b"/%2e%2e/secret",
        b"/..%2f..%2fetc",
        b"/a/b/../../../c",
    ];
    for rel in attempts.iter() {
        if let Some(p) = resolve_under_root(b"/srv/www", rel) {
            assert!(p.starts_with(b"/srv/www"));
            assert!(p.len() == b"/srv/www".len() || p[b"/srv/www".len()] == b'/');
        }
    }
}

#[test]
fn variant_suffix_is_appended() {
    assert_eq!(
        add_extension(b"/srv/www/f.txt", b"gzip"),
        Some(b"/srv/www/f.txt.gz".to_vec())
    );
    assert_eq!(
        add_extension(b"/srv/www/f.txt", b"zstd"),
        Some(b"/srv/www/f.txt.zst".to_vec())
    );
    assert_eq!(add_extension(b"/srv/www/f.txt", b"identity"), None);
}
