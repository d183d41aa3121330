//! The encoding catalog and `Accept-Encoding` negotiation.
use file_server::{AvailableEncodings, Encoding, get_encoded_ext, get_encodings};

fn catalog(tokens: &[&[u8]]) -> AvailableEncodings {
    let owned: Vec<Vec<u8>> = tokens.iter().map(|t| t.to_vec()).collect();
    AvailableEncodings::from(&Some(owned))
}

#[test]
fn catalog_enables_named_tokens() {
    let av = catalog(&[b"gzip", b"zstd"]);
    assert!(av.encoding_is_available(b"gzip"));
    assert!(av.encoding_is_available(b"zstd"));
    assert!(!av.encoding_is_available(b"br"));
    assert!(!av.encoding_is_available(b"deflate"));
}

#[test]
fn unknown_tokens_are_ignored_by_catalog() {
    let av = catalog(&[b"gzip", b"lz77", b"identity"]);
    assert!(av.encoding_is_available(b"gzip"));
    assert!(!av.encoding_is_available(b"lz77"));
    assert!(!av.encoding_is_available(b"identity"));
}

#[test]
fn empty_catalog_enables_nothing() {
    let av = AvailableEncodings::from(&None);
    assert!(!av.encoding_is_available(b"gzip"));
    assert!(!av.encoding_is_available(b"deflate"));
    assert!(!av.encoding_is_available(b"br"));
    assert!(!av.encoding_is_available(b"zstd"));
}

#[test]
fn update_adds_encodings() {
    let mut av = AvailableEncodings::from(&None);
    av.update(&Some(vec![b"br".to_vec()]));
    assert!(av.encoding_is_available(b"br"));
    assert!(!av.encoding_is_available(b"gzip"));
}

#[test]
fn suffix_for_each_token() {
    assert_eq!(get_encoded_ext(b"gzip"), Some(b".gz".to_vec()));
    assert_eq!(get_encoded_ext(b"deflate"), Some(b".zz".to_vec()));
    assert_eq!(get_encoded_ext(b"br"), Some(b".br".to_vec()));
    assert_eq!(get_encoded_ext(b"zstd"), Some(b".zst".to_vec()));
    assert_eq!(get_encoded_ext(b"identity"), None);
}

#[test]
fn client_order_kept_unsupported_dropped() {
    // client asks br then gzip; the server enables gzip and zstd:
    // only gzip survives, in the client's position.
    let av = catalog(&[b"gzip", b"zstd"]);
    let got = get_encodings(b"br, gzip", &av);
    assert_eq!(got, Some(vec![Encoding::Gzip]));
}

#[test]
fn client_order_is_preserved() {
    let av = catalog(&[b"gzip", b"br", b"zstd"]);
    let got = get_encodings(b"zstd, br, gzip", &av);
    assert_eq!(got, Some(vec![Encoding::Zstd, Encoding::Br, Encoding::Gzip]));
}

#[test]
fn parameters_after_semicolon_are_ignored() {
    let av = catalog(&[b"gzip", b"br"]);
    let got = get_encodings(b"gzip;q=0.5, br ; q=0.1", &av);
    assert_eq!(got, Some(vec![Encoding::Gzip, Encoding::Br]));
}

#[test]
fn no_overlap_negotiates_nothing() {
    let av = catalog(&[b"zstd"]);
    assert_eq!(get_encodings(b"br, gzip", &av), None);
}

#[test]
fn empty_header_negotiates_nothing() {
    let av = catalog(&[b"gzip"]);
    assert_eq!(get_encodings(b"", &av), None);
}
