//! Range-header parsing, range resolution, and header text.
use file_server::{ByteRange, build_content_range_header_str, get_ranges, get_start_end, get_window_range};

#[test]
fn window_range_parses() {
    let r = get_ranges(b"bytes=10-19");
    match r {
        Some(v) => {
            assert_eq!(v.len(), 1);
            assert_eq!(v[0], ByteRange::Window { start: 10, end: 19 });
        },
        None => panic!("expected one window range"),
    }
}

#[test]
fn prefix_range_parses() {
    let r = get_ranges(b"bytes=95-").expect("prefix range");
    assert_eq!(r, vec![ByteRange::Prefix { start: 95 }]);
}

#[test]
fn suffix_range_parses() {
    let r = get_ranges(b"bytes=-10").expect("suffix range");
    assert_eq!(r, vec![ByteRange::Suffix { length: 10 }]);
}

#[test]
fn two_ranges_parse_as_two() {
    let r = get_ranges(b"bytes=0-10,20-30").expect("two ranges");
    assert_eq!(r.len(), 2);
    assert_eq!(r[0], ByteRange::Window { start: 0, end: 10 });
    assert_eq!(r[1], ByteRange::Window { start: 20, end: 30 });
}

#[test]
fn inverted_window_fails_whole_header() {
    assert!(get_ranges(b"bytes=50-10").is_none());
}

#[test]
fn equal_window_bounds_fail() {
    assert!(get_ranges(b"bytes=10-10").is_none());
}

#[test]
fn missing_bytes_prefix_is_not_recognized() {
    assert!(get_ranges(b"items=0-10").is_none());
    assert!(get_ranges(b"10-19").is_none());
}

#[test]
fn empty_range_list_fails() {
    assert!(get_ranges(b"bytes=").is_none());
    assert!(get_ranges(b"bytes=,").is_none());
}

#[test]
fn malformed_piece_fails_whole_header() {
    assert!(get_ranges(b"bytes=10-19,zz").is_none());
    assert!(get_ranges(b"bytes=1-2-3").is_none());
    assert!(get_ranges(b"bytes=-").is_none());
    assert!(get_ranges(b"bytes=abc-").is_none());
}

#[test]
fn header_whitespace_is_trimmed() {
    let r = get_ranges(b"  bytes=5-9 , 20- ").expect("trimmed header");
    assert_eq!(r.len(), 2);
    assert_eq!(r[0], ByteRange::Window { start: 5, end: 9 });
    assert_eq!(r[1], ByteRange::Prefix { start: 20 });
}

#[test]
fn window_chunk_parser_handles_only_windows() {
    assert_eq!(get_window_range(b"10-19"), Some(ByteRange::Window { start: 10, end: 19 }));
    assert_eq!(get_window_range(b"10-"), None);
    assert_eq!(get_window_range(b"-10"), None);
    assert_eq!(get_window_range(b"10"), None);
}

#[test]
fn window_resolves_inclusive_wire_end() {
    // file of 100 bytes, "bytes=10-19": exactly bytes 10 through 19.
    let ranges = vec![ByteRange::Window { start: 10, end: 19 }];
    assert_eq!(get_start_end(&ranges, 100), Some((10, 20)));
}

#[test]
fn suffix_resolves_to_last_bytes() {
    let ranges = vec![ByteRange::Suffix { length: 10 }];
    assert_eq!(get_start_end(&ranges, 100), Some((90, 100)));
}

#[test]
fn oversized_suffix_serves_whole_file() {
    let ranges = vec![ByteRange::Suffix { length: 150 }];
    assert_eq!(get_start_end(&ranges, 100), Some((0, 100)));
}

#[test]
fn prefix_resolves_to_end_of_file() {
    let ranges = vec![ByteRange::Prefix { start: 95 }];
    assert_eq!(get_start_end(&ranges, 100), Some((95, 100)));
}

#[test]
fn prefix_at_file_size_is_empty_window() {
    let ranges = vec![ByteRange::Prefix { start: 100 }];
    assert_eq!(get_start_end(&ranges, 100), Some((100, 100)));
}

#[test]
fn prefix_past_file_size_is_rejected() {
    let ranges = vec![ByteRange::Prefix { start: 200 }];
    assert_eq!(get_start_end(&ranges, 100), None);
}

#[test]
fn window_past_file_size_is_rejected() {
    let ranges = vec![ByteRange::Window { start: 10, end: 100 }];
    assert_eq!(get_start_end(&ranges, 100), None);
}

#[test]
fn empty_range_list_resolves_to_nothing() {
    let ranges: Vec<ByteRange> = Vec::new();
    assert_eq!(get_start_end(&ranges, 100), None);
}

#[test]
fn content_range_header_text() {
    assert_eq!(build_content_range_header_str(10, 20, 100), b"bytes 10-19/100".to_vec());
    assert_eq!(build_content_range_header_str(90, 100, 100), b"bytes 90-99/100".to_vec());
    assert_eq!(build_content_range_header_str(95, 100, 100), b"bytes 95-99/100".to_vec());
    assert_eq!(build_content_range_header_str(0, 0, 0), b"bytes 0-0/0".to_vec());
}
