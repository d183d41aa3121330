//! Whole-request scenarios: the engine driven with scripted filesystem
//! answers, and the response plans built from its outcomes.
use file_server::{
    BodyPlan, Engine, FileStatus, HeaderName, Method, ResponseOutcome, ResponseParams,
    ResponsePlan, Step, build_plan,
};

fn params(encodings: &[&[u8]], not_found: Option<&[u8]>) -> ResponseParams {
    let tokens: Option<Vec<Vec<u8>>> = if encodings.is_empty() {
        None
    } else {
        Some(encodings.iter().map(|t| t.to_vec()).collect())
    };
    ResponseParams::from(b"/srv/www".to_vec(), not_found.map(|p| p.to_vec()), tokens)
}

fn probe_path(step: &Step) -> Vec<u8> {
    match step {
        Step::Probe(p) => p.clone(),
        Step::Done(o) => panic!("expected a probe, engine finished with {:?}", o),
    }
}

fn error_status(step: &Step) -> u16 {
    match step {
        Step::Done(ResponseOutcome::Error { status }) => *status,
        other => panic!("expected an error outcome, got {:?}", other),
    }
}

#[test]
fn post_is_rejected_without_any_probe() {
    // the filesystem is never consulted: the very first step is the 405
    let p = params(&[], Some(b"404.html"));
    let (engine, step) = Engine::start(&p, Method::Other, b"/any/file", None, None);
    assert_eq!(error_status(&step), 405);
    assert!(engine.is_done());
}

#[test]
fn plain_get_serves_the_file() {
    let p = params(&[], None);
    let (mut engine, step) = Engine::start(&p, Method::Get, b"/docs/page.html", None, None);
    assert_eq!(probe_path(&step), b"/srv/www/docs/page.html".to_vec());
    // no negotiated encodings: the next candidate is the origin itself
    let step = engine.next(FileStatus::File(42));
    assert_eq!(probe_path(&step), b"/srv/www/docs/page.html".to_vec());
    let step = engine.next(FileStatus::File(42));
    match step {
        Step::Done(ResponseOutcome::Full { origin, path, encoding, size, status }) => {
            assert_eq!(origin, b"/srv/www/docs/page.html".to_vec());
            assert_eq!(path, b"/srv/www/docs/page.html".to_vec());
            assert_eq!(encoding, None);
            assert_eq!(size, 42);
            assert_eq!(status, 200);
        },
        other => panic!("expected a full response, got {:?}", other),
    }
    assert!(engine.is_done());
}

#[test]
fn directory_falls_back_to_index_document() {
    let p = params(&[], None);
    let (mut engine, step) = Engine::start(&p, Method::Get, b"/docs/", None, None);
    assert_eq!(probe_path(&step), b"/srv/www/docs".to_vec());
    let step = engine.next(FileStatus::Directory);
    assert_eq!(probe_path(&step), b"/srv/www/docs/index.html".to_vec());
    let step = engine.next(FileStatus::File(7));
    let step2 = engine.next(FileStatus::File(7));
    match (step, step2) {
        (Step::Probe(origin), Step::Done(ResponseOutcome::Full { path, status, .. })) => {
            assert_eq!(origin, b"/srv/www/docs/index.html".to_vec());
            assert_eq!(path, b"/srv/www/docs/index.html".to_vec());
            assert_eq!(status, 200);
        },
        other => panic!("expected index document, got {:?}", other),
    }
}

#[test]
fn missing_index_document_is_not_found() {
    let p = params(&[], None);
    let (mut engine, step) = Engine::start(&p, Method::Get, b"/docs/", None, None);
    assert_eq!(probe_path(&step), b"/srv/www/docs".to_vec());
    let step = engine.next(FileStatus::Directory);
    assert_eq!(probe_path(&step), b"/srv/www/docs/index.html".to_vec());
    let step = engine.next(FileStatus::Absent);
    assert_eq!(error_status(&step), 404);
}

#[test]
fn traversal_request_never_probes() {
    let p = params(&[], None);
    let (engine, step) = Engine::start(&p, Method::Get, b"/../../etc/passwd", None, None);
    assert_eq!(error_status(&step), 404);
    assert!(engine.is_done());
}

#[test]
fn variant_preferred_then_origin_fallback() {
    // client: "br, gzip"; server enables gzip and zstd -> only gzip is
    // tried; its variant is absent, so the origin is served plain.
    let p = params(&[b"gzip", b"zstd"], None);
    let (mut engine, step) =
        Engine::start(&p, Method::Get, b"/file.txt", Some(b"br, gzip"), None);
    assert_eq!(probe_path(&step), b"/srv/www/file.txt".to_vec());
    let step = engine.next(FileStatus::File(10));
    assert_eq!(probe_path(&step), b"/srv/www/file.txt.gz".to_vec());
    let step = engine.next(FileStatus::Absent);
    assert_eq!(probe_path(&step), b"/srv/www/file.txt".to_vec());
    let step = engine.next(FileStatus::File(10));
    match step {
        Step::Done(ResponseOutcome::Full { path, encoding, size, .. }) => {
            assert_eq!(path, b"/srv/www/file.txt".to_vec());
            assert_eq!(encoding, None);
            assert_eq!(size, 10);
        },
        other => panic!("expected plain origin, got {:?}", other),
    }
}

#[test]
fn present_variant_wins_with_its_encoding() {
    let p = params(&[b"gzip"], None);
    let (mut engine, step) =
        Engine::start(&p, Method::Get, b"/file.txt", Some(b"gzip"), None);
    assert_eq!(probe_path(&step), b"/srv/www/file.txt".to_vec());
    let step = engine.next(FileStatus::File(10));
    assert_eq!(probe_path(&step), b"/srv/www/file.txt.gz".to_vec());
    let step = engine.next(FileStatus::File(7));
    match step {
        Step::Done(outcome) => {
            let plan = build_plan(&outcome, false, b"text/plain");
            assert_eq!(plan.status, 200);
            let headers: Vec<(HeaderName, Vec<u8>)> = plan.headers;
            assert_eq!(headers[0], (HeaderName::ContentType, b"text/plain".to_vec()));
            // the length is the variant's size, not the origin's
            assert_eq!(headers[1], (HeaderName::ContentLength, b"7".to_vec()));
            assert_eq!(headers[2], (HeaderName::ContentEncoding, b"gzip".to_vec()));
            match plan.body {
                BodyPlan::FileStream { path, start, len } => {
                    assert_eq!(path, b"/srv/www/file.txt.gz".to_vec());
                    assert_eq!(start, 0);
                    assert_eq!(len, 7);
                },
                other => panic!("expected a file stream, got {:?}", other),
            }
        },
        other => panic!("expected an outcome, got {:?}", other),
    }
}

#[test]
fn not_found_document_is_served_with_404() {
    let p = params(&[], Some(b"404.html"));
    let (mut engine, step) = Engine::start(&p, Method::Get, b"/missing", None, None);
    assert_eq!(probe_path(&step), b"/srv/www/missing".to_vec());
    let step = engine.next(FileStatus::Absent);
    assert_eq!(probe_path(&step), b"/srv/www/404.html".to_vec());
    let step = engine.next(FileStatus::File(3));
    let step2 = engine.next(FileStatus::File(3));
    match step2 {
        Step::Done(ResponseOutcome::Full { path, status, size, .. }) => {
            assert_eq!(probe_path(&step), b"/srv/www/404.html".to_vec());
            assert_eq!(path, b"/srv/www/404.html".to_vec());
            assert_eq!(status, 404);
            assert_eq!(size, 3);
        },
        other => panic!("expected the not-found document, got {:?}", other),
    }
}

#[test]
fn no_not_found_document_gives_fixed_404_body() {
    let p = params(&[], None);
    let (mut engine, step) = Engine::start(&p, Method::Get, b"/missing", None, None);
    assert_eq!(probe_path(&step), b"/srv/www/missing".to_vec());
    let step = engine.next(FileStatus::Absent);
    assert_eq!(error_status(&step), 404);
    let outcome = match step {
        Step::Done(o) => o,
        _ => unreachable!(),
    };
    let plan = build_plan(&outcome, false, b"ignored");
    assert_eq!(plan.status, 404);
    assert_eq!(plan.headers, vec![(HeaderName::ContentType, b"text/html".to_vec())]);
    match plan.body {
        BodyPlan::Literal(b) => assert_eq!(b, b"404 not found".to_vec()),
        other => panic!("expected the fixed body, got {:?}", other),
    }
}

fn run_range_request(range: &[u8], size: u64) -> Step {
    let p = params(&[], None);
    let (mut engine, step) = Engine::start(&p, Method::Get, b"/data.bin", None, Some(range));
    assert_eq!(probe_path(&step), b"/srv/www/data.bin".to_vec());
    let step = engine.next(FileStatus::File(size));
    match step {
        Step::Probe(origin) => {
            assert_eq!(origin, b"/srv/www/data.bin".to_vec());
            engine.next(FileStatus::File(size))
        },
        done => done,
    }
}

#[test]
fn range_window_is_exact() {
    let step = run_range_request(b"bytes=10-19", 100);
    match step {
        Step::Done(outcome) => {
            match &outcome {
                ResponseOutcome::Partial { start, end, size, .. } => {
                    assert_eq!((*start, *end, *size), (10, 20, 100));
                },
                other => panic!("expected partial content, got {:?}", other),
            }
            let plan = build_plan(&outcome, false, b"application/octet-stream");
            assert_eq!(plan.status, 206);
            assert_eq!(
                plan.headers[1],
                (HeaderName::ContentRange, b"bytes 10-19/100".to_vec())
            );
            assert_eq!(plan.headers[2], (HeaderName::ContentLength, b"10".to_vec()));
            match plan.body {
                BodyPlan::FileStream { start, len, .. } => {
                    assert_eq!(start, 10);
                    assert_eq!(len, 10);
                },
                other => panic!("expected a stream, got {:?}", other),
            }
        },
        other => panic!("expected an outcome, got {:?}", other),
    }
}

#[test]
fn range_suffix_serves_last_bytes() {
    let step = run_range_request(b"bytes=-10", 100);
    match step {
        Step::Done(ResponseOutcome::Partial { start, end, size, .. }) => {
            assert_eq!((start, end, size), (90, 100, 100));
        },
        other => panic!("expected partial content, got {:?}", other),
    }
}

#[test]
fn range_prefix_serves_tail() {
    let step = run_range_request(b"bytes=95-", 100);
    match step {
        Step::Done(outcome) => {
            match &outcome {
                ResponseOutcome::Partial { start, end, size, .. } => {
                    assert_eq!((*start, *end, *size), (95, 100, 100));
                },
                other => panic!("expected partial content, got {:?}", other),
            }
            let plan = build_plan(&outcome, false, b"application/octet-stream");
            assert_eq!(
                plan.headers[1],
                (HeaderName::ContentRange, b"bytes 95-99/100".to_vec())
            );
            assert_eq!(plan.headers[2], (HeaderName::ContentLength, b"5".to_vec()));
        },
        other => panic!("expected an outcome, got {:?}", other),
    }
}

#[test]
fn range_bounds_use_selected_variant_size() {
    // the window is resolved against the size of the variant actually
    // served, not the origin's size
    let p = params(&[b"gzip"], None);
    let (mut engine, step) =
        Engine::start(&p, Method::Get, b"/f.txt", Some(b"gzip"), Some(b"bytes=0-49"));
    assert_eq!(probe_path(&step), b"/srv/www/f.txt".to_vec());
    let step = engine.next(FileStatus::File(1000));
    assert_eq!(probe_path(&step), b"/srv/www/f.txt.gz".to_vec());
    let step = engine.next(FileStatus::File(60));
    match step {
        Step::Done(ResponseOutcome::Partial { path, encoding, start, end, size, .. }) => {
            assert_eq!(path, b"/srv/www/f.txt.gz".to_vec());
            assert_eq!(encoding, Some(file_server::Encoding::Gzip));
            assert_eq!((start, end, size), (0, 50, 60));
        },
        other => panic!("expected partial variant content, got {:?}", other),
    }
}

#[test]
fn range_too_large_for_variant_is_bad_request() {
    let p = params(&[b"gzip"], None);
    let (mut engine, step) =
        Engine::start(&p, Method::Get, b"/f.txt", Some(b"gzip"), Some(b"bytes=90-99"));
    assert_eq!(probe_path(&step), b"/srv/www/f.txt".to_vec());
    let step = engine.next(FileStatus::File(1000));
    assert_eq!(probe_path(&step), b"/srv/www/f.txt.gz".to_vec());
    // the variant is only 60 bytes: the window does not fit it
    let step = engine.next(FileStatus::File(60));
    assert_eq!(error_status(&step), 400);
}

#[test]
fn range_past_end_is_bad_request() {
    let step = run_range_request(b"bytes=200-", 100);
    assert_eq!(error_status(&step), 400);
}

#[test]
fn two_ranges_are_not_satisfiable() {
    let p = params(&[], None);
    let (mut engine, step) =
        Engine::start(&p, Method::Get, b"/data.bin", None, Some(b"bytes=0-10,20-30"));
    assert_eq!(probe_path(&step), b"/srv/www/data.bin".to_vec());
    let step = engine.next(FileStatus::File(100));
    assert_eq!(error_status(&step), 416);
}

#[test]
fn inverted_range_is_not_satisfiable() {
    let p = params(&[], None);
    let (mut engine, step) =
        Engine::start(&p, Method::Get, b"/data.bin", None, Some(b"bytes=50-10"));
    assert_eq!(probe_path(&step), b"/srv/www/data.bin".to_vec());
    let step = engine.next(FileStatus::File(100));
    assert_eq!(error_status(&step), 416);
}

#[test]
fn unrecognized_range_header_serves_full_file() {
    let p = params(&[], None);
    let (mut engine, step) =
        Engine::start(&p, Method::Get, b"/data.bin", None, Some(b"items=0-10"));
    assert_eq!(probe_path(&step), b"/srv/www/data.bin".to_vec());
    let step = engine.next(FileStatus::File(100));
    let step = match step {
        Step::Probe(_) => engine.next(FileStatus::File(100)),
        done => done,
    };
    match step {
        Step::Done(ResponseOutcome::Full { status, size, .. }) => {
            assert_eq!(status, 200);
            assert_eq!(size, 100);
        },
        other => panic!("expected a full response, got {:?}", other),
    }
}

#[test]
fn range_request_on_missing_path_is_404() {
    let p = params(&[], Some(b"404.html"));
    let (mut engine, step) =
        Engine::start(&p, Method::Get, b"/gone", None, Some(b"bytes=0-10"));
    assert_eq!(probe_path(&step), b"/srv/www/gone".to_vec());
    // a recognized range request does not fall back to the 404 document
    let step = engine.next(FileStatus::Absent);
    assert_eq!(error_status(&step), 404);
}

#[test]
fn head_ignores_range_and_not_found_document() {
    let p = params(&[], Some(b"404.html"));
    let (mut engine, step) =
        Engine::start(&p, Method::Head, b"/gone", None, Some(b"bytes=0-10"));
    assert_eq!(probe_path(&step), b"/srv/www/gone".to_vec());
    let step = engine.next(FileStatus::Absent);
    assert_eq!(error_status(&step), 404);
}

fn full_outcome(size: u64) -> ResponseOutcome {
    let p = params(&[b"gzip"], None);
    let (mut engine, step) = Engine::start(&p, Method::Get, b"/a.txt", Some(b"gzip"), None);
    assert_eq!(probe_path(&step), b"/srv/www/a.txt".to_vec());
    let step = engine.next(FileStatus::File(size));
    assert_eq!(probe_path(&step), b"/srv/www/a.txt.gz".to_vec());
    match engine.next(FileStatus::File(size)) {
        Step::Done(o) => o,
        other => panic!("expected an outcome, got {:?}", other),
    }
}

#[test]
fn head_headers_match_get_headers() {
    let outcome = full_outcome(9);
    let get_plan = build_plan(&outcome, false, b"text/plain");
    let head_plan = build_plan(&outcome, true, b"text/plain");
    assert_eq!(head_plan.status, get_plan.status);
    // the HEAD headers are the GET headers plus Accept-Ranges at the end
    let mut expected = get_plan.headers.clone();
    expected.push((HeaderName::AcceptRanges, b"bytes".to_vec()));
    assert_eq!(head_plan.headers, expected);
    match head_plan.body {
        BodyPlan::Empty => {},
        other => panic!("HEAD body must be empty, got {:?}", other),
    }
}

#[test]
fn repeated_request_is_byte_identical() {
    let run = || {
        let p = params(&[b"gzip"], Some(b"404.html"));
        let (mut engine, step) =
            Engine::start(&p, Method::Get, b"/docs/a.txt", Some(b"gzip"), None);
        let mut probes: Vec<Vec<u8>> = vec![probe_path(&step)];
        let script = [FileStatus::File(10), FileStatus::Absent, FileStatus::File(10)];
        let mut outcome = None;
        for ev in script.iter() {
            match engine.next(*ev) {
                Step::Probe(p2) => probes.push(p2),
                Step::Done(o) => {
                    outcome = Some(o);
                    break;
                },
            }
        }
        let plan = build_plan(&outcome.expect("an outcome"), false, b"text/plain");
        (probes, plan.status, plan.headers, format!("{:?}", plan.body))
    };
    let first = run();
    let second = run();
    assert_eq!(first, second);
}

#[test]
fn error_bodies_are_the_fixed_literals() {
    let cases: [(u16, &[u8]); 4] = [
        (400, b"400 bad request"),
        (404, b"404 not found"),
        (405, b"405 method not allowed"),
        (416, b"416 range not satisfiable"),
    ];
    for (status, text) in cases.iter() {
        let plan = build_plan(&ResponseOutcome::Error { status: *status }, false, b"x");
        assert_eq!(plan.status, *status);
        match plan.body {
            BodyPlan::Literal(ref b) => assert_eq!(b, &text.to_vec()),
            ref other => panic!("expected a literal body, got {:?}", other),
        }
    }
}
