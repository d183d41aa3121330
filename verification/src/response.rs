//! From a `ResponseOutcome` to the concrete response: status code,
//! headers in order, and a body plan. The body of a served file is never
//! buffered: the plan names the file and the byte window, and the caller
//! streams it.
use vstd::prelude::*;

use crate::encodings::{Encoding, token_seq, token_bytes};
use crate::engine::{OutcomeModel, ResponseOutcome};
use crate::numbers::dec_rep;
use crate::ranges::{build_content_range_header_str, content_range_seq};

verus! {

/// The response headers this server ever sets.
#[derive(Clone, Copy, Debug, PartialEq, Eq, Structural)]
pub enum HeaderName {
    ContentType,
    ContentLength,
    ContentEncoding,
    ContentRange,
    AcceptRanges,
}

/// How the response body is produced.
#[derive(Debug)]
pub enum BodyPlan {
    /// An explicitly empty body (HEAD).
    Empty,
    /// A fixed literal body (error responses).
    Literal(Vec<u8>),
    /// `len` bytes of the named file starting at offset `start`,
    /// streamed lazily.
    FileStream { path: Vec<u8>, start: u64, len: u64 },
}

/// The view of `BodyPlan` over sequences.
pub enum BodyModel {
    Empty,
    Literal(Seq<u8>),
    FileStream { path: Seq<u8>, start: u64, len: u64 },
}

impl View for BodyPlan {
    type V = BodyModel;

    open spec fn view(&self) -> BodyModel {
        match self {
            BodyPlan::Empty => BodyModel::Empty,
            BodyPlan::Literal(b) => BodyModel::Literal(b@),
            BodyPlan::FileStream { path, start, len } => BodyModel::FileStream {
                path: path@,
                start: *start,
                len: *len,
            },
        }
    }
}

/// A complete response: status, headers in the order they are written,
/// and the body plan.
#[derive(Debug)]
pub struct ResponsePlan {
    pub status: u16,
    pub headers: Vec<(HeaderName, Vec<u8>)>,
    pub body: BodyPlan,
}

/// The view of `ResponsePlan` over sequences.
pub struct PlanModel {
    pub status: u16,
    pub headers: Seq<(HeaderName, Seq<u8>)>,
    pub body: BodyModel,
}

impl View for ResponsePlan {
    type V = PlanModel;

    open spec fn view(&self) -> PlanModel {
        PlanModel {
            status: self.status,
            headers: self.headers@.map_values(|h: (HeaderName, Vec<u8>)| (h.0, h.1@)),
            body: self.body@,
        }
    }
}

/// The fixed ASCII body of an error response ("404 not found" and its
/// siblings).
pub open spec fn error_body_seq(status: u16) -> Seq<u8> {
    if status == 400 {
        // "400 bad request"
        seq![52u8, 48u8, 48u8, 32u8, 98u8, 97u8, 100u8, 32u8, 114u8, 101u8, 113u8, 117u8, 101u8,
            115u8, 116u8]
    } else if status == 405 {
        // "405 method not allowed"
        seq![52u8, 48u8, 53u8, 32u8, 109u8, 101u8, 116u8, 104u8, 111u8, 100u8, 32u8, 110u8, 111u8,
            116u8, 32u8, 97u8, 108u8, 108u8, 111u8, 119u8, 101u8, 100u8]
    } else if status == 416 {
        // "416 range not satisfiable"
        seq![52u8, 49u8, 54u8, 32u8, 114u8, 97u8, 110u8, 103u8, 101u8, 32u8, 110u8, 111u8, 116u8,
            32u8, 115u8, 97u8, 116u8, 105u8, 115u8, 102u8, 105u8, 97u8, 98u8, 108u8, 101u8]
    } else {
        // "404 not found"
        seq![52u8, 48u8, 52u8, 32u8, 110u8, 111u8, 116u8, 32u8, 102u8, 111u8, 117u8, 110u8, 100u8]
    }
}

/// "text/html", the content type of every fixed error body.
pub open spec fn html_type_seq() -> Seq<u8> {
    seq![116u8, 101u8, 120u8, 116u8, 47u8, 104u8, 116u8, 109u8, 108u8]
}

/// "bytes", the value of `Accept-Ranges`.
pub open spec fn accept_ranges_seq() -> Seq<u8> {
    seq![98u8, 121u8, 116u8, 101u8, 115u8]
}

/// The headers common to a whole-file response: content type, content
/// length, the chosen encoding if any, and for HEAD the range
/// advertisement.
pub open spec fn full_headers_seq(mime: Seq<u8>, size: u64, encoding: Option<Encoding>, head: bool) -> Seq<
    (HeaderName, Seq<u8>),
> {
    seq![(HeaderName::ContentType, mime), (HeaderName::ContentLength, dec_rep(size as nat))]
        + (match encoding {
        Some(e) => seq![(HeaderName::ContentEncoding, token_seq(e))],
        None => Seq::empty(),
    }) + (if head {
        seq![(HeaderName::AcceptRanges, accept_ranges_seq())]
    } else {
        Seq::empty()
    })
}

/// The number of bytes in the served window `[start, end)`.
pub open spec fn window_len(start: u64, end: u64) -> u64 {
    if end >= start {
        (end - start) as u64
    } else {
        0u64
    }
}

/// The headers of a partial-content response: content type, the served
/// window, its length, the chosen encoding if any.
pub open spec fn partial_headers_seq(
    mime: Seq<u8>,
    start: u64,
    end: u64,
    size: u64,
    encoding: Option<Encoding>,
    head: bool,
) -> Seq<(HeaderName, Seq<u8>)> {
    seq![(HeaderName::ContentType, mime), (HeaderName::ContentRange, content_range_seq(start, end, size)), (HeaderName::ContentLength, dec_rep(window_len(start, end) as nat))]
        + (match encoding {
        Some(e) => seq![(HeaderName::ContentEncoding, token_seq(e))],
        None => Seq::empty(),
    }) + (if head {
        seq![(HeaderName::AcceptRanges, accept_ranges_seq())]
    } else {
        Seq::empty()
    })
}

/// The complete response for an outcome: `mime` is the content type the
/// caller looked up for the outcome's origin file; `head` empties the
/// body and advertises ranges, changing nothing else.
pub open spec fn plan_of(o: OutcomeModel, head: bool, mime: Seq<u8>) -> PlanModel {
    match o {
        OutcomeModel::Full { origin, path, encoding, size, status } => PlanModel {
            status,
            headers: full_headers_seq(mime, size, encoding, head),
            body: if head {
                BodyModel::Empty
            } else {
                BodyModel::FileStream { path, start: 0, len: size }
            },
        },
        OutcomeModel::Partial { origin, path, encoding, start, end, size } => PlanModel {
            status: 206,
            headers: partial_headers_seq(mime, start, end, size, encoding, head),
            body: if head {
                BodyModel::Empty
            } else {
                BodyModel::FileStream { path, start, len: window_len(start, end) }
            },
        },
        OutcomeModel::Error { status } => PlanModel {
            status,
            headers: seq![(HeaderName::ContentType, html_type_seq())],
            body: BodyModel::Literal(error_body_seq(status)),
        },
    }
}

/// The fixed ASCII body of an error response.
pub fn error_body(status: u16) -> (r: Vec<u8>)
    ensures
        r@ == error_body_seq(status),
{
    let mut v: Vec<u8> = Vec::new();
    if status == 400 {
        v.push(52);
        v.push(48);
        v.push(48);
        v.push(32);
        v.push(98);
        v.push(97);
        v.push(100);
        v.push(32);
        v.push(114);
        v.push(101);
        v.push(113);
        v.push(117);
        v.push(101);
        v.push(115);
        v.push(116);
    } else if status == 405 {
        v.push(52);
        v.push(48);
        v.push(53);
        v.push(32);
        v.push(109);
        v.push(101);
        v.push(116);
        v.push(104);
        v.push(111);
        v.push(100);
        v.push(32);
        v.push(110);
        v.push(111);
        v.push(116);
        v.push(32);
        v.push(97);
        v.push(108);
        v.push(108);
        v.push(111);
        v.push(119);
        v.push(101);
        v.push(100);
    } else if status == 416 {
        v.push(52);
        v.push(49);
        v.push(54);
        v.push(32);
        v.push(114);
        v.push(97);
        v.push(110);
        v.push(103);
        v.push(101);
        v.push(32);
        v.push(110);
        v.push(111);
        v.push(116);
        v.push(32);
        v.push(115);
        v.push(97);
        v.push(116);
        v.push(105);
        v.push(115);
        v.push(102);
        v.push(105);
        v.push(97);
        v.push(98);
        v.push(108);
        v.push(101);
    } else {
        v.push(52);
        v.push(48);
        v.push(52);
        v.push(32);
        v.push(110);
        v.push(111);
        v.push(116);
        v.push(32);
        v.push(102);
        v.push(111);
        v.push(117);
        v.push(110);
        v.push(100);
    }
    proof {
        assert(v@ =~= error_body_seq(status));
    }
    v
}

/// "text/html" as owned bytes.
pub fn html_type_bytes() -> (r: Vec<u8>)
    ensures
        r@ == html_type_seq(),
{
    let mut v: Vec<u8> = Vec::new();
    v.push(116);  // t
    v.push(101);  // e
    v.push(120);  // x
    v.push(116);  // t
    v.push(47);  // /
    v.push(104);  // h
    v.push(116);  // t
    v.push(109);  // m
    v.push(108);  // l
    proof {
        assert(v@ =~= html_type_seq());
    }
    v
}

/// "bytes" as owned bytes.
pub fn accept_ranges_bytes() -> (r: Vec<u8>)
    ensures
        r@ == accept_ranges_seq(),
{
    let mut v: Vec<u8> = Vec::new();
    v.push(98);  // b
    v.push(121);  // y
    v.push(116);  // t
    v.push(101);  // e
    v.push(115);  // s
    proof {
        assert(v@ =~= accept_ranges_seq());
    }
    v
}

/// Build the concrete response for an outcome. `mime` is the content
/// type of the outcome's origin file (ignored for error outcomes);
/// `head` is whether the request was HEAD.
pub fn build_plan(outcome: &ResponseOutcome, head: bool, mime: &[u8]) -> (r: ResponsePlan)
    ensures
        r@ == plan_of(outcome@, head, mime@),
{
    let ghost gmime = mime@;
    match outcome {
        ResponseOutcome::Full { origin, path, encoding, size, status } => {
            let mut headers: Vec<(HeaderName, Vec<u8>)> = Vec::new();
            headers.push((HeaderName::ContentType, crate::bytes_util::subrange_vec(mime, 0, mime.len())));
            headers.push((HeaderName::ContentLength, crate::numbers::u64_to_dec(*size)));
            match encoding {
                Some(e) => {
                    headers.push((HeaderName::ContentEncoding, token_bytes(*e)));
                },
                None => {},
            }
            if head {
                headers.push((HeaderName::AcceptRanges, accept_ranges_bytes()));
            }
            let body = if head {
                BodyPlan::Empty
            } else {
                BodyPlan::FileStream {
                    path: crate::bytes_util::subrange_vec(path.as_slice(), 0, path.len()),
                    start: 0,
                    len: *size,
                }
            };
            let plan = ResponsePlan { status: *status, headers, body };
            proof {
                assert(gmime.subrange(0, gmime.len() as int) =~= gmime);
                assert(path@.subrange(0, path@.len() as int) =~= path@);
                assert(plan@.headers =~= full_headers_seq(gmime, *size, *encoding, head));
            }
            plan
        },
        ResponseOutcome::Partial { origin, path, encoding, start, end, size } => {
            let mut headers: Vec<(HeaderName, Vec<u8>)> = Vec::new();
            headers.push((HeaderName::ContentType, crate::bytes_util::subrange_vec(mime, 0, mime.len())));
            headers.push((
                HeaderName::ContentRange,
                build_content_range_header_str(*start, *end, *size),
            ));
            let window: u64 = if *end >= *start {
                *end - *start
            } else {
                0
            };
            headers.push((HeaderName::ContentLength, crate::numbers::u64_to_dec(window)));
            match encoding {
                Some(e) => {
                    headers.push((HeaderName::ContentEncoding, token_bytes(*e)));
                },
                None => {},
            }
            if head {
                headers.push((HeaderName::AcceptRanges, accept_ranges_bytes()));
            }
            let body = if head {
                BodyPlan::Empty
            } else {
                BodyPlan::FileStream {
                    path: crate::bytes_util::subrange_vec(path.as_slice(), 0, path.len()),
                    start: *start,
                    len: window,
                }
            };
            let plan = ResponsePlan { status: 206, headers, body };
            proof {
                assert(gmime.subrange(0, gmime.len() as int) =~= gmime);
                assert(path@.subrange(0, path@.len() as int) =~= path@);
                assert(plan@.headers =~= partial_headers_seq(
                    gmime,
                    *start,
                    *end,
                    *size,
                    *encoding,
                    head,
                ));
            }
            plan
        },
        ResponseOutcome::Error { status } => {
            let mut headers: Vec<(HeaderName, Vec<u8>)> = Vec::new();
            headers.push((HeaderName::ContentType, html_type_bytes()));
            let plan = ResponsePlan {
                status: *status,
                headers,
                body: BodyPlan::Literal(error_body(*status)),
            };
            proof {
                assert(plan@.headers =~= seq![(HeaderName::ContentType, html_type_seq())]);
            }
            plan
        },
    }
}

/// HEAD/GET parity: for any outcome, the HEAD response carries the same
/// status and the same headers as the GET response — with one addition,
/// `Accept-Ranges: bytes`, at the end, for file-backed outcomes — and an
/// empty body.
pub proof fn lemma_head_get_parity(o: OutcomeModel, mime: Seq<u8>)
    ensures
        plan_of(o, true, mime).status == plan_of(o, false, mime).status,
        (o is Full || o is Partial) ==> plan_of(o, true, mime).headers == plan_of(
            o,
            false,
            mime,
        ).headers.push((HeaderName::AcceptRanges, accept_ranges_seq())),
        (o is Full || o is Partial) ==> plan_of(o, true, mime).body is Empty,
        o is Error ==> plan_of(o, true, mime) == plan_of(o, false, mime),
{
    match o {
        OutcomeModel::Full { origin, path, encoding, size, status } => {
            assert(full_headers_seq(mime, size, encoding, true) =~= full_headers_seq(
                mime,
                size,
                encoding,
                false,
            ).push((HeaderName::AcceptRanges, accept_ranges_seq())));
        },
        OutcomeModel::Partial { origin, path, encoding, start, end, size } => {
            assert(partial_headers_seq(mime, start, end, size, encoding, true)
                =~= partial_headers_seq(mime, start, end, size, encoding, false).push(
                (HeaderName::AcceptRanges, accept_ranges_seq()),
            ));
        },
        OutcomeModel::Error { status } => {},
    }
}

} // verus!
