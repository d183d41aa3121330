//! Parsing of the `Range` request header and resolution of a parsed range
//! against the size of the file being served, together with the
//! `Content-Range` response header text.
//!
//! A header is recognized only when it begins (after trimming) with
//! "bytes=". The remainder is a comma-separated list of range forms: a
//! prefix range "N-", a suffix range "-N", and a window range "N-M" with
//! N < M. One malformed piece fails the whole header.
use vstd::prelude::*;

use crate::bytes_util::{
    bytes_starts_with, find_byte, first_index_of, split_bytes, split_on, subrange_vec, trim_bytes,
    trimmed,
};
use crate::numbers::{all_digits, dec_rep, dec_val, parse_u64, u64_to_dec};

verus! {

/// One parsed byte-range request, before resolution against a file size.
#[derive(Clone, Copy, Debug, PartialEq, Eq, Structural)]
pub enum ByteRange {
    /// "N-": from byte N to the end of the file.
    Prefix { start: u64 },
    /// "-N": the last N bytes of the file.
    Suffix { length: u64 },
    /// "N-M", N < M: the window starting at byte N whose last byte,
    /// on the wire, is M.
    Window { start: u64, end: u64 },
}

/// A digit string whose value fits in `u64`.
pub open spec fn valid_u64(s: Seq<u8>) -> bool {
    s.len() > 0 && all_digits(s) && dec_val(s) <= u64::MAX
}

/// The window form "N-M": both sides of the first '-' must be numbers
/// with N < M.
pub open spec fn parse_window(p: Seq<u8>) -> Option<ByteRange> {
    match first_index_of(p, 45) {
        Some(i) => {
            let left = p.take(i);
            let right = p.skip(i + 1);
            if valid_u64(left) && valid_u64(right) && dec_val(left) < dec_val(right) {
                Some(
                    ByteRange::Window {
                        start: dec_val(left) as u64,
                        end: dec_val(right) as u64,
                    },
                )
            } else {
                None
            }
        },
        None => None,
    }
}

/// One comma-separated piece of the header, already trimmed.
pub open spec fn parse_range_piece(p: Seq<u8>) -> Option<ByteRange> {
    if p.len() > 0 && p.last() == 45 {
        if valid_u64(p.drop_last()) {
            Some(ByteRange::Prefix { start: dec_val(p.drop_last()) as u64 })
        } else {
            None
        }
    } else if p.len() > 0 && p[0] == 45 {
        if valid_u64(p.skip(1)) {
            Some(ByteRange::Suffix { length: dec_val(p.skip(1)) as u64 })
        } else {
            None
        }
    } else {
        parse_window(p)
    }
}

/// All pieces parsed in order; one failure fails the list.
pub open spec fn parse_pieces(pieces: Seq<Seq<u8>>) -> Option<Seq<ByteRange>>
    decreases pieces.len(),
{
    if pieces.len() == 0 {
        Some(Seq::empty())
    } else {
        match (parse_pieces(pieces.drop_last()), parse_range_piece(trimmed(pieces.last()))) {
            (Some(rs), Some(r)) => Some(rs.push(r)),
            _ => None,
        }
    }
}

/// The literal "bytes=" that a recognized `Range` header begins with.
pub open spec fn bytes_eq_prefix() -> Seq<u8> {
    seq![98u8, 121u8, 116u8, 101u8, 115u8, 61u8]
}

/// The ranges named by a `Range` header value: nothing unless the
/// trimmed value begins with "bytes=" and every comma-separated piece
/// parses.
pub open spec fn parse_ranges(h: Seq<u8>) -> Option<Seq<ByteRange>> {
    let t = trimmed(h);
    if t.len() >= 6 && t.take(6) == bytes_eq_prefix() {
        parse_pieces(split_on(t.skip(6), 44))
    } else {
        None
    }
}

proof fn lemma_parse_pieces_none(pieces: Seq<Seq<u8>>, j: int)
    requires
        0 <= j < pieces.len(),
        parse_range_piece(trimmed(pieces[j])) is None,
    ensures
        parse_pieces(pieces) is None,
    decreases pieces.len(),
{
    if j < pieces.len() - 1 {
        lemma_parse_pieces_none(pieces.drop_last(), j);
    }
}

/// Exec form of the "bytes=" literal.
pub(crate) fn bytes_eq_prefix_exec() -> (r: Vec<u8>)
    ensures
        r@ == bytes_eq_prefix(),
{
    let mut v: Vec<u8> = Vec::new();
    v.push(98);  // b
    v.push(121);  // y
    v.push(116);  // t
    v.push(101);  // e
    v.push(115);  // s
    v.push(61);  // =
    proof {
        assert(v@ =~= bytes_eq_prefix());
    }
    v
}

/// Parse a window range "N-M"; nothing for any other shape.
pub fn get_window_range(range_chunk: &[u8]) -> (r: Option<ByteRange>)
    ensures
        r == parse_window(range_chunk@),
{
    let n = range_chunk.len();
    match find_byte(range_chunk, 45) {
        Some(i) => {
            let left = subrange_vec(range_chunk, 0, i);
            let right = subrange_vec(range_chunk, i + 1, n);
            proof {
                assert(left@ =~= range_chunk@.take(i as int));
                assert(right@ =~= range_chunk@.skip(i + 1));
            }
            match (parse_u64(left.as_slice()), parse_u64(right.as_slice())) {
                (Some(s), Some(e)) => {
                    if s < e {
                        Some(ByteRange::Window { start: s, end: e })
                    } else {
                        None
                    }
                },
                _ => None,
            }
        },
        None => None,
    }
}

/// Parse one already-trimmed piece of the comma-separated list.
fn parse_piece(p: &[u8]) -> (r: Option<ByteRange>)
    ensures
        r == parse_range_piece(p@),
{
    if p.len() > 0 && p[p.len() - 1] == 45 {
        let head = subrange_vec(p, 0, p.len() - 1);
        proof {
            assert(head@ =~= p@.drop_last());
        }
        match parse_u64(head.as_slice()) {
            Some(v) => Some(ByteRange::Prefix { start: v }),
            None => None,
        }
    } else if p.len() > 0 && p[0] == 45 {
        let tail = subrange_vec(p, 1, p.len());
        proof {
            assert(tail@ =~= p@.skip(1));
        }
        match parse_u64(tail.as_slice()) {
            Some(v) => Some(ByteRange::Suffix { length: v }),
            None => None,
        }
    } else {
        get_window_range(p)
    }
}

/// The ranges of a `Range` header value, or nothing when the header is
/// not recognized or any piece is malformed.
pub fn get_ranges(range_header_value: &[u8]) -> (r: Option<Vec<ByteRange>>)
    ensures
        match r {
            Some(v) => parse_ranges(range_header_value@) == Some(v@),
            None => parse_ranges(range_header_value@) is None,
        },
{
    let t = trim_bytes(range_header_value);
    let prefix = bytes_eq_prefix_exec();
    if !bytes_starts_with(t.as_slice(), prefix.as_slice()) {
        return None;
    }
    let rest = subrange_vec(t.as_slice(), 6, t.len());
    proof {
        assert(rest@ =~= trimmed(range_header_value@).skip(6));
    }
    let pieces = split_bytes(rest.as_slice(), 44);
    let ghost pview = pieces@.map_values(|p: Vec<u8>| p@);
    let mut out: Vec<ByteRange> = Vec::new();
    let mut i: usize = 0;
    proof {
        assert(pview.take(0) =~= Seq::<Seq<u8>>::empty());
        assert(parse_pieces(pview.take(0)) == Some(out@));
    }
    proof {
        assert(parse_ranges(range_header_value@) == parse_pieces(pview));
    }
    while i < pieces.len()
        invariant
            0 <= i <= pieces@.len(),
            pview == pieces@.map_values(|p: Vec<u8>| p@),
            parse_pieces(pview.take(i as int)) == Some(out@),
            parse_ranges(range_header_value@) == parse_pieces(pview),
        decreases pieces@.len() - i,
    {
        let piece = trim_bytes(pieces[i].as_slice());
        proof {
            assert(pview.take(i + 1).drop_last() =~= pview.take(i as int));
            assert(pview.take(i + 1).last() == pview[i as int]);
        }
        match parse_piece(piece.as_slice()) {
            Some(rng) => {
                out.push(rng);
            },
            None => {
                proof {
                    assert(piece@ == trimmed(pview[i as int]));
                    lemma_parse_pieces_none(pview, i as int);
                }
                return None;
            },
        }
        i += 1;
    }
    proof {
        assert(pview.take(i as int) =~= pview);
    }
    Some(out)
}

/// The bounds actually served for a parsed range against file size
/// `size`: a half-open window `[start, end)`.
///
/// A prefix range "N-" serves `[N, size)` and is malformed when
/// N > size; a suffix range "-N" serves the last N bytes, the whole
/// file when N >= size; a window range "N-M" serves `[N, M + 1)` and is
/// malformed when M >= size.
pub open spec fn resolved_bounds(r: ByteRange, size: u64) -> Option<(u64, u64)> {
    match r {
        ByteRange::Prefix { start } => if start <= size {
            Some((start, size))
        } else {
            None
        },
        ByteRange::Suffix { length } => if length >= size {
            Some((0u64, size))
        } else {
            Some(((size - length) as u64, size))
        },
        ByteRange::Window { start, end } => if end < size && start <= end + 1 {
            Some((start, (end + 1) as u64))
        } else {
            None
        },
    }
}

/// The served bounds for the first range of the list, nothing for an
/// empty list or an unservable range.
pub fn get_start_end(ranges: &Vec<ByteRange>, size: u64) -> (r: Option<(u64, u64)>)
    ensures
        r == if ranges@.len() == 0 {
            None::<(u64, u64)>
        } else {
            resolved_bounds(ranges@[0], size)
        },
{
    if ranges.len() == 0 {
        return None;
    }
    match ranges[0] {
        ByteRange::Prefix { start } => {
            if start <= size {
                Some((start, size))
            } else {
                None
            }
        },
        ByteRange::Suffix { length } => {
            if length >= size {
                Some((0, size))
            } else {
                Some((size - length, size))
            }
        },
        ByteRange::Window { start, end } => {
            if end < size && start <= end + 1 {
                Some((start, end + 1))
            } else {
                None
            }
        },
    }
}

/// The text of the `Content-Range` header for served bounds
/// `[start, end)` of a file of `size` bytes: "bytes {start}-{last}/{size}"
/// where `last` is `end - 1`, the index of the last byte served (0 when
/// the served window is empty at the start of the file).
pub open spec fn content_range_seq(start: u64, end: u64, size: u64) -> Seq<u8> {
    let last: u64 = if end == 0 {
        0u64
    } else {
        (end - 1) as u64
    };
    seq![98u8, 121u8, 116u8, 101u8, 115u8, 32u8] + dec_rep(start as nat) + seq![45u8] + dec_rep(
        last as nat,
    ) + seq![47u8] + dec_rep(size as nat)
}

/// Build the `Content-Range` header text for served bounds `[start, end)`.
pub fn build_content_range_header_str(start: u64, end: u64, size: u64) -> (r: Vec<u8>)
    ensures
        r@ == content_range_seq(start, end, size),
{
    let last: u64 = if end == 0 {
        0
    } else {
        end - 1
    };
    let mut out: Vec<u8> = Vec::new();
    out.push(98);  // b
    out.push(121);  // y
    out.push(116);  // t
    out.push(101);  // e
    out.push(115);  // s
    out.push(32);  // space
    let mut d1 = u64_to_dec(start);
    out.append(&mut d1);
    out.push(45);  // -
    let mut d2 = u64_to_dec(last);
    out.append(&mut d2);
    out.push(47);  // /
    let mut d3 = u64_to_dec(size);
    out.append(&mut d3);
    proof {
        assert(out@ =~= content_range_seq(start, end, size));
    }
    out
}

} // verus!
