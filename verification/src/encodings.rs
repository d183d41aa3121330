//! The encoding catalog: the fixed set of content-encodings the server can
//! serve precompressed variants for, the file suffix of each, and the
//! negotiation of the client's `Accept-Encoding` header against the catalog.
use vstd::prelude::*;

use crate::bytes_util::{
    bytes_eq, find_byte, first_index_of, split_bytes, split_on, subrange_vec, trim_bytes, trimmed,
};

verus! {

/// A content-encoding the catalog can recognize.
#[derive(Clone, Copy, Debug, PartialEq, Eq, Structural)]
pub enum Encoding {
    Gzip,
    Deflate,
    Br,
    Zstd,
}

/// The header token of an encoding, as bytes ("gzip", "deflate", "br", "zstd").
pub open spec fn token_seq(e: Encoding) -> Seq<u8> {
    match e {
        Encoding::Gzip => seq![103u8, 122u8, 105u8, 112u8],
        Encoding::Deflate => seq![100u8, 101u8, 102u8, 108u8, 97u8, 116u8, 101u8],
        Encoding::Br => seq![98u8, 114u8],
        Encoding::Zstd => seq![122u8, 115u8, 116u8, 100u8],
    }
}

/// The file suffix of a precompressed variant (".gz", ".zz", ".br", ".zst").
pub open spec fn suffix_seq(e: Encoding) -> Seq<u8> {
    match e {
        Encoding::Gzip => seq![46u8, 103u8, 122u8],
        Encoding::Deflate => seq![46u8, 122u8, 122u8],
        Encoding::Br => seq![46u8, 98u8, 114u8],
        Encoding::Zstd => seq![46u8, 122u8, 115u8, 116u8],
    }
}

/// The encoding a token names, if it is one of the four recognized tokens.
pub open spec fn encoding_of_token(t: Seq<u8>) -> Option<Encoding> {
    if t == token_seq(Encoding::Gzip) {
        Some(Encoding::Gzip)
    } else if t == token_seq(Encoding::Deflate) {
        Some(Encoding::Deflate)
    } else if t == token_seq(Encoding::Br) {
        Some(Encoding::Br)
    } else if t == token_seq(Encoding::Zstd) {
        Some(Encoding::Zstd)
    } else {
        None
    }
}

pub proof fn lemma_token_seq_distinct(e1: Encoding, e2: Encoding)
    ensures
        token_seq(e1) == token_seq(e2) ==> e1 == e2,
{
    if e1 != e2 && token_seq(e1) == token_seq(e2) {
        assert(token_seq(e1).len() == token_seq(e2).len());
        assert(token_seq(e1)[0] == token_seq(e2)[0]);
    }
}

/// The token of an encoding, as owned bytes.
pub fn token_bytes(e: Encoding) -> (r: Vec<u8>)
    ensures
        r@ == token_seq(e),
{
    let mut v: Vec<u8> = Vec::new();
    match e {
        Encoding::Gzip => {
            v.push(103);  // g
            v.push(122);  // z
            v.push(105);  // i
            v.push(112);  // p
        },
        Encoding::Deflate => {
            v.push(100);  // d
            v.push(101);  // e
            v.push(102);  // f
            v.push(108);  // l
            v.push(97);  // a
            v.push(116);  // t
            v.push(101);  // e
        },
        Encoding::Br => {
            v.push(98);  // b
            v.push(114);  // r
        },
        Encoding::Zstd => {
            v.push(122);  // z
            v.push(115);  // s
            v.push(116);  // t
            v.push(100);  // d
        },
    }
    proof {
        assert(v@ =~= token_seq(e));
    }
    v
}

/// The variant file suffix of an encoding, as owned bytes.
pub fn suffix_bytes(e: Encoding) -> (r: Vec<u8>)
    ensures
        r@ == suffix_seq(e),
{
    let mut v: Vec<u8> = Vec::new();
    v.push(46);  // .
    match e {
        Encoding::Gzip => {
            v.push(103);  // g
            v.push(122);  // z
        },
        Encoding::Deflate => {
            v.push(122);  // z
            v.push(122);  // z
        },
        Encoding::Br => {
            v.push(98);  // b
            v.push(114);  // r
        },
        Encoding::Zstd => {
            v.push(122);  // z
            v.push(115);  // s
            v.push(116);  // t
        },
    }
    proof {
        assert(v@ =~= suffix_seq(e));
    }
    v
}

/// The encoding a token names, or nothing for an unrecognized token.
pub fn match_token(t: &[u8]) -> (r: Option<Encoding>)
    ensures
        r == encoding_of_token(t@),
{
    let gz = token_bytes(Encoding::Gzip);
    if bytes_eq(t, gz.as_slice()) {
        return Some(Encoding::Gzip);
    }
    let df = token_bytes(Encoding::Deflate);
    if bytes_eq(t, df.as_slice()) {
        return Some(Encoding::Deflate);
    }
    let br = token_bytes(Encoding::Br);
    if bytes_eq(t, br.as_slice()) {
        return Some(Encoding::Br);
    }
    let zs = token_bytes(Encoding::Zstd);
    if bytes_eq(t, zs.as_slice()) {
        return Some(Encoding::Zstd);
    }
    None
}

/// The variant file suffix for a token: ".gz" for "gzip", ".zz" for
/// "deflate", ".br" for "br", ".zst" for "zstd", nothing otherwise.
pub fn get_encoded_ext(encoding: &[u8]) -> (r: Option<Vec<u8>>)
    ensures
        match encoding_of_token(encoding@) {
            Some(e) => r matches Some(v) && v@ == suffix_seq(e),
            None => r is None,
        },
{
    match match_token(encoding) {
        Some(e) => Some(suffix_bytes(e)),
        None => None,
    }
}

/// Which of the four recognized encodings the server is configured to serve.
#[derive(Clone, Copy, Debug, PartialEq, Eq, Structural)]
pub struct AvailableEncodings {
    gzip: bool,
    deflate: bool,
    br: bool,
    zstd: bool,
}

/// Some element of `tokens` is the token of `e`.
pub open spec fn tokens_name(tokens: Seq<Vec<u8>>, e: Encoding) -> bool {
    exists|i: int| 0 <= i < tokens.len() && (#[trigger] tokens[i])@ == token_seq(e)
}

impl AvailableEncodings {
    /// Whether the catalog enables `e`.
    pub closed spec fn allows(self, e: Encoding) -> bool {
        match e {
            Encoding::Gzip => self.gzip,
            Encoding::Deflate => self.deflate,
            Encoding::Br => self.br,
            Encoding::Zstd => self.zstd,
        }
    }

    /// A catalog enabling exactly the encodings named in the given list;
    /// unrecognized tokens are ignored.
    pub fn from(potential_encodings: &Option<Vec<Vec<u8>>>) -> (r: AvailableEncodings)
        ensures
            forall|e: Encoding|
                #[trigger] r.allows(e) <==> match potential_encodings {
                    Some(tokens) => tokens_name(tokens@, e),
                    None => false,
                },
    {
        let mut av_enc = AvailableEncodings { gzip: false, deflate: false, br: false, zstd: false };
        av_enc.update(potential_encodings);
        av_enc
    }

    /// Additionally enable every encoding named in the given list;
    /// unrecognized tokens are ignored.
    pub fn update(&mut self, potential_encodings: &Option<Vec<Vec<u8>>>)
        ensures
            forall|e: Encoding|
                #[trigger] final(self).allows(e) <==> old(self).allows(e) || match (
                potential_encodings) {
                    Some(tokens) => tokens_name(tokens@, e),
                    None => false,
                },
    {
        if let Some(encodings) = potential_encodings {
            let mut i: usize = 0;
            while i < encodings.len()
                invariant
                    0 <= i <= encodings@.len(),
                    forall|e: Encoding|
                        #[trigger] self.allows(e) <==> old(self).allows(e) || tokens_name(
                            encodings@.take(i as int),
                            e,
                        ),
                decreases encodings@.len() - i,
            {
                let tok = &encodings[i];
                let ghost prev = *self;
                let m = match_token(tok.as_slice());
                match m {
                    Some(Encoding::Gzip) => self.gzip = true,
                    Some(Encoding::Deflate) => self.deflate = true,
                    Some(Encoding::Br) => self.br = true,
                    Some(Encoding::Zstd) => self.zstd = true,
                    None => {},
                }
                proof {
                    let taken = encodings@.take(i + 1);
                    assert(taken.drop_last() =~= encodings@.take(i as int));
                    assert(taken[i as int] == encodings@[i as int]);
                    assert forall|e: Encoding|
                        #[trigger] self.allows(e) <==> (old(self).allows(e) || tokens_name(
                            taken,
                            e,
                        )) by {
                        assert(self.allows(e) <==> (prev.allows(e) || m == Some(e)));
                        if self.allows(e) {
                            if prev.allows(e) {
                                if !old(self).allows(e) {
                                    let j = choose|j: int|
                                        0 <= j < i && (#[trigger] encodings@.take(
                                            i as int,
                                        )[j])@ == token_seq(e);
                                    assert((taken[j])@ == token_seq(e));
                                }
                            } else {
                                assert(encoding_of_token(tok@) == Some(e));
                                assert((taken[i as int])@ == token_seq(e));
                            }
                        } else {
                            if tokens_name(taken, e) {
                                let j = choose|j: int|
                                    0 <= j < taken.len() && (#[trigger] taken[j])@ == token_seq(e);
                                if j < i {
                                    assert((encodings@.take(i as int)[j])@ == token_seq(e));
                                    assert(tokens_name(encodings@.take(i as int), e));
                                } else {
                                    assert(tok@ == token_seq(e));
                                    lemma_token_seq_distinct(e, Encoding::Gzip);
                                    lemma_token_seq_distinct(e, Encoding::Deflate);
                                    lemma_token_seq_distinct(e, Encoding::Br);
                                    lemma_token_seq_distinct(e, Encoding::Zstd);
                                    assert(encoding_of_token(tok@) == Some(e));
                                }
                            }
                        }
                    }
                }
                i += 1;
            }
            proof {
                assert(encodings@.take(i as int) =~= encodings@);
            }
        }
    }

    /// Whether the catalog enables the encoding that `encoding` names;
    /// false for every unrecognized token.
    pub fn encoding_is_available(&self, encoding: &[u8]) -> (r: bool)
        ensures
            r == match encoding_of_token(encoding@) {
                Some(e) => self.allows(e),
                None => false,
            },
    {
        match match_token(encoding) {
            Some(e) => self.allows_exec(e),
            None => false,
        }
    }

    /// Whether the catalog enables `e`.
    pub fn allows_exec(&self, e: Encoding) -> (r: bool)
        ensures
            r == self.allows(e),
    {
        match e {
            Encoding::Gzip => self.gzip,
            Encoding::Deflate => self.deflate,
            Encoding::Br => self.br,
            Encoding::Zstd => self.zstd,
        }
    }
}

/// The token part of one comma-separated piece of an `Accept-Encoding`
/// header: what stands before the first ';', trimmed of blanks.
pub open spec fn piece_token(p: Seq<u8>) -> Seq<u8> {
    match first_index_of(p, 59) {
        Some(i) => trimmed(p.take(i)),
        None => trimmed(p),
    }
}

/// The encodings named by the comma-separated pieces, kept in client
/// order, restricted to those the catalog enables.
pub open spec fn selected_encodings(pieces: Seq<Seq<u8>>, av: AvailableEncodings) -> Seq<Encoding>
    decreases pieces.len(),
{
    if pieces.len() == 0 {
        Seq::empty()
    } else {
        selected_encodings(pieces.drop_last(), av) + (match encoding_of_token(
            piece_token(pieces.last()),
        ) {
            Some(e) => if av.allows(e) {
                seq![e]
            } else {
                Seq::empty()
            },
            None => Seq::empty(),
        })
    }
}

/// The negotiated encodings of an `Accept-Encoding` header value: the
/// client's comma-separated tokens, in client order, restricted to those
/// the catalog enables; nothing when no token qualifies.
pub fn get_encodings(header: &[u8], available_encodings: &AvailableEncodings) -> (r: Option<
    Vec<Encoding>,
>)
    ensures
        ({
            let sel = selected_encodings(split_on(header@, 44), *available_encodings);
            match r {
                Some(v) => v@ == sel && sel.len() > 0,
                None => sel.len() == 0,
            }
        }),
{
    let pieces = split_bytes(header, 44);
    let ghost pview = pieces@.map_values(|p: Vec<u8>| p@);
    let mut out: Vec<Encoding> = Vec::new();
    let mut i: usize = 0;
    proof {
        assert(pview.take(0) =~= Seq::<Seq<u8>>::empty());
    }
    while i < pieces.len()
        invariant
            0 <= i <= pieces@.len(),
            pview == pieces@.map_values(|p: Vec<u8>| p@),
            out@ == selected_encodings(pview.take(i as int), *available_encodings),
        decreases pieces@.len() - i,
    {
        let p = &pieces[i];
        let cut: Vec<u8> = match find_byte(p.as_slice(), 59) {
            Some(j) => subrange_vec(p.as_slice(), 0, j),
            None => subrange_vec(p.as_slice(), 0, p.len()),
        };
        proof {
            assert(p@.subrange(0, p@.len() as int) =~= p@);
        }
        let tok = trim_bytes(cut.as_slice());
        proof {
            assert(tok@ == piece_token(pview[i as int]));
            assert(pview.take(i + 1).drop_last() =~= pview.take(i as int));
            assert(pview.take(i + 1).last() == pview[i as int]);
        }
        match match_token(tok.as_slice()) {
            Some(e) => {
                if available_encodings.allows_exec(e) {
                    out.push(e);
                }
            },
            None => {},
        }
        i += 1;
    }
    proof {
        assert(pview.take(i as int) =~= pview);
    }
    if out.len() == 0 {
        None
    } else {
        Some(out)
    }
}

} // verus!
