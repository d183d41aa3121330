//! Lexical resolution of a request path against the server root.
//!
//! The request path is split on '/', the segments are normalized ('.' and
//! empty segments vanish, ".." removes the segment before it), and the
//! result is joined back under the root. A path whose ".." segments would
//! climb above the root does not resolve at all, so every resolved path
//! stays inside the root by construction.
use vstd::prelude::*;

use crate::bytes_util::{split_bytes, split_on, subrange_vec};
use crate::encodings::{Encoding, encoding_of_token, get_encoded_ext, suffix_bytes, suffix_seq};

verus! {

/// Segments left after resolving empty, "." and ".." segments; nothing
/// when a ".." would climb above the start.
pub open spec fn normalize_pieces(pieces: Seq<Seq<u8>>) -> Option<Seq<Seq<u8>>>
    decreases pieces.len(),
{
    if pieces.len() == 0 {
        Some(Seq::empty())
    } else {
        match normalize_pieces(pieces.drop_last()) {
            None => None,
            Some(acc) => {
                let last = pieces.last();
                if last.len() == 0 || last == seq![46u8] {
                    Some(acc)
                } else if last == seq![46u8, 46u8] {
                    if acc.len() == 0 {
                        None
                    } else {
                        Some(acc.drop_last())
                    }
                } else {
                    Some(acc.push(last))
                }
            },
        }
    }
}

/// The root joined with each segment in turn, '/' between.
pub open spec fn join_under(root: Seq<u8>, segs: Seq<Seq<u8>>) -> Seq<u8>
    decreases segs.len(),
{
    if segs.len() == 0 {
        root
    } else {
        join_under(root, segs.drop_last()) + seq![47u8] + segs.last()
    }
}

/// Where a request path leads under the root, if anywhere.
pub open spec fn resolve_path(root: Seq<u8>, rel: Seq<u8>) -> Option<Seq<u8>> {
    match normalize_pieces(split_on(rel, 47)) {
        Some(segs) => Some(join_under(root, segs)),
        None => None,
    }
}

/// `p` is the root itself or sits below it, with a '/' right after the
/// root prefix.
pub open spec fn within_root(p: Seq<u8>, root: Seq<u8>) -> bool {
    p.len() >= root.len() && p.take(root.len() as int) == root && (p.len() == root.len() || p[root.len() as int]
        == 47)
}

/// Everything the root is joined with stays within the root.
pub proof fn lemma_join_within_root(root: Seq<u8>, segs: Seq<Seq<u8>>)
    ensures
        within_root(join_under(root, segs), root),
    decreases segs.len(),
{
    if segs.len() == 0 {
        assert(join_under(root, segs).take(root.len() as int) =~= root);
    } else {
        lemma_join_within_root(root, segs.drop_last());
        let j = join_under(root, segs.drop_last());
        let p = join_under(root, segs);
        assert(p.take(root.len() as int) =~= j.take(root.len() as int));
    }
}

/// A resolved request path is always within the root.
pub proof fn lemma_resolve_path_within_root(root: Seq<u8>, rel: Seq<u8>)
    ensures
        resolve_path(root, rel) matches Some(p) ==> within_root(p, root),
{
    if resolve_path(root, rel) is Some {
        let segs = normalize_pieces(split_on(rel, 47)).unwrap();
        lemma_join_within_root(root, segs);
    }
}

/// A path within the root, extended in place, stays within the root when
/// the root is extended across a '/' or the extension begins with one.
pub proof fn lemma_within_root_append(p: Seq<u8>, root: Seq<u8>, ext: Seq<u8>)
    requires
        within_root(p, root),
        p.len() > root.len() || (ext.len() > 0 && ext[0] == 47),
    ensures
        within_root(p + ext, root),
{
    assert((p + ext).take(root.len() as int) =~= p.take(root.len() as int));
}

proof fn lemma_normalize_extends_none(pieces: Seq<Seq<u8>>, k: int)
    requires
        0 <= k <= pieces.len(),
        normalize_pieces(pieces.take(k)) is None,
    ensures
        normalize_pieces(pieces) is None,
    decreases pieces.len() - k,
{
    if k < pieces.len() {
        assert(pieces.take(k + 1).drop_last() =~= pieces.take(k));
        lemma_normalize_extends_none(pieces, k + 1);
    } else {
        assert(pieces.take(k) =~= pieces);
    }
}

/// Resolve a request path (or a configured relative path) lexically
/// against the root directory. The result, when there is one, is the
/// root joined with the normalized segments; a path that would climb
/// above the root does not resolve. The input is always taken relative
/// to the root — leading slashes only produce empty segments, which
/// vanish — so an "absolute-looking" request path cannot swap the root
/// out from under the resolution.
pub fn resolve_under_root(root: &[u8], rel: &[u8]) -> (r: Option<Vec<u8>>)
    ensures
        match r {
            Some(p) => resolve_path(root@, rel@) == Some(p@) && within_root(p@, root@),
            None => resolve_path(root@, rel@) is None,
        },
{
    let pieces = split_bytes(rel, 47);
    let ghost pview = pieces@.map_values(|p: Vec<u8>| p@);
    let mut segs: Vec<Vec<u8>> = Vec::new();
    let mut i: usize = 0;
    proof {
        assert(pview.take(0) =~= Seq::<Seq<u8>>::empty());
        assert(normalize_pieces(pview.take(0)) == Some(segs@.map_values(|p: Vec<u8>| p@)));
        assert(split_on(rel@, 47) == pview);
    }
    while i < pieces.len()
        invariant
            0 <= i <= pieces@.len(),
            pview == pieces@.map_values(|p: Vec<u8>| p@),
            split_on(rel@, 47) == pview,
            normalize_pieces(pview.take(i as int)) == Some(segs@.map_values(|p: Vec<u8>| p@)),
        decreases pieces@.len() - i,
    {
        let p = &pieces[i];
        let ghost sview = segs@.map_values(|q: Vec<u8>| q@);
        proof {
            assert(pview.take(i + 1).drop_last() =~= pview.take(i as int));
            assert(pview.take(i + 1).last() == pview[i as int]);
        }
        if p.len() == 0 || (p.len() == 1 && p[0] == 46) {
            proof {
                if p@.len() == 1 {
                    assert(p@ =~= seq![46u8]);
                }
            }
        } else if p.len() == 2 && p[0] == 46 && p[1] == 46 {
            proof {
                assert(p@ =~= seq![46u8, 46u8]);
            }
            if segs.len() == 0 {
                proof {
                    lemma_normalize_extends_none(pview, i + 1);
                }
                return None;
            }
            let _ = segs.pop();
            proof {
                assert(segs@.map_values(|q: Vec<u8>| q@) =~= sview.drop_last());
            }
        } else {
            proof {
                assert(p@.len() != 0);
                assert(p@ != seq![46u8]);
                assert(p@ != seq![46u8, 46u8]);
            }
            let seg = subrange_vec(p.as_slice(), 0, p.len());
            proof {
                assert(seg@ =~= p@);
            }
            segs.push(seg);
            proof {
                assert(segs@.map_values(|q: Vec<u8>| q@) =~= sview.push(p@));
            }
        }
        i += 1;
    }
    proof {
        assert(pview.take(i as int) =~= pview);
    }
    let ghost sview = segs@.map_values(|q: Vec<u8>| q@);
    let mut out: Vec<u8> = vstd::slice::slice_to_vec(root);
    let mut k: usize = 0;
    proof {
        assert(out@ == join_under(root@, sview.take(0)));
    }
    while k < segs.len()
        invariant
            0 <= k <= segs@.len(),
            sview == segs@.map_values(|q: Vec<u8>| q@),
            out@ == join_under(root@, sview.take(k as int)),
        decreases segs@.len() - k,
    {
        out.push(47);
        let seg = &segs[k];
        let mut j: usize = 0;
        while j < seg.len()
            invariant
                0 <= j <= seg@.len(),
                seg@ == segs@.map_values(|q: Vec<u8>| q@)[k as int],
                0 <= k < segs@.len(),
                sview == segs@.map_values(|q: Vec<u8>| q@),
                out@ == join_under(root@, sview.take(k as int)) + seq![47u8] + seg@.take(j as int),
            decreases seg@.len() - j,
        {
            out.push(seg[j]);
            proof {
                assert(out@ =~= join_under(root@, sview.take(k as int)) + seq![47u8] + seg@.take(
                    j + 1,
                ));
            }
            j += 1;
        }
        proof {
            assert(sview.take(k + 1).drop_last() =~= sview.take(k as int));
            assert(sview.take(k + 1).last() == sview[k as int]);
            assert(seg@.take(seg@.len() as int) =~= seg@);
            assert(out@ == join_under(root@, sview.take(k + 1)));
        }
        k += 1;
    }
    proof {
        assert(sview.take(k as int) =~= sview);
        lemma_join_within_root(root@, sview);
    }
    Some(out)
}

/// The file name probed inside a directory: "index.html".
pub open spec fn index_file() -> Seq<u8> {
    seq![105u8, 110u8, 100u8, 101u8, 120u8, 46u8, 104u8, 116u8, 109u8, 108u8]
}

/// `dir` extended with "/index.html".
pub open spec fn index_path(dir: Seq<u8>) -> Seq<u8> {
    dir + seq![47u8] + index_file()
}

/// Build the "index.html" path inside `dir`.
pub fn append_index(dir: &[u8]) -> (r: Vec<u8>)
    ensures
        r@ == index_path(dir@),
{
    let mut out: Vec<u8> = vstd::slice::slice_to_vec(dir);
    out.push(47);  // /
    out.push(105);  // i
    out.push(110);  // n
    out.push(100);  // d
    out.push(101);  // e
    out.push(120);  // x
    out.push(46);  // .
    out.push(104);  // h
    out.push(116);  // t
    out.push(109);  // m
    out.push(108);  // l
    proof {
        assert(out@ =~= index_path(dir@));
    }
    out
}

/// `path` extended with the variant suffix of encoding `e`.
pub fn variant_path(path: &[u8], e: Encoding) -> (r: Vec<u8>)
    ensures
        r@ == path@ + suffix_seq(e),
{
    let mut out: Vec<u8> = vstd::slice::slice_to_vec(path);
    let mut sfx = suffix_bytes(e);
    out.append(&mut sfx);
    out
}

/// The path of the precompressed variant of `filepath` for the encoding
/// the token names; nothing for an unrecognized token.
pub fn add_extension(filepath: &[u8], encoding: &[u8]) -> (r: Option<Vec<u8>>)
    ensures
        match encoding_of_token(encoding@) {
            Some(e) => r matches Some(v) && v@ == filepath@ + suffix_seq(e),
            None => r is None,
        },
{
    match get_encoded_ext(encoding) {
        Some(ext) => {
            let mut out: Vec<u8> = vstd::slice::slice_to_vec(filepath);
            let mut sfx = ext;
            out.append(&mut sfx);
            Some(out)
        },
        None => None,
    }
}

} // verus!
