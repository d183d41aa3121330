//! The engine's global guarantees, stated and proved over its model:
//! containment of every path it touches, the index-document fallback,
//! method gating before any probe, and reproducibility of a whole
//! request exchange.
use vstd::prelude::*;

use crate::encodings::{AvailableEncodings, Encoding, selected_encodings};
use crate::engine::{
    EngineModel, FileStatus, Method, OutcomeModel, ParamsModel, StateModel, StepModel,
    candidate_at, engine_next, engine_start, engine_wf, resolve_failed_spec,
};
use crate::paths::{
    index_file, index_path, lemma_resolve_path_within_root, lemma_within_root_append,
    resolve_path, within_root,
};

verus! {

/// `p` begins with `root`.
pub open spec fn under_root_prefix(p: Seq<u8>, root: Seq<u8>) -> bool {
    p.len() >= root.len() && p.take(root.len() as int) == root
}

proof fn lemma_within_implies_prefix(p: Seq<u8>, root: Seq<u8>)
    requires
        within_root(p, root),
    ensures
        under_root_prefix(p, root),
{
}

proof fn lemma_candidate_under(origin: Seq<u8>, root: Seq<u8>, encs: Seq<Encoding>, idx: int)
    requires
        within_root(origin, root),
    ensures
        under_root_prefix(candidate_at(origin, encs, idx), root),
{
    if idx < encs.len() {
        assert(candidate_at(origin, encs, idx).take(root.len() as int) =~= origin.take(
            root.len() as int,
        ));
    }
}

proof fn lemma_index_under(p: Seq<u8>, root: Seq<u8>)
    requires
        within_root(p, root),
    ensures
        within_root(index_path(p), root),
{
    lemma_within_root_append(p, root, seq![47u8] + index_file());
    assert(p + (seq![47u8] + index_file()) =~= index_path(p));
}

/// Traversal containment, at the engine: whatever a well-formed engine
/// does with a probe answer, every path it asks about begins with the
/// root, and a served outcome names an origin within the root and a
/// served file that begins with the root.
pub proof fn lemma_steps_stay_under_root(m: EngineModel, ev: FileStatus)
    requires
        engine_wf(m),
    ensures
        match engine_next(m, ev).1 {
            StepModel::Probe(p) => under_root_prefix(p, m.root),
            StepModel::Done(o) => match o {
                OutcomeModel::Full { origin, path, encoding, size, status } => within_root(
                    origin,
                    m.root,
                ) && under_root_prefix(path, m.root),
                OutcomeModel::Partial { origin, path, encoding, start, end, size } => within_root(
                    origin,
                    m.root,
                ) && under_root_prefix(path, m.root),
                OutcomeModel::Error { status } => true,
            },
        },
{
    match m.state {
        StateModel::ResolveTarget { path } => {
            match ev {
                FileStatus::File(_) => {
                    lemma_candidate_under(path, m.root, m.encodings, 0);
                },
                FileStatus::Directory => {
                    lemma_index_under(path, m.root);
                },
                FileStatus::Absent => {
                    lemma_fallback_probe_under(m);
                },
            }
        },
        StateModel::ResolveIndex { path } => {
            match ev {
                FileStatus::File(_) => {
                    lemma_candidate_under(path, m.root, m.encodings, 0);
                },
                _ => {
                    lemma_fallback_probe_under(m);
                },
            }
        },
        StateModel::SelectVariant { origin, status, idx } => {
            match ev {
                FileStatus::File(_) => {
                    lemma_candidate_under(origin, m.root, m.encodings, idx);
                },
                _ => {
                    if idx < m.encodings.len() {
                        lemma_candidate_under(origin, m.root, m.encodings, idx + 1);
                    } else if status == 200 {
                        lemma_fallback_probe_under(m);
                    }
                },
            }
        },
        StateModel::ResolveNotFound { path } => {
            match ev {
                FileStatus::File(_) => {
                    lemma_candidate_under(path, m.root, m.encodings, 0);
                },
                FileStatus::Directory => {
                    lemma_index_under(path, m.root);
                },
                FileStatus::Absent => {},
            }
        },
        StateModel::ResolveNotFoundIndex { path } => {
            match ev {
                FileStatus::File(_) => {
                    lemma_candidate_under(path, m.root, m.encodings, 0);
                },
                _ => {},
            }
        },
        StateModel::RangeSelect { origin, rng, idx } => {
            match ev {
                FileStatus::File(_) => {
                    lemma_candidate_under(origin, m.root, m.encodings, idx);
                },
                _ => {
                    if idx < m.encodings.len() {
                        lemma_candidate_under(origin, m.root, m.encodings, idx + 1);
                    }
                },
            }
        },
        StateModel::Finished => {},
    }
}

proof fn lemma_fallback_probe_under(m: EngineModel)
    ensures
        match crate::engine::fallback_spec(m).1 {
            StepModel::Probe(p) => within_root(p, m.root),
            StepModel::Done(o) => o is Error,
        },
        match resolve_failed_spec(m).1 {
            StepModel::Probe(p) => within_root(p, m.root),
            StepModel::Done(o) => o is Error,
        },
{
    if !m.head {
        match m.not_found {
            Some(fp) => {
                lemma_resolve_path_within_root(m.root, fp);
            },
            None => {},
        }
    }
}

/// Traversal containment, at the start of a request: the first probe of
/// a request, when there is one, is for a path within the root — the
/// resolved request target or the resolved not-found document.
pub proof fn lemma_start_stays_under_root(
    params: ParamsModel,
    method: Method,
    uri_path: Seq<u8>,
    accept_encoding: Option<Seq<u8>>,
    range_header: Option<Seq<u8>>,
)
    ensures
        match engine_start(params, method, uri_path, accept_encoding, range_header).1 {
            StepModel::Probe(p) => within_root(p, params.directory),
            StepModel::Done(o) => o is Error,
        },
{
    lemma_resolve_path_within_root(params.directory, uri_path);
    let (m, sp) = engine_start(params, method, uri_path, accept_encoding, range_header);
    if !(method is Other) && resolve_path(params.directory, uri_path) is None {
        let base = EngineModel { state: StateModel::Finished, ..m };
        lemma_fallback_probe_under(base);
    }
}

/// Index fallback: when the resolved request target turns out to be a
/// directory, the engine's next and only move is to probe the target's
/// "index.html"; when that probe does not report a regular file, the
/// request fails over (to the not-found handling), never to a listing.
pub proof fn lemma_index_fallback(m: EngineModel)
    ensures
        m.state matches StateModel::ResolveTarget { path } ==> engine_next(
            m,
            FileStatus::Directory,
        ) == (
            StateModel::ResolveIndex { path: index_path(path) },
            StepModel::Probe(index_path(path)),
        ),
        m.state matches StateModel::ResolveIndex { path } ==> engine_next(
            m,
            FileStatus::Directory,
        ) == resolve_failed_spec(m) && engine_next(m, FileStatus::Absent) == resolve_failed_spec(
            m,
        ),
{
}

/// Negotiated encodings are always server-enabled: whatever the client
/// sent, every encoding the negotiation keeps is one the catalog allows
/// (client order is preserved by construction of the selection).
pub proof fn lemma_selected_enabled(pieces: Seq<Seq<u8>>, av: AvailableEncodings)
    ensures
        forall|i: int|
            0 <= i < selected_encodings(pieces, av).len() ==> av.allows(
                #[trigger] selected_encodings(pieces, av)[i],
            ),
    decreases pieces.len(),
{
    if pieces.len() > 0 {
        lemma_selected_enabled(pieces.drop_last(), av);
        let sel = selected_encodings(pieces, av);
        let selp = selected_encodings(pieces.drop_last(), av);
        assert forall|i: int| 0 <= i < sel.len() implies av.allows(sel[i]) by {
            if i < selp.len() {
                assert(sel[i] == selp[i]);
            }
        }
    }
}

/// Method gating: any method other than GET and HEAD is answered with
/// the fixed 405 outcome immediately — the engine is born finished and
/// never emits a probe, so the filesystem is never consulted.
pub proof fn lemma_method_gating(
    params: ParamsModel,
    uri_path: Seq<u8>,
    accept_encoding: Option<Seq<u8>>,
    range_header: Option<Seq<u8>>,
)
    ensures
        ({
            let (m, sp) = engine_start(
                params,
                Method::Other,
                uri_path,
                accept_encoding,
                range_header,
            );
            sp == StepModel::Done(OutcomeModel::Error { status: 405 }) && m.state is Finished
        }),
{
}

/// Traversal containment over a whole conversation: starting from any
/// well-formed engine, however the filesystem answers, every probe the
/// engine ever emits is for a path that begins with the root, and every
/// served outcome names files that begin with the root.
pub proof fn lemma_run_stays_under_root(m: EngineModel, evs: Seq<FileStatus>)
    requires
        engine_wf(m),
    ensures
        forall|i: int|
            0 <= i < run_steps(m, evs).len() ==> match #[trigger] run_steps(m, evs)[i] {
                StepModel::Probe(p) => under_root_prefix(p, m.root),
                StepModel::Done(o) => match o {
                    OutcomeModel::Full { origin, path, encoding, size, status } => within_root(
                        origin,
                        m.root,
                    ) && under_root_prefix(path, m.root),
                    OutcomeModel::Partial { origin, path, encoding, start, end, size } => {
                        within_root(origin, m.root) && under_root_prefix(path, m.root)
                    },
                    OutcomeModel::Error { status } => true,
                },
            },
    decreases evs.len(),
{
    if evs.len() > 0 {
        let (st, sp) = engine_next(m, evs[0]);
        let m2 = EngineModel { state: st, ..m };
        lemma_steps_stay_under_root(m, evs[0]);
        crate::engine::lemma_next_preserves_wf(m, evs[0]);
        lemma_run_stays_under_root(m2, evs.skip(1));
        let run = run_steps(m, evs);
        let rest = run_steps(m2, evs.skip(1));
        assert forall|i: int| 0 <= i < run.len() implies match #[trigger] run[i] {
            StepModel::Probe(p) => under_root_prefix(p, m.root),
            StepModel::Done(o) => match o {
                OutcomeModel::Full { origin, path, encoding, size, status } => within_root(
                    origin,
                    m.root,
                ) && under_root_prefix(path, m.root),
                OutcomeModel::Partial { origin, path, encoding, start, end, size } => {
                    within_root(origin, m.root) && under_root_prefix(path, m.root)
                },
                OutcomeModel::Error { status } => true,
            },
        } by {
            if i == 0 {
                assert(run[0] == sp);
            } else {
                assert(run[i] == rest[i - 1]);
            }
        }
    }
}

/// The steps a request produces for a given sequence of probe answers,
/// starting from a given engine.
pub open spec fn run_steps(m: EngineModel, evs: Seq<FileStatus>) -> Seq<StepModel>
    decreases evs.len(),
{
    if evs.len() == 0 {
        Seq::empty()
    } else {
        let (st, sp) = engine_next(m, evs[0]);
        seq![sp] + run_steps(EngineModel { state: st, ..m }, evs.skip(1))
    }
}

/// Idempotence: a whole request exchange is a mathematical function of
/// the request and of the filesystem's answers. Issuing the same
/// request again, with the filesystem answering the same, reproduces
/// the identical step sequence — hence byte-identical headers and body
/// plans. Together with `Engine::next`'s contract, which changes
/// nothing of the engine but its conversation state, and `start`
/// borrowing the configuration immutably, no request leaves anything
/// behind that could make the second run differ.
pub proof fn lemma_request_replay(
    params1: ParamsModel,
    params2: ParamsModel,
    method1: Method,
    method2: Method,
    uri_path1: Seq<u8>,
    uri_path2: Seq<u8>,
    accept_encoding1: Option<Seq<u8>>,
    accept_encoding2: Option<Seq<u8>>,
    range_header1: Option<Seq<u8>>,
    range_header2: Option<Seq<u8>>,
    evs1: Seq<FileStatus>,
    evs2: Seq<FileStatus>,
)
    requires
        params1 == params2,
        method1 == method2,
        uri_path1 == uri_path2,
        accept_encoding1 == accept_encoding2,
        range_header1 == range_header2,
        evs1 == evs2,
    ensures
        engine_start(params1, method1, uri_path1, accept_encoding1, range_header1) == engine_start(
            params2,
            method2,
            uri_path2,
            accept_encoding2,
            range_header2,
        ),
        run_steps(
            engine_start(params1, method1, uri_path1, accept_encoding1, range_header1).0,
            evs1,
        ) == run_steps(
            engine_start(params2, method2, uri_path2, accept_encoding2, range_header2).0,
            evs2,
        ),
{
}

} // verus!
