//! The request-to-response resolution engine.
//!
//! The engine turns one HTTP request (method, path, `Accept-Encoding`,
//! `Range`) plus the server configuration into a `ResponseOutcome`,
//! deciding everything except the filesystem itself: whenever it needs to
//! know what a path holds, it emits a `Step::Probe` and waits for the
//! caller to report a `FileStatus` for that path. The caller performs no
//! logic of its own; it answers probes until the engine reports
//! `Step::Done`.
//!
//! The flow mirrors the design: unsupported methods are rejected before
//! any probe; a recognized `Range` header takes priority for GET; path
//! resolution falls back from a directory to its "index.html"; response
//! composition tries each negotiated precompressed variant in client
//! order before the origin file; a failed GET resolution falls back to
//! the configured not-found document and finally to the fixed 404.
use vstd::prelude::*;

use crate::bytes_util::{bytes_starts_with, split_on, trim_bytes, trimmed};
use crate::encodings::{AvailableEncodings, Encoding, selected_encodings, suffix_seq, tokens_name};
use crate::paths::{
    append_index, index_path, resolve_path, resolve_under_root, variant_path, within_root,
};
use crate::ranges::{ByteRange, bytes_eq_prefix, get_ranges, get_start_end, parse_ranges,
    resolved_bounds};

verus! {

/// The immutable per-server inputs of the engine: root directory,
/// encoding catalog, and the optional not-found document (a path
/// relative to the root).
pub struct ResponseParams {
    pub directory: Vec<u8>,
    pub available_encodings: AvailableEncodings,
    pub filepath_404: Option<Vec<u8>>,
}

/// The view of `ResponseParams`: the same three fields over sequences.
pub struct ParamsModel {
    pub directory: Seq<u8>,
    pub available_encodings: AvailableEncodings,
    pub filepath_404: Option<Seq<u8>>,
}

impl View for ResponseParams {
    type V = ParamsModel;

    open spec fn view(&self) -> ParamsModel {
        ParamsModel {
            directory: self.directory@,
            available_encodings: self.available_encodings,
            filepath_404: match self.filepath_404 {
                Some(p) => Some(p@),
                None => None,
            },
        }
    }
}

impl ResponseParams {
    /// Bundle the configuration, building the catalog from the
    /// configured encoding tokens.
    pub fn from(
        directory: Vec<u8>,
        filepath_404: Option<Vec<u8>>,
        content_encodings: Option<Vec<Vec<u8>>>,
    ) -> (r: ResponseParams)
        ensures
            r.directory@ == directory@,
            match (r.filepath_404, filepath_404) {
                (Some(a), Some(b)) => a@ == b@,
                (None, None) => true,
                _ => false,
            },
            forall|e: Encoding|
                #[trigger] r.available_encodings.allows(e) <==> match content_encodings {
                    Some(tokens) => tokens_name(tokens@, e),
                    None => false,
                },
    {
        let available_encodings = AvailableEncodings::from(&content_encodings);
        ResponseParams { directory, available_encodings, filepath_404 }
    }
}

/// The request method, as far as the engine distinguishes it.
#[derive(Clone, Copy, Debug, PartialEq, Eq, Structural)]
pub enum Method {
    Get,
    Head,
    Other,
}

/// What the filesystem reports for a probed path. Everything that is
/// neither a regular file nor a directory (missing, special, an error)
/// is `Absent`.
#[derive(Clone, Copy, Debug, PartialEq, Eq, Structural)]
pub enum FileStatus {
    /// A regular file of the given byte size.
    File(u64),
    Directory,
    Absent,
}

/// What a recognized `Range` header amounted to: none was recognized,
/// the header was structurally unusable (malformed, empty, or more than
/// one range), or exactly one parsed range.
#[derive(Clone, Copy, Debug, PartialEq, Eq, Structural)]
pub enum RangeDecision {
    NoRange,
    Unusable,
    One(ByteRange),
}

/// The decision the engine reaches: serve a whole file, serve a byte
/// window of a file, or answer with a fixed error body.
#[derive(Debug)]
pub enum ResponseOutcome {
    Full {
        /// The resolved target; content type is derived from it.
        origin: Vec<u8>,
        /// The file actually served: the origin or a precompressed variant.
        path: Vec<u8>,
        encoding: Option<Encoding>,
        size: u64,
        status: u16,
    },
    Partial {
        origin: Vec<u8>,
        path: Vec<u8>,
        encoding: Option<Encoding>,
        /// First byte offset served.
        start: u64,
        /// One past the last byte offset served.
        end: u64,
        /// Size of the file the window is cut from.
        size: u64,
    },
    Error {
        status: u16,
    },
}

/// The view of `ResponseOutcome` over sequences.
pub enum OutcomeModel {
    Full { origin: Seq<u8>, path: Seq<u8>, encoding: Option<Encoding>, size: u64, status: u16 },
    Partial {
        origin: Seq<u8>,
        path: Seq<u8>,
        encoding: Option<Encoding>,
        start: u64,
        end: u64,
        size: u64,
    },
    Error { status: u16 },
}

impl View for ResponseOutcome {
    type V = OutcomeModel;

    open spec fn view(&self) -> OutcomeModel {
        match self {
            ResponseOutcome::Full { origin, path, encoding, size, status } => OutcomeModel::Full {
                origin: origin@,
                path: path@,
                encoding: *encoding,
                size: *size,
                status: *status,
            },
            ResponseOutcome::Partial { origin, path, encoding, start, end, size } => {
                OutcomeModel::Partial {
                    origin: origin@,
                    path: path@,
                    encoding: *encoding,
                    start: *start,
                    end: *end,
                    size: *size,
                }
            },
            ResponseOutcome::Error { status } => OutcomeModel::Error { status: *status },
        }
    }
}

/// What the engine asks for next: probe a path, or the final outcome.
#[derive(Debug)]
pub enum Step {
    Probe(Vec<u8>),
    Done(ResponseOutcome),
}

/// The view of `Step` over sequences.
pub enum StepModel {
    Probe(Seq<u8>),
    Done(OutcomeModel),
}

impl View for Step {
    type V = StepModel;

    open spec fn view(&self) -> StepModel {
        match self {
            Step::Probe(p) => StepModel::Probe(p@),
            Step::Done(o) => StepModel::Done(o@),
        }
    }
}

enum State {
    /// Waiting for the status of the resolved request target.
    ResolveTarget { path: Vec<u8> },
    /// The target was a directory; waiting for its index file.
    ResolveIndex { path: Vec<u8> },
    /// Serving `origin` whole with `status`; waiting for candidate `idx`
    /// (variants in negotiated order, then the origin itself).
    SelectVariant { origin: Vec<u8>, status: u16, idx: usize },
    /// Waiting for the status of the resolved not-found document.
    ResolveNotFound { path: Vec<u8> },
    /// The not-found document was a directory; waiting for its index file.
    ResolveNotFoundIndex { path: Vec<u8> },
    /// Serving a byte range of `origin`; waiting for candidate `idx`.
    RangeSelect { origin: Vec<u8>, rng: ByteRange, idx: usize },
    Finished,
}

/// The view of the engine state over sequences.
pub enum StateModel {
    ResolveTarget { path: Seq<u8> },
    ResolveIndex { path: Seq<u8> },
    SelectVariant { origin: Seq<u8>, status: u16, idx: int },
    ResolveNotFound { path: Seq<u8> },
    ResolveNotFoundIndex { path: Seq<u8> },
    RangeSelect { origin: Seq<u8>, rng: ByteRange, idx: int },
    Finished,
}

impl View for State {
    type V = StateModel;

    closed spec fn view(&self) -> StateModel {
        match self {
            State::ResolveTarget { path } => StateModel::ResolveTarget { path: path@ },
            State::ResolveIndex { path } => StateModel::ResolveIndex { path: path@ },
            State::SelectVariant { origin, status, idx } => StateModel::SelectVariant {
                origin: origin@,
                status: *status,
                idx: *idx as int,
            },
            State::ResolveNotFound { path } => StateModel::ResolveNotFound { path: path@ },
            State::ResolveNotFoundIndex { path } => StateModel::ResolveNotFoundIndex {
                path: path@,
            },
            State::RangeSelect { origin, rng, idx } => StateModel::RangeSelect {
                origin: origin@,
                rng: *rng,
                idx: *idx as int,
            },
            State::Finished => StateModel::Finished,
        }
    }
}

/// The engine for one request: the request-independent configuration,
/// the decisions already taken from the request headers, and where the
/// probe conversation stands.
pub struct Engine {
    root: Vec<u8>,
    not_found: Option<Vec<u8>>,
    encodings: Vec<Encoding>,
    head: bool,
    range: RangeDecision,
    state: State,
}

/// The view of the engine over sequences.
pub struct EngineModel {
    pub root: Seq<u8>,
    pub not_found: Option<Seq<u8>>,
    pub encodings: Seq<Encoding>,
    pub head: bool,
    pub range: RangeDecision,
    pub state: StateModel,
}

impl View for Engine {
    type V = EngineModel;

    closed spec fn view(&self) -> EngineModel {
        EngineModel {
            root: self.root@,
            not_found: match self.not_found {
                Some(p) => Some(p@),
                None => None,
            },
            encodings: self.encodings@,
            head: self.head,
            range: self.range,
            state: self.state@,
        }
    }
}

/// Candidate `idx` for serving `origin`: the precompressed variant for
/// the `idx`-th negotiated encoding, or the origin itself past the end
/// of the negotiated list.
pub open spec fn candidate_at(origin: Seq<u8>, encs: Seq<Encoding>, idx: int) -> Seq<u8> {
    if idx < encs.len() {
        origin + suffix_seq(encs[idx])
    } else {
        origin
    }
}

/// The `Content-Encoding` that candidate `idx` carries: the encoding for
/// a variant, none for the origin.
pub open spec fn encoding_at(encs: Seq<Encoding>, idx: int) -> Option<Encoding> {
    if idx < encs.len() {
        Some(encs[idx])
    } else {
        None
    }
}

/// A `Range` header value is recognized when it begins with "bytes="
/// after trimming.
pub open spec fn range_header_recognized(h: Seq<u8>) -> bool {
    trimmed(h).len() >= 6 && trimmed(h).take(6) == bytes_eq_prefix()
}

/// What a GET request's `Range` header amounts to.
pub open spec fn range_decision_of(rh: Option<Seq<u8>>) -> RangeDecision {
    match rh {
        Some(h) => if range_header_recognized(h) {
            match parse_ranges(h) {
                Some(rs) => if rs.len() == 1 {
                    RangeDecision::One(rs[0])
                } else {
                    RangeDecision::Unusable
                },
                None => RangeDecision::Unusable,
            }
        } else {
            RangeDecision::NoRange
        },
        None => RangeDecision::NoRange,
    }
}

/// The terminal step for a fixed-body error outcome.
pub open spec fn done_error(status: u16) -> (StateModel, StepModel) {
    (StateModel::Finished, StepModel::Done(OutcomeModel::Error { status }))
}

/// Where a GET whose target did not produce a file goes next: for HEAD
/// there is no fallback; for GET the configured not-found document is
/// resolved and probed; with none configured (or unresolvable) the fixed
/// 404 is the outcome.
pub open spec fn fallback_spec(m: EngineModel) -> (StateModel, StepModel) {
    if m.head {
        done_error(404)
    } else {
        match m.not_found {
            Some(fp) => match resolve_path(m.root, fp) {
                Some(p) => (StateModel::ResolveNotFound { path: p }, StepModel::Probe(p)),
                None => done_error(404),
            },
            None => done_error(404),
        }
    }
}

/// Where a failed resolution of the request target goes: a recognized
/// range request answers 404 directly; otherwise the fallback applies.
pub open spec fn resolve_failed_spec(m: EngineModel) -> (StateModel, StepModel) {
    if m.range is NoRange {
        fallback_spec(m)
    } else {
        done_error(404)
    }
}

/// Begin serving `origin` whole: probe the first candidate.
pub open spec fn enter_select_spec(m: EngineModel, origin: Seq<u8>, status: u16) -> (
    StateModel,
    StepModel,
) {
    (
        StateModel::SelectVariant { origin, status, idx: 0 },
        StepModel::Probe(candidate_at(origin, m.encodings, 0)),
    )
}

/// The request target resolved to a regular file: a usable range starts
/// range serving, an unusable recognized header is 416, and otherwise
/// whole-file serving starts.
pub open spec fn target_is_file_spec(m: EngineModel, path: Seq<u8>) -> (StateModel, StepModel) {
    match m.range {
        RangeDecision::NoRange => enter_select_spec(m, path, 200),
        RangeDecision::Unusable => done_error(416),
        RangeDecision::One(rng) => (
            StateModel::RangeSelect { origin: path, rng, idx: 0 },
            StepModel::Probe(candidate_at(path, m.encodings, 0)),
        ),
    }
}

/// The transition relation of the engine: from the engine and one probe
/// answer to the next engine state and emitted step.
pub open spec fn engine_next(m: EngineModel, ev: FileStatus) -> (StateModel, StepModel) {
    match m.state {
        StateModel::ResolveTarget { path } => match ev {
            FileStatus::File(_) => target_is_file_spec(m, path),
            FileStatus::Directory => (
                StateModel::ResolveIndex { path: index_path(path) },
                StepModel::Probe(index_path(path)),
            ),
            FileStatus::Absent => resolve_failed_spec(m),
        },
        StateModel::ResolveIndex { path } => match ev {
            FileStatus::File(_) => target_is_file_spec(m, path),
            _ => resolve_failed_spec(m),
        },
        StateModel::SelectVariant { origin, status, idx } => match ev {
            FileStatus::File(size) => (
                StateModel::Finished,
                StepModel::Done(
                    OutcomeModel::Full {
                        origin,
                        path: candidate_at(origin, m.encodings, idx),
                        encoding: encoding_at(m.encodings, idx),
                        size,
                        status,
                    },
                ),
            ),
            _ => {
                if idx < m.encodings.len() {
                    (
                        StateModel::SelectVariant { origin, status, idx: idx + 1 },
                        StepModel::Probe(candidate_at(origin, m.encodings, idx + 1)),
                    )
                } else if status == 200 {
                    fallback_spec(m)
                } else {
                    done_error(404)
                }
            },
        },
        StateModel::ResolveNotFound { path } => match ev {
            FileStatus::File(_) => enter_select_spec(m, path, 404),
            FileStatus::Directory => (
                StateModel::ResolveNotFoundIndex { path: index_path(path) },
                StepModel::Probe(index_path(path)),
            ),
            FileStatus::Absent => done_error(404),
        },
        StateModel::ResolveNotFoundIndex { path } => match ev {
            FileStatus::File(_) => enter_select_spec(m, path, 404),
            _ => done_error(404),
        },
        StateModel::RangeSelect { origin, rng, idx } => match ev {
            FileStatus::File(size) => match resolved_bounds(rng, size) {
                Some((start, end)) => (
                    StateModel::Finished,
                    StepModel::Done(
                        OutcomeModel::Partial {
                            origin,
                            path: candidate_at(origin, m.encodings, idx),
                            encoding: encoding_at(m.encodings, idx),
                            start,
                            end,
                            size,
                        },
                    ),
                ),
                None => done_error(400),
            },
            _ => {
                if idx < m.encodings.len() {
                    (
                        StateModel::RangeSelect { origin, rng, idx: idx + 1 },
                        StepModel::Probe(candidate_at(origin, m.encodings, idx + 1)),
                    )
                } else {
                    done_error(416)
                }
            },
        },
        StateModel::Finished => done_error(404),
    }
}

/// The first state and step of the engine for one request: unsupported
/// methods are rejected at once; otherwise the request path is resolved
/// and, if it resolves, probed.
pub open spec fn engine_start(
    params: ParamsModel,
    method: Method,
    uri_path: Seq<u8>,
    accept_encoding: Option<Seq<u8>>,
    range_header: Option<Seq<u8>>,
) -> (EngineModel, StepModel) {
    let encs = match accept_encoding {
        Some(h) => selected_encodings(split_on(h, 44), params.available_encodings),
        None => Seq::empty(),
    };
    let range = if method is Get {
        range_decision_of(range_header)
    } else {
        RangeDecision::NoRange
    };
    let base = EngineModel {
        root: params.directory,
        not_found: params.filepath_404,
        encodings: encs,
        head: method is Head,
        range,
        state: StateModel::Finished,
    };
    if method is Other {
        (base, StepModel::Done(OutcomeModel::Error { status: 405 }))
    } else {
        match resolve_path(params.directory, uri_path) {
            Some(t) => (
                EngineModel { state: StateModel::ResolveTarget { path: t }, ..base },
                StepModel::Probe(t),
            ),
            None => {
                let (st, sp) = resolve_failed_spec(base);
                (EngineModel { state: st, ..base }, sp)
            },
        }
    }
}

/// Well-formedness of a running engine: every path it still holds lies
/// within the root, and a candidate index never passes the origin.
pub open spec fn engine_wf(m: EngineModel) -> bool {
    match m.state {
        StateModel::ResolveTarget { path } => within_root(path, m.root),
        StateModel::ResolveIndex { path } => within_root(path, m.root),
        StateModel::SelectVariant { origin, status, idx } => within_root(origin, m.root) && 0 <= idx
            <= m.encodings.len() && (status == 200 || status == 404),
        StateModel::ResolveNotFound { path } => within_root(path, m.root),
        StateModel::ResolveNotFoundIndex { path } => within_root(path, m.root),
        StateModel::RangeSelect { origin, rng, idx } => within_root(origin, m.root) && 0 <= idx
            <= m.encodings.len(),
        StateModel::Finished => true,
    }
}

impl Engine {
    /// Whether the engine has reported its outcome.
    pub fn is_done(&self) -> (r: bool)
        ensures
            r == (self@.state is Finished),
    {
        match self.state {
            State::Finished => true,
            _ => false,
        }
    }

    /// Start the engine on one request. The returned step is either the
    /// outcome (for rejected methods and unresolvable paths) or the
    /// first probe.
    pub fn start(
        params: &ResponseParams,
        method: Method,
        uri_path: &[u8],
        accept_encoding: Option<&[u8]>,
        range_header: Option<&[u8]>,
    ) -> (r: (Engine, Step))
        ensures
            ({
                let (m, sp) = engine_start(
                    params@,
                    method,
                    uri_path@,
                    match accept_encoding {
                        Some(h) => Some(h@),
                        None => None,
                    },
                    match range_header {
                        Some(h) => Some(h@),
                        None => None,
                    },
                );
                r.0@ == m && r.1@ == sp && engine_wf(m)
            }),
    {
        let encodings: Vec<Encoding> = match accept_encoding {
            Some(h) => {
                let got = crate::encodings::get_encodings(h, &params.available_encodings);
                match got {
                    Some(v) => v,
                    None => {
                        let v: Vec<Encoding> = Vec::new();
                        proof {
                            assert(v@ =~= selected_encodings(
                                split_on(h@, 44),
                                params.available_encodings,
                            ));
                        }
                        v
                    },
                }
            },
            None => Vec::new(),
        };
        let range: RangeDecision = match (method, range_header) {
            (Method::Get, Some(h)) => {
                let t = trim_bytes(h);
                let prefix = crate::ranges::bytes_eq_prefix_exec();
                if bytes_starts_with(t.as_slice(), prefix.as_slice()) {
                    match get_ranges(h) {
                        Some(rs) => {
                            if rs.len() == 1 {
                                RangeDecision::One(rs[0])
                            } else {
                                RangeDecision::Unusable
                            }
                        },
                        None => RangeDecision::Unusable,
                    }
                } else {
                    RangeDecision::NoRange
                }
            },
            _ => RangeDecision::NoRange,
        };
        let head = match method {
            Method::Head => true,
            _ => false,
        };
        let mut engine = Engine {
            root: clone_bytes(&params.directory),
            not_found: match &params.filepath_404 {
                Some(p) => Some(clone_bytes(p)),
                None => None,
            },
            encodings,
            head,
            range,
            state: State::Finished,
        };
        match method {
            Method::Other => {
                let step = Step::Done(ResponseOutcome::Error { status: 405 });
                return (engine, step);
            },
            _ => {},
        }
        match resolve_under_root(engine.root.as_slice(), uri_path) {
            Some(t) => {
                let probe = clone_bytes(&t);
                engine.state = State::ResolveTarget { path: t };
                (engine, Step::Probe(probe))
            },
            None => {
                let step = engine.resolve_failed_step();
                proof {
                    lemma_resolve_failed_wf(
                        EngineModel { state: StateModel::Finished, ..engine@ },
                    );
                }
                (engine, step)
            },
        }
    }

    /// Answer the outstanding probe and advance the engine.
    pub fn next(&mut self, ev: FileStatus) -> (r: Step)
        requires
            !(old(self)@.state is Finished),
            engine_wf(old(self)@),
        ensures
            ({
                let (st, sp) = engine_next(old(self)@, ev);
                final(self)@ == EngineModel { state: st, ..old(self)@ } && r@ == sp && engine_wf(
                    final(self)@,
                )
            }),
    {
        let (new_state, step): (State, Step) = match &self.state {
            State::ResolveTarget { path } => match ev {
                FileStatus::File(_) => self.target_is_file_step(clone_bytes(path)),
                FileStatus::Directory => {
                    let ip = append_index(path.as_slice());
                    let probe = clone_bytes(&ip);
                    proof {
                        crate::paths::lemma_within_root_append(
                            path@,
                            self.root@,
                            seq![47u8] + crate::paths::index_file(),
                        );
                        assert(path@ + (seq![47u8] + crate::paths::index_file()) =~= index_path(
                            path@,
                        ));
                    }
                    (State::ResolveIndex { path: ip }, Step::Probe(probe))
                },
                FileStatus::Absent => self.resolve_failed_pair(),
            },
            State::ResolveIndex { path } => match ev {
                FileStatus::File(_) => self.target_is_file_step(clone_bytes(path)),
                _ => self.resolve_failed_pair(),
            },
            State::SelectVariant { origin, status, idx } => match ev {
                FileStatus::File(size) => {
                    let o = clone_bytes(origin);
                    let path = self.candidate(origin, *idx);
                    let encoding = self.encoding_of_candidate(*idx);
                    (
                        State::Finished,
                        Step::Done(
                            ResponseOutcome::Full {
                                origin: o,
                                path,
                                encoding,
                                size,
                                status: *status,
                            },
                        ),
                    )
                },
                _ => {
                    if *idx < self.encodings.len() {
                        let o = clone_bytes(origin);
                        let probe = self.candidate(origin, *idx + 1);
                        (
                            State::SelectVariant { origin: o, status: *status, idx: *idx + 1 },
                            Step::Probe(probe),
                        )
                    } else if *status == 200 {
                        self.fallback_pair()
                    } else {
                        (State::Finished, Step::Done(ResponseOutcome::Error { status: 404 }))
                    }
                },
            },
            State::ResolveNotFound { path } => match ev {
                FileStatus::File(_) => self.enter_select_step(clone_bytes(path), 404),
                FileStatus::Directory => {
                    let ip = append_index(path.as_slice());
                    let probe = clone_bytes(&ip);
                    proof {
                        crate::paths::lemma_within_root_append(
                            path@,
                            self.root@,
                            seq![47u8] + crate::paths::index_file(),
                        );
                        assert(path@ + (seq![47u8] + crate::paths::index_file()) =~= index_path(
                            path@,
                        ));
                    }
                    (State::ResolveNotFoundIndex { path: ip }, Step::Probe(probe))
                },
                FileStatus::Absent => (
                    State::Finished,
                    Step::Done(ResponseOutcome::Error { status: 404 }),
                ),
            },
            State::ResolveNotFoundIndex { path } => match ev {
                FileStatus::File(_) => self.enter_select_step(clone_bytes(path), 404),
                _ => (State::Finished, Step::Done(ResponseOutcome::Error { status: 404 })),
            },
            State::RangeSelect { origin, rng, idx } => match ev {
                FileStatus::File(size) => {
                    let mut ranges: Vec<ByteRange> = Vec::new();
                    ranges.push(*rng);
                    match get_start_end(&ranges, size) {
                        Some((start, end)) => {
                            let o = clone_bytes(origin);
                            let path = self.candidate(origin, *idx);
                            let encoding = self.encoding_of_candidate(*idx);
                            (
                                State::Finished,
                                Step::Done(
                                    ResponseOutcome::Partial {
                                        origin: o,
                                        path,
                                        encoding,
                                        start,
                                        end,
                                        size,
                                    },
                                ),
                            )
                        },
                        None => (
                            State::Finished,
                            Step::Done(ResponseOutcome::Error { status: 400 }),
                        ),
                    }
                },
                _ => {
                    if *idx < self.encodings.len() {
                        let o = clone_bytes(origin);
                        let probe = self.candidate(origin, *idx + 1);
                        (
                            State::RangeSelect { origin: o, rng: *rng, idx: *idx + 1 },
                            Step::Probe(probe),
                        )
                    } else {
                        (State::Finished, Step::Done(ResponseOutcome::Error { status: 416 }))
                    }
                },
            },
            State::Finished => (
                State::Finished,
                Step::Done(ResponseOutcome::Error { status: 404 }),
            ),
        };
        self.state = new_state;
        proof {
            lemma_next_preserves_wf(old(self)@, ev);
        }
        step
    }

    /// Candidate `idx` for `origin` as an owned path.
    fn candidate(&self, origin: &Vec<u8>, idx: usize) -> (r: Vec<u8>)
        requires
            idx <= self@.encodings.len(),
        ensures
            r@ == candidate_at(origin@, self@.encodings, idx as int),
    {
        if idx < self.encodings.len() {
            variant_path(origin.as_slice(), self.encodings[idx])
        } else {
            clone_bytes(origin)
        }
    }

    /// The `Content-Encoding` of candidate `idx`.
    fn encoding_of_candidate(&self, idx: usize) -> (r: Option<Encoding>)
        ensures
            r == encoding_at(self@.encodings, idx as int),
    {
        if idx < self.encodings.len() {
            Some(self.encodings[idx])
        } else {
            None
        }
    }

    /// Exec form of `fallback_spec`, leaving the engine unchanged.
    fn fallback_pair(&self) -> (r: (State, Step))
        ensures
            ({
                let (st, sp) = fallback_spec(self@);
                r.0@ == st && r.1@ == sp
            }),
    {
        if self.head {
            return (State::Finished, Step::Done(ResponseOutcome::Error { status: 404 }));
        }
        match &self.not_found {
            Some(fp) => match resolve_under_root(self.root.as_slice(), fp.as_slice()) {
                Some(p) => {
                    let probe = clone_bytes(&p);
                    (State::ResolveNotFound { path: p }, Step::Probe(probe))
                },
                None => (State::Finished, Step::Done(ResponseOutcome::Error { status: 404 })),
            },
            None => (State::Finished, Step::Done(ResponseOutcome::Error { status: 404 })),
        }
    }

    /// Exec form of `resolve_failed_spec`.
    fn resolve_failed_pair(&self) -> (r: (State, Step))
        ensures
            ({
                let (st, sp) = resolve_failed_spec(self@);
                r.0@ == st && r.1@ == sp
            }),
    {
        match self.range {
            RangeDecision::NoRange => self.fallback_pair(),
            _ => (State::Finished, Step::Done(ResponseOutcome::Error { status: 404 })),
        }
    }

    /// Step used by `start`: the resolution of the request target failed.
    fn resolve_failed_step(&mut self) -> (r: Step)
        requires
            old(self)@.state is Finished,
        ensures
            ({
                let (st, sp) = resolve_failed_spec(old(self)@);
                final(self)@ == EngineModel { state: st, ..old(self)@ } && r@ == sp
            }),
    {
        let (st, sp) = self.resolve_failed_pair();
        self.state = st;
        sp
    }

    /// Exec form of `target_is_file_spec`.
    fn target_is_file_step(&self, path: Vec<u8>) -> (r: (State, Step))
        ensures
            ({
                let (st, sp) = target_is_file_spec(self@, path@);
                r.0@ == st && r.1@ == sp
            }),
    {
        match self.range {
            RangeDecision::NoRange => self.enter_select_step(path, 200),
            RangeDecision::Unusable => (
                State::Finished,
                Step::Done(ResponseOutcome::Error { status: 416 }),
            ),
            RangeDecision::One(rng) => {
                let probe = self.candidate(&path, 0);
                (State::RangeSelect { origin: path, rng, idx: 0 }, Step::Probe(probe))
            },
        }
    }

    /// Exec form of `enter_select_spec`.
    fn enter_select_step(&self, origin: Vec<u8>, status: u16) -> (r: (State, Step))
        ensures
            ({
                let (st, sp) = enter_select_spec(self@, origin@, status);
                r.0@ == st && r.1@ == sp
            }),
    {
        let probe = self.candidate(&origin, 0);
        (State::SelectVariant { origin, status, idx: 0 }, Step::Probe(probe))
    }
}

/// Copy of a byte vector.
fn clone_bytes(v: &Vec<u8>) -> (r: Vec<u8>)
    ensures
        r@ == v@,
{
    vstd::slice::slice_to_vec(v.as_slice())
}

/// The fallback step leads to a well-formed state.
proof fn lemma_fallback_wf(m: EngineModel)
    ensures
        engine_wf(EngineModel { state: fallback_spec(m).0, ..m }),
{
    if !m.head {
        match m.not_found {
            Some(fp) => {
                crate::paths::lemma_resolve_path_within_root(m.root, fp);
            },
            None => {},
        }
    }
}

/// A failed resolution leads to a well-formed state.
proof fn lemma_resolve_failed_wf(m: EngineModel)
    ensures
        engine_wf(EngineModel { state: resolve_failed_spec(m).0, ..m }),
{
    lemma_fallback_wf(m);
}

/// The "index.html" path of a path within the root is within the root.
proof fn lemma_index_path_wf(p: Seq<u8>, root: Seq<u8>)
    requires
        within_root(p, root),
    ensures
        within_root(index_path(p), root),
{
    crate::paths::lemma_within_root_append(p, root, seq![47u8] + crate::paths::index_file());
    assert(p + (seq![47u8] + crate::paths::index_file()) =~= index_path(p));
}

/// Every transition of a well-formed engine leads to a well-formed
/// engine.
pub proof fn lemma_next_preserves_wf(m: EngineModel, ev: FileStatus)
    requires
        engine_wf(m),
    ensures
        engine_wf(EngineModel { state: engine_next(m, ev).0, ..m }),
{
    match m.state {
        StateModel::ResolveTarget { path } => match ev {
            FileStatus::File(_) => {},
            FileStatus::Directory => {
                lemma_index_path_wf(path, m.root);
            },
            FileStatus::Absent => {
                lemma_resolve_failed_wf(m);
            },
        },
        StateModel::ResolveIndex { path } => match ev {
            FileStatus::File(_) => {},
            _ => {
                lemma_resolve_failed_wf(m);
            },
        },
        StateModel::SelectVariant { origin, status, idx } => match ev {
            FileStatus::File(_) => {},
            _ => {
                if !(idx < m.encodings.len()) && status == 200 {
                    lemma_fallback_wf(m);
                }
            },
        },
        StateModel::ResolveNotFound { path } => match ev {
            FileStatus::Directory => {
                lemma_index_path_wf(path, m.root);
            },
            _ => {},
        },
        _ => {},
    }
}

} // verus!
