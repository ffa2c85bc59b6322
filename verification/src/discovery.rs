//! One discovery cycle: from what each backend answered to the snapshot that
//! replaces the caches.
//!
//! The queries themselves are made elsewhere. This module decides which
//! answers count, and builds the routing table, the model list and the tag
//! list from them, backend by backend, in registry order.

use crate::config::backend_views;
use crate::config::BackendConfig;
use crate::config::BackendView;
use crate::model::model_views;
use crate::model::tag_views;
use crate::model::ModelInfo;
use crate::model::ModelInfoView;
use crate::model::ModelTag;
use crate::model::ModelTagView;
use crate::model::RoutingTable;
use vstd::prelude::*;
use vstd::string::StringExecFns;

verus! {

/// Whether an HTTP status reports success (2xx).
pub open spec fn is_success(status: u16) -> bool {
    200 <= status <= 299
}

/// How one query to a backend ended.
#[derive(Debug)]
pub enum FetchOutcome<T> {
    /// No answer was received.
    TransportError,
    /// The backend answered with `status`; `parsed` is the listing its body
    /// spelled, if the body was well formed.
    Response { status: u16, parsed: Option<T> },
}

impl<T> FetchOutcome<T> {
    /// The listing, if the query counts: the backend answered with a success
    /// status and a well-formed body.
    pub open spec fn accepted(self) -> Option<T> {
        match self {
            FetchOutcome::TransportError => None,
            FetchOutcome::Response { status, parsed } => if is_success(status) {
                parsed
            } else {
                None
            },
        }
    }

    /// The listing, if the query counts; see [`FetchOutcome::accepted`].
    pub fn into_accepted(self) -> (r: Option<T>)
        ensures
            r == self.accepted(),
    {
        match self {
            FetchOutcome::TransportError => None,
            FetchOutcome::Response { status, parsed } => if 200 <= status && status <= 299 {
                parsed
            } else {
                None
            },
        }
    }
}

/// What one backend contributes to a discovery cycle.
#[derive(Debug)]
pub enum BackendReport {
    /// The model listing failed. The backend contributes nothing.
    Unavailable,
    /// The backend listed its models. `tags` holds its tag listing, if that
    /// query counted too.
    Listed { models: Vec<ModelInfo>, tags: Option<Vec<ModelTag>> },
}

/// The mathematical value of a [`BackendReport`].
pub enum BackendReportView {
    Unavailable,
    Listed { models: Seq<ModelInfoView>, tags: Option<Seq<ModelTagView>> },
}

impl View for BackendReport {
    type V = BackendReportView;

    open spec fn view(&self) -> BackendReportView {
        match *self {
            BackendReport::Unavailable => BackendReportView::Unavailable,
            BackendReport::Listed { models, tags } => BackendReportView::Listed {
                models: model_views(models@),
                tags: match tags {
                    Some(t) => Some(tag_views(t@)),
                    None => None,
                },
            },
        }
    }
}

/// The report that two query outcomes amount to. A failed model listing makes
/// the backend unavailable whatever its tag listing gave; a failed tag listing
/// leaves the models in place.
pub open spec fn report_of(
    models: Option<Seq<ModelInfoView>>,
    tags: Option<Seq<ModelTagView>>,
) -> BackendReportView {
    match models {
        None => BackendReportView::Unavailable,
        Some(m) => BackendReportView::Listed { models: m, tags },
    }
}

impl BackendReport {
    /// The report for the outcomes of a backend's two queries; see
    /// [`report_of`].
    pub fn from_outcomes(models: FetchOutcome<Vec<ModelInfo>>, tags: FetchOutcome<Vec<ModelTag>>) -> (r: Self)
        ensures
            r@ == report_of(
                match models.accepted() {
                    Some(m) => Some(model_views(m@)),
                    None => None,
                },
                match tags.accepted() {
                    Some(t) => Some(tag_views(t@)),
                    None => None,
                },
            ),
    {
        match models.into_accepted() {
            None => BackendReport::Unavailable,
            Some(models) => BackendReport::Listed { models, tags: tags.into_accepted() },
        }
    }
}

/// Whether a model listing holds the identifier `id`.
pub open spec fn lists(models: Seq<ModelInfoView>, id: Seq<char>) -> bool {
    exists|i: int| 0 <= i < models.len() && (#[trigger] models[i]).id == id
}

/// The table after every listed model has been routed to `url`: the listed
/// identifiers map to `url`, every other identifier keeps its route.
pub open spec fn route_models(
    table: Map<Seq<char>, Seq<char>>,
    url: Seq<char>,
    models: Seq<ModelInfoView>,
) -> Map<Seq<char>, Seq<char>> {
    Map::new(
        |id: Seq<char>| table.dom().contains(id) || lists(models, id),
        |id: Seq<char>|
            if lists(models, id) {
                url
            } else {
                table[id]
            },
    )
}

/// The mathematical value of a [`Snapshot`].
pub struct SnapshotView {
    pub routing_table: Map<Seq<char>, Seq<char>>,
    pub models: Seq<ModelInfoView>,
    pub tags: Seq<ModelTagView>,
}

/// The snapshot that holds nothing.
pub open spec fn empty_snapshot() -> SnapshotView {
    SnapshotView { routing_table: Map::empty(), models: Seq::empty(), tags: Seq::empty() }
}

/// The snapshot after the backend at `url` has contributed `report`.
pub open spec fn record_report(snapshot: SnapshotView, url: Seq<char>, report: BackendReportView) -> SnapshotView {
    match report {
        BackendReportView::Unavailable => snapshot,
        BackendReportView::Listed { models, tags } => SnapshotView {
            routing_table: route_models(snapshot.routing_table, url, models),
            models: snapshot.models + models,
            tags: match tags {
                Some(t) => snapshot.tags + t,
                None => snapshot.tags,
            },
        },
    }
}

/// The snapshot after the first `n` backends have contributed their reports,
/// in registry order.
pub open spec fn snapshot_upto(backends: Seq<BackendView>, reports: Seq<BackendReportView>, n: nat) -> SnapshotView
    decreases n,
{
    if n == 0 {
        empty_snapshot()
    } else {
        record_report(
            snapshot_upto(backends, reports, (n - 1) as nat),
            backends[n - 1].url,
            reports[n - 1],
        )
    }
}

/// The number of backends that have a report.
pub open spec fn paired(backends: Seq<BackendView>, reports: Seq<BackendReportView>) -> nat {
    if backends.len() <= reports.len() {
        backends.len()
    } else {
        reports.len()
    }
}

/// The snapshot of a whole cycle: every backend that has a report contributes
/// it, in registry order.
pub open spec fn snapshot_of(backends: Seq<BackendView>, reports: Seq<BackendReportView>) -> SnapshotView {
    snapshot_upto(backends, reports, paired(backends, reports))
}

/// The views of a sequence of reports, in the same order.
pub open spec fn report_views(reports: Seq<BackendReport>) -> Seq<BackendReportView> {
    reports.map_values(|r: BackendReport| r@)
}

/// The draft of a discovery cycle, and, once every backend has contributed,
/// the snapshot that replaces the caches.
#[derive(Debug)]
pub struct Snapshot {
    pub routing_table: RoutingTable,
    pub models: Vec<ModelInfo>,
    pub tags: Vec<ModelTag>,
}

impl View for Snapshot {
    type V = SnapshotView;

    open spec fn view(&self) -> SnapshotView {
        SnapshotView {
            routing_table: self.routing_table@,
            models: model_views(self.models@),
            tags: tag_views(self.tags@),
        }
    }
}

/// Routes every model of `models` to `url`.
fn route_all(table: &mut RoutingTable, url: &String, models: &Vec<ModelInfo>)
    ensures
        final(table)@ == route_models(old(table)@, url@, model_views(models@)),
{
    let ghost start = table@;
    let ghost all = model_views(models@);
    let mut i: usize = 0;
    assert(table@ =~= route_models(start, url@, all.take(0)));
    while i < models.len()
        invariant
            i <= models.len(),
            all == model_views(models@),
            table@ == route_models(start, url@, all.take(i as int)),
        decreases models.len() - i,
    {
        let ghost before = table@;
        let id = models[i].id.clone();
        table.insert(id, url.clone());
        proof {
            let done = all.take(i as int);
            let next = all.take(i + 1);
            let key = models[i as int].id@;
            assert(next[i as int].id == key);
            assert forall|k: Seq<char>| lists(next, k) <==> (lists(done, k) || k == key) by {
                if lists(next, k) {
                    let j = choose|j: int| 0 <= j < next.len() && (#[trigger] next[j]).id == k;
                    if j < i {
                        assert(done[j].id == k);
                    }
                }
                if lists(done, k) {
                    let j = choose|j: int| 0 <= j < done.len() && (#[trigger] done[j]).id == k;
                    assert(next[j].id == k);
                }
            }
            assert(table@ =~= route_models(start, url@, next));
        }
        i = i + 1;
    }
    proof {
        assert(all.take(i as int) =~= all);
    }
}

impl Snapshot {
    /// The draft that a cycle starts with.
    pub fn new() -> (r: Self)
        ensures
            r@ == empty_snapshot(),
    {
        let r = Snapshot { routing_table: RoutingTable::new(), models: Vec::new(), tags: Vec::new() };
        proof {
            assert(model_views(r.models@) =~= Seq::empty());
            assert(tag_views(r.tags@) =~= Seq::empty());
        }
        r
    }

    /// Adds what one backend contributed. An unavailable backend leaves the
    /// draft as it was. A listed model is routed to the backend's base URL,
    /// taking the route from any backend recorded before, and is appended to
    /// the model list; the tags, if any, are appended to the tag list.
    pub fn record(&mut self, backend: &BackendConfig, report: BackendReport)
        ensures
            final(self)@ == record_report(old(self)@, backend@.url, report@),
    {
        match report {
            BackendReport::Unavailable => {},
            BackendReport::Listed { models, tags } => {
                let ghost old_models = self.models@;
                let ghost old_tags = self.tags@;
                let mut models = models;
                let ghost listed = models@;
                route_all(&mut self.routing_table, &backend.url, &models);
                self.models.append(&mut models);
                proof {
                    assert(model_views(self.models@) =~= model_views(old_models) + model_views(listed));
                }
                match tags {
                    Some(tags) => {
                        let mut tags = tags;
                        let ghost more = tags@;
                        self.tags.append(&mut tags);
                        proof {
                            assert(tag_views(self.tags@) =~= tag_views(old_tags) + tag_views(more));
                        }
                    },
                    None => {},
                }
            },
        }
    }
}

/// Builds the snapshot of one discovery cycle from the reports of the
/// backends, `reports[i]` being what `backends[i]` contributed. A backend
/// without a report contributes nothing.
pub fn build_snapshot(backends: &Vec<BackendConfig>, reports: Vec<BackendReport>) -> (r: Snapshot)
    ensures
        r@ == snapshot_of(backend_views(backends@), report_views(reports@)),
{
    let ghost bviews = backend_views(backends@);
    let ghost rviews = report_views(reports@);
    let mut snapshot = Snapshot::new();
    let mut i: usize = 0;
    for report in iter: reports
        invariant
            bviews == backend_views(backends@),
            rviews == report_views(iter.seq()),
            i <= backends.len(),
            i <= iter.index(),
            i == iter.index() || i == backends.len(),
            snapshot@ == snapshot_upto(bviews, rviews, i as nat),
    {
        if i < backends.len() {
            snapshot.record(&backends[i], report);
            i = i + 1;
        }
    }
    snapshot
}

/// The URL of a backend's model listing.
pub fn models_url(backend: &BackendConfig) -> (r: String)
    ensures
        r@ == backend@.url + "/v1/models"@,
{
    let mut url = backend.url.clone();
    url.append("/v1/models");
    url
}

/// The URL of a backend's tag listing.
pub fn tags_url(backend: &BackendConfig) -> (r: String)
    ensures
        r@ == backend@.url + "/api/tags"@,
{
    let mut url = backend.url.clone();
    url.append("/api/tags");
    url
}

/// What a discovery cycle asks for next.
#[derive(Debug)]
pub enum DiscoveryQuery {
    /// The model listing, to be fetched from `url` with the GET method;
    /// answer with [`DiscoveryCycle::models_answered`].
    GetModels { url: String },
    /// The tag listing, to be fetched from `url` with the GET method; answer
    /// with [`DiscoveryCycle::tags_answered`].
    GetTags { url: String },
    /// Nothing: every backend has been asked. Take the snapshot with
    /// [`DiscoveryCycle::finish`].
    Finished,
}

/// One discovery cycle in progress.
///
/// The cycle asks one query at a time, backend by backend in registry order:
/// the model listing, and, only where that listing counted, the tag listing.
/// Whoever runs the cycle makes each query and hands back how it ended.
pub struct DiscoveryCycle {
    backends: Vec<BackendConfig>,
    draft: Snapshot,
    next: usize,
    listed: Option<Vec<ModelInfo>>,
    recorded: Ghost<Seq<BackendReportView>>,
}

impl DiscoveryCycle {
    #[verifier::type_invariant]
    spec fn well_formed(self) -> bool {
        &&& self.next == self.recorded@.len()
        &&& self.next <= self.backends@.len()
        &&& self.listed is Some ==> self.next < self.backends@.len()
        &&& self.draft@ == snapshot_upto(backend_views(self.backends@), self.recorded@, self.recorded@.len())
    }

    /// The backends that the cycle goes through.
    pub closed spec fn backends(&self) -> Seq<BackendView> {
        backend_views(self.backends@)
    }

    /// What the backends asked so far have contributed, in registry order.
    pub closed spec fn recorded(&self) -> Seq<BackendReportView> {
        self.recorded@
    }

    /// The models of the backend whose tag listing is awaited, if one is.
    pub closed spec fn awaiting_tags(&self) -> Option<Seq<ModelInfoView>> {
        match self.listed {
            Some(models) => Some(model_views(models@)),
            None => None,
        }
    }

    /// Begins a cycle over `backends`: nothing is recorded yet.
    pub fn start(backends: &Vec<BackendConfig>) -> (r: Self)
        ensures
            r.backends() == backend_views(backends@),
            r.recorded() == Seq::<BackendReportView>::empty(),
            r.awaiting_tags() is None,
    {
        let mut copy: Vec<BackendConfig> = Vec::new();
        let mut i: usize = 0;
        while i < backends.len()
            invariant
                i <= backends.len(),
                backend_views(copy@) == backend_views(backends@).take(i as int),
            decreases backends.len() - i,
        {
            let ghost before = copy@;
            copy.push(backends[i].clone());
            proof {
                assert(backend_views(copy@) =~= backend_views(before).push(backends[i as int]@));
                assert(backend_views(copy@) =~= backend_views(backends@).take(i + 1));
            }
            i = i + 1;
        }
        proof {
            assert(backend_views(backends@).take(i as int) =~= backend_views(backends@));
        }
        DiscoveryCycle { backends: copy, draft: Snapshot::new(), next: 0, listed: None, recorded: Ghost(Seq::empty()) }
    }

    /// The query to make next.
    pub fn next_query(&self) -> (r: DiscoveryQuery)
        ensures
            self.recorded().len() <= self.backends().len(),
            match r {
                DiscoveryQuery::GetModels { url } => {
                    &&& self.awaiting_tags() is None
                    &&& self.recorded().len() < self.backends().len()
                    &&& url@ == self.backends()[self.recorded().len() as int].url + "/v1/models"@
                },
                DiscoveryQuery::GetTags { url } => {
                    &&& self.awaiting_tags() is Some
                    &&& self.recorded().len() < self.backends().len()
                    &&& url@ == self.backends()[self.recorded().len() as int].url + "/api/tags"@
                },
                DiscoveryQuery::Finished => {
                    &&& self.awaiting_tags() is None
                    &&& self.recorded().len() == self.backends().len()
                },
            },
    {
        proof {
            use_type_invariant(self);
        }
        if self.next >= self.backends.len() {
            DiscoveryQuery::Finished
        } else if self.listed.is_some() {
            DiscoveryQuery::GetTags { url: tags_url(&self.backends[self.next]) }
        } else {
            DiscoveryQuery::GetModels { url: models_url(&self.backends[self.next]) }
        }
    }

    /// Takes the outcome of the model listing that was asked for. A listing
    /// that does not count makes the backend unavailable, and the cycle moves
    /// on to the next backend; one that counts is held until the backend's
    /// tag listing is answered. An outcome that was not asked for is dropped.
    pub fn models_answered(self, outcome: FetchOutcome<Vec<ModelInfo>>) -> (r: Self)
        ensures
            r.backends() == self.backends(),
            if self.awaiting_tags() is Some || self.recorded().len() >= self.backends().len() {
                r.recorded() == self.recorded() && r.awaiting_tags() == self.awaiting_tags()
            } else {
                match outcome.accepted() {
                    Some(models) => r.recorded() == self.recorded() && r.awaiting_tags() == Some(
                        model_views(models@),
                    ),
                    None => r.recorded() == self.recorded().push(BackendReportView::Unavailable)
                        && r.awaiting_tags() is None,
                }
            },
    {
        proof {
            use_type_invariant(&self);
        }
        if self.listed.is_some() || self.next >= self.backends.len() {
            return self;
        }
        let DiscoveryCycle { backends, draft, next, listed, recorded } = self;
        match outcome.into_accepted() {
            Some(models) => DiscoveryCycle { backends, draft, next, listed: Some(models), recorded },
            None => {
                let mut draft = draft;
                draft.record(&backends[next], BackendReport::Unavailable);
                let ghost reports = recorded@.push(BackendReportView::Unavailable);
                proof {
                    lemma_upto_same_prefix(
                        backend_views(backends@),
                        recorded@,
                        backend_views(backends@),
                        reports,
                        next as nat,
                    );
                }
                DiscoveryCycle { backends, draft, next: next + 1, listed: None, recorded: Ghost(reports) }
            },
        }
    }

    /// Takes the outcome of the tag listing that was asked for. The backend
    /// contributes the models it listed and, where the tag listing counts, its
    /// tags; the cycle moves on to the next backend. An outcome that was not
    /// asked for is dropped.
    pub fn tags_answered(self, outcome: FetchOutcome<Vec<ModelTag>>) -> (r: Self)
        ensures
            r.backends() == self.backends(),
            match self.awaiting_tags() {
                Some(models) => r.awaiting_tags() is None && r.recorded() == self.recorded().push(
                    report_of(
                        Some(models),
                        match outcome.accepted() {
                            Some(tags) => Some(tag_views(tags@)),
                            None => None,
                        },
                    ),
                ),
                None => r.recorded() == self.recorded() && r.awaiting_tags() is None,
            },
    {
        proof {
            use_type_invariant(&self);
        }
        let DiscoveryCycle { backends, draft, next, listed, recorded } = self;
        match listed {
            None => DiscoveryCycle { backends, draft, next, listed: None, recorded },
            Some(models) => {
                assert(next < backends.len());
                let report = BackendReport::Listed { models, tags: outcome.into_accepted() };
                let ghost reports = recorded@.push(report@);
                let mut draft = draft;
                draft.record(&backends[next], report);
                proof {
                    lemma_upto_same_prefix(
                        backend_views(backends@),
                        recorded@,
                        backend_views(backends@),
                        reports,
                        next as nat,
                    );
                }
                DiscoveryCycle { backends, draft, next: next + 1, listed: None, recorded: Ghost(reports) }
            },
        }
    }

    /// Ends the cycle and hands out the snapshot of what was recorded. Once
    /// [`DiscoveryCycle::next_query`] has returned
    /// [`DiscoveryQuery::Finished`], that is the snapshot of the whole cycle.
    pub fn finish(self) -> (r: Snapshot)
        ensures
            self.recorded().len() <= self.backends().len(),
            r@ == snapshot_upto(self.backends(), self.recorded(), self.recorded().len()),
            self.recorded().len() == self.backends().len() ==> r@ == snapshot_of(self.backends(), self.recorded()),
    {
        proof {
            use_type_invariant(&self);
        }
        self.draft
    }
}

/// Two cycles that agree on their first `n` backends and reports agree on the
/// snapshot of those.
pub(crate) proof fn lemma_upto_same_prefix(
    backends: Seq<BackendView>,
    reports: Seq<BackendReportView>,
    others: Seq<BackendView>,
    other_reports: Seq<BackendReportView>,
    n: nat,
)
    requires
        n <= backends.len(),
        n <= reports.len(),
        n <= others.len(),
        n <= other_reports.len(),
        forall|i: int| 0 <= i < n ==> backends[i] == others[i],
        forall|i: int| 0 <= i < n ==> reports[i] == other_reports[i],
    ensures
        snapshot_upto(backends, reports, n) == snapshot_upto(others, other_reports, n),
    decreases n,
{
    if n > 0 {
        lemma_upto_same_prefix(backends, reports, others, other_reports, (n - 1) as nat);
    }
}

} // verus!
