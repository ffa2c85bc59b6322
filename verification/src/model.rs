//! What discovery learns about the backends: model summaries, tag metadata
//! and the routing table from model identifier to backend URL.

use crate::config::Config;
use crate::config::ConfigView;
use crate::discovery::build_snapshot;
use crate::discovery::lists;
use crate::discovery::report_views;
use crate::discovery::snapshot_of;
use crate::discovery::BackendReport;
use crate::discovery::Snapshot;
use crate::discovery::SnapshotView;
use crate::laws::law_routes_follow_reports;
use vstd::prelude::*;
use vstd::string::StringExecFns;

verus! {

/// A model as a backend lists it. Its identity is `id`.
#[derive(Debug)]
pub struct ModelInfo {
    pub id: String,
    pub object: String,
    pub created: i64,
    pub owned_by: String,
}

/// The mathematical value of a [`ModelInfo`].
pub struct ModelInfoView {
    pub id: Seq<char>,
    pub object: Seq<char>,
    pub created: i64,
    pub owned_by: Seq<char>,
}

impl View for ModelInfo {
    type V = ModelInfoView;

    open spec fn view(&self) -> ModelInfoView {
        ModelInfoView {
            id: self.id@,
            object: self.object@,
            created: self.created,
            owned_by: self.owned_by@,
        }
    }
}

impl Clone for ModelInfo {
    fn clone(&self) -> (r: Self)
        ensures
            r@ == self@,
    {
        ModelInfo {
            id: self.id.clone(),
            object: self.object.clone(),
            created: self.created,
            owned_by: self.owned_by.clone(),
        }
    }
}

/// The views of a sequence of models, in the same order.
pub open spec fn model_views(models: Seq<ModelInfo>) -> Seq<ModelInfoView> {
    models.map_values(|m: ModelInfo| m@)
}

/// The informational details of a tag.
#[derive(Debug)]
pub struct TagDetails {
    pub format: String,
    pub family: String,
    pub parameter_size: String,
    pub quantization_level: String,
}

/// Extended metadata that a backend reports about one model. It is never used
/// for routing.
#[derive(Debug)]
pub struct ModelTag {
    pub name: String,
    pub model: String,
    pub modified_at: String,
    pub size: u64,
    pub digest: String,
    pub details: TagDetails,
}

/// The mathematical value of a [`TagDetails`].
pub struct TagDetailsView {
    pub format: Seq<char>,
    pub family: Seq<char>,
    pub parameter_size: Seq<char>,
    pub quantization_level: Seq<char>,
}

/// The mathematical value of a [`ModelTag`].
pub struct ModelTagView {
    pub name: Seq<char>,
    pub model: Seq<char>,
    pub modified_at: Seq<char>,
    pub size: u64,
    pub digest: Seq<char>,
    pub details: TagDetailsView,
}

impl View for TagDetails {
    type V = TagDetailsView;

    open spec fn view(&self) -> TagDetailsView {
        TagDetailsView {
            format: self.format@,
            family: self.family@,
            parameter_size: self.parameter_size@,
            quantization_level: self.quantization_level@,
        }
    }
}

impl View for ModelTag {
    type V = ModelTagView;

    open spec fn view(&self) -> ModelTagView {
        ModelTagView {
            name: self.name@,
            model: self.model@,
            modified_at: self.modified_at@,
            size: self.size,
            digest: self.digest@,
            details: self.details@,
        }
    }
}

impl Clone for TagDetails {
    fn clone(&self) -> (r: Self)
        ensures
            r@ == self@,
    {
        TagDetails {
            format: self.format.clone(),
            family: self.family.clone(),
            parameter_size: self.parameter_size.clone(),
            quantization_level: self.quantization_level.clone(),
        }
    }
}

impl Clone for ModelTag {
    fn clone(&self) -> (r: Self)
        ensures
            r@ == self@,
    {
        ModelTag {
            name: self.name.clone(),
            model: self.model.clone(),
            modified_at: self.modified_at.clone(),
            size: self.size,
            digest: self.digest.clone(),
            details: self.details.clone(),
        }
    }
}

/// The views of a sequence of tags, in the same order.
pub open spec fn tag_views(tags: Seq<ModelTag>) -> Seq<ModelTagView> {
    tags.map_values(|t: ModelTag| t@)
}

/// One entry of the routing table.
#[derive(Debug)]
struct Route {
    model: String,
    url: String,
}

/// The table that a sequence of entries spells: a later entry for a model
/// replaces an earlier one.
spec fn table_of(entries: Seq<Route>) -> Map<Seq<char>, Seq<char>>
    decreases entries.len(),
{
    if entries.len() == 0 {
        Map::empty()
    } else {
        table_of(entries.drop_last()).insert(entries.last().model@, entries.last().url@)
    }
}

/// No model identifier occurs in two entries.
spec fn distinct_models(entries: Seq<Route>) -> bool {
    forall|i: int, j: int|
        0 <= i < j < entries.len() ==> (#[trigger] entries[i]).model@ != (#[trigger] entries[j]).model@
}

proof fn lemma_table_dom(entries: Seq<Route>, key: Seq<char>)
    ensures
        table_of(entries).dom().contains(key) <==> exists|i: int|
            0 <= i < entries.len() && (#[trigger] entries[i]).model@ == key,
    decreases entries.len(),
{
    if entries.len() > 0 {
        let front = entries.drop_last();
        lemma_table_dom(front, key);
        if table_of(entries).dom().contains(key) {
            if entries.last().model@ == key {
                assert(entries[entries.len() - 1].model@ == key);
            } else {
                let i = choose|i: int| 0 <= i < front.len() && (#[trigger] front[i]).model@ == key;
                assert(entries[i].model@ == key);
            }
        }
        if exists|i: int| 0 <= i < entries.len() && (#[trigger] entries[i]).model@ == key {
            let i = choose|i: int| 0 <= i < entries.len() && (#[trigger] entries[i]).model@ == key;
            if i < front.len() {
                assert(front[i].model@ == key);
            }
        }
    }
}

proof fn lemma_distinct_front(entries: Seq<Route>)
    requires
        distinct_models(entries),
        entries.len() > 0,
    ensures
        distinct_models(entries.drop_last()),
{
    let front = entries.drop_last();
    assert forall|a: int, b: int| 0 <= a < b < front.len() implies (#[trigger] front[a]).model@ != (
    #[trigger] front[b]).model@ by {
        assert(entries[a].model@ != entries[b].model@);
    }
}

proof fn lemma_table_at(entries: Seq<Route>, i: int)
    requires
        distinct_models(entries),
        0 <= i < entries.len(),
    ensures
        table_of(entries).dom().contains(entries[i].model@),
        table_of(entries)[entries[i].model@] == entries[i].url@,
    decreases entries.len(),
{
    let front = entries.drop_last();
    if i < entries.len() - 1 {
        lemma_distinct_front(entries);
        lemma_table_at(front, i);
        assert(front[i] == entries[i]);
        assert(entries[i].model@ != entries[entries.len() - 1].model@);
    }
}

proof fn lemma_table_len(entries: Seq<Route>)
    requires
        distinct_models(entries),
    ensures
        table_of(entries).dom().finite(),
        table_of(entries).dom().len() == entries.len(),
    decreases entries.len(),
{
    if entries.len() > 0 {
        let front = entries.drop_last();
        lemma_distinct_front(entries);
        lemma_table_len(front);
        lemma_table_dom(front, entries.last().model@);
        if table_of(front).dom().contains(entries.last().model@) {
            let i = choose|i: int| 0 <= i < front.len() && (#[trigger] front[i]).model@ == entries.last().model@;
            assert(entries[i].model@ != entries[entries.len() - 1].model@);
        }
        assert(table_of(entries).dom() =~= table_of(front).dom().insert(entries.last().model@));
    }
}

/// The routing table: which backend URL serves each model identifier.
///
/// The table is kept as a list of entries in which no model occurs twice, so a
/// lookup takes time linear in the number of routed models.
#[derive(Debug)]
pub struct RoutingTable {
    entries: Vec<Route>,
}

impl View for RoutingTable {
    type V = Map<Seq<char>, Seq<char>>;

    closed spec fn view(&self) -> Map<Seq<char>, Seq<char>> {
        table_of(self.entries@)
    }
}

impl RoutingTable {
    #[verifier::type_invariant]
    spec fn well_formed(self) -> bool {
        distinct_models(self.entries@)
    }

    /// The empty table.
    pub fn new() -> (r: Self)
        ensures
            r@ == Map::<Seq<char>, Seq<char>>::empty(),
    {
        RoutingTable { entries: Vec::new() }
    }

    /// The position of `model` among the entries.
    fn position(&self, model: &String) -> (r: Option<usize>)
        ensures
            match r {
                Some(i) => i < self.entries.len() && self.entries[i as int].model@ == model@,
                None => forall|i: int| 0 <= i < self.entries.len() ==> (#[trigger] self.entries[i]).model@ != model@,
            },
    {
        let mut i: usize = 0;
        while i < self.entries.len()
            invariant
                i <= self.entries.len(),
                forall|j: int| 0 <= j < i ==> (#[trigger] self.entries[j]).model@ != model@,
            decreases self.entries.len() - i,
        {
            if self.entries[i].model == *model {
                return Some(i);
            }
            i = i + 1;
        }
        None
    }

    /// The backend URL that serves `model`, copied out of the table.
    pub fn lookup(&self, model: &str) -> (r: Option<String>)
        ensures
            match r {
                Some(url) => self@.dom().contains(model@) && self@[model@] == url@,
                None => !self@.dom().contains(model@),
            },
    {
        let key = String::from_str(model);
        proof {
            use_type_invariant(self);
            lemma_table_dom(self.entries@, model@);
        }
        match self.position(&key) {
            Some(i) => {
                proof {
                    lemma_table_at(self.entries@, i as int);
                }
                Some(self.entries[i].url.clone())
            },
            None => None,
        }
    }

    /// Whether the table routes `model`.
    pub fn contains_key(&self, model: &str) -> (r: bool)
        ensures
            r == self@.dom().contains(model@),
    {
        let key = String::from_str(model);
        proof {
            lemma_table_dom(self.entries@, model@);
        }
        self.position(&key).is_some()
    }

    /// The number of models that the table routes.
    pub fn len(&self) -> (r: usize)
        ensures
            self@.dom().finite(),
            r == self@.dom().len(),
    {
        proof {
            use_type_invariant(self);
            lemma_table_len(self.entries@);
        }
        self.entries.len()
    }

    /// Whether the table routes nothing.
    pub fn is_empty(&self) -> (r: bool)
        ensures
            r == (self@ == Map::<Seq<char>, Seq<char>>::empty()),
    {
        proof {
            if self.entries@.len() > 0 {
                lemma_table_dom(self.entries@, self.entries@[0].model@);
            }
        }
        self.entries.len() == 0
    }

    /// Routes `model` to `url`, replacing the route it had, if any.
    pub fn insert(&mut self, model: String, url: String)
        ensures
            final(self)@ == old(self)@.insert(model@, url@),
    {
        proof {
            use_type_invariant(&*self);
        }
        let ghost before = self.entries@;
        let ghost key = model@;
        let ghost target = url@;
        let found = self.position(&model);
        let mut entries: Vec<Route> = Vec::new();
        std::mem::swap(&mut entries, &mut self.entries);
        match found {
            Some(i) => {
                entries.set(i, Route { model, url });
                proof {
                    let after = entries@;
                    assert(distinct_models(after)) by {
                        assert forall|a: int, b: int| 0 <= a < b < after.len() implies (#[trigger] after[a]).model@
                            != (#[trigger] after[b]).model@ by {
                            assert(before[a].model@ != before[b].model@);
                        }
                    }
                    assert forall|k: Seq<char>| #[trigger]
                        table_of(after).dom().contains(k) <==> table_of(before).insert(key, target).dom().contains(
                            k,
                        ) by {
                        lemma_table_dom(after, k);
                        lemma_table_dom(before, k);
                        if exists|j: int| 0 <= j < after.len() && (#[trigger] after[j]).model@ == k {
                            let j = choose|j: int| 0 <= j < after.len() && (#[trigger] after[j]).model@ == k;
                            assert(before[j].model@ == k);
                        }
                        if exists|j: int| 0 <= j < before.len() && (#[trigger] before[j]).model@ == k {
                            let j = choose|j: int| 0 <= j < before.len() && (#[trigger] before[j]).model@ == k;
                            assert(after[j].model@ == k);
                        }
                        if k == key {
                            assert(after[i as int].model@ == k);
                        }
                    }
                    assert forall|k: Seq<char>| table_of(after).dom().contains(k) implies #[trigger] table_of(
                        after,
                    )[k] == table_of(before).insert(key, target)[k] by {
                        lemma_table_dom(after, k);
                        let j = choose|j: int| 0 <= j < after.len() && (#[trigger] after[j]).model@ == k;
                        lemma_table_at(after, j);
                        if j != i {
                            lemma_table_at(before, j);
                            assert(before[j].model@ != before[i as int].model@);
                        }
                    }
                    assert(table_of(after) =~= table_of(before).insert(key, target));
                }
            },
            None => {
                entries.push(Route { model, url });
                proof {
                    let after = entries@;
                    assert(after.drop_last() =~= before);
                    assert(distinct_models(after)) by {
                        assert forall|a: int, b: int| 0 <= a < b < after.len() implies (#[trigger] after[a]).model@
                            != (#[trigger] after[b]).model@ by {
                            if b < before.len() {
                                assert(before[a].model@ != before[b].model@);
                            } else {
                                assert(before[a].model@ != key);
                            }
                        }
                    }
                }
            },
        }
        self.entries = entries;
    }
}

/// The shared state of the proxy: the immutable registry and the three caches
/// that discovery replaces and request handling reads.
#[derive(Debug)]
pub struct AppState {
    pub config: Config,
    pub routing_table: RoutingTable,
    pub model_cache: Vec<ModelInfo>,
    pub tag_cache: Vec<ModelTag>,
}

/// The mathematical value of an [`AppState`].
pub struct AppStateView {
    pub config: ConfigView,
    pub routing_table: Map<Seq<char>, Seq<char>>,
    pub model_cache: Seq<ModelInfoView>,
    pub tag_cache: Seq<ModelTagView>,
}

impl View for AppState {
    type V = AppStateView;

    open spec fn view(&self) -> AppStateView {
        AppStateView {
            config: self.config@,
            routing_table: self.routing_table@,
            model_cache: model_views(self.model_cache@),
            tag_cache: tag_views(self.tag_cache@),
        }
    }
}

/// The states that the caches pass through while a snapshot is installed: the
/// state before, then one state after each of the three replacements.
pub open spec fn install_steps(before: AppStateView, snapshot: SnapshotView) -> Seq<AppStateView> {
    let tabled = AppStateView { routing_table: snapshot.routing_table, ..before };
    let listed = AppStateView { model_cache: snapshot.models, ..tabled };
    let tagged = AppStateView { tag_cache: snapshot.tags, ..listed };
    seq![before, tabled, listed, tagged]
}

impl AppState {
    /// The state before any discovery cycle: the given registry and three
    /// empty caches.
    pub fn new(config: Config) -> (r: Self)
        ensures
            r@.config == config@,
            r@.routing_table == Map::<Seq<char>, Seq<char>>::empty(),
            r@.model_cache == Seq::<ModelInfoView>::empty(),
            r@.tag_cache == Seq::<ModelTagView>::empty(),
    {
        AppState {
            config,
            routing_table: RoutingTable::new(),
            model_cache: Vec::new(),
            tag_cache: Vec::new(),
        }
    }

    /// The backend URL that currently serves `model`.
    pub fn lookup(&self, model: &str) -> (r: Option<String>)
        ensures
            match r {
                Some(url) => self@.routing_table.dom().contains(model@) && self@.routing_table[model@] == url@,
                None => !self@.routing_table.dom().contains(model@),
            },
    {
        self.routing_table.lookup(model)
    }

    /// A copy of the current model list, in the order discovery built it.
    pub fn snapshot_models(&self) -> (r: Vec<ModelInfo>)
        ensures
            model_views(r@) == self@.model_cache,
    {
        let mut copy: Vec<ModelInfo> = Vec::new();
        let mut i: usize = 0;
        while i < self.model_cache.len()
            invariant
                i <= self.model_cache.len(),
                model_views(copy@) == model_views(self.model_cache@).take(i as int),
            decreases self.model_cache.len() - i,
        {
            let ghost before = copy@;
            copy.push(self.model_cache[i].clone());
            proof {
                assert(model_views(copy@) =~= model_views(before).push(self.model_cache[i as int]@));
                assert(model_views(copy@) =~= model_views(self.model_cache@).take(i + 1));
            }
            i = i + 1;
        }
        proof {
            assert(model_views(self.model_cache@).take(i as int) =~= model_views(self.model_cache@));
        }
        copy
    }

    /// A copy of the current tag list, in the order discovery built it.
    pub fn snapshot_tags(&self) -> (r: Vec<ModelTag>)
        ensures
            tag_views(r@) == self@.tag_cache,
    {
        let mut copy: Vec<ModelTag> = Vec::new();
        let mut i: usize = 0;
        while i < self.tag_cache.len()
            invariant
                i <= self.tag_cache.len(),
                tag_views(copy@) == tag_views(self.tag_cache@).take(i as int),
            decreases self.tag_cache.len() - i,
        {
            let ghost before = copy@;
            copy.push(self.tag_cache[i].clone());
            proof {
                assert(tag_views(copy@) =~= tag_views(before).push(self.tag_cache[i as int]@));
                assert(tag_views(copy@) =~= tag_views(self.tag_cache@).take(i + 1));
            }
            i = i + 1;
        }
        proof {
            assert(tag_views(self.tag_cache@).take(i as int) =~= tag_views(self.tag_cache@));
        }
        copy
    }

    /// Replaces the routing table as a whole. The other caches and the
    /// registry stay as they are.
    pub fn replace(&mut self, table: RoutingTable)
        ensures
            final(self)@ == (AppStateView { routing_table: table@, ..old(self)@ }),
    {
        self.routing_table = table;
    }

    /// Replaces the model list as a whole.
    pub fn replace_models(&mut self, models: Vec<ModelInfo>)
        ensures
            final(self)@ == (AppStateView { model_cache: model_views(models@), ..old(self)@ }),
    {
        self.model_cache = models;
    }

    /// Replaces the tag list as a whole.
    pub fn replace_tags(&mut self, tags: Vec<ModelTag>)
        ensures
            final(self)@ == (AppStateView { tag_cache: tag_views(tags@), ..old(self)@ }),
    {
        self.tag_cache = tags;
    }

    /// Installs the snapshot of a completed discovery cycle: the routing table
    /// first, then the model list, then the tag list.
    pub fn install(&mut self, snapshot: Snapshot)
        ensures
            final(self)@ == install_steps(old(self)@, snapshot@).last(),
            final(self)@ == (AppStateView {
                config: old(self)@.config,
                routing_table: snapshot@.routing_table,
                model_cache: snapshot@.models,
                tag_cache: snapshot@.tags,
            }),
    {
        let ghost steps = install_steps(self@, snapshot@);
        let Snapshot { routing_table, models, tags } = snapshot;
        self.replace(routing_table);
        assert(self@ == steps[1]);
        self.replace_models(models);
        assert(self@ == steps[2]);
        self.replace_tags(tags);
        assert(self@ == steps[3]);
    }

    /// Runs the deciding part of one discovery cycle: builds the snapshot that
    /// the reports of the configured backends amount to and installs it.
    /// `reports[i]` is what the `i`-th configured backend contributed.
    /// Afterwards the table routes exactly the models that the model list
    /// shows.
    pub fn refresh_models(&mut self, reports: Vec<BackendReport>)
        ensures
            final(self)@.config == old(self)@.config,
            final(self)@.routing_table == snapshot_of(old(self)@.config.backends, report_views(reports@)).routing_table,
            final(self)@.model_cache == snapshot_of(old(self)@.config.backends, report_views(reports@)).models,
            final(self)@.tag_cache == snapshot_of(old(self)@.config.backends, report_views(reports@)).tags,
            forall|id: Seq<char>| #[trigger]
                final(self)@.routing_table.dom().contains(id) <==> lists(final(self)@.model_cache, id),
    {
        let snapshot = build_snapshot(&self.config.backends, reports);
        proof {
            assert forall|id: Seq<char>| #[trigger]
                snapshot@.routing_table.dom().contains(id) <==> lists(snapshot@.models, id) by {
                law_routes_follow_reports(self@.config.backends, report_views(reports@), id);
            }
        }
        self.install(snapshot);
    }
}

} // verus!
