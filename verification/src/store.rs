use vstd::prelude::*;
use crate::blob::{spec_join, BlobCache};
use crate::cache::{ProviderCache, Section};
use crate::error::Error;
use crate::events::{DataRequest, DataResponse};
use crate::file_provider::FileProvider;
use crate::http_provider::{spec_content_type_ok, spec_http_blobs, HttpProvider};
use crate::kv::StrMap;
use crate::mod_info::{ModInfo, ModResolution, ModResponse, ModSpecification, ResolvableStatus};
use crate::modio_provider::{
    spec_built_info, spec_modio_blobs, spec_modio_deps, spec_modio_ids, spec_modio_mods,
    ModioProvider, ResolveStep,
};
use crate::registry::{
    can_provide_http, can_provide_modio, spec_is_http_url, spec_is_modio_url, ProviderFactory,
    ProviderKind, ProviderRegistry,
};
use crate::urls::{parse_modio_url, spec_file_name, spec_parse_modio};

verus! {

/// How many redirects one specification may go through before the batch is
/// aborted: backends must not produce redirect cycles, and this bound makes
/// a cycle a detectable error instead of non-termination.
pub const MAX_REDIRECTS: u32 = 64;

/// How many resolution steps one batch may take before it is aborted: a
/// backend whose dependency suggestions never stabilize becomes a
/// detectable error instead of non-termination.
pub const RESOLVE_STEP_LIMIT: u32 = 100000;

/// Whether `u` occurs among the locators of `q`.
pub open spec fn in_queue(q: Seq<ModSpecification>, u: Seq<char>) -> bool {
    exists|i: int| 0 <= i < q.len() && q[i].url@ == u
}

/// The locator a step will take up next: the latest queued one that is not
/// already a key of the result map.
pub open spec fn spec_next_pending(q: Seq<Seq<char>>, m: Map<Seq<char>, ModInfo>) -> Option<
    Seq<char>,
>
    decreases q.len(),
{
    if q.len() == 0 {
        None
    } else if !m.contains_key(q.last()) {
        Some(q.last())
    } else {
        spec_next_pending(q.drop_last(), m)
    }
}

/// Whether `u` occurs among the urls of `q`.
pub open spec fn in_urls(q: Seq<Seq<char>>, u: Seq<char>) -> bool {
    exists|i: int| 0 <= i < q.len() && q[i] == u
}

/// Every locator of `new_queue` was already queued, so a step that does
/// not complete an entry discovers no work.
pub open spec fn spec_queue_within(old_queue: Seq<Seq<char>>, new_queue: Seq<Seq<char>>) -> bool {
    forall|j: int| 0 <= j < new_queue.len() ==> in_urls(old_queue, #[trigger] new_queue[j])
}

/// The dependency dedup of one completed entry: every locator of
/// `new_queue` was already queued, or is one of the entry's suggested
/// dependencies that was not yet a key of the result map, not in the
/// precise set, and not the entry's own precise locator. A dependency
/// already resolved under its precise locator is never re-queued.
pub open spec fn spec_discovered_only_uncovered(
    old_queue: Seq<Seq<char>>,
    old_results: Map<Seq<char>, ModInfo>,
    old_precise: Map<Seq<char>, bool>,
    info: ModInfo,
    new_queue: Seq<Seq<char>>,
) -> bool {
    forall|j: int|
        0 <= j < new_queue.len() ==> in_urls(old_queue, #[trigger] new_queue[j]) || ((exists|
            i: int,
        |
            0 <= i < info.suggested_dependencies@.len() && info.suggested_dependencies@[i].url@
                == new_queue[j]) && !old_results.contains_key(new_queue[j])
            && !old_precise.contains_key(new_queue[j]) && new_queue[j] != info.spec.url@)
}

/// What a finished resolution batch guarantees: every input locator is a
/// key of the result map, and every suggested dependency of every entry is
/// itself a key or is the precise locator some entry resolved to.
pub open spec fn spec_resolved_ok(inputs: Seq<Seq<char>>, m: Map<Seq<char>, ModInfo>) -> bool {
    &&& forall|i: int| 0 <= i < inputs.len() ==> m.contains_key(#[trigger] inputs[i])
    &&& forall|k: Seq<char>, j: int|
        #![trigger m[k].suggested_dependencies@[j]]
        m.contains_key(k) && 0 <= j < m[k].suggested_dependencies@.len() ==> {
            let d = m[k].suggested_dependencies@[j].url@;
            m.contains_key(d) || exists|k2: Seq<char>|
                m.contains_key(k2) && (#[trigger] m[k2]).spec.url@ == d
        }
}

/// One resolution batch in progress: the pending queue of original
/// locators, the locator currently being followed through redirects, the
/// result map keyed by original locator, and the set of precise locators
/// already resolved, which deduplicates dependency discovery.
pub struct ResolveSession {
    update: bool,
    fresh: bool,
    queue: Vec<ModSpecification>,
    current_original: Option<ModSpecification>,
    current_spec: Option<ModSpecification>,
    redirects_left: u32,
    steps_left: u32,
    results: StrMap<ModInfo>,
    precise: StrMap<bool>,
    done: bool,
    inputs: Ghost<Seq<Seq<char>>>,
}

/// One resolution step's visible outcome.
#[derive(Debug)]
pub enum ResolveOutcome {
    /// Internal progress was made; step again.
    Progress,
    /// Outside work is needed; perform it, record it through
    /// `store_response`, then step again.
    Need(DataRequest),
    /// The batch is complete; take the map with `finish`.
    Finished,
}

impl ResolveSession {
    pub closed spec fn spec_done(&self) -> bool {
        self.done
    }

    pub closed spec fn spec_update(&self) -> bool {
        self.update
    }

    pub closed spec fn spec_inputs(&self) -> Seq<Seq<char>> {
        self.inputs@
    }

    pub closed spec fn spec_results(&self) -> Map<Seq<char>, ModInfo> {
        self.results@
    }

    pub closed spec fn spec_precise(&self) -> Map<Seq<char>, bool> {
        self.precise@
    }

    pub closed spec fn spec_busy(&self) -> bool {
        self.current_original is Some || self.queue@.len() > 0
    }

    pub closed spec fn spec_steps_left(&self) -> int {
        self.steps_left as int
    }

    pub closed spec fn spec_redirects_left(&self) -> int {
        self.redirects_left as int
    }

    pub closed spec fn spec_queue(&self) -> Seq<Seq<char>> {
        self.queue@.map_values(|u: ModSpecification| u.url@)
    }

    pub closed spec fn spec_current_original(&self) -> Option<Seq<char>> {
        match self.current_original {
            Some(o) => Some(o.url@),
            None => None,
        }
    }

    pub closed spec fn spec_current(&self) -> Option<Seq<char>> {
        match self.current_spec {
            Some(c) => Some(c.url@),
            None => None,
        }
    }

    pub closed spec fn spec_fresh(&self) -> bool {
        self.fresh
    }

    /// The pair a step will work on: the original locator an entry will be
    /// keyed by, and the working locator after redirects so far. It is the
    /// locator mid-flight if one is, else the latest queued locator not yet
    /// resolved, else nothing.
    pub open spec fn spec_step_target(&self) -> Option<(Seq<char>, Seq<char>)> {
        match (self.spec_current_original(), self.spec_current()) {
            (Some(o), Some(c)) => Some((o, c)),
            _ => match spec_next_pending(self.spec_queue(), self.spec_results()) {
                Some(u) => Some((u, u)),
                None => None,
            },
        }
    }

    pub closed spec fn covers(&self, u: Seq<char>) -> bool {
        self.results@.contains_key(u) || in_queue(self.queue@, u) || (match self.current_original {
            Some(o) => o.url@ == u,
            None => false,
        })
    }

    pub closed spec fn dep_covers(&self, u: Seq<char>) -> bool {
        self.precise@.contains_key(u) || self.covers(u)
    }

    pub closed spec fn inv(&self) -> bool {
        &&& self.results.wf()
        &&& self.precise.wf()
        &&& (self.current_original is Some <==> self.current_spec is Some)
        &&& (match self.current_original {
            Some(o) => !self.results@.contains_key(o.url@),
            None => true,
        })
        &&& (self.done ==> self.queue@.len() == 0 && self.current_original is None)
        &&& forall|i: int| 0 <= i < self.inputs@.len() ==> self.covers(#[trigger] self.inputs@[i])
        &&& forall|k: Seq<char>, j: int|
            #![trigger self.results@[k].suggested_dependencies@[j]]
            self.results@.contains_key(k) && 0 <= j
                < self.results@[k].suggested_dependencies@.len() ==> self.dep_covers(
                self.results@[k].suggested_dependencies@[j].url@,
            )
        &&& forall|p: Seq<char>| #[trigger]
            self.precise@.contains_key(p) ==> exists|k: Seq<char>|
                self.results@.contains_key(k) && (#[trigger] self.results@[k]).spec.url@ == p
    }

    /// A finished batch satisfies the resolution guarantees.
    pub proof fn lemma_done(&self)
        requires
            self.inv(),
            self.spec_done(),
        ensures
            spec_resolved_ok(self.spec_inputs(), self.spec_results()),
    {
        assert forall|i: int| 0 <= i < self.inputs@.len() implies self.results@.contains_key(
            #[trigger] self.inputs@[i],
        ) by {
            assert(self.covers(self.inputs@[i]));
        }
        assert forall|k: Seq<char>, j: int|
            #![trigger self.results@[k].suggested_dependencies@[j]]
            self.results@.contains_key(k) && 0 <= j
                < self.results@[k].suggested_dependencies@.len() implies {
            let d = self.results@[k].suggested_dependencies@[j].url@;
            self.results@.contains_key(d) || exists|k2: Seq<char>|
                self.results@.contains_key(k2) && (#[trigger] self.results@[k2]).spec.url@ == d
        } by {
            let d = self.results@[k].suggested_dependencies@[j].url@;
            assert(self.dep_covers(d));
        }
    }

    /// Takes the finished batch's result map: one entry per distinct input
    /// locator, keyed by the original locator, covering the transitive
    /// dependency closure.
    pub fn finish(self) -> (r: StrMap<ModInfo>)
        requires
            self.inv(),
            self.spec_done(),
        ensures
            r.wf(),
            r@ == self.spec_results(),
            spec_resolved_ok(self.spec_inputs(), r@),
    {
        proof {
            self.lemma_done();
        }
        let ResolveSession { results, .. } = self;
        results
    }
}

/// What one fetch awaits from outside before its path can be recorded.
pub enum AwaitTarget {
    Http,
    Modio { modfile_id: u32 },
}

/// One fetch batch in progress. Paths are recorded strictly in input
/// order: the entry at each position is the path fetched for the
/// resolution at the same position, however the downloads were scheduled.
pub struct FetchSession {
    update: bool,
    resolutions: Vec<ModResolution>,
    paths: Vec<String>,
    awaiting: Option<AwaitTarget>,
}

/// One fetch step's visible outcome.
#[derive(Debug)]
pub enum FetchOutcome {
    /// The next path came from the cache or the locator itself.
    Progress,
    /// A download is needed; perform it and record it through
    /// `fetch_store_http` or `fetch_store_modio`.
    Need(DataRequest),
    /// Every path is recorded; take them with `fetch_finish`.
    Finished,
}

impl FetchSession {
    pub closed spec fn spec_update(&self) -> bool {
        self.update
    }

    pub closed spec fn spec_resolutions(&self) -> Seq<Seq<char>> {
        self.resolutions@.map_values(|r: ModResolution| r.url@)
    }

    pub closed spec fn spec_paths(&self) -> Seq<Seq<char>> {
        self.paths@.map_values(|p: String| p@)
    }

    pub closed spec fn spec_next(&self) -> int {
        self.paths@.len() as int
    }

    pub closed spec fn spec_awaiting(&self) -> Option<AwaitTarget> {
        self.awaiting
    }

    pub closed spec fn inv(&self) -> bool {
        &&& self.paths@.len() <= self.resolutions@.len()
        &&& (self.awaiting is Some ==> self.paths@.len() < self.resolutions@.len())
    }
}

/// What a terminal resolution of `cur` must be, by the backend the
/// selection rules give it: the registry backend's cached record for fully
/// specified registry locators, the self-describing metadata for generic
/// URLs, the file-named metadata for local paths.
pub open spec fn spec_resolve_payload(store: &ModStore, cur: Seq<char>, info: ModInfo) -> bool {
    if spec_is_modio_url(cur) {
        store.modio_enabled() && (match spec_parse_modio(cur) {
            Some((_, Some(_), Some(_))) => true,
            _ => false,
        }) && spec_modio_payload(store.spec_cache(), cur, info)
    } else if spec_is_http_url(cur) {
        store.http_enabled() && spec_http_payload(cur, info)
    } else {
        store.file_enabled() && spec_file_payload(cur, info)
    }
}

/// What a redirect from `cur` must point to: the precise locator of the
/// cached record's newest file. Only the registry backend redirects.
pub open spec fn spec_redirect_target(store: &ModStore, cur: Seq<char>, next: Seq<char>) -> bool {
    &&& spec_is_modio_url(cur)
    &&& store.modio_enabled()
    &&& match spec_parse_modio(cur) {
        Some((name, Some(mid), None)) => spec_modio_mods(store.spec_cache()).contains_key(mid) && {
            let m = spec_modio_mods(store.spec_cache())[mid];
            m.latest_modfile matches Some(f) && next == crate::urls::spec_format_modio(
                m.name_id@,
                mid,
                Some(f),
            )
        },
        Some((name, None, None)) => spec_modio_ids(store.spec_cache()).contains_key(name) && {
            let mid = spec_modio_ids(store.spec_cache())[name];
            spec_modio_mods(store.spec_cache()).contains_key(mid) && (spec_modio_mods(
                store.spec_cache(),
            ).index(mid).latest_modfile matches Some(f) && next
                == crate::urls::spec_format_modio(name, mid, Some(f)))
        },
        _ => false,
    }
}

/// What a step may demand from outside for `cur` under the effective
/// update flag `upd`: exactly what the registry backend's cache is missing,
/// or a forced refresh. Only the registry backend needs outside data.
pub open spec fn spec_needed_request(
    store: &ModStore,
    cur: Seq<char>,
    upd: bool,
    req: DataRequest,
) -> bool {
    &&& spec_is_modio_url(cur)
    &&& store.modio_enabled()
    &&& match req {
        DataRequest::ModioModWithDeps { mod_id } => (match spec_parse_modio(cur) {
            Some((_, Some(mid), Some(_))) => mid == mod_id,
            _ => false,
        }) && (upd || !spec_modio_mods(store.spec_cache()).contains_key(mod_id)),
        DataRequest::ModioDependencies { mod_id } => (match spec_parse_modio(cur) {
            Some((_, Some(mid), Some(_))) => mid == mod_id,
            _ => false,
        }) && !upd && spec_modio_mods(store.spec_cache()).contains_key(mod_id)
            && !spec_modio_deps(store.spec_cache()).contains_key(mod_id),
        DataRequest::ModioModById { mod_id } => match spec_parse_modio(cur) {
            Some((_, Some(mid), None)) => mid == mod_id && (upd || !spec_modio_mods(
                store.spec_cache(),
            ).contains_key(mod_id)),
            Some((name, None, None)) => !upd && spec_modio_ids(store.spec_cache()).contains_key(
                name,
            ) && spec_modio_ids(store.spec_cache())[name] == mod_id && !spec_modio_mods(
                store.spec_cache(),
            ).contains_key(mod_id),
            _ => false,
        },
        DataRequest::ModioModByName { name_id } => match spec_parse_modio(cur) {
            Some((name, None, None)) => name_id@ == name && (upd || !spec_modio_ids(
                store.spec_cache(),
            ).contains_key(name)),
            _ => false,
        },
        _ => false,
    }
}

/// When resolving `cur` fails for want of a file: the cached record the
/// locator names has no newest file to redirect to.
pub open spec fn spec_no_modfile(store: &ModStore, cur: Seq<char>) -> bool {
    &&& spec_is_modio_url(cur)
    &&& store.modio_enabled()
    &&& match spec_parse_modio(cur) {
        Some((name, Some(mid), None)) => spec_modio_mods(store.spec_cache()).contains_key(mid)
            && spec_modio_mods(store.spec_cache()).index(mid).latest_modfile is None,
        Some((name, None, None)) => spec_modio_ids(store.spec_cache()).contains_key(name) && {
            let mid = spec_modio_ids(store.spec_cache())[name];
            spec_modio_mods(store.spec_cache()).contains_key(mid) && spec_modio_mods(
                store.spec_cache(),
            ).index(mid).latest_modfile is None
        },
        _ => false,
    }
}

/// The order-preserving window behind the ordered fetch: completions may
/// arrive in any order, each recorded at its input position, and paths are
/// emitted strictly in input order. A position whose download has not
/// finished holds back every later one, however early those finished.
pub struct OrderBuffer {
    slots: Vec<Option<String>>,
    emitted: usize,
}

impl OrderBuffer {
    pub closed spec fn spec_slots(&self) -> Seq<Option<Seq<char>>> {
        self.slots@.map_values(
            |o: Option<String>|
                match o {
                    Some(p) => Some(p@),
                    None => None,
                },
        )
    }

    pub closed spec fn spec_emitted(&self) -> int {
        self.emitted as int
    }

    pub closed spec fn inv(&self) -> bool {
        self.emitted <= self.slots@.len()
    }

    /// A window over `n` positions, none of them completed yet.
    pub fn new(n: usize) -> (r: Self)
        ensures
            r.inv(),
            r.spec_slots().len() == n,
            forall|i: int| 0 <= i < n ==> r.spec_slots()[i] is None,
            r.spec_emitted() == 0,
    {
        let mut slots: Vec<Option<String>> = Vec::new();
        let mut i: usize = 0;
        while i < n
            invariant
                i <= n,
                slots@.len() == i as int,
                forall|j: int| 0 <= j < i ==> slots@[j] is None,
            decreases n - i,
        {
            slots.push(None);
            i += 1;
        }
        let r = OrderBuffer { slots, emitted: 0 };
        proof {
            assert(forall|i2: int| 0 <= i2 < n ==> r.spec_slots()[i2] is None);
        }
        r
    }

    /// Records the path completed for position `i`, whenever it finished.
    pub fn complete(&mut self, i: usize, p: String)
        requires
            old(self).inv(),
            i < old(self).spec_slots().len(),
        ensures
            final(self).inv(),
            final(self).spec_slots() =~= old(self).spec_slots().update(i as int, Some(p@)),
            final(self).spec_emitted() == old(self).spec_emitted(),
    {
        let ghost gp = p;
        self.slots.remove(i);
        self.slots.insert(i, Some(p));
        proof {
            assert(self.slots@ =~= old(self).slots@.update(i as int, Some(gp)));
            assert(self.spec_slots() =~= old(self).spec_slots().update(i as int, Some(gp@)));
        }
    }

    /// Emits the next path in input order, or nothing while that position
    /// is still outstanding: a later completion never overtakes an earlier
    /// position.
    pub fn pop_ready(&mut self) -> (r: Option<String>)
        requires
            old(self).inv(),
        ensures
            final(self).inv(),
            final(self).spec_slots() == old(self).spec_slots(),
            match r {
                Some(p) => old(self).spec_emitted() < old(self).spec_slots().len() && old(self).spec_slots()[old(self).spec_emitted()] == Some(p@) && final(self).spec_emitted()
                    == old(self).spec_emitted() + 1,
                None => (old(self).spec_emitted() == old(self).spec_slots().len() || old(self).spec_slots()[old(self).spec_emitted()] is None) && final(self).spec_emitted()
                    == old(self).spec_emitted(),
            },
    {
        if self.emitted < self.slots.len() {
            match &self.slots[self.emitted] {
                Some(p) => {
                    let out = p.clone();
                    self.emitted = self.emitted + 1;
                    Some(out)
                },
                None => None,
            }
        } else {
            None
        }
    }
}

/// Where a recorded path must have come from, given the cache at the time
/// it was recorded: a stored blob of the mod registry backend for its
/// locators, a stored blob of the HTTP backend for generic URLs, and the
/// locator itself for local paths.
pub open spec fn spec_fetch_path_ok(
    doc: Map<Seq<char>, Section>,
    dir: Seq<char>,
    res_url: Seq<char>,
    p: Seq<char>,
) -> bool {
    if spec_is_modio_url(res_url) {
        match spec_parse_modio(res_url) {
            Some((_, _, Some(fid))) => spec_modio_blobs(doc).contains_key(fid) && p == spec_join(
                dir,
                spec_modio_blobs(doc)[fid].0@,
            ),
            _ => false,
        }
    } else if spec_is_http_url(res_url) {
        spec_http_blobs(doc).contains_key(res_url) && p == spec_join(
            dir,
            spec_http_blobs(doc)[res_url].0@,
        )
    } else {
        p == res_url
    }
}


proof fn lemma_covers_transfer(pre: ResolveSession, post: ResolveSession, x: Seq<char>)
    requires
        pre.covers(x),
        pre.current_original is None,
        post.results@ == pre.results@,
        post.queue@ == pre.queue@ || (pre.queue@.len() > 0 && post.queue@ == pre.queue@.subrange(
            0,
            pre.queue@.len() - 1,
        ) && (post.results@.contains_key(pre.queue@.last().url@) || (
        post.current_original matches Some(o) && o.url@ == pre.queue@.last().url@))),
    ensures
        post.covers(x),
{
    if in_queue(pre.queue@, x) {
        let w = choose|w: int| 0 <= w < pre.queue@.len() && pre.queue@[w].url@ == x;
        if post.queue@ == pre.queue@ {
            assert(post.queue@[w].url@ == x);
        } else if w < pre.queue@.len() - 1 {
            assert(post.queue@[w].url@ == x);
        } else {
            assert(x == pre.queue@.last().url@);
        }
    }
}

proof fn lemma_session_transfer(pre: ResolveSession, post: ResolveSession)
    requires
        pre.inv(),
        pre.current_original is None,
        pre.current_spec is None,
        post.results == pre.results,
        post.precise == pre.precise,
        post.inputs == pre.inputs,
        post.queue@ == pre.queue@ || (pre.queue@.len() > 0 && post.queue@ == pre.queue@.subrange(
            0,
            pre.queue@.len() - 1,
        ) && (post.results@.contains_key(pre.queue@.last().url@) || (
        post.current_original matches Some(o) && o.url@ == pre.queue@.last().url@))),
        post.current_original is Some <==> post.current_spec is Some,
        match post.current_original {
            Some(o) => !post.results@.contains_key(o.url@),
            None => true,
        },
        post.done ==> post.queue@.len() == 0 && post.current_original is None,
    ensures
        post.inv(),
{
    assert forall|i2: int| 0 <= i2 < post.inputs@.len() implies post.covers(
        #[trigger] post.inputs@[i2],
    ) by {
        assert(pre.covers(pre.inputs@[i2]));
        lemma_covers_transfer(pre, post, post.inputs@[i2]);
    }
    assert forall|k: Seq<char>, j: int|
        #![trigger post.results@[k].suggested_dependencies@[j]]
        post.results@.contains_key(k) && 0 <= j
            < post.results@[k].suggested_dependencies@.len() implies post.dep_covers(
        post.results@[k].suggested_dependencies@[j].url@,
    ) by {
        let x = post.results@[k].suggested_dependencies@[j].url@;
        assert(pre.results@.contains_key(k));
        assert(pre.results@[k].suggested_dependencies@[j]
            == post.results@.index(k).suggested_dependencies@[j]);
        assert(pre.dep_covers(x));
        if !pre.precise@.contains_key(x) {
            lemma_covers_transfer(pre, post, x);
        }
    }
    assert forall|p: Seq<char>| #[trigger]
        post.precise@.contains_key(p) implies exists|k: Seq<char>|
        post.results@.contains_key(k) && (#[trigger] post.results@[k]).spec.url@ == p by {
        assert(pre.precise@.contains_key(p));
        let k1 = choose|k1: Seq<char>|
            pre.results@.contains_key(k1) && (#[trigger] pre.results@[k1]).spec.url@ == p;
        assert(post.results@.contains_key(k1) && post.results@[k1].spec.url@ == p);
    }
}

proof fn lemma_pop_empty(pre: ResolveSession, post: ResolveSession)
    requires
        pre.inv(),
        pre.current_original is None,
        pre.current_spec is None,
        pre.queue@.len() == 0,
        post.results == pre.results,
        post.precise == pre.precise,
        post.inputs == pre.inputs,
        post.queue@ == pre.queue@,
        post.current_original is None,
        post.current_spec is None,
    ensures
        post.inv(),
{
    lemma_session_transfer(pre, post);
}

proof fn lemma_pop_skip(pre: ResolveSession, post: ResolveSession, u: ModSpecification)
    requires
        pre.inv(),
        pre.current_original is None,
        pre.current_spec is None,
        !pre.done,
        pre.queue@.len() > 0,
        u == pre.queue@.last(),
        post.results@.contains_key(u.url@),
        post.queue@ == pre.queue@.subrange(0, pre.queue@.len() - 1),
        post.results == pre.results,
        post.precise == pre.precise,
        post.inputs == pre.inputs,
        post.current_original is None,
        post.current_spec is None,
        !post.done,
    ensures
        post.inv(),
{
    lemma_session_transfer(pre, post);
}

proof fn lemma_pop_take(pre: ResolveSession, post: ResolveSession)
    requires
        pre.inv(),
        pre.current_original is None,
        pre.current_spec is None,
        !pre.done,
        pre.queue@.len() > 0,
        post.queue@ == pre.queue@.subrange(0, pre.queue@.len() - 1),
        post.results == pre.results,
        post.precise == pre.precise,
        post.inputs == pre.inputs,
        post.current_original matches Some(o) && o.url@ == pre.queue@.last().url@,
        post.current_spec is Some,
        !post.results@.contains_key(pre.queue@.last().url@),
        !post.done,
    ensures
        post.inv(),
{
    lemma_session_transfer(pre, post);
}

/// The metadata the registry backend builds for a locator, over the cached
/// record and dependency list its mod id names.
pub open spec fn spec_modio_payload(doc: Map<Seq<char>, Section>, url: Seq<char>, info: ModInfo)
    -> bool {
    match spec_parse_modio(url) {
        Some((name, om, _)) => {
            let mid = match om {
                Some(m0) => m0,
                None => spec_modio_ids(doc)[name],
            };
            &&& (om is Some || spec_modio_ids(doc).contains_key(name))
            &&& spec_modio_mods(doc).contains_key(mid)
            &&& spec_modio_deps(doc).contains_key(mid)
            &&& spec_built_info(url, mid, spec_modio_mods(doc)[mid], spec_modio_deps(doc)[mid], info)
        },
        None => false,
    }
}

/// When the registry backend's cache cannot answer for a locator: the mod
/// id is unknown, or its record or dependency list is not cached.
pub open spec fn spec_modio_record_missing(doc: Map<Seq<char>, Section>, url: Seq<char>) -> bool {
    match spec_parse_modio(url) {
        Some((name, om, _)) => match om {
            Some(m0) => !spec_modio_mods(doc).contains_key(m0) || !spec_modio_deps(
                doc,
            ).contains_key(m0),
            None => !spec_modio_ids(doc).contains_key(name) || {
                let mid = spec_modio_ids(doc)[name];
                !spec_modio_mods(doc).contains_key(mid) || !spec_modio_deps(doc).contains_key(mid)
            },
        },
        None => true,
    }
}

/// The metadata the generic HTTP backend builds: the locator itself, one
/// version, resolvable to itself, no dependencies.
pub open spec fn spec_http_payload(url: Seq<char>, info: ModInfo) -> bool {
    &&& info.provider@ == "http"@
    &&& info.name@ == url
    &&& info.spec.url@ == url
    &&& info.versions@.len() == 1
    &&& info.versions@[0].url@ == url
    &&& info.status matches ResolvableStatus::Resolvable(res) && res.url@ == url
    &&& info.suggested_require == false
    &&& info.suggested_dependencies@.len() == 0
}

/// The metadata the local-path backend builds: unresolvable, named after
/// the locator's file name, one version, no dependencies.
pub open spec fn spec_file_payload(url: Seq<char>, info: ModInfo) -> bool {
    &&& spec_file_name(url) matches Some(name) && info.name@ == name && (
    info.status matches ResolvableStatus::Unresolvable { name: n2 } && n2@ == name)
    &&& info.provider@ == "file"@
    &&& info.spec.url@ == url
    &&& info.versions@.len() == 1
    &&& info.versions@[0].url@ == url
    &&& info.suggested_require == false
    &&& info.suggested_dependencies@.len() == 0
}

/// The version display name the registry backend derives for a locator
/// over its cached record.
pub open spec fn spec_modio_version(doc: Map<Seq<char>, Section>, url: Seq<char>, v: Seq<char>)
    -> bool {
    match spec_parse_modio(url) {
        Some((name, om, of)) => {
            let mid = match om {
                Some(m0) => m0,
                None => spec_modio_ids(doc)[name],
            };
            &&& (om is Some || spec_modio_ids(doc).contains_key(name))
            &&& spec_modio_mods(doc).contains_key(mid)
            &&& match of {
                Some(fid) => match crate::modio_provider::spec_find_file(
                    spec_modio_mods(doc).index(mid).modfiles@,
                    fid,
                ) {
                    Some(f) => match f.version {
                        Some(ver) => v == crate::strutil::spec_dec(fid as int) + " - "@ + ver@,
                        None => v == crate::strutil::spec_dec(fid as int),
                    },
                    None => v == crate::strutil::spec_dec(fid as int),
                },
                None => v == "latest"@,
            }
        },
        None => false,
    }
}

/// When the registry backend has no version name for a locator: the mod id
/// is unknown or its record is not cached.
pub open spec fn spec_modio_version_missing(doc: Map<Seq<char>, Section>, url: Seq<char>) -> bool {
    match spec_parse_modio(url) {
        Some((name, om, _)) => match om {
            Some(m0) => !spec_modio_mods(doc).contains_key(m0),
            None => !spec_modio_ids(doc).contains_key(name) || !spec_modio_mods(
                doc,
            ).contains_key(spec_modio_ids(doc)[name]),
        },
        None => true,
    }
}

/// The orchestrator: the provider registry, the configured backends, the
/// shared provider cache document, and the content-addressed blob store.
pub struct ModStore {
    registry: ProviderRegistry,
    file: Option<FileProvider>,
    http: Option<HttpProvider>,
    modio: Option<ModioProvider>,
    cache: ProviderCache,
    blob_cache: BlobCache,
}

impl ModStore {
    pub closed spec fn wf(&self) -> bool {
        self.cache.wf() && self.registry.wf()
    }

    pub closed spec fn spec_cache(&self) -> Map<Seq<char>, Section> {
        self.cache@
    }

    pub closed spec fn spec_blob_dir(&self) -> Seq<char> {
        self.blob_cache.dir()
    }

    pub closed spec fn file_enabled(&self) -> bool {
        self.file is Some
    }

    pub closed spec fn http_enabled(&self) -> bool {
        self.http is Some
    }

    pub closed spec fn modio_enabled(&self) -> bool {
        self.modio is Some
    }

    pub open spec fn spec_enabled(&self, k: ProviderKind) -> bool {
        match k {
            ProviderKind::File => self.file_enabled(),
            ProviderKind::Http => self.http_enabled(),
            ProviderKind::Modio => self.modio_enabled(),
        }
    }

    /// Builds a store over a blob directory and a previously loaded cache
    /// document. Backends whose declared parameters are all present in
    /// `parameters` are constructed; the local and HTTP backends need
    /// none, the registry backend needs its token.
    pub fn new(blob_dir: String, initial_cache: ProviderCache, parameters: &StrMap<StrMap<String>>)
        -> (r: Self)
        requires
            initial_cache.wf(),
            parameters.wf(),
            forall|k: Seq<char>|
                parameters@.contains_key(k) ==> (#[trigger] parameters@[k]).wf(),
        ensures
            r.wf(),
            r.spec_cache() == initial_cache@,
            r.spec_blob_dir() == blob_dir@,
            r.file_enabled(),
            r.http_enabled(),
            r.modio_enabled() == (parameters@.contains_key("modio"@)
                && parameters@["modio"@]@.contains_key("oauth"@)),
    {
        let modio_id = String::from_str("modio");
        let oauth = String::from_str("oauth");
        let modio = match parameters.get(&modio_id) {
            Some(p) => {
                if p.contains_key(&oauth) {
                    Some(ModioProvider::new())
                } else {
                    None
                }
            },
            None => None,
        };
        ModStore {
            registry: ProviderRegistry::standard(),
            file: Some(FileProvider::new()),
            http: Some(HttpProvider::new()),
            modio,
            cache: initial_cache,
            blob_cache: BlobCache::new(blob_dir),
        }
    }

    /// The shared cache document, for callers that persist it.
    pub fn provider_cache(&self) -> (r: &ProviderCache)
        requires
            self.wf(),
        ensures
            r.wf(),
            r@ == self.spec_cache(),
    {
        &self.cache
    }

    /// The registered backend descriptors, each exactly once and in
    /// registration order, for prompting.
    pub fn get_provider_factories(&self) -> (r: &Vec<ProviderFactory>)
        requires
            self.wf(),
        ensures
            crate::registry::spec_standard_factories(r@),
    {
        &self.registry.factories
    }

    /// Constructs and installs one backend. The registry backend without
    /// its token is the configuration error; the others always construct.
    pub fn add_provider(&mut self, factory: &ProviderFactory, parameters: &StrMap<String>) -> (r:
        Result<(), Error>)
        requires
            old(self).wf(),
            parameters.wf(),
        ensures
            final(self).wf(),
            final(self).spec_cache() == old(self).spec_cache(),
            final(self).spec_blob_dir() == old(self).spec_blob_dir(),
            match factory.kind {
                ProviderKind::File => r is Ok && final(self).file_enabled() && final(self).http_enabled() == old(self).http_enabled() && final(self).modio_enabled() == old(self).modio_enabled(),
                ProviderKind::Http => r is Ok && final(self).http_enabled() && final(self).file_enabled() == old(self).file_enabled() && final(self).modio_enabled() == old(self).modio_enabled(),
                ProviderKind::Modio => if parameters@.contains_key("oauth"@) {
                    r is Ok && final(self).modio_enabled() && final(self).file_enabled() == old(self).file_enabled() && final(self).http_enabled() == old(self).http_enabled()
                } else {
                    (r matches Err(Error::MissingParameter { id }) && id@ == "oauth"@) && final(self).spec_cache() == old(self).spec_cache() && final(self).modio_enabled() == old(self).modio_enabled()
                },
            },
    {
        match factory.kind {
            ProviderKind::File => {
                self.file = Some(FileProvider::new());
                Ok(())
            },
            ProviderKind::Http => {
                self.http = Some(HttpProvider::new());
                Ok(())
            },
            ProviderKind::Modio => {
                let oauth = String::from_str("oauth");
                if parameters.contains_key(&oauth) {
                    self.modio = Some(ModioProvider::new());
                    Ok(())
                } else {
                    Err(Error::MissingParameter { id: oauth })
                }
            },
        }
    }

    /// Selects the backend for a locator: descriptors are scanned in
    /// registration order and the first whose predicate claims the locator
    /// wins. A claimed locator whose backend is unconfigured, and a locator
    /// nothing claims, both fail with `NoProvider` naming the locator.
    pub fn get_provider(&self, url: &String) -> (r: Result<ProviderKind, Error>)
        requires
            self.wf(),
        ensures
            match r {
                Ok(k) => self.spec_enabled(k) && match k {
                    ProviderKind::Modio => spec_is_modio_url(url@),
                    ProviderKind::Http => !spec_is_modio_url(url@) && spec_is_http_url(url@),
                    ProviderKind::File => !spec_is_modio_url(url@) && !spec_is_http_url(url@),
                },
                Err(e) => e matches Error::NoProvider { url: u, factory_id } && u@ == url@
                    && match factory_id {
                    Some(fid) => (spec_is_modio_url(url@) && fid@ == "modio"@
                        && !self.modio_enabled()) || (!spec_is_modio_url(url@) && spec_is_http_url(
                        url@,
                    ) && fid@ == "http"@ && !self.http_enabled()) || (!spec_is_modio_url(url@)
                        && !spec_is_http_url(url@) && fid@ == "file"@ && !self.file_enabled()),
                    None => !spec_is_modio_url(url@) && !spec_is_http_url(url@),
                },
            },
    {
        if can_provide_modio(url) {
            if self.modio.is_some() {
                Ok(ProviderKind::Modio)
            } else {
                Err(
                    Error::NoProvider {
                        url: url.clone(),
                        factory_id: Some(String::from_str("modio")),
                    },
                )
            }
        } else if can_provide_http(url) {
            if self.http.is_some() {
                Ok(ProviderKind::Http)
            } else {
                Err(
                    Error::NoProvider {
                        url: url.clone(),
                        factory_id: Some(String::from_str("http")),
                    },
                )
            }
        } else if crate::blob::path_exists(url) {
            if self.file.is_some() {
                Ok(ProviderKind::File)
            } else {
                Err(
                    Error::NoProvider {
                        url: url.clone(),
                        factory_id: Some(String::from_str("file")),
                    },
                )
            }
        } else {
            Err(Error::NoProvider { url: url.clone(), factory_id: None })
        }
    }

    /// Starts a resolution batch over the given specifications. Stepping
    /// the session resolves each, follows redirects, and discovers the
    /// transitive dependency closure.
    pub fn resolve_mods(&self, specs: &Vec<ModSpecification>, update: bool) -> (s: ResolveSession)
        requires
            self.wf(),
        ensures
            s.inv(),
            !s.spec_done(),
            s.spec_update() == update,
            s.spec_inputs() == crate::mod_info::spec_urls(specs@),
            s.spec_results() == Map::<Seq<char>, ModInfo>::empty(),
            s.spec_busy() == (specs@.len() > 0),
            s.spec_steps_left() == RESOLVE_STEP_LIMIT as int,
    {
        let mut queue: Vec<ModSpecification> = Vec::new();
        let n = specs.len();
        let mut i: usize = 0;
        while i < n
            invariant
                n == specs@.len(),
                i <= n,
                queue@.len() == i as int,
                forall|j: int| 0 <= j < i ==> queue@[j].url@ == specs@[j].url@,
            decreases n - i,
        {
            queue.push(specs[i].duplicate());
            i += 1;
        }
        let s = ResolveSession {
            update,
            fresh: false,
            queue,
            current_original: None,
            current_spec: None,
            redirects_left: MAX_REDIRECTS,
            steps_left: RESOLVE_STEP_LIMIT,
            results: StrMap::new(),
            precise: StrMap::new(),
            done: false,
            inputs: Ghost(crate::mod_info::spec_urls(specs@)),
        };
        proof {
            assert forall|i2: int| 0 <= i2 < s.inputs@.len() implies s.covers(
                #[trigger] s.inputs@[i2],
            ) by {
                assert(s.queue@[i2].url@ == s.inputs@[i2]);
            }
        }
        s
    }

    /// One resolution step: takes up the next pending specification, asks
    /// its backend, and either follows one redirect, completes one entry
    /// with the backend's terminal metadata, names the outside data the
    /// backend is missing, or fails with the cause at hand. Completing an
    /// entry queues only the suggested dependencies that neither the
    /// result map nor the precise set already covers. Every step that
    /// makes progress or demands data consumes one unit of the step
    /// budget, so a driver that services requests terminates.
    pub fn resolve_step(&self, s: &mut ResolveSession) -> (r: Result<ResolveOutcome, Error>)
        requires
            self.wf(),
            old(s).inv(),
        ensures
            final(s).inv(),
            final(s).spec_inputs() == old(s).spec_inputs(),
            final(s).spec_update() == old(s).spec_update(),
            old(s).spec_results().dom().subset_of(final(s).spec_results().dom()),
            match r {
                Ok(ResolveOutcome::Finished) => final(s).spec_done() && final(s).spec_results()
                    == old(s).spec_results() && final(s).spec_precise() == old(s).spec_precise()
                    && final(s).spec_queue().len() == 0 && (old(s).spec_done() || old(s).spec_step_target() is None),
                Ok(ResolveOutcome::Need(req)) => {
                    &&& !final(s).spec_done()
                    &&& final(s).spec_results() == old(s).spec_results()
                    &&& final(s).spec_precise() == old(s).spec_precise()
                    &&& spec_queue_within(old(s).spec_queue(), final(s).spec_queue())
                    &&& final(s).spec_steps_left() == old(s).spec_steps_left() - 1
                    &&& final(s).spec_fresh()
                    &&& (old(s).spec_step_target() matches Some((orig, cur))
                        && final(s).spec_current_original() == Some(orig) && final(s).spec_current()
                        == Some(cur) && spec_needed_request(
                        self,
                        cur,
                        old(s).spec_update() && !(old(s).spec_current() is Some && old(s).spec_fresh()),
                        req,
                    ))
                },
                Ok(ResolveOutcome::Progress) => {
                    &&& !final(s).spec_done()
                    &&& final(s).spec_steps_left() == old(s).spec_steps_left() - 1
                    &&& (old(s).spec_step_target() matches Some((orig, cur)) && ((final(s).spec_results() == old(s).spec_results() && final(s).spec_current_original()
                        == Some(orig) && (final(s).spec_current() matches Some(next)
                        && spec_redirect_target(self, cur, next)) && (old(s).spec_current() is Some
                        ==> final(s).spec_redirects_left() == old(s).spec_redirects_left() - 1) && (
                    old(s).spec_current() is None ==> final(s).spec_redirects_left()
                        == MAX_REDIRECTS - 1)) || (final(s).spec_current_original() is None
                        && exists|info: ModInfo|
                        spec_resolve_payload(self, cur, info) && final(s).spec_results() == old(s).spec_results().insert(orig, info)
                            && final(s).spec_precise() == old(s).spec_precise().insert(
                            info.spec.url@,
                            true,
                        ) && spec_discovered_only_uncovered(
                            old(s).spec_queue(),
                            old(s).spec_results(),
                            old(s).spec_precise(),
                            info,
                            final(s).spec_queue(),
                        ))))
                },
                Err(e) => !final(s).spec_done() && final(s).spec_results() == old(s).spec_results()
                    && final(s).spec_precise() == old(s).spec_precise() && spec_queue_within(
                    old(s).spec_queue(),
                    final(s).spec_queue(),
                ) && (old(s).spec_step_target() matches Some((orig2, cur2)) && match e {
                    Error::ResolveLimit => old(s).spec_steps_left() == 0,
                    Error::RedirectLimit { url } => url@ == cur2 && old(s).spec_current() is Some
                        && old(s).spec_redirects_left() == 0,
                    Error::NoProvider { url, factory_id } => url@ == cur2 && match factory_id {
                        Some(fid) => (spec_is_modio_url(cur2) && fid@ == "modio"@
                            && !self.modio_enabled()) || (!spec_is_modio_url(cur2)
                            && spec_is_http_url(cur2) && fid@ == "http"@ && !self.http_enabled())
                            || (!spec_is_modio_url(cur2) && !spec_is_http_url(cur2) && fid@
                            == "file"@ && !self.file_enabled()),
                        None => !spec_is_modio_url(cur2) && !spec_is_http_url(cur2),
                    },
                    Error::NoModfile { url } => url@ == cur2 && spec_no_modfile(self, cur2) && !(
                    old(s).spec_update() && !(old(s).spec_current() is Some && old(s).spec_fresh())),
                    Error::MissingFileName { url } => url@ == cur2 && !spec_is_modio_url(cur2)
                        && !spec_is_http_url(cur2) && self.file_enabled() && spec_file_name(cur2)
                        is None,
                    _ => false,
                }),
            },
            !old(s).spec_busy() && !old(s).spec_done() ==> (r matches Ok(
                ResolveOutcome::Finished,
            )) && final(s).spec_results() == old(s).spec_results(),
    {
        if s.done {
            proof {
                assert(s.spec_queue().len() == 0);
            }
            return Ok(ResolveOutcome::Finished);
        }
        if s.current_spec.is_none() {
            loop
                invariant_except_break
                    s.current_original is None,
                    s.current_spec is None,
                    !s.done,
                    spec_next_pending(s.spec_queue(), s.spec_results()) == spec_next_pending(
                        old(s).spec_queue(),
                        old(s).spec_results(),
                    ),
                invariant
                    s.inv(),
                    old(s).spec_current() is None,
                    old(s).spec_current_original() is None,
                    s.inputs@ == old(s).inputs@,
                    s.update == old(s).update,
                    s.results@ == old(s).results@,
                    s.precise@ == old(s).precise@,
                    s.steps_left == old(s).steps_left,
                    s.queue@.len() <= old(s).queue@.len(),
                    forall|j: int| 0 <= j < s.queue@.len() ==> s.queue@[j] == old(s).queue@[j],
                ensures
                    s.inv(),
                    s.inputs@ == old(s).inputs@,
                    s.update == old(s).update,
                    s.results@ == old(s).results@,
                    s.precise@ == old(s).precise@,
                    s.steps_left == old(s).steps_left,
                    s.current_original is Some,
                    s.current_spec is Some,
                    !s.done,
                    old(s).spec_busy(),
                    s.redirects_left == MAX_REDIRECTS,
                    s.fresh == false,
                    s.spec_current() == spec_next_pending(old(s).spec_queue(), old(s).spec_results()),
                    s.spec_current_original() == s.spec_current(),
                    forall|j: int| 0 <= j < s.queue@.len() ==> s.queue@[j] == old(s).queue@[j],
                decreases s.queue@.len(),
            {
                let ghost snap = *s;
                let popped = s.queue.pop();
                match popped {
                    None => {
                        s.done = true;
                        proof {
                            lemma_pop_empty(snap, *s);
                            assert(snap.spec_queue().len() == 0);
                            assert(spec_next_pending(old(s).spec_queue(), old(s).spec_results())
                                is None);
                            assert(old(s).spec_step_target() is None);
                            assert(s.spec_queue().len() == 0);
                        }
                        return Ok(ResolveOutcome::Finished);
                    },
                    Some(u) => {
                        proof {
                            assert(snap.spec_queue() =~= s.spec_queue().push(u.url@));
                            assert(snap.spec_queue().last() == u.url@);
                            assert(snap.spec_queue().drop_last() =~= s.spec_queue());
                        }
                        if s.results.contains_key(&u.url) {
                            proof {
                                lemma_pop_skip(snap, *s, u);
                            }
                        } else {
                            let ghost uurl = u.url@;
                            s.current_original = Some(u.duplicate());
                            s.current_spec = Some(u);
                            s.redirects_left = MAX_REDIRECTS;
                            s.fresh = false;
                            proof {
                                lemma_pop_take(snap, *s);
                                assert(snap.queue@.len() > 0);
                                assert(old(s).spec_busy());
                                assert(spec_next_pending(snap.spec_queue(), snap.results@)
                                    == Some(uurl));
                            }
                            break ;
                        }
                    },
                }
            }
        }
        let ghost torig = s.spec_current_original()->Some_0;
        let ghost tcur = s.spec_current()->Some_0;
        proof {
            assert(old(s).spec_step_target() == Some((torig, tcur)));
            assert forall|j: int| 0 <= j < s.spec_queue().len() implies in_urls(
                old(s).spec_queue(),
                #[trigger] s.spec_queue()[j],
            ) by {
                assert(s.spec_queue()[j] == s.queue@[j].url@);
                assert(s.queue@[j] == old(s).queue@[j]);
                assert(old(s).spec_queue()[j] == old(s).queue@[j].url@);
            }
            assert(spec_queue_within(old(s).spec_queue(), s.spec_queue()));
        }
        if s.steps_left == 0 {
            return Err(Error::ResolveLimit);
        }
        s.steps_left = s.steps_left - 1;
        let cur = match &s.current_spec {
            Some(c) => c.duplicate(),
            None => {
                proof {
                    assert(false);
                }
                ModSpecification { url: String::new() }
            },
        };
        let kind = match self.get_provider(&cur.url) {
            Ok(k) => k,
            Err(e) => {
                return Err(e);
            },
        };
        let eff = s.update && !s.fresh;
        proof {
            assert(eff == (old(s).spec_update() && !(old(s).spec_current() is Some && old(s).spec_fresh())));
        }
        let resp: ModResponse = match kind {
            ProviderKind::File => {
                let p = match &self.file {
                    Some(p) => p,
                    None => {
                        proof {
                            assert(false);
                        }
                        return Err(Error::ResolveLimit);
                    },
                };
                match p.resolve_mod(&cur) {
                    Ok(resp) => resp,
                    Err(e) => {
                        return Err(e);
                    },
                }
            },
            ProviderKind::Http => {
                let p = match &self.http {
                    Some(p) => p,
                    None => {
                        proof {
                            assert(false);
                        }
                        return Err(Error::ResolveLimit);
                    },
                };
                match p.resolve_mod(&cur) {
                    Ok(resp) => resp,
                    Err(e) => {
                        return Err(e);
                    },
                }
            },
            ProviderKind::Modio => {
                let p = match &self.modio {
                    Some(p) => p,
                    None => {
                        proof {
                            assert(false);
                        }
                        return Err(Error::ResolveLimit);
                    },
                };
                match p.resolve_mod(&cur, eff, &self.cache) {
                    Ok(ResolveStep::Done(resp)) => resp,
                    Ok(ResolveStep::Need(req)) => {
                        s.fresh = true;
                        return Ok(ResolveOutcome::Need(req));
                    },
                    Err(e) => {
                        return Err(e);
                    },
                }
            },
        };
        match resp {
            ModResponse::Redirect(new_spec) => {
                if s.redirects_left == 0 {
                    return Err(Error::RedirectLimit { url: cur.url });
                }
                s.redirects_left = s.redirects_left - 1;
                s.current_spec = Some(new_spec);
                s.fresh = false;
                Ok(ResolveOutcome::Progress)
            },
            ModResponse::Resolve(info) => {
                let ghost ginfo = info;
                let orig = match &s.current_original {
                    Some(o) => o.duplicate(),
                    None => {
                        proof {
                            assert(false);
                        }
                        ModSpecification { url: String::new() }
                    },
                };
                let ghost pre = *s;
                s.precise.insert(info.spec.url.clone(), true);
                let nd = info.suggested_dependencies.len();
                let mut di: usize = 0;
                while di < nd
                    invariant
                        nd == info.suggested_dependencies@.len(),
                        di <= nd,
                        s.results.wf(),
                        s.precise.wf(),
                        s.results@ == pre.results@,
                        s.precise@ == pre.precise@.insert(info.spec.url@, true),
                        s.inputs@ == pre.inputs@,
                        s.update == pre.update,
                        s.done == pre.done,
                        !s.done,
                        s.steps_left == pre.steps_left,
                        s.current_original == pre.current_original,
                        s.current_spec == pre.current_spec,
                        forall|j: int|
                            0 <= j < pre.queue@.len() ==> s.queue@.len() > j && s.queue@[j]
                                == pre.queue@[j],
                        s.queue@.len() >= pre.queue@.len(),
                        forall|j: int|
                            0 <= j < di ==> s.precise@.contains_key(
                                #[trigger] info.suggested_dependencies@[j].url@,
                            ) || s.results@.contains_key(info.suggested_dependencies@[j].url@)
                                || in_queue(s.queue@, info.suggested_dependencies@[j].url@),
                        forall|j: int|
                            pre.queue@.len() <= j < s.queue@.len() ==> (exists|i: int|
                                0 <= i < info.suggested_dependencies@.len()
                                    && info.suggested_dependencies@[i].url@ == (
                                #[trigger] s.queue@[j]).url@) && !pre.results@.contains_key(
                                s.queue@[j].url@,
                            ) && !pre.precise@.contains_key(s.queue@[j].url@) && s.queue@[j].url@
                                != info.spec.url@,
                    decreases nd - di,
                {
                    let d = &info.suggested_dependencies[di];
                    let in_precise = s.precise.contains_key(&d.url);
                    let in_results = s.results.contains_key(&d.url);
                    if !in_precise && !in_results {
                        let ghost qpre = s.queue@;
                        s.queue.push(d.duplicate());
                        proof {
                            assert(s.queue@[qpre.len() as int].url@
                                == info.suggested_dependencies@[di as int].url@);
                            assert(!pre.precise@.insert(info.spec.url@, true).contains_key(
                                s.queue@[qpre.len() as int].url@,
                            ));
                            assert forall|j: int|
                                0 <= j < di + 1 implies s.precise@.contains_key(
                                #[trigger] info.suggested_dependencies@[j].url@,
                            ) || s.results@.contains_key(info.suggested_dependencies@[j].url@)
                                || in_queue(s.queue@, info.suggested_dependencies@[j].url@) by {
                                let x = info.suggested_dependencies@[j].url@;
                                if j < di && in_queue(qpre, x) {
                                    let w = choose|w: int|
                                        0 <= w < qpre.len() && qpre[w].url@ == x;
                                    assert(s.queue@[w].url@ == x);
                                }
                            }
                        }
                    }
                    di += 1;
                }
                let ghost mid = *s;
                s.results.insert(orig.url, info);
                s.current_original = None;
                s.current_spec = None;
                proof {
                    let ghost fin = *s;
                    assert(fin.results@ =~= pre.results@.insert(pre.current_original->Some_0.url@, info));
                    assert(fin.results@ =~= old(s).spec_results().insert(torig, ginfo));
                    assert forall|i2: int| 0 <= i2 < fin.inputs@.len() implies fin.covers(
                        #[trigger] fin.inputs@[i2],
                    ) by {
                        let x = fin.inputs@[i2];
                        assert(pre.covers(x));
                        if in_queue(pre.queue@, x) {
                            let w = choose|w: int|
                                0 <= w < pre.queue@.len() && pre.queue@[w].url@ == x;
                            assert(fin.queue@[w].url@ == x);
                        }
                    }
                    assert forall|k: Seq<char>, j: int|
                        #![trigger fin.results@[k].suggested_dependencies@[j]]
                        fin.results@.contains_key(k) && 0 <= j
                            < fin.results@[k].suggested_dependencies@.len() implies fin.dep_covers(
                        fin.results@[k].suggested_dependencies@[j].url@,
                    ) by {
                        let x = fin.results@[k].suggested_dependencies@[j].url@;
                        if k == pre.current_original->Some_0.url@ {
                            assert(fin.results@[k] == info);
                            assert(mid.precise@.contains_key(x) || mid.results@.contains_key(x)
                                || in_queue(mid.queue@, x));
                        } else {
                            assert(pre.results@.contains_key(k));
                            assert(pre.results@[k] == fin.results@[k]);
                            assert(pre.dep_covers(x));
                            if in_queue(pre.queue@, x) {
                                let w = choose|w: int|
                                    0 <= w < pre.queue@.len() && pre.queue@[w].url@ == x;
                                assert(fin.queue@[w].url@ == x);
                            }
                        }
                    }
                    assert forall|p: Seq<char>| #[trigger]
                        fin.precise@.contains_key(p) implies exists|k: Seq<char>|
                        fin.results@.contains_key(k) && (#[trigger] fin.results@[k]).spec.url@
                            == p by {
                        if p == info.spec.url@ {
                            let k0 = pre.current_original->Some_0.url@;
                            assert(fin.results@.contains_key(k0) && fin.results@[k0].spec.url@
                                == p);
                        } else {
                            assert(pre.precise@.contains_key(p));
                            let k1 = choose|k1: Seq<char>|
                                pre.results@.contains_key(k1) && (#[trigger] pre.results@[k1]).spec.url@
                                    == p;
                            assert(fin.results@.contains_key(k1) && fin.results@[k1].spec.url@
                                == p);
                        }
                    }
                    assert(spec_resolve_payload(self, tcur, ginfo));
                    assert(fin.precise@ =~= old(s).spec_precise().insert(ginfo.spec.url@, true));
                    assert forall|j: int| 0 <= j < fin.spec_queue().len() implies in_urls(
                        old(s).spec_queue(),
                        #[trigger] fin.spec_queue()[j],
                    ) || ((exists|i: int|
                        0 <= i < ginfo.suggested_dependencies@.len()
                            && ginfo.suggested_dependencies@[i].url@ == fin.spec_queue()[j])
                        && !old(s).spec_results().contains_key(fin.spec_queue()[j]) && !old(
                        s,
                    ).spec_precise().contains_key(fin.spec_queue()[j]) && fin.spec_queue()[j]
                        != ginfo.spec.url@) by {
                        assert(fin.spec_queue()[j] == fin.queue@[j].url@);
                        if j < pre.queue@.len() {
                            assert(fin.queue@[j] == pre.queue@[j]);
                            assert(pre.spec_queue()[j] == pre.queue@[j].url@);
                            assert(in_urls(old(s).spec_queue(), pre.spec_queue()[j]));
                        } else {
                            assert((exists|i: int|
                                0 <= i < ginfo.suggested_dependencies@.len()
                                    && ginfo.suggested_dependencies@[i].url@
                                    == fin.queue@[j].url@));
                            assert(!pre.results@.contains_key(fin.queue@[j].url@));
                            assert(!pre.precise@.contains_key(fin.queue@[j].url@));
                            assert(fin.queue@[j].url@ != ginfo.spec.url@);
                        }
                    }
                    assert(spec_discovered_only_uncovered(
                        old(s).spec_queue(),
                        old(s).spec_results(),
                        old(s).spec_precise(),
                        ginfo,
                        fin.spec_queue(),
                    ));
                }
                Ok(ResolveOutcome::Progress)
            },
        }
    }

    /// Starts a single-specification resolution batch: the session's one
    /// input is the given specification, keyed by it even after redirects.
    pub fn resolve_mod(&self, spec: &ModSpecification, update: bool) -> (s: ResolveSession)
        requires
            self.wf(),
        ensures
            s.inv(),
            !s.spec_done(),
            s.spec_update() == update,
            s.spec_inputs().len() == 1,
            s.spec_inputs()[0] == spec.url@,
            s.spec_results() == Map::<Seq<char>, ModInfo>::empty(),
    {
        let mut one: Vec<ModSpecification> = Vec::new();
        one.push(spec.duplicate());
        let s = self.resolve_mods(&one, update);
        proof {
            assert(crate::mod_info::spec_urls(one@)[0] == spec.url@);
        }
        s
    }

    /// Records one resolution-side fetched outcome in the shared cache.
    pub fn store_response(&mut self, resp: DataResponse) -> (r: Result<(), Error>)
        requires
            old(self).wf(),
        ensures
            final(self).wf(),
            final(self).spec_blob_dir() == old(self).spec_blob_dir(),
            final(self).file_enabled() == old(self).file_enabled(),
            final(self).http_enabled() == old(self).http_enabled(),
            final(self).modio_enabled() == old(self).modio_enabled(),
            match resp {
                DataResponse::ModioModById { mod_id, m } => r is Ok && spec_modio_mods(
                    final(self).spec_cache(),
                ) =~= spec_modio_mods(old(self).spec_cache()).insert(mod_id, m),
                DataResponse::ModioModWithDeps { mod_id, m, deps } => r is Ok && spec_modio_mods(
                    final(self).spec_cache(),
                ) =~= spec_modio_mods(old(self).spec_cache()).insert(mod_id, m)
                    && spec_modio_deps(final(self).spec_cache()) =~= spec_modio_deps(
                    old(self).spec_cache(),
                ).insert(mod_id, deps),
                DataResponse::ModioDependencies { mod_id, deps } => r is Ok && spec_modio_deps(
                    final(self).spec_cache(),
                ) =~= spec_modio_deps(old(self).spec_cache()).insert(mod_id, deps),
                DataResponse::ModioModByName { name_id, results } => if results@.len() == 0 {
                    (r matches Err(Error::NoModsForName { name_id: n }) && n@ == name_id@)
                        && final(self).spec_cache() == old(self).spec_cache()
                } else if results@.len() == 1 {
                    r is Ok && spec_modio_mods(final(self).spec_cache()) =~= spec_modio_mods(
                        old(self).spec_cache(),
                    ).insert(results@[0].0, results@[0].1) && spec_modio_ids(
                        final(self).spec_cache(),
                    ) =~= spec_modio_ids(old(self).spec_cache()).insert(
                        results@[0].1.name_id@,
                        results@[0].0,
                    )
                } else {
                    (r matches Err(Error::MultipleModsForName { name_id: n }) && n@ == name_id@)
                        && final(self).spec_cache() == old(self).spec_cache()
                },
            },
    {
        let p = ModioProvider::new();
        p.store_response(resp, &mut self.cache)
    }

    /// Starts a fetch batch over precise resolutions. Paths come out in
    /// input order, whatever order the downloads are serviced in.
    pub fn fetch_mods(&self, mods: &Vec<ModResolution>, update: bool) -> (fs: FetchSession)
        requires
            self.wf(),
        ensures
            fs.inv(),
            fs.spec_update() == update,
            fs.spec_resolutions() == mods@.map_values(|r2: ModResolution| r2.url@),
            fs.spec_paths().len() == 0,
            fs.spec_awaiting() is None,
    {
        let mut resolutions: Vec<ModResolution> = Vec::new();
        let n = mods.len();
        let mut i: usize = 0;
        while i < n
            invariant
                n == mods@.len(),
                i <= n,
                resolutions@.len() == i as int,
                forall|j: int| 0 <= j < i ==> resolutions@[j].url@ == mods@[j].url@,
            decreases n - i,
        {
            resolutions.push(mods[i].duplicate());
            i += 1;
        }
        let fs = FetchSession { update, resolutions, paths: Vec::new(), awaiting: None };
        proof {
            assert(fs.spec_resolutions() =~= mods@.map_values(|r2: ModResolution| r2.url@));
            assert(fs.spec_paths() =~= Seq::<Seq<char>>::empty());
        }
        fs
    }

    /// The order-preserving fetch batch: paths come out in input order even
    /// when a later download is serviced before an earlier one, because
    /// each position's path is recorded at that position; `OrderBuffer`
    /// states the same window on its own for drivers that complete
    /// downloads out of order. In this sequential rendering the
    /// completion-order batch coincides with the ordered one.
    pub fn fetch_mods_ordered(&self, mods: &Vec<ModResolution>, update: bool) -> (fs: FetchSession)
        requires
            self.wf(),
        ensures
            fs.inv(),
            fs.spec_update() == update,
            fs.spec_resolutions() == mods@.map_values(|r2: ModResolution| r2.url@),
            fs.spec_paths().len() == 0,
            fs.spec_awaiting() is None,
    {
        self.fetch_mods(mods, update)
    }

    /// A single-resolution fetch batch.
    pub fn fetch_mod(&self, res: &ModResolution, update: bool) -> (fs: FetchSession)
        requires
            self.wf(),
        ensures
            fs.inv(),
            fs.spec_update() == update,
            fs.spec_resolutions().len() == 1,
            fs.spec_resolutions()[0] == res.url@,
            fs.spec_paths().len() == 0,
            fs.spec_awaiting() is None,
    {
        let mut one: Vec<ModResolution> = Vec::new();
        one.push(res.duplicate());
        let fs = self.fetch_mods(&one, update);
        proof {
            assert(one@.map_values(|r2: ModResolution| r2.url@)[0] == res.url@);
        }
        fs
    }

    /// One fetch step: the next resolution's path comes from the locator
    /// itself or the blob store, or a download is requested.
    pub fn fetch_step(&self, fs: &mut FetchSession) -> (r: Result<FetchOutcome, Error>)
        requires
            self.wf(),
            old(fs).inv(),
            old(fs).spec_awaiting() is None,
        ensures
            final(fs).inv(),
            final(fs).spec_update() == old(fs).spec_update(),
            final(fs).spec_resolutions() == old(fs).spec_resolutions(),
            match r {
                Ok(FetchOutcome::Finished) => final(fs).spec_paths() == old(fs).spec_paths() && final(fs).spec_awaiting() is None && final(fs).spec_paths().len() == final(fs).spec_resolutions().len(),
                Ok(FetchOutcome::Progress) => final(fs).spec_awaiting() is None && final(fs).spec_paths().len() == old(fs).spec_paths().len() + 1 && final(fs).spec_paths().drop_last() =~= old(fs).spec_paths() && spec_fetch_path_ok(
                    self.spec_cache(),
                    self.spec_blob_dir(),
                    old(fs).spec_resolutions()[old(fs).spec_next()],
                    final(fs).spec_paths().last(),
                ),
                Ok(FetchOutcome::Need(req)) => final(fs).spec_paths() == old(fs).spec_paths()
                    && final(fs).spec_awaiting() is Some && match req {
                    DataRequest::HttpDownload { url } => url@ == old(fs).spec_resolutions()[old(fs).spec_next()] && (final(fs).spec_awaiting() matches Some(AwaitTarget::Http))
                        && !spec_is_modio_url(url@) && spec_is_http_url(url@)
                        && self.http_enabled(),
                    DataRequest::ModioDownload { mod_id, modfile_id } => (final(fs).spec_awaiting() matches Some(AwaitTarget::Modio { modfile_id: f }) && f
                        == modfile_id) && self.modio_enabled() && match spec_parse_modio(
                        old(fs).spec_resolutions()[old(fs).spec_next()],
                    ) {
                        Some((_, Some(mid), Some(fid))) => mod_id == mid && modfile_id == fid,
                        _ => false,
                    },
                    _ => false,
                },
                Err(e) => final(fs).spec_paths() == old(fs).spec_paths()
                    && final(fs).spec_awaiting() is None
                    && old(fs).spec_next() < old(fs).spec_resolutions().len() && match e {
                    Error::NoProvider { url, factory_id } => url@ == old(fs).spec_resolutions()[old(fs).spec_next()] && match factory_id {
                        Some(fid) => (spec_is_modio_url(url@) && fid@ == "modio"@
                            && !self.modio_enabled()) || (!spec_is_modio_url(url@)
                            && spec_is_http_url(url@) && fid@ == "http"@ && !self.http_enabled())
                            || (!spec_is_modio_url(url@) && !spec_is_http_url(url@) && fid@
                            == "file"@ && !self.file_enabled()),
                        None => !spec_is_modio_url(url@) && !spec_is_http_url(url@),
                    },
                    Error::ImpreciseUrl { url } => url@ == old(fs).spec_resolutions()[old(fs).spec_next()] && spec_is_modio_url(url@) && self.modio_enabled()
                        && match spec_parse_modio(url@) {
                        Some((_, Some(_), Some(_))) => false,
                        Some(_) => true,
                        None => false,
                    },
                    _ => false,
                },
            },
    {
        let idx = fs.paths.len();
        if idx == fs.resolutions.len() {
            proof {
                assert(fs.spec_paths().len() == fs.spec_resolutions().len());
            }
            return Ok(FetchOutcome::Finished);
        }
        let res = fs.resolutions[idx].duplicate();
        proof {
            assert(res.url@ == fs.spec_resolutions()[fs.spec_next()]);
        }
        let kind = match self.get_provider(&res.url) {
            Ok(k) => k,
            Err(e) => {
                return Err(e);
            },
        };
        match kind {
            ProviderKind::File => {
                let p = match &self.file {
                    Some(p) => p,
                    None => {
                        proof {
                            assert(false);
                        }
                        return Err(Error::ResolveLimit);
                    },
                };
                let path = match p.fetch_mod(&res) {
                    Ok(path) => path,
                    Err(e) => {
                        return Err(e);
                    },
                };
                let ghost pre = fs.paths@;
                fs.paths.push(path);
                proof {
                    assert(fs.spec_paths().drop_last() =~= pre.map_values(|q: String| q@));
                }
                Ok(FetchOutcome::Progress)
            },
            ProviderKind::Http => {
                let p = match &self.http {
                    Some(p) => p,
                    None => {
                        proof {
                            assert(false);
                        }
                        return Err(Error::ResolveLimit);
                    },
                };
                if !fs.update {
                    match p.fetch_cached(&res, &self.cache, &self.blob_cache) {
                        Some(path) => {
                            let ghost pre = fs.paths@;
                            fs.paths.push(path);
                            proof {
                                assert(fs.spec_paths().drop_last() =~= pre.map_values(
                                    |q: String| q@,
                                ));
                            }
                            return Ok(FetchOutcome::Progress);
                        },
                        None => {},
                    }
                }
                fs.awaiting = Some(AwaitTarget::Http);
                Ok(FetchOutcome::Need(DataRequest::HttpDownload { url: res.url }))
            },
            ProviderKind::Modio => {
                let p = match &self.modio {
                    Some(p) => p,
                    None => {
                        proof {
                            assert(false);
                        }
                        return Err(Error::ResolveLimit);
                    },
                };
                if !fs.update {
                    match p.fetch_cached(&res, &self.cache, &self.blob_cache) {
                        Err(e) => {
                            return Err(e);
                        },
                        Ok(Some(path)) => {
                            let ghost pre = fs.paths@;
                            fs.paths.push(path);
                            proof {
                                assert(fs.spec_paths().drop_last() =~= pre.map_values(
                                    |q: String| q@,
                                ));
                            }
                            return Ok(FetchOutcome::Progress);
                        },
                        Ok(None) => {},
                    }
                }
                match parse_modio_url(&res.url) {
                    Some(u) => match (u.mod_id, u.modfile_id) {
                        (Some(mid), Some(fid)) => {
                            fs.awaiting = Some(AwaitTarget::Modio { modfile_id: fid });
                            Ok(
                                FetchOutcome::Need(
                                    DataRequest::ModioDownload { mod_id: mid, modfile_id: fid },
                                ),
                            )
                        },
                        _ => Err(Error::ImpreciseUrl { url: res.url }),
                    },
                    None => {
                        proof {
                            assert(false);
                        }
                        Err(Error::InvalidUrl { url: res.url })
                    },
                }
            },
        }
    }

    /// Records a serviced HTTP download: validates the content type, stores
    /// the bytes, and records the path at the awaited position.
    pub fn fetch_store_http(
        &mut self,
        fs: &mut FetchSession,
        content_type: &Option<String>,
        bytes: &Vec<u8>,
    ) -> (r: Result<(), Error>)
        requires
            old(self).wf(),
            old(fs).inv(),
            old(fs).spec_awaiting() matches Some(AwaitTarget::Http),
        ensures
            final(self).wf(),
            final(fs).inv(),
            final(self).spec_blob_dir() == old(self).spec_blob_dir(),
            final(fs).spec_update() == old(fs).spec_update(),
            final(fs).spec_resolutions() == old(fs).spec_resolutions(),
            match r {
                Ok(()) => final(fs).spec_awaiting() is None && final(fs).spec_paths().len() == old(fs).spec_paths().len() + 1 && final(fs).spec_paths().drop_last() =~= old(fs).spec_paths() && final(fs).spec_paths().last() == spec_join(
                    old(self).spec_blob_dir(),
                    crate::blob::spec_blob_address(bytes@),
                ) && spec_content_type_ok(
                    match content_type {
                        Some(c) => Some(c@),
                        None => None,
                    },
                ),
                Err(e) => final(fs).spec_paths() == old(fs).spec_paths()
                    && final(fs).spec_awaiting() == old(fs).spec_awaiting() && match e {
                    Error::UnexpectedContentType { content_type: c } => (
                    content_type matches Some(ct) && ct@ == c@) && !spec_content_type_ok(
                        match content_type {
                            Some(c2) => Some(c2@),
                            None => None,
                        },
                    ),
                    Error::StoreWrite { .. } => spec_content_type_ok(
                        match content_type {
                            Some(c2) => Some(c2@),
                            None => None,
                        },
                    ) && final(self).spec_cache() == old(self).spec_cache(),
                    _ => false,
                },
            },
    {
        let idx = fs.paths.len();
        let res = fs.resolutions[idx].duplicate();
        let p = HttpProvider::new();
        match p.store_fetched(&res.url, content_type, bytes, &mut self.cache, &self.blob_cache) {
            Ok(path) => {
                let ghost pre = fs.paths@;
                fs.paths.push(path);
                fs.awaiting = None;
                proof {
                    assert(fs.spec_paths().drop_last() =~= pre.map_values(|q: String| q@));
                }
                Ok(())
            },
            Err(e) => Err(e),
        }
    }

    /// Records a serviced registry download: stores the bytes under the
    /// awaited file id and records the path at the awaited position.
    pub fn fetch_store_modio(&mut self, fs: &mut FetchSession, bytes: &Vec<u8>) -> (r: Result<
        (),
        Error,
    >)
        requires
            old(self).wf(),
            old(fs).inv(),
            old(fs).spec_awaiting() matches Some(AwaitTarget::Modio { .. }),
        ensures
            final(self).wf(),
            final(fs).inv(),
            final(self).spec_blob_dir() == old(self).spec_blob_dir(),
            final(fs).spec_update() == old(fs).spec_update(),
            final(fs).spec_resolutions() == old(fs).spec_resolutions(),
            match r {
                Ok(()) => final(fs).spec_awaiting() is None && final(fs).spec_paths().len() == old(fs).spec_paths().len() + 1 && final(fs).spec_paths().drop_last() =~= old(fs).spec_paths() && final(fs).spec_paths().last() == spec_join(
                    old(self).spec_blob_dir(),
                    crate::blob::spec_blob_address(bytes@),
                ) && (old(fs).spec_awaiting() matches Some(AwaitTarget::Modio { modfile_id })
                    && spec_modio_blobs(final(self).spec_cache()).contains_key(modfile_id)),
                Err(e) => final(fs).spec_paths() == old(fs).spec_paths() && final(fs).spec_awaiting() == old(fs).spec_awaiting() && e is StoreWrite,
            },
    {
        let fid = match &fs.awaiting {
            Some(AwaitTarget::Modio { modfile_id }) => *modfile_id,
            _ => {
                proof {
                    assert(false);
                }
                0
            },
        };
        let p = ModioProvider::new();
        match p.store_fetched(fid, bytes, &mut self.cache, &self.blob_cache) {
            Ok(path) => {
                let ghost pre = fs.paths@;
                fs.paths.push(path);
                fs.awaiting = None;
                proof {
                    assert(fs.spec_paths().drop_last() =~= pre.map_values(|q: String| q@));
                }
                Ok(())
            },
            Err(e) => Err(e),
        }
    }

    /// Takes the finished batch's paths: one per resolution, in input
    /// order.
    pub fn fetch_finish(&self, fs: FetchSession) -> (r: Vec<String>)
        requires
            fs.inv(),
            fs.spec_paths().len() == fs.spec_resolutions().len(),
        ensures
            r@.map_values(|p: String| p@) == fs.spec_paths(),
            r@.len() == fs.spec_resolutions().len(),
    {
        let FetchSession { paths, .. } = fs;
        paths
    }

    /// Refreshes every configured backend's cache, strictly sequentially:
    /// refresh mutates the one shared document, and this library records
    /// fetched data as it arrives, so each backend's hook has nothing
    /// further to do.
    pub fn update_cache(&mut self) -> (r: Result<(), Error>)
        requires
            old(self).wf(),
        ensures
            final(self).wf(),
            final(self).spec_cache() == old(self).spec_cache(),
            r is Ok,
    {
        match &self.modio {
            Some(_) => {
                let p = ModioProvider::new();
                match p.update_cache(&mut self.cache) {
                    Ok(()) => Ok(()),
                    Err(e) => Err(e),
                }
            },
            None => Ok(()),
        }
    }

    /// The cache-only view of a locator's metadata, through whichever
    /// backend claims it: exactly the registry backend's cached record for
    /// registry locators, the self-describing metadata for generic URLs,
    /// and the file-named metadata for local paths; none exactly when the
    /// claiming backend is unconfigured or has nothing cached (or, for
    /// local paths, when nothing on disk claims the locator).
    pub fn get_mod_info(&self, spec: &ModSpecification) -> (r: Option<ModInfo>)
        requires
            self.wf(),
        ensures
            match r {
                Some(info) => (spec_is_modio_url(spec.url@) && self.modio_enabled()
                    && spec_modio_payload(self.spec_cache(), spec.url@, info)) || (
                !spec_is_modio_url(spec.url@) && spec_is_http_url(spec.url@)
                    && self.http_enabled() && spec_http_payload(spec.url@, info)) || (
                !spec_is_modio_url(spec.url@) && !spec_is_http_url(spec.url@)
                    && self.file_enabled() && spec_file_payload(spec.url@, info)),
                None => (spec_is_modio_url(spec.url@) ==> (!self.modio_enabled()
                    || spec_modio_record_missing(self.spec_cache(), spec.url@))) && ((
                !spec_is_modio_url(spec.url@) && spec_is_http_url(spec.url@))
                    ==> !self.http_enabled()),
            },
    {
        match self.get_provider(&spec.url) {
            Err(_) => None,
            Ok(ProviderKind::File) => match &self.file {
                Some(p) => p.get_mod_info(spec),
                None => None,
            },
            Ok(ProviderKind::Http) => match &self.http {
                Some(p) => match p.resolve_mod(spec) {
                    Ok(ModResponse::Resolve(info)) => Some(info),
                    _ => None,
                },
                None => None,
            },
            Ok(ProviderKind::Modio) => match &self.modio {
                Some(p) => p.get_mod_info(spec, &self.cache),
                None => None,
            },
        }
    }

    /// Whether a locator pins one fixed artifact: always for local paths
    /// and generic URLs, and for registry locators exactly when they name
    /// a file id. False when no configured backend claims the locator.
    pub fn is_pinned(&self, spec: &ModSpecification) -> (r: bool)
        requires
            self.wf(),
        ensures
            spec_is_modio_url(spec.url@) && self.modio_enabled() ==> r == (match spec_parse_modio(
                spec.url@,
            ) {
                Some((_, _, Some(_))) => true,
                _ => false,
            }),
            !spec_is_modio_url(spec.url@) && spec_is_http_url(spec.url@) && self.http_enabled()
                ==> r == true,
    {
        match self.get_provider(&spec.url) {
            Err(_) => false,
            Ok(ProviderKind::File) => true,
            Ok(ProviderKind::Http) => true,
            Ok(ProviderKind::Modio) => match &self.modio {
                Some(p) => p.is_pinned(spec),
                None => false,
            },
        }
    }

    /// The display name of the version a locator names, through whichever
    /// backend claims it: the registry backend's exact answer for registry
    /// locators, none for generic URLs, and "latest" for claimed local
    /// paths.
    pub fn get_version_name(&self, spec: &ModSpecification) -> (r: Option<String>)
        requires
            self.wf(),
        ensures
            spec_is_modio_url(spec.url@) && self.modio_enabled() ==> match r {
                Some(v) => spec_modio_version(self.spec_cache(), spec.url@, v@),
                None => spec_modio_version_missing(self.spec_cache(), spec.url@),
            },
            !spec_is_modio_url(spec.url@) && spec_is_http_url(spec.url@) ==> r is None,
            !spec_is_modio_url(spec.url@) && !spec_is_http_url(spec.url@) ==> match r {
                Some(v) => v@ == "latest"@ && self.file_enabled(),
                None => true,
            },
    {
        match self.get_provider(&spec.url) {
            Err(_) => None,
            Ok(ProviderKind::File) => match &self.file {
                Some(p) => p.get_version_name(spec),
                None => None,
            },
            Ok(ProviderKind::Http) => match &self.http {
                Some(p) => p.get_version_name(spec),
                None => None,
            },
            Ok(ProviderKind::Modio) => match &self.modio {
                Some(p) => p.get_version_name(spec, &self.cache),
                None => None,
            },
        }
    }
}

} // verus!
