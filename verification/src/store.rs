//! The list of all jobs, newest first.

use crate::job::{
    is_finished, is_over, step_keeps_request, stepped, Job, JobModel, JobUpdate,
};
use crate::text::{same, views};
use vstd::hash_map::StringHashMap;
use vstd::prelude::*;

verus! {

/// All jobs by their id, and the order in which they are listed.
pub struct JobStore {
    pub jobs: StringHashMap<Job>,
    /// The ids of the jobs, newest first.
    pub order: Vec<String>,
}

/// The model of `JobStore`.
#[verifier::ext_equal]
pub struct StoreModel {
    pub jobs: Map<Seq<char>, JobModel>,
    pub order: Seq<Seq<char>>,
}

impl View for JobStore {
    type V = StoreModel;

    open spec fn view(&self) -> StoreModel {
        StoreModel { jobs: self.jobs@.map_values(|j: Job| j@), order: views(self.order@) }
    }
}

/// The test for ids other than `id`.
pub open spec fn differs_from(id: Seq<char>) -> spec_fn(Seq<char>) -> bool {
    |other: Seq<char>| other != id
}

impl StoreModel {
    /// Every job is filed under its own id, and the listed ids are those of the filed jobs.
    pub open spec fn wf(self) -> bool {
        &&& forall|id: Seq<char>| #[trigger]
            self.jobs.contains_key(id) ==> self.jobs[id].id == id
        &&& forall|id: Seq<char>| #[trigger]
            self.jobs.contains_key(id) <==> self.order.contains(id)
    }

    /// The jobs in the order in which they are listed.
    pub open spec fn listed(self) -> Seq<JobModel> {
        self.order.map_values(|id: Seq<char>| self.jobs[id])
    }

    /// The store with a job put in front.
    pub open spec fn with(self, job: JobModel) -> StoreModel {
        StoreModel { jobs: self.jobs.insert(job.id, job), order: seq![job.id] + self.order }
    }

    /// The store without the job `id`.
    pub open spec fn without(self, id: Seq<char>) -> StoreModel {
        StoreModel {
            jobs: self.jobs.remove(id),
            order: self.order.filter(differs_from(id)),
        }
    }

    /// The store without the jobs that are over.
    pub open spec fn unfinished(self) -> StoreModel {
        StoreModel {
            jobs: self.jobs.restrict(
                Set::new(|id: Seq<char>| !is_over(self.jobs[id].status)),
            ),
            order: self.order.filter(|id: Seq<char>| !is_over(self.jobs[id].status)),
        }
    }

    /// The store after the job `id` took a step at the time `now`.
    pub open spec fn after(self, id: Seq<char>, update: JobUpdate, now: Seq<char>) -> StoreModel {
        if self.jobs.contains_key(id) {
            StoreModel {
                jobs: self.jobs.insert(
                    id,
                    JobModel { updated_at: now, ..stepped(self.jobs[id], update) },
                ),
                order: self.order,
            }
        } else {
            self
        }
    }
}

/// The store that is made of a saved list: only the jobs that are over are taken back.
pub open spec fn restored(list: Seq<JobModel>) -> StoreModel
    decreases list.len(),
{
    if list.len() == 0 {
        StoreModel { jobs: Map::empty(), order: Seq::empty() }
    } else {
        let before = restored(list.drop_last());
        let job = list.last();
        if is_over(job.status) {
            StoreModel { jobs: before.jobs.insert(job.id, job), order: before.order.push(job.id) }
        } else {
            before
        }
    }
}

/// The models of a list of jobs.
pub open spec fn models(list: Seq<Job>) -> Seq<JobModel> {
    list.map_values(|j: Job| j@)
}

proof fn lemma_contains_push(s: Seq<Seq<char>>, x: Seq<char>, y: Seq<char>)
    ensures
        s.push(x).contains(y) <==> (s.contains(y) || x == y),
{
    if s.contains(y) {
        let i = choose|i: int| 0 <= i < s.len() && s[i] == y;
        assert(s.push(x)[i] == y);
    }
    if x == y {
        assert(s.push(x)[s.len() as int] == y);
    }
}

proof fn lemma_contains_front(s: Seq<Seq<char>>, x: Seq<char>, y: Seq<char>)
    ensures
        (seq![x] + s).contains(y) <==> (s.contains(y) || x == y),
{
    let t = seq![x] + s;
    if s.contains(y) {
        let i = choose|i: int| 0 <= i < s.len() && s[i] == y;
        assert(t[i + 1] == y);
    }
    if x == y {
        assert(t[0] == y);
    }
    if t.contains(y) {
        let i = choose|i: int| 0 <= i < t.len() && t[i] == y;
        if i > 0 {
            assert(s[i - 1] == y);
        }
    }
}

proof fn lemma_filter_contains(s: Seq<Seq<char>>, p: spec_fn(Seq<char>) -> bool, x: Seq<char>)
    ensures
        s.filter(p).contains(x) <==> (s.contains(x) && p(x)),
    decreases s.len(),
{
    reveal(Seq::filter);
    if s.len() > 0 {
        lemma_filter_contains(s.drop_last(), p, x);
        assert(s =~= s.drop_last().push(s.last()));
        lemma_contains_push(s.drop_last(), s.last(), x);
        lemma_contains_push(s.drop_last().filter(p), s.last(), x);
    }
}

impl JobStore {
    /// The store that is made of a saved list.
    pub fn new(list: Vec<Job>) -> (r: JobStore)
        ensures
            r@ == restored(models(list@)),
            r@.wf(),
    {
        let mut r = JobStore { jobs: StringHashMap::new(), order: Vec::new() };
        let ghost m = models(list@);
        let mut i: usize = 0;
        assert(m.take(0) =~= Seq::<JobModel>::empty());
        assert(r@ =~= restored(m.take(0)));
        while i < list.len()
            invariant
                i <= list@.len(),
                m == models(list@),
                r@ == restored(m.take(i as int)),
                r@.wf(),
            decreases list.len() - i,
        {
            let ghost before = r@;
            let job = &list[i];
            proof {
                assert(m.take(i + 1).drop_last() =~= m.take(i as int));
                assert(m.take(i + 1).last() == job@);
            }
            if is_finished(job.status.as_str()) {
                let id = job.id.clone();
                r.order.push(id.clone());
                r.jobs.insert(id, job.clone());
                proof {
                    assert(r@.order =~= before.order.push(job@.id));
                    assert(r@.jobs =~= before.jobs.insert(job@.id, job@));
                    assert forall|x: Seq<char>| #[trigger]
                        r@.jobs.contains_key(x) <==> r@.order.contains(x) by {
                        lemma_contains_push(before.order, job@.id, x);
                        assert(before.jobs.contains_key(x) <==> before.order.contains(x));
                    }
                    assert forall|x: Seq<char>| #[trigger] r@.jobs.contains_key(x) implies
                        r@.jobs[x].id == x by {
                        if x != job@.id {
                            assert(before.jobs.contains_key(x));
                        }
                    }
                }
            }
            i = i + 1;
        }
        assert(m.take(list@.len() as int) =~= m);
        r
    }

    /// The jobs in the order in which they are listed.
    pub fn ordered(&self) -> (r: Vec<Job>)
        requires
            self@.wf(),
        ensures
            models(r@) == self@.listed(),
    {
        let mut r: Vec<Job> = Vec::new();
        let mut i: usize = 0;
        while i < self.order.len()
            invariant
                i <= self.order@.len(),
                self@.wf(),
                models(r@) == self@.listed().take(i as int),
            decreases self.order.len() - i,
        {
            let id = self.order[i].as_str();
            proof {
                assert(self@.order[i as int] == id@);
                assert(self@.order.contains(id@));
                assert(self@.jobs.contains_key(id@));
            }
            match self.jobs.get(id) {
                Some(job) => {
                    let copy = job.clone();
                    assert(self@.listed()[i as int] == copy@);
                    assert(models(r@.push(copy)) =~= models(r@).push(copy@));
                    assert(self@.listed().take(i + 1) =~= self@.listed().take(i as int).push(
                        copy@,
                    ));
                    r.push(copy);
                },
                None => {},
            }
            i = i + 1;
        }
        assert(self@.listed().take(self.order@.len() as int) =~= self@.listed());
        r
    }

    /// The job `id`.
    pub fn get(&self, id: &str) -> (r: Option<&Job>)
        ensures
            match r {
                Some(job) => self@.jobs.contains_key(id@) && job@ == self@.jobs[id@],
                None => !self@.jobs.contains_key(id@),
            },
    {
        self.jobs.get(id)
    }

    /// Puts a job in front of the list.
    pub fn insert(&mut self, job: Job)
        requires
            old(self)@.wf(),
        ensures
            final(self)@ == old(self)@.with(job@),
            final(self)@.wf(),
    {
        let ghost before = self@;
        let id = job.id.clone();
        self.order.insert(0, id.clone());
        self.jobs.insert(id, job);
        proof {
            assert(self@.order =~= seq![job@.id] + before.order);
            assert(self@.jobs =~= before.jobs.insert(job@.id, job@));
            assert forall|x: Seq<char>| #[trigger]
                self@.jobs.contains_key(x) <==> self@.order.contains(x) by {
                lemma_contains_front(before.order, job@.id, x);
                assert(before.jobs.contains_key(x) <==> before.order.contains(x));
            }
            assert forall|x: Seq<char>| #[trigger] self@.jobs.contains_key(x) implies
                self@.jobs[x].id == x by {
                if x != job@.id {
                    assert(before.jobs.contains_key(x));
                }
            }
        }
    }

    /// Takes the job `id` through a step at the time `now`, and returns it as it stands then;
    /// nothing happens where there is no such job.
    pub fn mutate(&mut self, id: &str, update: JobUpdate, now: String) -> (r: Option<Job>)
        requires
            old(self)@.wf(),
        ensures
            final(self)@ == old(self)@.after(id@, update, now@),
            final(self)@.wf(),
            match r {
                Some(job) => old(self)@.jobs.contains_key(id@) && job@ == final(self)@.jobs[id@],
                None => !old(self)@.jobs.contains_key(id@),
            },
    {
        let ghost before = self@;
        let mut job = match self.jobs.get(id) {
            Some(job) => job.clone(),
            None => {
                return None;
            },
        };
        job.apply(update);
        job.updated_at = now;
        self.jobs.insert(id.to_owned(), job.clone());
        proof {
            assert(before.jobs.contains_key(id@));
            assert(self@.jobs =~= before.jobs.insert(id@, job@));
            assert(self@.order =~= before.order);
            assert forall|x: Seq<char>| #[trigger]
                self@.jobs.contains_key(x) <==> self@.order.contains(x) by {
                assert(before.jobs.contains_key(x) <==> before.order.contains(x));
            }
            assert forall|x: Seq<char>| #[trigger] self@.jobs.contains_key(x) implies
                self@.jobs[x].id == x by {
                assert(before.jobs.contains_key(x));
            }
        }
        Some(job)
    }

    /// Keeps in the list the ids other than `id`.
    fn retain_others(&mut self, id: &str)
        ensures
            final(self).jobs == old(self).jobs,
            views(final(self).order@) == views(old(self).order@).filter(differs_from(id@)),
    {
        let ghost keep = differs_from(id@);
        let ghost v = views(self.order@);
        let mut kept: Vec<String> = Vec::new();
        let mut i: usize = 0;
        reveal(Seq::filter);
        assert(v.take(0).filter(keep) =~= Seq::<Seq<char>>::empty());
        while i < self.order.len()
            invariant
                i <= self.order@.len(),
                v == views(self.order@),
                keep == differs_from(id@),
                views(kept@) == v.take(i as int).filter(keep),
                self.jobs == old(self).jobs,
            decreases self.order.len() - i,
        {
            let other = &self.order[i];
            proof {
                reveal(Seq::filter);
                assert(v.take(i + 1).drop_last() =~= v.take(i as int));
                assert(v.take(i + 1).last() == other@);
            }
            if !same(other.as_str(), id) {
                let copy = other.clone();
                assert(views(kept@.push(copy)) =~= views(kept@).push(copy@));
                kept.push(copy);
            }
            i = i + 1;
        }
        assert(v.take(v.len() as int) =~= v);
        self.order = kept;
    }

    /// Takes the job `id` out of the store.
    pub fn remove(&mut self, id: &str)
        requires
            old(self)@.wf(),
        ensures
            final(self)@ == old(self)@.without(id@),
            final(self)@.wf(),
    {
        let ghost before = self@;
        self.jobs.remove(id);
        self.retain_others(id);
        proof {
            assert(self@.jobs =~= before.jobs.remove(id@));
            let keep = differs_from(id@);
            assert forall|x: Seq<char>| #[trigger]
                self@.jobs.contains_key(x) <==> self@.order.contains(x) by {
                lemma_filter_contains(before.order, keep, x);
                assert(before.jobs.contains_key(x) <==> before.order.contains(x));
            }
            assert forall|x: Seq<char>| #[trigger] self@.jobs.contains_key(x) implies
                self@.jobs[x].id == x by {
                assert(before.jobs.contains_key(x));
            }
        }
    }

    /// Takes the jobs that are over out of the store.
    pub fn clear(&mut self)
        requires
            old(self)@.wf(),
        ensures
            final(self)@ == old(self)@.unfinished(),
            final(self)@.wf(),
    {
        let ghost before = self@;
        let ghost keep = |id: Seq<char>| !is_over(before.jobs[id].status);
        let mut jobs: StringHashMap<Job> = StringHashMap::new();
        let mut order: Vec<String> = Vec::new();
        let ghost mut made: Map<Seq<char>, JobModel> = Map::empty();
        let mut i: usize = 0;
        proof {
            reveal(Seq::filter);
            assert(before.order.take(0).filter(keep) =~= Seq::<Seq<char>>::empty());
            assert(jobs@.map_values(|j: Job| j@) =~= made);
        }
        while i < self.order.len()
            invariant
                i <= self.order@.len(),
                self@ == before,
                before.wf(),
                keep == (|id: Seq<char>| !is_over(before.jobs[id].status)),
                views(order@) == before.order.take(i as int).filter(keep),
                made == jobs@.map_values(|j: Job| j@),
                forall|x: Seq<char>| #[trigger]
                    made.contains_key(x) <==> before.order.take(i as int).filter(keep).contains(x),
                forall|x: Seq<char>| #[trigger]
                    made.contains_key(x) ==> made[x] == before.jobs[x],
            decreases self.order.len() - i,
        {
            let id = &self.order[i];
            let ghost seen = before.order.take(i as int);
            proof {
                reveal(Seq::filter);
                assert(before.order[i as int] == id@);
                assert(before.order.contains(id@));
                assert(before.jobs.contains_key(id@));
                assert(before.order.take(i + 1).drop_last() =~= seen);
                assert(before.order.take(i + 1).last() == id@);
            }
            match self.jobs.get(id.as_str()) {
                Some(job) => {
                    assert(before.jobs[id@] == job@);
                    if !is_finished(job.status.as_str()) {
                        let copy = id.clone();
                        let ghost was = made;
                        jobs.insert(id.clone(), job.clone());
                        proof {
                            made = jobs@.map_values(|j: Job| j@);
                            assert(made =~= was.insert(id@, job@));
                            assert(views(order@.push(copy)) =~= views(order@).push(copy@));
                            assert forall|x: Seq<char>| #[trigger]
                                made.contains_key(x) <==> before.order.take(i + 1).filter(
                                    keep,
                                ).contains(x) by {
                                lemma_contains_push(seen.filter(keep), id@, x);
                                assert(was.contains_key(x) <==> seen.filter(keep).contains(x));
                            }
                            assert forall|x: Seq<char>| #[trigger] made.contains_key(x) implies
                                made[x] == before.jobs[x] by {
                                if x != id@ {
                                    assert(was.contains_key(x));
                                }
                            }
                        }
                        order.push(copy);
                    }
                },
                None => {},
            }
            i = i + 1;
        }
        self.jobs = jobs;
        self.order = order;
        proof {
            assert(before.order.take(before.order.len() as int) =~= before.order);
            assert forall|x: Seq<char>| #[trigger]
                made.contains_key(x) <==> before.jobs.contains_key(x) && keep(x) by {
                lemma_filter_contains(before.order, keep, x);
                assert(before.jobs.contains_key(x) <==> before.order.contains(x));
            }
            assert(self@.jobs =~= before.unfinished().jobs);
            assert forall|x: Seq<char>| #[trigger] self@.jobs.contains_key(x) implies
                self@.jobs[x].id == x by {
                assert(made.contains_key(x));
                assert(before.jobs.contains_key(x));
            }
        }
    }
}

/// The jobs in the order in which they are listed.
pub fn get_jobs(store: &JobStore) -> (r: Vec<Job>)
    requires
        store@.wf(),
    ensures
        models(r@) == store@.listed(),
{
    store.ordered()
}

/// Takes the job `id` out of the store, and returns the jobs that are left.
pub fn remove_job(store: &mut JobStore, id: &str) -> (r: Vec<Job>)
    requires
        old(store)@.wf(),
    ensures
        final(store)@ == old(store)@.without(id@),
        final(store)@.wf(),
        models(r@) == old(store)@.without(id@).listed(),
{
    store.remove(id);
    store.ordered()
}

/// Takes the jobs that are over out of the store, and returns the jobs that are left.
pub fn clear_finished(store: &mut JobStore) -> (r: Vec<Job>)
    requires
        old(store)@.wf(),
    ensures
        final(store)@ == old(store)@.unfinished(),
        final(store)@.wf(),
        models(r@) == old(store)@.unfinished().listed(),
{
    store.clear();
    store.ordered()
}

/// What saving the list and reading it back leaves of a store: exactly the jobs that are over,
/// in their order.
pub proof fn restart_keeps_finished(store: StoreModel)
    requires
        store.wf(),
    ensures
        restored(store.listed()).listed() == store.listed().filter(
            |j: JobModel| is_over(j.status),
        ),
{
    let over = |j: JobModel| is_over(j.status);
    lemma_restored_prefix(store, store.order.len() as int);
    assert(store.listed().take(store.order.len() as int) =~= store.listed());
}

proof fn lemma_restored_prefix(store: StoreModel, n: int)
    requires
        store.wf(),
        0 <= n <= store.order.len(),
    ensures
        ({
            let over = |j: JobModel| is_over(j.status);
            let r = restored(store.listed().take(n));
            &&& r.listed() == store.listed().take(n).filter(over)
            &&& forall|id: Seq<char>| #[trigger]
                r.jobs.contains_key(id) ==> r.jobs[id] == store.jobs[id]
            &&& forall|k: int|
                0 <= k < r.order.len() ==> r.jobs.contains_key(#[trigger] r.order[k])
        }),
    decreases n,
{
    reveal(Seq::filter);
    let over = |j: JobModel| is_over(j.status);
    let list = store.listed().take(n);
    let r = restored(list);
    if n == 0 {
        assert(list.filter(over) =~= Seq::<JobModel>::empty());
        assert(r.listed() =~= Seq::<JobModel>::empty());
    } else {
        lemma_restored_prefix(store, n - 1);
        assert(list.drop_last() =~= store.listed().take(n - 1));
        let before = restored(list.drop_last());
        let job = list.last();
        let id = store.order[n - 1];
        assert(store.order.contains(id));
        assert(store.jobs.contains_key(id));
        assert(job == store.jobs[id]);
        assert(job.id == id);
        if is_over(job.status) {
            assert(r.order == before.order.push(id));
            assert(r.jobs == before.jobs.insert(id, job));
            assert forall|k: int| 0 <= k < r.order.len() implies r.jobs.contains_key(
                #[trigger] r.order[k],
            ) by {
                if k < before.order.len() {
                    assert(before.jobs.contains_key(before.order[k]));
                }
            }
            assert(r.listed() =~= before.listed().push(job)) by {
                assert forall|k: int| 0 <= k < before.order.len() implies r.jobs[r.order[k]]
                    == before.jobs[#[trigger] before.order[k]] by {
                    assert(before.jobs.contains_key(before.order[k]));
                }
            }
        }
    }
}

/// A job that is put in is the first of the list, and the jobs listed before follow in their
/// order.
pub proof fn newest_comes_first(store: StoreModel, job: JobModel)
    requires
        store.wf(),
        !store.jobs.contains_key(job.id),
    ensures
        store.with(job).listed() == seq![job] + store.listed(),
{
    let r = store.with(job);
    assert forall|k: int| 0 <= k < store.order.len() implies r.jobs[#[trigger] store.order[k]]
        == store.jobs[store.order[k]] by {
        assert(store.order.contains(store.order[k]));
        assert(store.jobs.contains_key(store.order[k]));
    }
    assert(r.listed() =~= seq![job] + store.listed());
}

proof fn lemma_filter_listed(store: StoreModel, smaller: StoreModel, p: spec_fn(Seq<char>) -> bool, n: int)
    requires
        store.wf(),
        0 <= n <= store.order.len(),
        forall|id: Seq<char>|
            #![trigger smaller.jobs[id]]
            store.jobs.contains_key(id) && p(id) ==> smaller.jobs[id] == store.jobs[id],
    ensures
        store.order.take(n).filter(p).map_values(|id: Seq<char>| smaller.jobs[id])
            == store.listed().take(n).filter(|j: JobModel| p(j.id)),
    decreases n,
{
    reveal(Seq::filter);
    let q = |j: JobModel| p(j.id);
    let f = |id: Seq<char>| smaller.jobs[id];
    let a = store.order.take(n);
    let b = store.listed().take(n);
    if n == 0 {
        assert(a.filter(p).map_values(f) =~= Seq::<JobModel>::empty());
        assert(b.filter(q) =~= Seq::<JobModel>::empty());
    } else {
        lemma_filter_listed(store, smaller, p, n - 1);
        assert(a.drop_last() =~= store.order.take(n - 1));
        assert(b.drop_last() =~= store.listed().take(n - 1));
        let id = store.order[n - 1];
        assert(store.order.contains(id));
        assert(store.jobs.contains_key(id));
        if p(id) {
            assert(a.drop_last().filter(p).push(id).map_values(f) =~= a.drop_last().filter(
                p,
            ).map_values(f).push(f(id)));
        }
    }
}

/// Taking a job out leaves the other jobs in their order.
pub proof fn removal_keeps_others(store: StoreModel, id: Seq<char>)
    requires
        store.wf(),
    ensures
        store.without(id).listed() == store.listed().filter(|j: JobModel| j.id != id),
        !store.without(id).jobs.contains_key(id),
{
    let p = differs_from(id);
    let n = store.order.len() as int;
    lemma_filter_listed(store, store.without(id), p, n);
    assert(store.order.take(n) =~= store.order);
    assert(store.listed().take(n) =~= store.listed());
    let q = |j: JobModel| p(j.id);
    let q2 = |j: JobModel| j.id != id;
    lemma_same_filter(store.listed(), q, q2);
}

/// Clearing leaves exactly the jobs that are not over, in their order.
pub proof fn clearing_keeps_unfinished(store: StoreModel)
    requires
        store.wf(),
    ensures
        store.unfinished().listed() == store.listed().filter(|j: JobModel| !is_over(j.status)),
{
    let p = |id: Seq<char>| !is_over(store.jobs[id].status);
    let n = store.order.len() as int;
    let q = |j: JobModel| p(j.id);
    let q2 = |j: JobModel| !is_over(j.status);
    lemma_filter_listed(store, store.unfinished(), p, n);
    assert(store.order.take(n) =~= store.order);
    assert(store.listed().take(n) =~= store.listed());
    assert forall|k: int| 0 <= k < store.listed().len() implies q(#[trigger] store.listed()[k])
        == q2(store.listed()[k]) by {
        assert(store.order.contains(store.order[k]));
        assert(store.jobs.contains_key(store.order[k]));
    }
    lemma_same_filter(store.listed(), q, q2);
}

proof fn lemma_same_filter(s: Seq<JobModel>, p: spec_fn(JobModel) -> bool, q: spec_fn(JobModel) -> bool)
    requires
        forall|k: int| 0 <= k < s.len() ==> p(#[trigger] s[k]) == q(s[k]),
    ensures
        s.filter(p) == s.filter(q),
    decreases s.len(),
{
    reveal(Seq::filter);
    if s.len() > 0 {
        assert forall|k: int| 0 <= k < s.drop_last().len() implies p(#[trigger] s.drop_last()[k])
            == q(s.drop_last()[k]) by {
            assert(s.drop_last()[k] == s[k]);
        }
        lemma_same_filter(s.drop_last(), p, q);
        assert(p(s[s.len() - 1]) == q(s[s.len() - 1]));
    }
}

/// Whether a job with the given status completed, failed or was stopped.
pub open spec fn has_ended(job: JobModel) -> bool {
    job.status == "complete"@ || job.status == "error"@ || job.status == "canceled"@
}

proof fn lemma_restored(list: Seq<JobModel>)
    ensures
        restored(list).order == list.filter(|j: JobModel| has_ended(j)).map_values(
            |j: JobModel| j.id,
        ),
        forall|k: int|
            0 <= k < list.len() && has_ended(#[trigger] list[k]) ==> restored(
                list,
            ).jobs.contains_key(list[k].id),
        forall|id: Seq<char>| #[trigger]
            restored(list).jobs.contains_key(id) ==> list.contains(restored(list).jobs[id])
                && has_ended(restored(list).jobs[id]) && restored(list).jobs[id].id == id,
    decreases list.len(),
{
    reveal(Seq::filter);
    let ended = |j: JobModel| has_ended(j);
    let name = |j: JobModel| j.id;
    if list.len() == 0 {
        assert(list.filter(ended).map_values(name) =~= Seq::<Seq<char>>::empty());
    } else {
        let front = list.drop_last();
        let last = list.last();
        lemma_restored(front);
        let kept = front.filter(ended);
        if has_ended(last) {
            assert(kept.push(last).map_values(name) =~= kept.map_values(name).push(last.id));
        }
        assert forall|k: int| 0 <= k < list.len() && has_ended(#[trigger] list[k]) implies restored(
            list,
        ).jobs.contains_key(list[k].id) by {
            if k < front.len() {
                assert(front[k] == list[k]);
            }
        }
        assert(list[list.len() - 1] == last);
        assert forall|id: Seq<char>| #[trigger] restored(list).jobs.contains_key(id) implies
            list.contains(restored(list).jobs[id]) && has_ended(restored(list).jobs[id])
            && restored(list).jobs[id].id == id by {
            if !(has_ended(last) && id == last.id) {
                assert(restored(front).jobs.contains_key(id));
                let job = restored(front).jobs[id];
                let k = choose|k: int| 0 <= k < front.len() && front[k] == job;
                assert(list[k] == job);
            }
        }
    }
}

/// After a start, exactly the saved jobs that had ended are there again, each as it was saved, in
/// the order in which they were saved.
pub proof fn ended_jobs_come_back(list: Vec<Job>, store: JobStore, k: int)
    requires
        call_ensures(JobStore::new, (list,), store),
        0 <= k < list@.len(),
    ensures
        has_ended(list@[k]@) ==> store@.jobs.contains_key(list@[k].id@),
        store@.order == models(list@).filter(|j: JobModel| has_ended(j)).map_values(
            |j: JobModel| j.id,
        ),
        forall|id: Seq<char>| #[trigger]
            store@.jobs.contains_key(id) ==> models(list@).contains(store@.jobs[id]) && has_ended(
                store@.jobs[id],
            ) && store@.jobs[id].id == id,
{
    lemma_restored(models(list@));
    assert(models(list@)[k] == list@[k]@);
}

/// The list shows every job of the store once for each time that it is listed, in the order of the
/// list, as it stands in the store.
pub proof fn list_shows_the_store(store: JobStore, list: Vec<Job>, shown: Vec<Job>, k: int)
    requires
        store@.wf(),
        call_ensures(JobStore::ordered, (&store,), list),
        call_ensures(get_jobs, (&store,), shown),
        0 <= k < store@.order.len(),
    ensures
        list@.len() == store@.order.len() && shown@.len() == store@.order.len(),
        store@.jobs.contains_key(store@.order[k]),
        list@[k]@ == store@.jobs[store@.order[k]],
        shown@[k]@ == list@[k]@,
        list@[k].id@ == store@.order[k],
{
    assert(models(list@).len() == store@.listed().len());
    assert(models(shown@).len() == store@.listed().len());
    assert(models(list@)[k] == store@.listed()[k]);
    assert(models(shown@)[k] == store@.listed()[k]);
    assert(store@.order.contains(store@.order[k]));
}

/// A step reaches the job that it is for: that job stands then as the step makes it, changed now,
/// and is what is returned. Every other job, and the order of the list, stay as they are; without
/// such a job nothing happens.
pub proof fn step_reaches_one_job(
    store: &mut JobStore,
    id: &str,
    update: JobUpdate,
    now: String,
    r: Option<Job>,
    other: Seq<char>,
)
    requires
        old(store)@.wf(),
        call_ensures(JobStore::mutate, (store, id, update, now), r),
    ensures
        r is Some <==> old(store)@.jobs.contains_key(id@),
        r is None ==> final(store)@ == old(store)@,
        r matches Some(job) ==> {
            &&& final(store)@.jobs.contains_key(id@) && final(store)@.jobs[id@] == job@
            &&& job.id@ == id@
            &&& job.updated_at@ == now@
            &&& job.status@ == stepped(old(store)@.jobs[id@], update).status
            &&& job@ == (JobModel { updated_at: now@, ..stepped(old(store)@.jobs[id@], update) })
        },
        final(store)@.order == old(store)@.order,
        other != id@ ==> (final(store)@.jobs.contains_key(other) <==> old(
            store,
        )@.jobs.contains_key(other)) && (old(store)@.jobs.contains_key(other)
            ==> final(store)@.jobs[other] == old(store)@.jobs[other]),
{
    if r is Some {
        step_keeps_request(old(store)@.jobs[id@], update);
    }
}

/// What is left after a job was removed is the list without it, and after the finished ones were
/// cleared the list without those, in their order; that is what is returned, too.
pub proof fn what_is_left_is_listed(
    store: &mut JobStore,
    id: &str,
    without_one: Vec<Job>,
    without_finished: Vec<Job>,
)
    requires
        old(store)@.wf(),
    ensures
        call_ensures(remove_job, (store, id), without_one) ==> {
            &&& models(without_one@) == old(store)@.listed().filter(|j: JobModel| j.id != id@)
            &&& final(store)@.listed() == models(without_one@)
            &&& !final(store)@.jobs.contains_key(id@)
        },
        call_ensures(clear_finished, (store,), without_finished) ==> {
            &&& models(without_finished@) == old(store)@.listed().filter(
                |j: JobModel| !has_ended(j),
            )
            &&& final(store)@.listed() == models(without_finished@)
        },
{
    removal_keeps_others(old(store)@, id@);
    clearing_keeps_unfinished(old(store)@);
    lemma_same_filter(
        old(store)@.listed(),
        |j: JobModel| !is_over(j.status),
        |j: JobModel| !has_ended(j),
    );
}

/// A job that is put in or looked for is found under its own id, and a job that was removed is not.
pub proof fn jobs_are_found_by_id(store: JobStore, id: &str, found: Option<&Job>)
    requires
        store@.wf(),
        call_ensures(JobStore::get, (&store, id), found),
    ensures
        found is Some <==> store@.order.contains(id@),
        found matches Some(job) ==> job.id@ == id@ && job@ == store@.jobs[id@],
{
}

/// A job that is put in stands first in the list, is found under its id, and takes the place of no
/// job with another id.
pub proof fn new_job_is_listed_first(store: &mut JobStore, job: Job, other: Seq<char>)
    requires
        old(store)@.wf(),
        call_ensures(JobStore::insert, (store, job), ()),
    ensures
        final(store)@.order == seq![job.id@] + old(store)@.order,
        final(store)@.jobs.contains_key(job.id@) && final(store)@.jobs[job.id@] == job@,
        other != job.id@ ==> (final(store)@.jobs.contains_key(other) <==> old(
            store,
        )@.jobs.contains_key(other)) && (old(store)@.jobs.contains_key(other)
            ==> final(store)@.jobs[other] == old(store)@.jobs[other]),
{
}

/// A removed job is not found any more, and a cleared store holds exactly the jobs that had not
/// ended; every job that is left is as it was.
pub proof fn removed_jobs_are_gone(store: &mut JobStore, id: &str, other: Seq<char>)
    requires
        old(store)@.wf(),
    ensures
        call_ensures(JobStore::remove, (store, id), ()) ==> {
            &&& !final(store)@.jobs.contains_key(id@)
            &&& other != id@ ==> (final(store)@.jobs.contains_key(other) <==> old(
                store,
            )@.jobs.contains_key(other)) && (old(store)@.jobs.contains_key(other)
                ==> final(store)@.jobs[other] == old(store)@.jobs[other])
        },
        call_ensures(JobStore::clear, (store,), ()) ==> {
            &&& final(store)@.jobs.contains_key(other) <==> old(store)@.jobs.contains_key(other)
                && !has_ended(old(store)@.jobs[other])
            &&& final(store)@.jobs.contains_key(other) ==> final(store)@.jobs[other] == old(
                store,
            )@.jobs[other]
        },
{
}

} // verus!
