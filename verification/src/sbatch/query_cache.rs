//! One listing for many askers.
//!
//! Handles that poll at the same time would each run the same command. A cache lets one
//! of them run it for all: a listing is handed out again until it is older than the
//! time to live, and a new listing is asked for in one batch with every job that was
//! asked for lately.
//!
//! A listing is handed out only for jobs that it was asked about. For any other job the
//! missing row would look as if the job had left.
//!
//! Points in time are nanoseconds on a clock of the caller's that does not run
//! backwards.
use crate::dispatcher::CaptureOutput;
use crate::sbatch::query_shape::QueryShape;
use vstd::prelude::*;

verus! {

/// What a command left behind, or why it could not be run.
pub type Fetched = Result<CaptureOutput, String>;

/// What a `Fetched` holds.
pub enum FetchedView {
    Output(CaptureOutput),
    Failure(Seq<char>),
}

/// What a `Fetched` holds.
pub open spec fn fetched_view(f: Fetched) -> FetchedView {
    match f {
        Ok(out) => FetchedView::Output(out),
        Err(msg) => FetchedView::Failure(msg@),
    }
}

/// A listing: when it was made, which jobs it was asked about, what came back.
pub struct CachedEntry {
    at: u64,
    keys: Vec<u64>,
    result: Fetched,
}

/// The cache for one form of command.
pub struct QueryCache {
    shape: QueryShape,
    ttl: u64,
    entry: Option<CachedEntry>,
    /// Jobs, in order, and when each was last asked for.
    recent: Vec<(u64, u64)>,
}

/// What a `CachedEntry` holds.
pub struct EntryView {
    pub at: u64,
    pub keys: Set<u64>,
    pub result: FetchedView,
}

/// What a `QueryCache` holds.
pub struct CacheView {
    pub shape: QueryShape,
    pub ttl: u64,
    pub entry: Option<EntryView>,
    pub recent: Map<u64, u64>,
}

/// What to do for a request.
pub enum CacheStep {
    /// Hand out what is cached.
    Replay(Fetched),
    /// Run the command for `batch`, and hand what came back to `store`.
    Fetch { batch: Vec<u64> },
}

/// Each number is less than the next.
pub open spec fn ascending(v: Seq<u64>) -> bool {
    forall|i: int, j: int| 0 <= i < j < v.len() ==> v[i] < v[j]
}

/// The jobs are in order.
spec fn in_order(v: Seq<(u64, u64)>) -> bool {
    forall|i: int, j: int| 0 <= i < j < v.len() ==> (#[trigger] v[i]).0 < (#[trigger] v[j]).0
}

/// When each job was last asked for.
spec fn stamps(v: Seq<(u64, u64)>) -> Map<u64, u64>
    decreases v.len(),
{
    if v.len() == 0 {
        Map::empty()
    } else {
        stamps(v.drop_last()).insert(v.last().0, v.last().1)
    }
}

impl View for CachedEntry {
    type V = EntryView;

    closed spec fn view(&self) -> EntryView {
        EntryView {
            at: self.at,
            keys: self.keys@.to_set(),
            result: fetched_view(self.result),
        }
    }
}

impl View for QueryCache {
    type V = CacheView;

    closed spec fn view(&self) -> CacheView {
        CacheView {
            shape: self.shape,
            ttl: self.ttl,
            entry: match self.entry {
                Some(e) => Some(e@),
                None => None,
            },
            recent: stamps(self.recent@),
        }
    }
}

/// How long ago `at` was.
pub open spec fn age(now: u64, at: u64) -> nat {
    if now > at {
        (now - at) as nat
    } else {
        0
    }
}

/// The registry with the requested jobs stamped.
pub open spec fn stamped(recent: Map<u64, u64>, requested: Seq<u64>, now: u64) -> Map<u64, u64>
    decreases requested.len(),
{
    if requested.len() == 0 {
        recent
    } else {
        stamped(recent, requested.drop_last(), now).insert(requested.last(), now)
    }
}

impl CacheView {
    /// How long a job stays in the batches after it was last asked for.
    pub open spec fn window(self) -> nat {
        if 2 * self.ttl > u64::MAX {
            u64::MAX as nat
        } else {
            (2 * self.ttl) as nat
        }
    }

    /// The cached listing is fresh and was asked about all the requested jobs.
    pub open spec fn serves(self, requested: Seq<u64>, now: u64) -> bool {
        match self.entry {
            Some(e) => age(now, e.at) < self.ttl && forall|i: int|
                0 <= i < requested.len() ==> e.keys.contains(#[trigger] requested[i]),
            None => false,
        }
    }

    /// What is handed out again: an error says that it is.
    pub open spec fn replayed(self) -> FetchedView {
        match self.entry->0.result {
            FetchedView::Output(out) => FetchedView::Output(out),
            FetchedView::Failure(msg) => FetchedView::Failure(
                msg + seq![' '] + self.shape.marker(),
            ),
        }
    }

    /// The jobs that were asked for lately, the requested ones included.
    pub open spec fn kept(self, requested: Seq<u64>, now: u64) -> Map<u64, u64> {
        let all = stamped(self.recent, requested, now);
        all.restrict(Set::new(|k: u64| all.dom().contains(k) && age(now, all[k]) < self.window()))
    }
}

/// How long ago `at` was.
fn elapsed(now: u64, at: u64) -> (r: u64)
    ensures
        r == age(now, at),
{
    if now > at {
        now - at
    } else {
        0
    }
}

/// In order, each job has one stamp.
proof fn lemma_stamps(v: Seq<(u64, u64)>)
    requires
        in_order(v),
    ensures
        forall|k: u64|
            stamps(v).dom().contains(k) <==> exists|i: int|
                0 <= i < v.len() && (#[trigger] v[i]).0 == k,
        forall|i: int| 0 <= i < v.len() ==> stamps(v)[(#[trigger] v[i]).0] == v[i].1,
    decreases v.len(),
{
    if v.len() > 0 {
        let rest = v.drop_last();
        assert forall|i: int, j: int| 0 <= i < j < rest.len() implies (#[trigger] rest[i]).0 < (
        #[trigger] rest[j]).0 by {
            assert(v[i].0 < v[j].0);
        }
        lemma_stamps(rest);
        assert forall|k: u64|
            stamps(v).dom().contains(k) <==> exists|i: int|
                0 <= i < v.len() && (#[trigger] v[i]).0 == k by {
            if stamps(v).dom().contains(k) {
                if k == v.last().0 {
                    assert(v[v.len() - 1].0 == k);
                } else {
                    assert(stamps(rest).dom().contains(k));
                    let i = choose|i: int| 0 <= i < rest.len() && (#[trigger] rest[i]).0 == k;
                    assert(v[i].0 == k);
                }
            }
            if exists|i: int| 0 <= i < v.len() && (#[trigger] v[i]).0 == k {
                let i = choose|i: int| 0 <= i < v.len() && (#[trigger] v[i]).0 == k;
                if i < rest.len() {
                    assert(rest[i].0 == k);
                }
            }
        }
        assert forall|i: int| 0 <= i < v.len() implies stamps(v)[(#[trigger] v[i]).0] == v[i].1 by {
            if i < rest.len() {
                assert(rest[i] == v[i]);
                assert(v[i].0 < v[v.len() - 1].0);
            }
        }
    }
}

/// Two registries in order with the same pairs have the same stamps.
proof fn lemma_stamps_are(v: Seq<(u64, u64)>, m: Map<u64, u64>)
    requires
        in_order(v),
        forall|k: u64| #[trigger]
            m.dom().contains(k) <==> exists|i: int| 0 <= i < v.len() && (#[trigger] v[i]).0 == k,
        forall|i: int| 0 <= i < v.len() ==> m[(#[trigger] v[i]).0] == v[i].1,
    ensures
        stamps(v) == m,
{
    lemma_stamps(v);
    assert forall|k: u64| stamps(v).dom().contains(k) <==> m.dom().contains(k) by {}
    assert forall|k: u64| #[trigger] stamps(v).dom().contains(k) implies stamps(v)[k] == m[k] by {
        let i = choose|i: int| 0 <= i < v.len() && (#[trigger] v[i]).0 == k;
        assert(stamps(v)[v[i].0] == v[i].1);
    }
    assert(stamps(v) =~= m);
}

/// Stamps one job.
fn stamp(recent: &mut Vec<(u64, u64)>, key: u64, now: u64)
    requires
        in_order(old(recent)@),
    ensures
        in_order(final(recent)@),
        stamps(final(recent)@) == stamps(old(recent)@).insert(key, now),
{
    let ghost was = recent@;
    let ghost want = stamps(was).insert(key, now);
    proof {
        lemma_stamps(was);
    }
    let mut at: usize = 0;
    while at < recent.len() && recent[at].0 < key
        invariant
            at <= recent.len(),
            recent@ == was,
            forall|i: int| 0 <= i < at ==> (#[trigger] was[i]).0 < key,
        decreases recent.len() - at,
    {
        at = at + 1;
    }
    if at < recent.len() && recent[at].0 == key {
        recent.set(at, (key, now));
        proof {
            assert forall|i: int, j: int| 0 <= i < j < recent@.len() implies (
            #[trigger] recent@[i]).0 < (#[trigger] recent@[j]).0 by {
                assert(was[i].0 < was[j].0);
            }
            assert forall|k: u64| #[trigger]
                want.dom().contains(k) <==> exists|i: int|
                    0 <= i < recent@.len() && (#[trigger] recent@[i]).0 == k by {
                if want.dom().contains(k) {
                    if k == key {
                        assert(recent@[at as int].0 == k);
                    } else {
                        let i = choose|i: int| 0 <= i < was.len() && (#[trigger] was[i]).0 == k;
                        assert(recent@[i].0 == k);
                    }
                }
                if exists|i: int| 0 <= i < recent@.len() && (#[trigger] recent@[i]).0 == k {
                    let i = choose|i: int|
                        0 <= i < recent@.len() && (#[trigger] recent@[i]).0 == k;
                    if i != at {
                        assert(was[i].0 == k);
                    }
                }
            }
            assert forall|i: int| 0 <= i < recent@.len() implies want[(#[trigger] recent@[i]).0]
                == recent@[i].1 by {
                if i != at {
                    assert(recent@[i] == was[i]);
                    assert(was[i].0 != key) by {
                        assert(was[at as int].0 == key);
                        if i < at {
                            assert(was[i].0 < was[at as int].0);
                        } else {
                            assert(was[at as int].0 < was[i].0);
                        }
                    }
                }
            }
            lemma_stamps_are(recent@, want);
        }
    } else {
        recent.insert(at, (key, now));
        proof {
            assert(recent@ == was.insert(at as int, (key, now)));
            assert forall|i: int| at <= i < was.len() implies key < (#[trigger] was[i]).0 by {
                assert(key < was[at as int].0);
                if i > at {
                    assert(was[at as int].0 < was[i].0);
                }
            }
            assert forall|i: int, j: int| 0 <= i < j < recent@.len() implies (
            #[trigger] recent@[i]).0 < (#[trigger] recent@[j]).0 by {
                if i < at && j < at {
                    assert(recent@[i] == was[i] && recent@[j] == was[j]);
                } else if i < at && j == at {
                    assert(recent@[i] == was[i]);
                } else if i < at {
                    assert(recent@[i] == was[i] && recent@[j] == was[j - 1]);
                } else if i == at {
                    assert(recent@[j] == was[j - 1]);
                } else {
                    assert(recent@[i] == was[i - 1] && recent@[j] == was[j - 1]);
                }
            }
            assert forall|k: u64| #[trigger]
                want.dom().contains(k) <==> exists|i: int|
                    0 <= i < recent@.len() && (#[trigger] recent@[i]).0 == k by {
                if want.dom().contains(k) {
                    if k == key {
                        assert(recent@[at as int].0 == k);
                    } else {
                        let i = choose|i: int| 0 <= i < was.len() && (#[trigger] was[i]).0 == k;
                        if i < at {
                            assert(recent@[i].0 == k);
                        } else {
                            assert(recent@[i + 1].0 == k);
                        }
                    }
                }
                if exists|i: int| 0 <= i < recent@.len() && (#[trigger] recent@[i]).0 == k {
                    let i = choose|i: int|
                        0 <= i < recent@.len() && (#[trigger] recent@[i]).0 == k;
                    if i < at {
                        assert(was[i].0 == k);
                    } else if i > at {
                        assert(was[i - 1].0 == k);
                    }
                }
            }
            assert forall|i: int| 0 <= i < recent@.len() implies want[(#[trigger] recent@[i]).0]
                == recent@[i].1 by {
                if i < at {
                    assert(recent@[i] == was[i]);
                } else if i > at {
                    assert(recent@[i] == was[i - 1]);
                }
            }
            lemma_stamps_are(recent@, want);
        }
    }
}

/// The jobs that were asked for within the window.
fn retain(recent: &Vec<(u64, u64)>, now: u64, window: u64) -> (r: Vec<(u64, u64)>)
    requires
        in_order(recent@),
    ensures
        in_order(r@),
        stamps(r@) == stamps(recent@).restrict(
            Set::new(
                |k: u64| stamps(recent@).dom().contains(k) && age(now, stamps(recent@)[k]) < window,
            ),
        ),
{
    let ghost all = recent@;
    let ghost m = stamps(all);
    let ghost want = m.restrict(
        Set::new(|k: u64| m.dom().contains(k) && age(now, m[k]) < window),
    );
    let mut out: Vec<(u64, u64)> = Vec::new();
    let mut i: usize = 0;
    proof {
        lemma_stamps(all);
    }
    while i < recent.len()
        invariant
            i <= recent.len(),
            all == recent@,
            in_order(all),
            in_order(out@),
            forall|j: int|
                0 <= j < out@.len() ==> all.take(i as int).contains(#[trigger] out@[j]) && age(
                    now,
                    out@[j].1,
                ) < window,
            forall|n: int|
                0 <= n < i && age(now, (#[trigger] all[n]).1) < window ==> out@.contains(all[n]),
        decreases recent.len() - i,
    {
        let e = recent[i];
        let ghost before = out@;
        if elapsed(now, e.1) < window {
            out.push(e);
            proof {
                assert forall|a: int, b: int| 0 <= a < b < out@.len() implies (
                #[trigger] out@[a]).0 < (#[trigger] out@[b]).0 by {
                    assert(out@[a] == before[a]);
                    if b < before.len() {
                        assert(out@[b] == before[b]);
                    } else {
                        assert(all.take(i as int).contains(before[a]));
                        let n = choose|n: int| 0 <= n < i && all.take(i as int)[n] == before[a];
                        assert(all[n].0 < all[i as int].0);
                    }
                }
                assert forall|n: int|
                    0 <= n < i + 1 && age(now, (#[trigger] all[n]).1) < window implies out@.contains(
                    all[n],
                ) by {
                    if n < i {
                        let j = choose|j: int| 0 <= j < before.len() && before[j] == all[n];
                        assert(out@[j] == all[n]);
                    } else {
                        assert(out@[before.len() as int] == all[n]);
                    }
                }
            }
        }
        proof {
            assert forall|j: int| 0 <= j < out@.len() implies all.take(i + 1).contains(
                #[trigger] out@[j],
            ) && age(now, out@[j].1) < window by {
                if j < before.len() {
                    assert(out@[j] == before[j]);
                    assert(all.take(i as int).contains(before[j]));
                    let n = choose|n: int| 0 <= n < i && all.take(i as int)[n] == before[j];
                    assert(all.take(i + 1)[n] == out@[j]);
                } else {
                    assert(all.take(i + 1)[i as int] == out@[j]);
                }
            }
        }
        i = i + 1;
    }
    assert(all.take(i as int) == all);
    proof {
        assert forall|k: u64| #[trigger]
            want.dom().contains(k) <==> exists|j: int|
                0 <= j < out@.len() && (#[trigger] out@[j]).0 == k by {
            if want.dom().contains(k) {
                assert(m.dom().contains(k));
                let n = choose|n: int| 0 <= n < all.len() && (#[trigger] all[n]).0 == k;
                assert(m[all[n].0] == all[n].1);
                assert(out@.contains(all[n]));
                let j = choose|j: int| 0 <= j < out@.len() && out@[j] == all[n];
                assert(out@[j].0 == k);
            }
            if exists|j: int| 0 <= j < out@.len() && (#[trigger] out@[j]).0 == k {
                let j = choose|j: int| 0 <= j < out@.len() && (#[trigger] out@[j]).0 == k;
                assert(all.contains(out@[j]));
                let n = choose|n: int| 0 <= n < all.len() && all[n] == out@[j];
                assert(m[all[n].0] == all[n].1);
                assert(m.dom().contains(k));
            }
        }
        assert forall|j: int| 0 <= j < out@.len() implies want[(#[trigger] out@[j]).0]
            == out@[j].1 by {
            assert(all.contains(out@[j]));
            let n = choose|n: int| 0 <= n < all.len() && all[n] == out@[j];
            assert(m[all[n].0] == all[n].1);
            assert(m.dom().contains(all[n].0));
        }
        lemma_stamps_are(out@, want);
    }
    out
}

/// Adds a number to an ascending list.
fn include_id(v: &mut Vec<u64>, x: u64)
    requires
        ascending(old(v)@),
    ensures
        ascending(final(v)@),
        final(v)@.to_set() =~= old(v)@.to_set().insert(x),
{
    let ghost was = v@;
    let mut at: usize = 0;
    while at < v.len() && v[at] < x
        invariant
            at <= v.len(),
            v@ == was,
            forall|i: int| 0 <= i < at ==> was[i] < x,
        decreases v.len() - at,
    {
        at = at + 1;
    }
    if at < v.len() && v[at] == x {
        assert(was.contains(x));
        return;
    }
    v.insert(at, x);
    proof {
        assert(v@ == was.insert(at as int, x));
        assert forall|i: int| at <= i < was.len() implies x < was[i] by {
            assert(x < was[at as int]);
            if i > at {
                assert(was[at as int] < was[i]);
            }
        }
        assert forall|i: int, j: int| 0 <= i < j < v@.len() implies v@[i] < v@[j] by {
            if i < at && j < at {
                assert(v@[i] == was[i] && v@[j] == was[j]);
            } else if i < at && j == at {
                assert(v@[i] == was[i]);
            } else if i < at {
                assert(v@[i] == was[i] && v@[j] == was[j - 1]);
            } else if i == at {
                assert(v@[j] == was[j - 1]);
            } else {
                assert(v@[i] == was[i - 1] && v@[j] == was[j - 1]);
            }
        }
        assert forall|k: u64| #[trigger]
            v@.to_set().contains(k) <==> was.to_set().insert(x).contains(k) by {
            if v@.contains(k) {
                let i = choose|i: int| 0 <= i < v@.len() && v@[i] == k;
                if i < at {
                    assert(was[i] == k);
                } else if i > at {
                    assert(was[i - 1] == k);
                }
            }
            if was.contains(k) {
                let i = choose|i: int| 0 <= i < was.len() && was[i] == k;
                if i < at {
                    assert(v@[i] == k);
                } else {
                    assert(v@[i + 1] == k);
                }
            }
            assert(v@[at as int] == x);
        }
    }
}

/// The jobs of a registry.
fn keys_of(recent: &Vec<(u64, u64)>) -> (r: Vec<u64>)
    requires
        in_order(recent@),
    ensures
        ascending(r@),
        r@.to_set() =~= stamps(recent@).dom(),
{
    let mut out: Vec<u64> = Vec::new();
    let mut i: usize = 0;
    while i < recent.len()
        invariant
            i <= recent.len(),
            out@.len() == i,
            forall|k: int| 0 <= k < i ==> out@[k] == (#[trigger] recent@[k]).0,
        decreases recent.len() - i,
    {
        out.push(recent[i].0);
        i = i + 1;
    }
    proof {
        lemma_stamps(recent@);
        assert forall|a: int, b: int| 0 <= a < b < out@.len() implies out@[a] < out@[b] by {
            assert(recent@[a].0 < recent@[b].0);
        }
        assert forall|k: u64| out@.contains(k) <==> stamps(recent@).dom().contains(k) by {
            if out@.contains(k) {
                let n = choose|n: int| 0 <= n < out@.len() && out@[n] == k;
                assert(recent@[n].0 == k);
            }
            if stamps(recent@).dom().contains(k) {
                let n = choose|n: int| 0 <= n < recent@.len() && (#[trigger] recent@[n]).0 == k;
                assert(out@[n] == k);
            }
        }
    }
    out
}

/// Whether the list holds the number.
fn holds(v: &Vec<u64>, x: u64) -> (r: bool)
    ensures
        r == v@.contains(x),
{
    let mut i: usize = 0;
    while i < v.len()
        invariant
            i <= v.len(),
            forall|k: int| 0 <= k < i ==> v@[k] != x,
        decreases v.len() - i,
    {
        if v[i] == x {
            assert(v@[i as int] == x);
            return true;
        }
        i = i + 1;
    }
    false
}

impl QueryCache {
    #[verifier::type_invariant]
    spec fn wf(self) -> bool {
        in_order(self.recent@)
    }

    /// An empty cache. With a time to live of zero nothing is handed out again, and each
    /// batch is just what is requested.
    pub fn new(shape: QueryShape, ttl: u64) -> (r: QueryCache)
        ensures
            r@ == (CacheView { shape, ttl, entry: None, recent: Map::empty() }),
    {
        QueryCache { shape, ttl, entry: None, recent: Vec::new() }
    }

    /// The form of command that is cached.
    pub fn shape(&self) -> (r: QueryShape)
        ensures
            r == self@.shape,
    {
        self.shape
    }

    /// Stamps the requested jobs, and either hands out the cached listing or says which
    /// batch to ask for.
    pub fn request(&mut self, requested: &[u64], now: u64) -> (r: CacheStep)
        ensures
            match r {
                CacheStep::Replay(f) => {
                    &&& old(self)@.serves(requested@, now)
                    &&& fetched_view(f) == old(self)@.replayed()
                    &&& final(self)@ == (CacheView {
                        recent: stamped(old(self)@.recent, requested@, now),
                        ..old(self)@
                    })
                },
                CacheStep::Fetch { batch } => {
                    &&& !old(self)@.serves(requested@, now)
                    &&& ascending(batch@)
                    &&& batch@.to_set() =~= old(self)@.kept(requested@, now).dom().union(
                        requested@.to_set(),
                    )
                    &&& final(self)@ == (CacheView {
                        recent: old(self)@.kept(requested@, now),
                        ..old(self)@
                    })
                },
            },
    {
        proof {
            use_type_invariant(&*self);
        }
        let ghost was = self@;
        let mut recent: Vec<(u64, u64)> = Vec::new();
        std::mem::swap(&mut recent, &mut self.recent);
        let ghost started = recent@;
        let mut i: usize = 0;
        let mut covered = true;
        while i < requested.len()
            invariant
                i <= requested.len(),
                in_order(recent@),
                stamps(started) == was.recent,
                stamps(recent@) == stamped(was.recent, requested@.take(i as int), now),
                was.entry == (match self.entry {
                    Some(e) => Some(e@),
                    None => None,
                }),
                covered == (match was.entry {
                    Some(e) => forall|k: int|
                        0 <= k < i ==> e.keys.contains(#[trigger] requested@[k]),
                    None => true,
                }),
            decreases requested.len() - i,
        {
            assert(requested@.take(i + 1).drop_last() == requested@.take(i as int));
            assert(requested@.take(i + 1).last() == requested@[i as int]);
            stamp(&mut recent, requested[i], now);
            if let Some(e) = &self.entry {
                if !holds(&e.keys, requested[i]) {
                    covered = false;
                }
            }
            i = i + 1;
        }
        assert(requested@.take(i as int) == requested@);
        let mut cached: Option<Fetched> = None;
        if let Some(e) = &self.entry {
            if elapsed(now, e.at) < self.ttl && covered {
                cached = Some(replay(&e.result, self.shape.replay_marker()));
            }
        }
        match cached {
            Some(f) => {
                self.recent = recent;
                CacheStep::Replay(f)
            },
            None => {
                let window: u64 = if self.ttl > u64::MAX / 2 {
                    u64::MAX
                } else {
                    2 * self.ttl
                };
                let kept = retain(&recent, now, window);
                let mut batch = keys_of(&kept);
                let ghost all = stamps(recent@);
                assert(stamps(kept@) == was.kept(requested@, now));
                let mut n: usize = 0;
                assert(batch@.to_set() =~= stamps(kept@).dom().union(
                    requested@.take(0).to_set(),
                ));
                while n < requested.len()
                    invariant
                        n <= requested.len(),
                        ascending(batch@),
                        batch@.to_set() =~= stamps(kept@).dom().union(
                            requested@.take(n as int).to_set(),
                        ),
                    decreases requested.len() - n,
                {
                    include_id(&mut batch, requested[n]);
                    proof {
                        let a = requested@.take(n as int);
                        let b = requested@.take(n + 1);
                        assert(b == a.push(requested@[n as int]));
                        assert forall|k: u64| b.contains(k) <==> a.contains(k) || k
                            == requested@[n as int] by {
                            if a.contains(k) {
                                let j = choose|j: int| 0 <= j < a.len() && a[j] == k;
                                assert(b[j] == k);
                            }
                            assert(b[n as int] == requested@[n as int]);
                        }
                        assert(b.to_set() =~= a.to_set().insert(requested@[n as int]));
                    }
                    n = n + 1;
                }
                assert(requested@.take(n as int) == requested@);
                self.recent = kept;
                CacheStep::Fetch { batch }
            },
        }
    }

    /// Keeps what came back for a batch.
    pub fn store(&mut self, batch: Vec<u64>, at: u64, result: Fetched)
        ensures
            final(self)@ == (CacheView {
                entry: Some(
                    EntryView { at, keys: batch@.to_set(), result: fetched_view(result) },
                ),
                ..old(self)@
            }),
    {
        proof {
            use_type_invariant(&*self);
        }
        self.entry = Some(CachedEntry { at, keys: batch, result });
    }
}

/// What is handed out again.
pub fn replay(result: &Fetched, marker: &str) -> (r: Fetched)
    ensures
        fetched_view(r) == match fetched_view(*result) {
            FetchedView::Output(out) => FetchedView::Output(out),
            FetchedView::Failure(msg) => FetchedView::Failure(msg + seq![' '] + marker@),
        },
{
    match result {
        Ok(out) => Ok(out.clone()),
        Err(msg) => {
            let mut s = msg.clone();
            s.push(' ');
            s.append(marker);
            assert(s@ == msg@ + seq![' '] + marker@);
            Err(s)
        },
    }
}

/// Stamping sets the requested jobs to now and leaves the others.
pub proof fn law_stamped(recent: Map<u64, u64>, requested: Seq<u64>, now: u64)
    ensures
        forall|k: u64| #[trigger]
            stamped(recent, requested, now).dom().contains(k) <==> recent.dom().contains(k)
                || requested.contains(k),
        forall|k: u64| #[trigger]
            stamped(recent, requested, now).dom().contains(k) ==> stamped(
                recent,
                requested,
                now,
            )[k] == (if requested.contains(k) {
                now
            } else {
                recent[k]
            }),
    decreases requested.len(),
{
    if requested.len() > 0 {
        let before = requested.drop_last();
        law_stamped(recent, before, now);
        assert forall|k: u64| requested.contains(k) <==> before.contains(k) || k
            == requested.last() by {
            if requested.contains(k) {
                let i = choose|i: int| 0 <= i < requested.len() && requested[i] == k;
                if i < before.len() {
                    assert(before[i] == k);
                }
            }
            if before.contains(k) {
                let i = choose|i: int| 0 <= i < before.len() && before[i] == k;
                assert(requested[i] == k);
            }
            assert(requested[requested.len() - 1] == requested.last());
        }
        let t = stamped(recent, requested, now);
        let b = stamped(recent, before, now);
        assert forall|k: u64| #[trigger] t.dom().contains(k) <==> recent.dom().contains(k)
            || requested.contains(k) by {
            assert(b.dom().contains(k) <==> recent.dom().contains(k) || before.contains(k));
        }
        assert forall|k: u64| #[trigger] t.dom().contains(k) implies t[k] == (
        if requested.contains(k) {
            now
        } else {
            recent[k]
        }) by {
            if k != requested.last() {
                assert(b.dom().contains(k));
            }
        }
    }
}

/// A listing is handed out only for jobs that it was asked about, and only while it is
/// younger than the time to live.
pub proof fn law_replay_only_for_asked_jobs(c: CacheView, requested: Seq<u64>, now: u64)
    requires
        c.serves(requested, now),
    ensures
        requested.to_set().subset_of(c.entry->0.keys),
        age(now, c.entry->0.at) < c.ttl,
{
}

/// With a time to live of zero nothing is handed out again, and no job but those
/// requested gets into a batch.
pub proof fn law_zero_ttl_disables(c: CacheView, requested: Seq<u64>, now: u64)
    requires
        c.ttl == 0,
    ensures
        !c.serves(requested, now),
        c.kept(requested, now).dom() =~= Set::<u64>::empty(),
{
}

/// A job stays in the batches for twice the time to live after it was last asked for,
/// and no longer.
pub proof fn law_jobs_age_out(c: CacheView, requested: Seq<u64>, now: u64, job: u64)
    requires
        !requested.contains(job),
    ensures
        c.kept(requested, now).dom().contains(job) <==> c.recent.dom().contains(job) && age(
            now,
            c.recent[job],
        ) < c.window(),
{
    law_stamped(c.recent, requested, now);
    assert(stamped(c.recent, requested, now).dom().contains(job) <==> c.recent.dom().contains(job));
}

/// A listing is handed out again exactly where there is one, it is younger than the time to
/// live, and it was asked about every job that is requested now. What is handed out is what
/// came back then; an error is marked as one that is handed out again.
pub proof fn law_when_a_listing_is_handed_out(
    cache: &mut QueryCache,
    requested: &[u64],
    now: u64,
    r: CacheStep,
)
    requires
        call_ensures(QueryCache::request, (cache, requested, now), r),
    ensures
        r is Replay <==> {
            &&& old(cache)@.entry matches Some(e)
            &&& now - e.at < old(cache)@.ttl
            &&& old(cache)@.ttl > 0
            &&& forall|k: u64| #[trigger] requested@.contains(k) ==> e.keys.contains(k)
        },
        r matches CacheStep::Replay(f) ==> match old(cache)@.entry->0.result {
            FetchedView::Output(out) => f matches Ok(o) && o == out,
            FetchedView::Failure(msg) => f matches Err(m) && m@ == msg + seq![' '] + (
            match old(cache)@.shape {
                QueryShape::QgroupListing => "(replayed from qgroup cache)"@,
                QueryShape::SqueueSummary => "(replayed from squeue batch cache)"@,
                QueryShape::SqueueTasks => "(replayed from squeue batch cache)"@,
                QueryShape::SacctExitCode => "(replayed from sacct batch cache)"@,
            }),
        },
        final(cache)@.entry == old(cache)@.entry,
        final(cache)@.ttl == old(cache)@.ttl,
        final(cache)@.shape == old(cache)@.shape,
{
    if let Some(e) = cache@.entry {
        if cache@.serves(requested@, now) {
            assert forall|k: u64| #[trigger] requested@.contains(k) implies e.keys.contains(k) by {
                let i = choose|i: int| 0 <= i < requested@.len() && requested@[i] == k;
                assert(e.keys.contains(requested@[i]));
            }
        } else if forall|k: u64| #[trigger] requested@.contains(k) ==> e.keys.contains(k) {
            assert forall|i: int| 0 <= i < requested@.len() implies e.keys.contains(
                #[trigger] requested@[i],
            ) by {
                assert(requested@.contains(requested@[i]));
            }
        }
    }
}

/// A new listing is asked for with the requested jobs and with every job that was last
/// asked for less than twice the time to live ago, each once and in order; and what was
/// requested counts as asked for now.
pub proof fn law_what_a_batch_holds(
    cache: &mut QueryCache,
    requested: &[u64],
    now: u64,
    r: CacheStep,
    job: u64,
)
    requires
        call_ensures(QueryCache::request, (cache, requested, now), r),
        2 * cache@.ttl <= u64::MAX,
    ensures
        ({
            let was = old(cache)@;
            let lately = was.recent.dom().contains(job) && now - was.recent[job] < 2 * was.ttl
                && was.ttl > 0;
            let asked = requested@.contains(job);
            &&& r matches CacheStep::Fetch { batch } ==> {
                &&& batch@.contains(job) <==> asked || lately
                &&& forall|i: int, j: int| 0 <= i < j < batch@.len() ==> batch@[i] < batch@[j]
                &&& final(cache)@.recent.dom().contains(job) <==> (asked && was.ttl > 0)
                    || (!asked && lately)
            }
            &&& r is Replay ==> (final(cache)@.recent.dom().contains(job) <==> asked
                || was.recent.dom().contains(job))
            &&& final(cache)@.recent.dom().contains(job) ==> final(cache)@.recent[job] == (
            if asked {
                now
            } else {
                was.recent[job]
            })
        }),
{
    let was = cache@;
    law_stamped(was.recent, requested@, now);
    let all = stamped(was.recent, requested@, now);
    assert(all.dom().contains(job) <==> was.recent.dom().contains(job) || requested@.contains(job));
    let kept = was.kept(requested@, now);
    assert(kept.dom().contains(job) <==> all.dom().contains(job) && age(now, all[job])
        < was.window());
    if let CacheStep::Fetch { batch } = r {
        assert(batch@.to_set().contains(job) <==> batch@.contains(job));
        assert(requested@.to_set().contains(job) <==> requested@.contains(job));
        assert(kept.dom().union(requested@.to_set()).contains(job) <==> batch@.to_set().contains(
            job,
        ));
    }
}

/// What is stored is the listing from then on, with its time and the jobs it was asked
/// about, whatever was there before; a new cache has none.
pub proof fn law_stored_listing_is_cached(
    cache: &mut QueryCache,
    batch: Vec<u64>,
    at: u64,
    result: Fetched,
    shape: QueryShape,
    ttl: u64,
    fresh: QueryCache,
    job: u64,
)
    requires
        call_ensures(QueryCache::store, (cache, batch, at, result), ()),
        call_ensures(QueryCache::new, (shape, ttl), fresh),
    ensures
        final(cache)@.entry matches Some(e) && e.at == at && (e.keys.contains(job)
            <==> batch@.contains(job)) && (result matches Ok(out) ==> e.result
            == FetchedView::Output(out)) && (result matches Err(m) ==> e.result
            == FetchedView::Failure(m@)),
        final(cache)@.recent == old(cache)@.recent,
        final(cache)@.ttl == old(cache)@.ttl,
        final(cache)@.shape == old(cache)@.shape,
        fresh@.entry is None,
        fresh@.ttl == ttl,
        fresh@.shape == shape,
        !fresh@.recent.dom().contains(job),
{
}

} // verus!
