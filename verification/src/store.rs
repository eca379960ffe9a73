//! Snapshots in a store: by which name, of which kind, and how they are found.
use crate::ident;
use crate::ident::uuid_string;
use crate::sbatch::handle::SbatchJobSnapshot;
use crate::text;
use std::collections::HashMap;
use vstd::prelude::*;

verus! {

/// A snapshot that can be stored.
pub trait JobSnapshot {
    /// Its primary key.
    spec fn key(&self) -> u128;

    /// Its job id, where it has one.
    spec fn job(&self) -> Option<u64>;

    /// The name of its kind.
    spec fn kind_name() -> Seq<char>;

    /// Its primary key.
    fn uuid(&self) -> (r: u128)
        ensures
            r == self.key(),
    ;

    /// Its job id, where it has one.
    fn jobid(&self) -> (r: Option<u64>)
        ensures
            r == self.job(),
    ;

    /// The name of its kind, as it is stored with it.
    fn kind() -> (r: &'static str)
        ensures
            r@ == Self::kind_name(),
    ;
}

impl JobSnapshot for SbatchJobSnapshot {
    open spec fn key(&self) -> u128 {
        self.uuid
    }

    open spec fn job(&self) -> Option<u64> {
        Some(self.jobid)
    }

    open spec fn kind_name() -> Seq<char> {
        "sbatch"@
    }

    fn uuid(&self) -> u128 {
        self.uuid
    }

    fn jobid(&self) -> Option<u64> {
        Some(self.jobid)
    }

    fn kind() -> &'static str {
        "sbatch"
    }
}

/// The snapshots of a job, in the order of the list.
pub open spec fn of_job<S: JobSnapshot>(all: Seq<S>, jobid: u64) -> Seq<S>
    decreases all.len(),
{
    if all.len() == 0 {
        Seq::empty()
    } else {
        let rest = of_job(all.skip(1), jobid);
        if all[0].job() == Some(jobid) {
            seq![all[0]] + rest
        } else {
            rest
        }
    }
}

/// All snapshots of a job: one for a job of its own, one for each task of an array.
pub fn find_all_by_jobid<S: JobSnapshot>(all: Vec<S>, jobid: u64) -> (r: Vec<S>)
    ensures
        r@ == of_job(all@, jobid),
{
    let ghost given = all@;
    let mut rest = all;
    let mut found: Vec<S> = Vec::new();
    assert(given.skip(given.len() as int) == Seq::<S>::empty());
    while rest.len() > 0
        invariant
            rest@ == given.take(rest@.len() as int),
            rest@.len() <= given.len(),
            found@ == of_job(given.skip(rest@.len() as int), jobid).reverse(),
        decreases rest.len(),
    {
        let ghost n = rest@.len() as int;
        match rest.pop() {
            Some(s) => {
                let ghost tail = given.skip(n - 1);
                assert(tail[0] == s);
                assert(tail.skip(1) == given.skip(n));
                let ghost before = found@;
                if let Some(j) = s.jobid() {
                    if j == jobid {
                        found.push(s);
                        assert(found@ == (seq![s] + of_job(given.skip(n), jobid)).reverse());
                    }
                }
            },
            None => {},
        }
    }
    assert(given.skip(0) == given);
    let ghost backwards = found@;
    let mut out: Vec<S> = Vec::new();
    while found.len() > 0
        invariant
            out@ + found@.reverse() == backwards.reverse(),
        decreases found.len(),
    {
        let ghost f = found@;
        let ghost o = out@;
        match found.pop() {
            Some(s) => {
                out.push(s);
                assert(f.reverse() == seq![s] + found@.reverse());
                assert(out@ + found@.reverse() == o + f.reverse());
            },
            None => {},
        }
    }
    assert(out@ == backwards.reverse());
    assert(backwards.reverse() == of_job(given, jobid));
    out
}

/// The first snapshot of a job.
pub fn find_by_jobid<S: JobSnapshot>(all: Vec<S>, jobid: u64) -> (r: Option<S>)
    ensures
        r == (if of_job(all@, jobid).len() > 0 {
            Some(of_job(all@, jobid)[0])
        } else {
            None
        }),
{
    let mut found = find_all_by_jobid(all, jobid);
    if found.len() > 0 {
        Some(found.remove(0))
    } else {
        None
    }
}

/// Snapshots in memory, by primary key.
pub struct InMemoryStateStore<S> {
    inner: HashMap<u128, S>,
}

impl<S> View for InMemoryStateStore<S> {
    type V = Map<u128, S>;

    closed spec fn view(&self) -> Map<u128, S> {
        self.inner@
    }
}

impl<S: JobSnapshot> InMemoryStateStore<S> {
    /// An empty store.
    pub fn new() -> (r: InMemoryStateStore<S>)
        ensures
            r@ == Map::<u128, S>::empty(),
    {
        InMemoryStateStore { inner: HashMap::new() }
    }

    /// How many snapshots there are.
    pub fn len(&self) -> (r: usize)
        ensures
            r == self@.dom().len(),
    {
        broadcast use vstd::std_specs::hash::group_hash_axioms;

        self.inner.len()
    }

    /// Whether there are none.
    pub fn is_empty(&self) -> (r: bool)
        ensures
            r == (self@.dom().len() == 0),
    {
        self.len() == 0
    }

    /// Stores a snapshot, in place of the one with the same key.
    pub fn save(&mut self, snap: S)
        ensures
            final(self)@ == old(self)@.insert(snap.key(), snap),
    {
        broadcast use vstd::std_specs::hash::group_hash_axioms;

        let key: u128 = snap.uuid();
        self.inner.insert(key, snap);
    }

    /// The snapshot with that key.
    pub fn load(&self, uuid: u128) -> (r: Option<&S>)
        ensures
            match r {
                Some(s) => self@.dom().contains(uuid) && *s == self@[uuid],
                None => !self@.dom().contains(uuid),
            },
    {
        broadcast use vstd::std_specs::hash::group_hash_axioms;

        self.inner.get(&uuid)
    }

    /// The list holds, for each of the keys, the snapshot stored under it, and the keys
    /// are those of the store, each once.
    pub open spec fn lists(self, keys: Seq<u128>, listed: Seq<&S>) -> bool {
        &&& keys.no_duplicates()
        &&& keys.to_set() == self@.dom()
        &&& listed.len() == keys.len()
        &&& forall|i: int| 0 <= i < keys.len() ==> *(#[trigger] listed[i]) == self@[keys[i]]
    }

    /// All snapshots, each once, in no particular order.
    pub fn list(&self) -> (r: Vec<&S>)
        ensures
            r@.len() == self@.dom().len(),
            exists|keys: Seq<u128>| #[trigger] self.lists(keys, r@),
    {
        broadcast use vstd::std_specs::hash::group_hash_axioms;

        let mut keys: Vec<u128> = Vec::new();
        for key in it: self.inner.keys()
            invariant
                it.seq().no_duplicates(),
                it.seq().unref().to_set() == self.inner@.dom(),
                it.seq().len() == self.inner@.dom().len(),
                keys@ == it.seq().unref().take(it.index() as int),
                it.index() == it.seq().len() ==> keys@ == it.seq().unref(),
        {
            keys.push(*key);
        }
        let mut out: Vec<&S> = Vec::new();
        let mut i: usize = 0;
        while i < keys.len()
            invariant
                i <= keys.len(),
                keys@.to_set() == self.inner@.dom(),
                out@.len() == i,
                forall|k: int| 0 <= k < i ==> *(#[trigger] out@[k]) == self.inner@[keys@[k]],
            decreases keys.len() - i,
        {
            broadcast use vstd::std_specs::hash::group_hash_axioms;

            let key: u128 = keys[i];
            assert(keys@.to_set().contains(key)) by {
                assert(keys@.contains(key));
            }
            if let Some(s) = self.inner.get(&key) {
                out.push(s);
            }
            i = i + 1;
        }
        assert(self.lists(keys@, out@));
        out
    }
}

/// The name of the file of a snapshot.
pub open spec fn file_name_text(uuid: u128) -> Seq<char> {
    ident::uuid_text(uuid) + ".json"@
}

/// The name of the file of a snapshot.
pub fn file_name(uuid: u128) -> (r: String)
    ensures
        r@ == file_name_text(uuid),
{
    let mut out = uuid_string(uuid);
    out.append(".json");
    out
}

/// What is to be done with stored bytes.
#[derive(Debug, Clone, PartialEq, Eq)]
pub enum KindCheck {
    /// They are no JSON, with the message of the reader.
    NotJson { message: String },
    /// They are a snapshot of another kind.
    Other { got: String },
    /// They are to be read as a snapshot of the kind in question.
    Matches,
}

/// What a `KindCheck` holds.
pub enum KindView {
    NotJson { message: Seq<char> },
    Other { got: Seq<char> },
    Matches,
}

impl View for KindCheck {
    type V = KindView;

    open spec fn view(&self) -> KindView {
        match *self {
            KindCheck::NotJson { message } => KindView::NotJson { message: message@ },
            KindCheck::Other { got } => KindView::Other { got: got@ },
            KindCheck::Matches => KindView::Matches,
        }
    }
}

/// What the JSON in `bytes` has under `name`: a message, where it is no JSON; else the
/// text of that member, where it is an object with a string there.
pub uninterp spec fn json_member(bytes: Seq<u8>, name: Seq<char>) -> Result<
    Option<Seq<char>>,
    Seq<char>,
>;

/// The text of a member, where there is one.
pub open spec fn member_text(m: Result<Option<String>, String>) -> Result<
    Option<Seq<char>>,
    Seq<char>,
> {
    match m {
        Ok(Some(s)) => Ok(Some(s@)),
        Ok(None) => Ok(None),
        Err(e) => Err(e@),
    }
}

/// `serde_json::from_slice` into a `serde_json::Value`, then its `get` and `as_str`: the
/// text of a string member of a JSON object. It depends on the bytes and the name alone.
#[verifier::external_body]
fn read_json_member(bytes: &[u8], name: &str) -> (r: Result<Option<String>, String>)
    ensures
        member_text(r) == json_member(bytes@, name@),
{
    match serde_json::from_slice::<serde_json::Value>(bytes) {
        Ok(value) => Ok(value.get(name).and_then(|v| v.as_str()).map(|s| s.to_owned())),
        Err(e) => Err(e.to_string()),
    }
}

/// What is to be done with stored bytes, given their member `kind`. Bytes without one
/// are taken for the kind in question, as older snapshots have none.
pub open spec fn kind_decision(
    kind: Result<Option<Seq<char>>, Seq<char>>,
    expected: Seq<char>,
) -> KindView {
    match kind {
        Err(message) => KindView::NotJson { message },
        Ok(None) => KindView::Matches,
        Ok(Some(k)) => if k == expected {
            KindView::Matches
        } else {
            KindView::Other { got: k }
        },
    }
}

/// What is to be done with stored bytes, given their member `kind`.
pub fn judge_kind(kind: Result<Option<String>, String>, expected: &str) -> (r: KindCheck)
    ensures
        r@ == kind_decision(member_text(kind), expected@),
{
    match kind {
        Err(message) => KindCheck::NotJson { message },
        Ok(None) => KindCheck::Matches,
        Ok(Some(k)) => if k == expected.to_owned() {
            KindCheck::Matches
        } else {
            KindCheck::Other { got: k }
        },
    }
}

/// What is to be done with stored bytes.
pub fn check_kind(bytes: &[u8], expected: &str) -> (r: KindCheck)
    ensures
        r@ == kind_decision(json_member(bytes@, "kind"@), expected@),
{
    judge_kind(read_json_member(bytes, "kind"), expected)
}

/// A name in the directory of a store that may be that of a snapshot: it has the
/// extension `json`.
pub open spec fn snapshot_name(name: Seq<char>) -> bool {
    name.len() > 5 && name.skip(name.len() - 5) == ".json"@
}

/// Whether a name in the directory of a store may be that of a snapshot.
pub fn is_snapshot_name(name: &str) -> (r: bool)
    ensures
        r == snapshot_name(name@),
{
    let cs = text::chars_of(name);
    if cs.len() <= 5 {
        return false;
    }
    let ext = vstd::slice::slice_subrange(cs.as_slice(), cs.len() - 5, cs.len());
    assert(ext@ == name@.skip(name@.len() - 5));
    text::is_str(ext, ".json")
}

/// The file of a snapshot is among those that may be snapshots.
pub proof fn law_file_names_are_listed(uuid: u128)
    ensures
        snapshot_name(file_name_text(uuid)),
{
    reveal_strlit(".json");
    let name = file_name_text(uuid);
    assert(name.skip(name.len() - 5) == ".json"@);
}

/// Snapshots of one kind are read, those of another are passed over, and those without a
/// kind are read.
pub proof fn law_kinds_share_a_directory(kind: Seq<char>, other: Seq<char>)
    requires
        kind != other,
    ensures
        kind_decision(Ok(Some(kind)), kind) == KindView::Matches,
        kind_decision(Ok(Some(other)), kind) == (KindView::Other { got: other }),
        kind_decision(Ok(None), kind) == KindView::Matches,
{
}

/// A snapshot that was stored is what is loaded under its key, and the others stay.
pub proof fn law_load_gives_back_save<S: JobSnapshot>(store: Map<u128, S>, snap: S)
    ensures
        store.insert(snap.key(), snap)[snap.key()] == snap,
        forall|k: u128|
            k != snap.key() && store.dom().contains(k) ==> #[trigger] store.insert(
                snap.key(),
                snap,
            )[k] == store[k],
        store.insert(snap.key(), snap).insert(snap.key(), snap) == store.insert(snap.key(), snap),
{
    assert(store.insert(snap.key(), snap).insert(snap.key(), snap) =~= store.insert(
        snap.key(),
        snap,
    ));
}

/// The snapshots of a job are those of the list with its id.
pub proof fn law_of_job<S: JobSnapshot>(all: Seq<S>, jobid: u64)
    ensures
        forall|i: int|
            0 <= i < of_job(all, jobid).len() ==> (#[trigger] of_job(all, jobid)[i]).job() == Some(
                jobid,
            ) && all.contains(of_job(all, jobid)[i]),
        forall|i: int|
            0 <= i < all.len() && (#[trigger] all[i]).job() == Some(jobid) ==> of_job(
                all,
                jobid,
            ).contains(all[i]),
    decreases all.len(),
{
    if all.len() > 0 {
        let rest = all.skip(1);
        law_of_job(rest, jobid);
        let found = of_job(all, jobid);
        let later = of_job(rest, jobid);
        let shift: int = if all[0].job() == Some(jobid) {
            1
        } else {
            0
        };
        assert forall|i: int| 0 <= i < found.len() implies (#[trigger] found[i]).job() == Some(
            jobid,
        ) && all.contains(found[i]) by {
            if i < shift {
                assert(found[i] == all[0]);
            } else {
                assert(found[i] == later[i - shift]);
                assert(rest.contains(later[i - shift]));
                let k = choose|k: int| 0 <= k < rest.len() && rest[k] == found[i];
                assert(all[k + 1] == found[i]);
            }
        }
        assert forall|i: int|
            0 <= i < all.len() && (#[trigger] all[i]).job() == Some(jobid) implies found.contains(
            all[i],
        ) by {
            if i == 0 {
                assert(found[0] == all[0]);
            } else {
                assert(rest[i - 1] == all[i]);
                assert(later.contains(all[i]));
                let k = choose|k: int| 0 <= k < later.len() && later[k] == all[i];
                assert(found[k + shift] == all[i]);
            }
        }
    }
}

/// What was saved is loaded under its key, in place of what was there before; every other
/// key loads what it did; and a new store loads nothing.
pub proof fn law_store_gives_back_what_was_saved<S: JobSnapshot>(
    store: &mut InMemoryStateStore<S>,
    snap: S,
    before: InMemoryStateStore<S>,
    after: InMemoryStateStore<S>,
    empty: InMemoryStateStore<S>,
    key: u128,
    was: Option<&S>,
    is: Option<&S>,
    none: Option<&S>,
)
    requires
        call_ensures(InMemoryStateStore::<S>::save, (store, snap), ()),
        before == *store,
        call_ensures(InMemoryStateStore::<S>::load, (&before, key), was),
        call_ensures(InMemoryStateStore::<S>::load, (&after, key), is),
        call_ensures(InMemoryStateStore::<S>::new, (), empty),
        call_ensures(InMemoryStateStore::<S>::load, (&empty, key), none),
    ensures
        after == *final(store) ==> {
            &&& key == snap.key() ==> is is Some && *is->0 == snap
            &&& key != snap.key() ==> (is is Some <==> was is Some) && (is is Some ==> *is->0
                == *was->0)
        },
        none is None,
{
}

/// A list holds every snapshot of the store once: as many as there are, and each that can
/// be loaded.
pub proof fn law_list_holds_what_can_be_loaded<S: JobSnapshot>(
    store: InMemoryStateStore<S>,
    all: Vec<&S>,
    n: usize,
    empty: bool,
    key: u128,
    loaded: Option<&S>,
)
    requires
        call_ensures(InMemoryStateStore::<S>::list, (&store,), all),
        call_ensures(InMemoryStateStore::<S>::len, (&store,), n),
        call_ensures(InMemoryStateStore::<S>::is_empty, (&store,), empty),
        call_ensures(InMemoryStateStore::<S>::load, (&store, key), loaded),
    ensures
        all@.len() == n,
        empty <==> n == 0,
        loaded is Some ==> exists|i: int| 0 <= i < all@.len() && *(#[trigger] all@[i]) == *loaded->0,
        exists|keys: Seq<u128>|
            {
                &&& #[trigger] keys.no_duplicates()
                &&& keys.len() == all@.len()
                &&& forall|i: int|
                    0 <= i < keys.len() ==> store@.dom().contains(#[trigger] keys[i]) && *all@[i]
                        == store@[keys[i]]
            },
{
    let keys = choose|keys: Seq<u128>| #[trigger] store.lists(keys, all@);
    assert(keys.no_duplicates());
    assert forall|i: int| 0 <= i < keys.len() implies store@.dom().contains(#[trigger] keys[i])
        && *all@[i] == store@[keys[i]] by {
        assert(keys.contains(keys[i]));
        assert(keys.to_set().contains(keys[i]));
    }
    if loaded is Some {
        assert(keys.to_set().contains(key));
        let i = choose|i: int| 0 <= i < keys.len() && keys[i] == key;
        assert(*all@[i] == store@[keys[i]]);
    }
}

/// The snapshots of a job are those of the list with its id, in the order of the list; the
/// first of them is what is found where one is looked for.
pub proof fn law_jobs_are_found<S: JobSnapshot>(
    all: Vec<S>,
    jobid: u64,
    found: Vec<S>,
    first: Option<S>,
)
    requires
        call_ensures(find_all_by_jobid::<S>, (all, jobid), found),
        call_ensures(find_by_jobid::<S>, (all, jobid), first),
    ensures
        found@ == all@.filter(|s: S| s.job() == Some(jobid)),
        first is Some <==> found@.len() > 0,
        first is Some ==> first->0 == found@[0],
{
    lemma_of_job_filter(all@, jobid);
}

/// The snapshots of a job are what a filter leaves.
proof fn lemma_of_job_filter<S: JobSnapshot>(all: Seq<S>, jobid: u64)
    ensures
        of_job(all, jobid) == all.filter(|s: S| s.job() == Some(jobid)),
    decreases all.len(),
{
    let f = |s: S| s.job() == Some(jobid);
    reveal(Seq::filter);
    if all.len() > 0 {
        let rest = all.skip(1);
        lemma_of_job_filter(rest, jobid);
        lemma_filter_front(all, f);
    }
}

/// Filtering from the front.
proof fn lemma_filter_front<S>(all: Seq<S>, f: spec_fn(S) -> bool)
    requires
        all.len() > 0,
    ensures
        all.filter(f) == (if f(all[0]) {
            seq![all[0]]
        } else {
            Seq::empty()
        }) + all.skip(1).filter(f),
    decreases all.len(),
{
    reveal(Seq::filter);
    let head: Seq<S> = if f(all[0]) {
        seq![all[0]]
    } else {
        Seq::empty()
    };
    let rest = all.skip(1);
    if all.len() == 1 {
        assert(all.drop_last() == Seq::<S>::empty());
        assert(all.drop_last().filter(f) == Seq::<S>::empty());
        assert(rest.filter(f) == Seq::<S>::empty());
        assert(all.filter(f) == head);
    } else {
        let before = all.drop_last();
        lemma_filter_front(before, f);
        assert(before.skip(1) == rest.drop_last());
        assert(all.last() == rest.last());
        assert(all.filter(f) == if f(all.last()) {
            before.filter(f).push(all.last())
        } else {
            before.filter(f)
        });
        assert(all.filter(f) == head + rest.filter(f));
    }
}

/// The key and the job of a snapshot are its own, and its kind is `sbatch`.
pub proof fn law_sbatch_snapshots(
    snap: SbatchJobSnapshot,
    uuid: u128,
    jobid: Option<u64>,
    kind: &'static str,
)
    requires
        call_ensures(<SbatchJobSnapshot as JobSnapshot>::uuid, (&snap,), uuid),
        call_ensures(<SbatchJobSnapshot as JobSnapshot>::jobid, (&snap,), jobid),
        call_ensures(<SbatchJobSnapshot as JobSnapshot>::kind, (), kind),
    ensures
        uuid == snap.uuid,
        jobid == Some(snap.jobid),
        kind@ == "sbatch"@,
        JobSnapshot::key(&snap) == uuid,
        JobSnapshot::job(&snap) == jobid,
{
}

/// A snapshot is stored under its key with `.json` behind it, and a name may be that of a
/// snapshot exactly where it ends so, with something before it.
pub proof fn law_snapshot_files(uuid: u128, r: String, name: &str, listed: bool)
    requires
        call_ensures(file_name, (uuid,), r),
        call_ensures(is_snapshot_name, (name,), listed),
    ensures
        r@ == ident::uuid_text(uuid) + seq!['.', 'j', 's', 'o', 'n'],
        listed <==> {
            let n = name@.len();
            &&& n > 5
            &&& name@[n - 5] == '.'
            &&& name@[n - 4] == 'j'
            &&& name@[n - 3] == 's'
            &&& name@[n - 2] == 'o'
            &&& name@[n - 1] == 'n'
        },
{
    reveal_strlit(".json");
    let ext = seq!['.', 'j', 's', 'o', 'n'];
    assert(".json"@ =~= ext);
    if name@.len() > 5 {
        let end = name@.skip(name@.len() - 5);
        assert(end[0] == name@[name@.len() - 5]);
        assert(end[1] == name@[name@.len() - 4]);
        assert(end[2] == name@[name@.len() - 3]);
        assert(end[3] == name@[name@.len() - 2]);
        assert(end[4] == name@[name@.len() - 1]);
        assert(listed <==> end =~= ext);
    }
}

/// Stored bytes are read exactly where they are JSON whose kind is the one in question or
/// is missing; the kind is the member `kind`.
pub proof fn law_kinds_are_checked(
    kind: Result<Option<String>, String>,
    expected: &str,
    r: KindCheck,
    bytes: &[u8],
    checked: KindCheck,
)
    requires
        call_ensures(judge_kind, (kind, expected), r),
        call_ensures(check_kind, (bytes, expected), checked),
    ensures
        kind matches Err(message) ==> (r matches KindCheck::NotJson { message: m } && m@
            == message@),
        kind matches Ok(None) ==> r is Matches,
        kind matches Ok(Some(k)) ==> if k@ == expected@ {
            r is Matches
        } else {
            r matches KindCheck::Other { got } && got@ == k@
        },
        member_text(kind) == json_member(bytes@, "kind"@) ==> checked@ == r@,
{
}

} // verus!
