//! Environment variables of a job.
use crate::text;
use crate::text::lemmas;
use crate::text::model;
use vstd::prelude::*;

verus! {

/// Values by name, in the order of the names.
#[derive(Debug, PartialEq, Eq)]
pub struct EnvMap {
    entries: Vec<(String, String)>,
}

/// A name and its value.
pub type Entry = (Seq<char>, Seq<char>);

/// Each name comes before the next.
pub open spec fn sorted(entries: Seq<Entry>) -> bool {
    forall|i: int, j: int|
        0 <= i < j < entries.len() ==> before(#[trigger] entries[i].0, #[trigger] entries[j].0)
}

/// `a` comes before `b` in the order of the code points.
pub open spec fn before(a: Seq<char>, b: Seq<char>) -> bool {
    model::le(a, b) && a != b
}

/// The value of each name.
pub open spec fn values(entries: Seq<Entry>) -> Map<Seq<char>, Seq<char>>
    decreases entries.len(),
{
    if entries.len() == 0 {
        Map::empty()
    } else {
        values(entries.drop_last()).insert(entries.last().0, entries.last().1)
    }
}

/// The names and values as text.
pub open spec fn entry_views(v: Seq<(String, String)>) -> Seq<Entry> {
    v.map_values(|e: (String, String)| (e.0@, e.1@))
}

impl View for EnvMap {
    type V = Seq<Entry>;

    closed spec fn view(&self) -> Seq<Entry> {
        entry_views(self.entries@)
    }
}

impl EnvMap {
    #[verifier::type_invariant]
    closed spec fn in_order(self) -> bool {
        sorted(entry_views(self.entries@))
    }

    /// No variables.
    pub fn new() -> (r: EnvMap)
        ensures
            r@ == Seq::<Entry>::empty(),
    {
        let entries: Vec<(String, String)> = Vec::new();
        assert(entry_views(entries@) == Seq::<Entry>::empty());
        EnvMap { entries }
    }

    /// How many variables there are.
    pub fn len(&self) -> (r: usize)
        ensures
            r == self@.len(),
    {
        self.entries.len()
    }

    /// Whether there are none.
    pub fn is_empty(&self) -> (r: bool)
        ensures
            r == (self@.len() == 0),
    {
        self.entries.len() == 0
    }

    /// The variable at a position in the order of the names.
    pub fn entry(&self, i: usize) -> (r: (&str, &str))
        requires
            i < self@.len(),
        ensures
            (r.0@, r.1@) == self@[i as int],
            sorted(self@),
    {
        proof {
            use_type_invariant(self);
        }
        (self.entries[i].0.as_str(), self.entries[i].1.as_str())
    }

    /// Where `key` stands or would stand, and whether it is there.
    fn position(&self, key: &str) -> (r: (usize, bool))
        ensures
            r.0 <= self@.len(),
            forall|i: int| 0 <= i < r.0 ==> before(#[trigger] self@[i].0, key@),
            r.1 ==> r.0 < self@.len() && self@[r.0 as int].0 == key@,
            !r.1 ==> forall|i: int|
                r.0 <= i < self@.len() ==> before(key@, #[trigger] self@[i].0),
            sorted(self@),
    {
        proof {
            use_type_invariant(self);
        }
        let k = text::chars_of(key);
        let mut i: usize = 0;
        while i < self.entries.len()
            invariant
                i <= self@.len(),
                self@.len() == self.entries.len(),
                sorted(self@),
                k@ == key@,
                forall|n: int| 0 <= n < i ==> before(#[trigger] self@[n].0, key@),
            decreases self.entries.len() - i,
        {
            let name = text::chars_of(self.entries[i].0.as_str());
            assert(name@ == self@[i as int].0);
            if text::le(k.as_slice(), name.as_slice()) {
                let found = text::is_str(name.as_slice(), key);
                proof {
                    if !found {
                        assert forall|n: int| i <= n < self@.len() implies before(
                            key@,
                            #[trigger] self@[n].0,
                        ) by {
                            if n > i {
                                assert(before(self@[i as int].0, self@[n].0));
                                lemmas::lemma_le_transitive(
                                    key@,
                                    self@[i as int].0,
                                    self@[n].0,
                                );
                                if key@ == self@[n].0 {
                                    lemmas::lemma_le_antisymmetric(key@, self@[i as int].0);
                                }
                            }
                        }
                    }
                }
                return (i, found);
            }
            proof {
                lemmas::lemma_le_total(k@, name@);
                if name@ == k@ {
                    lemmas::lemma_le_reflexive(k@);
                }
            }
            i = i + 1;
        }
        (i, false)
    }

    /// Sets a variable, in place of the value it may have had, which is handed back.
    pub fn insert(&mut self, key: String, value: String) -> (r: Option<String>)
        ensures
            values(final(self)@) == values(old(self)@).insert(key@, value@),
            sorted(final(self)@),
            match r {
                Some(v) => values(old(self)@).dom().contains(key@) && values(old(self)@)[key@]
                    == v@,
                None => !values(old(self)@).dom().contains(key@),
            },
    {
        let (at, found) = self.position(key.as_str());
        let ghost was = self@;
        proof {
            lemma_values(was);
        }
        if found {
            let ghost now = was.update(at as int, (key@, value@));
            proof {
                assert forall|i: int, j: int| 0 <= i < j < now.len() implies before(
                    #[trigger] now[i].0,
                    #[trigger] now[j].0,
                ) by {
                    assert(now[i].0 == was[i].0);
                    assert(now[j].0 == was[j].0);
                    assert(before(was[i].0, was[j].0));
                }
                lemma_values(now);
                assert(values(now) =~= values(was).insert(key@, value@)) by {
                    lemma_update_values(was, at as int, (key@, value@));
                }
                assert(was[at as int].0 == key@);
            }
            let mut entries: Vec<(String, String)> = Vec::new();
            std::mem::swap(&mut entries, &mut self.entries);
            let old_value = entries[at].1.clone();
            entries.set(at, (key, value));
            assert(entry_views(entries@) == now);
            self.entries = entries;
            Some(old_value)
        } else {
            let ghost now = was.insert(at as int, (key@, value@));
            proof {
                assert forall|i: int, j: int| 0 <= i < j < now.len() implies before(
                    #[trigger] now[i].0,
                    #[trigger] now[j].0,
                ) by {
                    if i < at && j < at {
                        assert(now[i] == was[i] && now[j] == was[j]);
                    } else if i < at && j == at {
                        assert(now[i] == was[i]);
                    } else if i < at {
                        assert(now[i] == was[i] && now[j] == was[j - 1]);
                    } else if i == at {
                        assert(now[j] == was[j - 1]);
                    } else {
                        assert(now[i] == was[i - 1] && now[j] == was[j - 1]);
                    }
                }
                lemma_values(now);
                lemma_insert_values(was, at as int, (key@, value@));
                if values(was).dom().contains(key@) {
                    let n = choose|n: int| 0 <= n < was.len() && was[n].0 == key@;
                    assert(was[n].0 == key@);
                    if n < at {
                        assert(before(was[n].0, key@));
                    } else {
                        assert(before(key@, was[n].0));
                    }
                }
            }
            let mut entries: Vec<(String, String)> = Vec::new();
            std::mem::swap(&mut entries, &mut self.entries);
            entries.insert(at, (key, value));
            assert(entry_views(entries@) == now);
            self.entries = entries;
            None
        }
    }

    /// The value of a variable.
    pub fn get(&self, key: &str) -> (r: Option<&str>)
        ensures
            match r {
                Some(v) => values(self@).dom().contains(key@) && values(self@)[key@] == v@,
                None => !values(self@).dom().contains(key@),
            },
    {
        let (at, found) = self.position(key);
        proof {
            lemma_values(self@);
        }
        if found {
            assert(self@[at as int].0 == key@);
            Some(self.entries[at].1.as_str())
        } else {
            proof {
                if values(self@).dom().contains(key@) {
                    let n = choose|n: int| 0 <= n < self@.len() && self@[n].0 == key@;
                    assert(self@[n].0 == key@);
                    if n < at {
                        assert(before(self@[n].0, key@));
                    } else {
                        assert(before(key@, self@[n].0));
                    }
                }
            }
            None
        }
    }
}

impl Default for EnvMap {
    fn default() -> (r: EnvMap)
        ensures
            r@ == Seq::<Entry>::empty(),
    {
        EnvMap::new()
    }
}

impl Clone for EnvMap {
    fn clone(&self) -> (r: EnvMap)
        ensures
            r@ == self@,
    {
        proof {
            use_type_invariant(self);
        }
        let mut entries: Vec<(String, String)> = Vec::new();
        let mut i: usize = 0;
        while i < self.entries.len()
            invariant
                i <= self.entries.len(),
                entry_views(entries@) == entry_views(self.entries@).take(i as int),
            decreases self.entries.len() - i,
        {
            let ghost done = entries@;
            let key = self.entries[i].0.clone();
            let value = self.entries[i].1.clone();
            entries.push((key, value));
            assert(entry_views(entries@) == entry_views(done).push((key@, value@)));
            assert(entry_views(self.entries@).take(i + 1) == entry_views(self.entries@).take(
                i as int,
            ).push(entry_views(self.entries@)[i as int]));
            i = i + 1;
        }
        assert(entry_views(entries@) == entry_views(self.entries@));
        EnvMap { entries }
    }
}

/// In an ordered list the value of a name is that of its only entry.
proof fn lemma_values(entries: Seq<Entry>)
    requires
        sorted(entries),
    ensures
        forall|k: Seq<char>|
            values(entries).dom().contains(k) <==> exists|i: int|
                0 <= i < entries.len() && (#[trigger] entries[i]).0 == k,
        forall|i: int|
            0 <= i < entries.len() ==> values(entries)[(#[trigger] entries[i]).0] == entries[i].1,
    decreases entries.len(),
{
    if entries.len() > 0 {
        let rest = entries.drop_last();
        assert forall|i: int, j: int| 0 <= i < j < rest.len() implies before(
            #[trigger] rest[i].0,
            #[trigger] rest[j].0,
        ) by {
            assert(before(entries[i].0, entries[j].0));
        }
        lemma_values(rest);
        let last = entries.last();
        assert forall|k: Seq<char>|
            values(entries).dom().contains(k) <==> exists|i: int|
                0 <= i < entries.len() && (#[trigger] entries[i]).0 == k by {
            if values(entries).dom().contains(k) {
                if k == last.0 {
                    assert(entries[entries.len() - 1].0 == k);
                } else {
                    assert(values(rest).dom().contains(k));
                    let i = choose|i: int| 0 <= i < rest.len() && (#[trigger] rest[i]).0 == k;
                    assert(entries[i].0 == k);
                }
            }
            if exists|i: int| 0 <= i < entries.len() && (#[trigger] entries[i]).0 == k {
                let i = choose|i: int| 0 <= i < entries.len() && (#[trigger] entries[i]).0 == k;
                if i < rest.len() {
                    assert(rest[i].0 == k);
                }
            }
        }
        assert forall|i: int| 0 <= i < entries.len() implies values(entries)[(
        #[trigger] entries[i]).0] == entries[i].1 by {
            if i < rest.len() {
                assert(rest[i] == entries[i]);
                assert(before(entries[i].0, entries[entries.len() - 1].0));
            }
        }
    }
}

/// A new value for a name.
proof fn lemma_update_values(entries: Seq<Entry>, at: int, e: Entry)
    requires
        sorted(entries),
        sorted(entries.update(at, e)),
        0 <= at < entries.len(),
        entries[at].0 == e.0,
    ensures
        values(entries.update(at, e)) =~= values(entries).insert(e.0, e.1),
{
    let now = entries.update(at, e);
    lemma_values(entries);
    lemma_values(now);
    assert forall|k: Seq<char>| values(now).dom().contains(k) <==> values(entries).insert(
        e.0,
        e.1,
    ).dom().contains(k) by {
        if values(now).dom().contains(k) {
            let i = choose|i: int| 0 <= i < now.len() && (#[trigger] now[i]).0 == k;
            assert(entries[i].0 == k);
        }
        if values(entries).dom().contains(k) {
            let i = choose|i: int| 0 <= i < entries.len() && (#[trigger] entries[i]).0 == k;
            assert(now[i].0 == k);
        }
        assert(now[at].0 == e.0);
    }
    assert forall|k: Seq<char>| values(now).dom().contains(k) implies values(now)[k] == values(
        entries,
    ).insert(e.0, e.1)[k] by {
        let i = choose|i: int| 0 <= i < now.len() && (#[trigger] now[i]).0 == k;
        assert(values(now)[now[i].0] == now[i].1);
        assert(values(entries)[entries[i].0] == entries[i].1);
        if i != at {
            if k == e.0 {
                assert(before(now[i].0, now[at].0) || before(now[at].0, now[i].0));
            }
        }
    }
}

/// A value for a new name.
proof fn lemma_insert_values(entries: Seq<Entry>, at: int, e: Entry)
    requires
        sorted(entries),
        sorted(entries.insert(at, e)),
        0 <= at <= entries.len(),
    ensures
        values(entries.insert(at, e)) =~= values(entries).insert(e.0, e.1),
{
    let now = entries.insert(at, e);
    lemma_values(entries);
    lemma_values(now);
    assert forall|k: Seq<char>| values(now).dom().contains(k) <==> values(entries).insert(
        e.0,
        e.1,
    ).dom().contains(k) by {
        if values(now).dom().contains(k) {
            let i = choose|i: int| 0 <= i < now.len() && (#[trigger] now[i]).0 == k;
            if i < at {
                assert(entries[i].0 == k);
            } else if i > at {
                assert(entries[i - 1].0 == k);
            }
        }
        if values(entries).dom().contains(k) {
            let i = choose|i: int| 0 <= i < entries.len() && (#[trigger] entries[i]).0 == k;
            if i < at {
                assert(now[i].0 == k);
            } else {
                assert(now[i + 1].0 == k);
            }
        }
        assert(now[at].0 == e.0);
    }
    assert forall|k: Seq<char>| values(now).dom().contains(k) implies values(now)[k] == values(
        entries,
    ).insert(e.0, e.1)[k] by {
        let i = choose|i: int| 0 <= i < now.len() && (#[trigger] now[i]).0 == k;
        assert(values(now)[now[i].0] == now[i].1);
        if i < at {
            assert(before(now[i].0, now[at].0));
            assert(values(entries)[entries[i].0] == entries[i].1);
        } else if i > at {
            assert(before(now[at].0, now[i].0));
            assert(values(entries)[entries[i - 1].0] == entries[i - 1].1);
        }
    }
}

/// Two ordered lists with the same values are the same list: the order in which the
/// variables were set does not show.
pub proof fn law_env_order_is_canonical(a: Seq<Entry>, b: Seq<Entry>)
    requires
        sorted(a),
        sorted(b),
        values(a) == values(b),
    ensures
        a == b,
    decreases a.len(),
{
    lemma_values(a);
    lemma_values(b);
    if a.len() == 0 {
        if b.len() > 0 {
            assert(values(b).dom().contains(b[0].0));
        }
    } else if b.len() == 0 {
        assert(values(a).dom().contains(a[0].0));
    } else {
        let ka = a.last().0;
        let kb = b.last().0;
        assert(values(a).dom().contains(a[a.len() - 1].0));
        assert(values(b).dom().contains(b[b.len() - 1].0));
        let i = choose|i: int| 0 <= i < b.len() && (#[trigger] b[i]).0 == ka;
        let j = choose|j: int| 0 <= j < a.len() && (#[trigger] a[j]).0 == kb;
        if ka != kb {
            assert(before(b[i].0, b[b.len() - 1].0));
            assert(before(a[j].0, a[a.len() - 1].0));
            lemmas::lemma_le_antisymmetric(ka, kb);
        }
        assert(values(a)[a[a.len() - 1].0] == a.last().1);
        assert(values(b)[b[b.len() - 1].0] == b.last().1);
        let ra = a.drop_last();
        let rb = b.drop_last();
        lemma_drop_last(a);
        lemma_drop_last(b);
        assert(values(ra) =~= values(a).remove(ka));
        assert(values(rb) =~= values(b).remove(kb));
        law_env_order_is_canonical(ra, rb);
        assert(a == ra.push(a.last()));
        assert(b == rb.push(b.last()));
    }
}

/// Without its last entry a list is still ordered, and lacks just that name.
proof fn lemma_drop_last(entries: Seq<Entry>)
    requires
        sorted(entries),
        entries.len() > 0,
    ensures
        sorted(entries.drop_last()),
        values(entries.drop_last()) =~= values(entries).remove(entries.last().0),
{
    let rest = entries.drop_last();
    assert forall|i: int, j: int| 0 <= i < j < rest.len() implies before(
        #[trigger] rest[i].0,
        #[trigger] rest[j].0,
    ) by {
        assert(before(entries[i].0, entries[j].0));
    }
    lemma_values(rest);
    if values(rest).dom().contains(entries.last().0) {
        let i = choose|i: int| 0 <= i < rest.len() && (#[trigger] rest[i]).0 == entries.last().0;
        assert(before(entries[i].0, entries[entries.len() - 1].0));
    }
}

/// What was set is what is read: the value of a variable is the last one set, the others
/// stay, and what was there before is handed back.
pub proof fn law_variables_are_set(
    env: &mut EnvMap,
    key: String,
    value: String,
    handed_back: Option<String>,
    before: EnvMap,
    after: EnvMap,
    name: &str,
    was: Option<&str>,
    is: Option<&str>,
)
    requires
        call_ensures(EnvMap::insert, (env, key, value), handed_back),
        before == *env,
        call_ensures(EnvMap::get, (&before, name), was),
        call_ensures(EnvMap::get, (&after, name), is),
    ensures
        after == *final(env) ==> {
            &&& name@ == key@ ==> is is Some && is->0@ == value@ && (handed_back is Some
                <==> was is Some) && (was is Some ==> handed_back->0@ == was->0@)
            &&& name@ != key@ ==> (is is Some <==> was is Some) && (is is Some ==> is->0@
                == was->0@)
        },
{
}

/// New variables are none, and the variables come in the order of their names, each once.
pub proof fn law_variables_come_in_order(env: EnvMap, empty: EnvMap, i: usize, r: (&str, &str))
    requires
        call_ensures(EnvMap::new, (), empty),
        call_ensures(EnvMap::entry, (&env, i), r),
    ensures
        empty@.len() == 0,
        (r.0@, r.1@) == env@[i as int],
        forall|a: int, b: int|
            0 <= a < b < env@.len() ==> model::le(#[trigger] env@[a].0, #[trigger] env@[b].0)
                && env@[a].0 != env@[b].0,
{
    assert forall|a: int, b: int| 0 <= a < b < env@.len() implies model::le(
        #[trigger] env@[a].0,
        #[trigger] env@[b].0,
    ) && env@[a].0 != env@[b].0 by {
        assert(before(env@[a].0, env@[b].0));
    }
}

} // verus!
