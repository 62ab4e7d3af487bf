use vstd::prelude::*;

verus! {

/// The map that a list of named entries stands for: each name maps to the
/// value of its entry (where a name occurs twice, the later entry wins).
pub open spec fn entries_map<V>(s: Seq<(String, V)>) -> Map<Seq<char>, V>
    decreases s.len(),
{
    if s.len() == 0 {
        Map::empty()
    } else {
        entries_map(s.drop_last()).insert(s.last().0@, s.last().1)
    }
}

/// No name occurs twice in the list.
pub open spec fn distinct_names<V>(s: Seq<(String, V)>) -> bool {
    forall|i: int, j: int| 0 <= i < j < s.len() ==> #[trigger] s[i].0@ != #[trigger] s[j].0@
}

/// A name is in the map of a list exactly when some entry carries it.
pub proof fn lemma_entries_map_dom<V>(s: Seq<(String, V)>, k: Seq<char>)
    ensures
        entries_map(s).contains_key(k) <==> exists|i: int| 0 <= i < s.len() && #[trigger] s[i].0@ == k,
    decreases s.len(),
{
    if s.len() > 0 {
        lemma_entries_map_dom(s.drop_last(), k);
        if entries_map(s.drop_last()).contains_key(k) {
            let i = choose|i: int| 0 <= i < s.drop_last().len() && #[trigger] s.drop_last()[i].0@ == k;
            assert(s[i].0@ == k);
        }
        if exists|i: int| 0 <= i < s.len() && #[trigger] s[i].0@ == k {
            let i = choose|i: int| 0 <= i < s.len() && #[trigger] s[i].0@ == k;
            if i < s.len() - 1 {
                assert(s.drop_last()[i].0@ == k);
            }
        }
    }
}

/// In a list without repeated names, each entry's name maps to its value.
pub proof fn lemma_entries_map_get<V>(s: Seq<(String, V)>, i: int)
    requires
        distinct_names(s),
        0 <= i < s.len(),
    ensures
        entries_map(s).contains_key(s[i].0@),
        entries_map(s)[s[i].0@] == s[i].1,
    decreases s.len(),
{
    if i < s.len() - 1 {
        assert(distinct_names(s.drop_last()));
        assert(s.drop_last()[i] == s[i]);
        lemma_entries_map_get(s.drop_last(), i);
        assert(s[i].0@ != s[s.len() - 1].0@);
    }
}

/// Replacing the value of the entry that carries a name updates the map at that name.
pub proof fn lemma_entries_map_update<V>(s: Seq<(String, V)>, i: int, e: (String, V))
    requires
        distinct_names(s),
        0 <= i < s.len(),
        e.0@ == s[i].0@,
    ensures
        distinct_names(s.update(i, e)),
        entries_map(s.update(i, e)) == entries_map(s).insert(e.0@, e.1),
{
    let t = s.update(i, e);
    assert(distinct_names(t)) by {
        assert forall|a: int, b: int| 0 <= a < b < t.len() implies #[trigger] t[a].0@ != #[trigger] t[b].0@ by {
            assert(s[a].0@ != s[b].0@);
        }
    }
    let m = entries_map(s).insert(e.0@, e.1);
    assert forall|k: Seq<char>| #[trigger] entries_map(t).contains_key(k) <==> m.contains_key(k) by {
        lemma_entries_map_dom(s, k);
        lemma_entries_map_dom(t, k);
        if k == e.0@ {
            assert(t[i].0@ == k);
        }
        if m.contains_key(k) && k != e.0@ {
            let j = choose|j: int| 0 <= j < s.len() && #[trigger] s[j].0@ == k;
            assert(t[j].0@ == k);
        }
        if entries_map(t).contains_key(k) {
            let j = choose|j: int| 0 <= j < t.len() && #[trigger] t[j].0@ == k;
            if j != i {
                assert(s[j].0@ == k);
            }
        }
    }
    assert forall|k: Seq<char>| #[trigger] entries_map(t).contains_key(k) implies entries_map(t)[k] == m[k] by {
        lemma_entries_map_dom(t, k);
        let j = choose|j: int| 0 <= j < t.len() && #[trigger] t[j].0@ == k;
        lemma_entries_map_get(t, j);
        if j != i {
            lemma_entries_map_get(s, j);
        }
    }
    assert(entries_map(t) =~= m);
}

/// Without repeated names, the map of a list has one key per entry.
pub proof fn lemma_entries_map_len<V>(s: Seq<(String, V)>)
    requires
        distinct_names(s),
    ensures
        entries_map(s).dom().finite(),
        entries_map(s).dom().len() == s.len(),
    decreases s.len(),
{
    if s.len() > 0 {
        let p = s.drop_last();
        assert(distinct_names(p));
        lemma_entries_map_len(p);
        lemma_entries_map_dom(p, s.last().0@);
        if entries_map(p).contains_key(s.last().0@) {
            let i = choose|i: int| 0 <= i < p.len() && #[trigger] p[i].0@ == s.last().0@;
            assert(s[i].0@ != s[s.len() - 1].0@);
        }
        assert(entries_map(s).dom() =~= entries_map(p).dom().insert(s.last().0@));
    }
}

/// Applying a function to every value of a list applies it to every value of its map.
pub proof fn lemma_entries_map_values<V, W>(s: Seq<(String, V)>, r: Seq<(String, W)>, f: spec_fn(V) -> W)
    requires
        r.len() == s.len(),
        forall|i: int| 0 <= i < s.len() ==> (#[trigger] r[i]).0@ == s[i].0@ && r[i].1 == f(s[i].1),
    ensures
        entries_map(r) == entries_map(s).map_values(f),
    decreases s.len(),
{
    if s.len() > 0 {
        assert forall|i: int| 0 <= i < s.drop_last().len() implies (#[trigger] r.drop_last()[i]).0@ == s.drop_last()[i].0@
            && r.drop_last()[i].1 == f(s.drop_last()[i].1) by {
            assert(r.drop_last()[i] == r[i]);
            assert(s.drop_last()[i] == s[i]);
        }
        lemma_entries_map_values(s.drop_last(), r.drop_last(), f);
        assert(r.last() == r[r.len() - 1]);
        assert(entries_map(r) =~= entries_map(s).map_values(f));
    }
}

/// A time in nanoseconds relative to the Unix epoch, negative before it, from
/// its distance to the epoch (whole seconds and the nanoseconds past them) and
/// the side of the epoch it lies on.
pub fn nanos_from_epoch(after_epoch: bool, secs: u64, subsec_nanos: u32) -> (n: i128)
    ensures
        after_epoch ==> n == secs * 1_000_000_000 + subsec_nanos,
        !after_epoch ==> n == -(secs * 1_000_000_000 + subsec_nanos),
{
    let distance: i128 = (secs as i128) * 1_000_000_000 + (subsec_nanos as i128);
    if after_epoch {
        distance
    } else {
        -distance
    }
}

/// The times at which named events happened, each given in nanoseconds relative
/// to the Unix epoch (negative before it). A name has at most one time: the last
/// one that was added under it.
pub struct Timings {
    entries: Vec<(String, i128)>,
}

impl Timings {
    #[verifier::type_invariant]
    spec fn inv(self) -> bool {
        distinct_names(self.entries@)
    }

    /// The recorded time of each name.
    pub closed spec fn view(&self) -> Map<Seq<char>, i128> {
        entries_map(self.entries@)
    }

    /// A registry with no timings.
    pub fn new() -> (t: Self)
        ensures
            t.view() == Map::<Seq<char>, i128>::empty(),
            t.view().dom().finite(),
    {
        Timings { entries: Vec::new() }
    }

    /// Records `time` under `name`, replacing any earlier time of that name.
    pub fn add_timing(&mut self, name: &str, time: i128)
        ensures
            final(self).view() == old(self).view().insert(name@, time),
            final(self).view().dom().finite(),
    {
        proof {
            use_type_invariant(&*self);
        }
        let key = name.to_owned();
        let mut entries: Vec<(String, i128)> = Vec::new();
        std::mem::swap(&mut entries, &mut self.entries);
        let ghost before = entries@;
        assert(entries_map(before) == old(self).view());
        let n = entries.len();
        let mut i: usize = 0;
        while i < n
            invariant
                n == entries.len(),
                i <= n,
                entries@ == before,
                entries_map(before) == old(self).view(),
                distinct_names(before),
                key@ == name@,
                forall|j: int| 0 <= j < i ==> (#[trigger] before[j]).0@ != name@,
            decreases n - i,
        {
            if entries[i].0 == key {
                proof {
                    lemma_entries_map_update(before, i as int, (key, time));
                }
                entries.set(i, (key, time));
                proof {
                    lemma_entries_map_len(entries@);
                }
                self.entries = entries;
                return;
            }
            i = i + 1;
        }
        entries.push((key, time));
        proof {
            assert(entries@.drop_last() =~= before);
            assert forall|a: int, b: int| 0 <= a < b < entries@.len()
                implies #[trigger] entries@[a].0@ != #[trigger] entries@[b].0@ by {
                if b < before.len() {
                    assert(before[a] == entries@[a]);
                    assert(before[b] == entries@[b]);
                }
            }
            lemma_entries_map_len(entries@);
        }
        self.entries = entries;
    }

    /// Whether no recorded time lies before the Unix epoch.
    pub fn all_since_epoch(&self) -> (b: bool)
        ensures
            b == (forall|k: Seq<char>| #[trigger] self.view().contains_key(k) ==> self.view()[k] >= 0),
            self.view().dom().finite(),
    {
        proof {
            use_type_invariant(self);
            lemma_entries_map_len(self.entries@);
        }
        let n = self.entries.len();
        let mut i: usize = 0;
        while i < n
            invariant
                n == self.entries.len(),
                i <= n,
                distinct_names(self.entries@),
                forall|j: int| 0 <= j < i ==> (#[trigger] self.entries@[j]).1 >= 0,
            decreases n - i,
        {
            if self.entries[i].1 < 0 {
                proof {
                    lemma_entries_map_get(self.entries@, i as int);
                    assert(self.view().contains_key(self.entries@[i as int].0@));
                    lemma_entries_map_len(self.entries@);
                }
                return false;
            }
            i = i + 1;
        }
        proof {
            assert forall|k: Seq<char>| #[trigger] self.view().contains_key(k) implies self.view()[k] >= 0 by {
                lemma_entries_map_dom(self.entries@, k);
                let j = choose|j: int| 0 <= j < self.entries@.len() && #[trigger] self.entries@[j].0@ == k;
                lemma_entries_map_get(self.entries@, j);
            }
        }
        true
    }

    /// Every recorded time, as nanoseconds since the Unix epoch, one entry per name.
    pub fn get_timings(&self) -> (r: Vec<(String, u128)>)
        requires
            forall|k: Seq<char>| #[trigger] self.view().contains_key(k) ==> self.view()[k] >= 0,
        ensures
            distinct_names(r@),
            entries_map(r@) == self.view().map_values(|t: i128| t as u128),
            r@.len() == self.view().dom().len(),
            self.view().dom().finite(),
    {
        proof {
            use_type_invariant(self);
            lemma_entries_map_len(self.entries@);
        }
        let n = self.entries.len();
        let mut r: Vec<(String, u128)> = Vec::new();
        let mut i: usize = 0;
        while i < n
            invariant
                n == self.entries.len(),
                i <= n,
                r.len() == i,
                distinct_names(self.entries@),
                forall|k: Seq<char>| #[trigger] self.view().contains_key(k) ==> self.view()[k] >= 0,
                forall|j: int| 0 <= j < i ==> (#[trigger] r@[j]).0@ == self.entries@[j].0@
                    && r@[j].1 == self.entries@[j].1 as u128,
            decreases n - i,
        {
            proof {
                lemma_entries_map_get(self.entries@, i as int);
                assert(self.view().contains_key(self.entries@[i as int].0@));
            }
            let name = self.entries[i].0.clone();
            let t: i128 = self.entries[i].1;
            let nanos: u128 = t as u128;
            r.push((name, nanos));
            i = i + 1;
        }
        proof {
            let f = |t: i128| t as u128;
            lemma_entries_map_values(self.entries@, r@, f);
            lemma_entries_map_len(self.entries@);
            assert forall|a: int, b: int| 0 <= a < b < r@.len() implies #[trigger] r@[a].0@ != #[trigger] r@[b].0@ by {
                assert(self.entries@[a].0@ != self.entries@[b].0@);
            }
        }
        r
    }
}

/// A time added under a name is the time read back under it, and adding it
/// leaves every other name as it was.
pub proof fn lemma_add_then_read(before: Timings, after: Timings, name: Seq<char>, time: i128)
    requires
        after@ == before@.insert(name, time),
    ensures
        after@.contains_key(name),
        after@[name] == time,
        forall|k: Seq<char>| k != name ==> (#[trigger] after@.contains_key(k) <==> before@.contains_key(k)),
        forall|k: Seq<char>| k != name && #[trigger] before@.contains_key(k) ==> after@[k] == before@[k],
{
}

/// Adding a time grows the number of names by one exactly when the name is new.
pub proof fn lemma_add_counts_new_names(before: Timings, after: Timings, name: Seq<char>, time: i128)
    requires
        before@.dom().finite(),
        after@ == before@.insert(name, time),
    ensures
        after@.dom().finite(),
        after@.dom().len() == before@.dom().len() + (if before@.contains_key(name) { 0int } else { 1int }),
{
    if before@.contains_key(name) {
        assert(after@.dom() =~= before@.dom());
    }
}

/// Adding twice under one name keeps only the second time.
pub proof fn lemma_last_time_wins(start: Timings, mid: Timings, last: Timings, name: Seq<char>, first: i128, second: i128)
    requires
        mid@ == start@.insert(name, first),
        last@ == mid@.insert(name, second),
    ensures
        last@ == start@.insert(name, second),
{
    assert(start@.insert(name, first).insert(name, second) =~= start@.insert(name, second));
}

} // verus!
