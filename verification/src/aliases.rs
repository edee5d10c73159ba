//! Alias maps: named shorthands for version specifications, keyed by
//! exact name. Insertion order is irrelevant to lookups; a later
//! binding for the same name wins, so the map behaves as repeated
//! insertion into a mathematical map.

use vstd::prelude::*;

use crate::version_spec::{str_eq, SpecShape, UnresolvedVersionSpec};

verus! {

/// The key/value views of a run of bindings.
pub open spec fn kv_view(s: Seq<(String, UnresolvedVersionSpec)>) -> Seq<(Seq<char>, SpecShape)> {
    s.map_values(|e: (String, UnresolvedVersionSpec)| (e.0@, e.1@))
}

/// The map that a run of bindings denotes: each binding inserted in
/// order, so the last binding for a name wins.
pub open spec fn entries_map<V>(s: Seq<(Seq<char>, V)>) -> Map<Seq<char>, V>
    decreases s.len(),
{
    if s.len() == 0 {
        Map::empty()
    } else {
        entries_map(s.drop_last()).insert(s.last().0, s.last().1)
    }
}

/// A binding that no later binding shadows decides the map.
pub proof fn lemma_entries_map_get<V>(s: Seq<(Seq<char>, V)>, i: int)
    requires
        0 <= i < s.len(),
        forall|j: int| i < j < s.len() ==> (#[trigger] s[j]).0 != s[i].0,
    ensures
        entries_map(s).contains_key(s[i].0),
        entries_map(s)[s[i].0] == s[i].1,
    decreases s.len(),
{
    if i == s.len() - 1 {
    } else {
        assert(s.drop_last()[i] == s[i]);
        lemma_entries_map_get(s.drop_last(), i);
    }
}

/// A name bound by no binding is absent from the map.
pub proof fn lemma_entries_map_absent<V>(s: Seq<(Seq<char>, V)>, k: Seq<char>)
    requires
        forall|j: int| 0 <= j < s.len() ==> (#[trigger] s[j]).0 != k,
    ensures
        !entries_map(s).contains_key(k),
    decreases s.len(),
{
    if s.len() > 0 {
        lemma_entries_map_absent(s.drop_last(), k);
    }
}

/// A mapping from alias names to the version specifications they
/// stand for.
pub struct AliasMap {
    pub entries: Vec<(String, UnresolvedVersionSpec)>,
}

impl View for AliasMap {
    type V = Map<Seq<char>, SpecShape>;

    open spec fn view(&self) -> Map<Seq<char>, SpecShape> {
        entries_map(kv_view(self.entries@))
    }
}

impl AliasMap {
    /// Number of bindings held (an upper bound on the number of
    /// distinct names).
    pub fn binding_count(&self) -> (n: usize)
        ensures
            n as int == self.binding_len(),
    {
        self.entries.len()
    }

    /// Ghost count of bindings.
    pub open spec fn binding_len(&self) -> int {
        self.entries@.len() as int
    }

    /// The map is denoted by this run of key/value views.
    pub open spec fn bindings(&self) -> Seq<(Seq<char>, SpecShape)> {
        kv_view(self.entries@)
    }

    /// An empty alias map.
    pub fn new() -> (r: AliasMap)
        ensures
            r@ == Map::<Seq<char>, SpecShape>::empty(),
            r.binding_len() == 0,
    {
        AliasMap { entries: Vec::new() }
    }

    /// Looks a name up by exact key.
    pub fn get(&self, name: &str) -> (r: Option<&UnresolvedVersionSpec>)
        ensures
            match r {
                Some(s) => self@.contains_key(name@) && s@ == self@[name@],
                None => !self@.contains_key(name@),
            },
    {
        let mut i = self.entries.len();
        while i > 0
            invariant
                0 <= i <= self.entries@.len(),
                forall|j: int|
                    i <= j < self.entries@.len() ==> (#[trigger] self.entries@[j]).0@ != name@,
            decreases i,
        {
            i = i - 1;
            if str_eq(self.entries[i].0.as_str(), name) {
                proof {
                    assert(kv_view(self.entries@)[i as int].0 == name@);
                    assert(forall|j: int|
                        i < j < self.entries@.len() ==> (#[trigger] kv_view(self.entries@)[j]).0
                            != name@);
                    lemma_entries_map_get(kv_view(self.entries@), i as int);
                }
                return Some(&self.entries[i].1);
            }
        }
        proof {
            assert(forall|j: int|
                0 <= j < self.entries@.len() ==> (#[trigger] kv_view(self.entries@)[j]).0
                    != name@);
            lemma_entries_map_absent(kv_view(self.entries@), name@);
        }
        None
    }

    /// Binds a name, replacing any earlier binding for it.
    pub fn set(&mut self, name: String, spec: UnresolvedVersionSpec)
        ensures
            final(self)@ == old(self)@.insert(name@, spec@),
            final(self).binding_len() == old(self).binding_len() + 1,
    {
        let ghost old_entries = self.entries@;
        self.entries.push((name, spec));
        proof {
            assert(kv_view(self.entries@).drop_last() =~= kv_view(old_entries));
        }
    }

    /// The bindings of `other` laid over those of `self`: `other`
    /// wins where both bind a name.
    pub fn merged(&self, other: &AliasMap) -> (r: AliasMap)
        ensures
            r@ == self@.union_prefer_right(other@),
            r.bindings() == self.bindings() + other.bindings(),
    {
        let mut entries: Vec<(String, UnresolvedVersionSpec)> = Vec::new();
        let mut i: usize = 0;
        while i < self.entries.len()
            invariant
                0 <= i <= self.entries@.len(),
                kv_view(entries@) =~= kv_view(self.entries@).take(i as int),
            decreases self.entries@.len() - i,
        {
            let ghost before = entries@;
            entries.push((self.entries[i].0.clone(), self.entries[i].1.duplicate()));
            proof {
                assert(kv_view(entries@) =~= kv_view(before).push(
                    (self.entries@[i as int].0@, self.entries@[i as int].1@),
                ));
                assert(kv_view(self.entries@).take(i as int + 1) =~= kv_view(
                    self.entries@,
                ).take(i as int).push(kv_view(self.entries@)[i as int]));
            }
            i = i + 1;
        }
        let mut j: usize = 0;
        while j < other.entries.len()
            invariant
                0 <= j <= other.entries@.len(),
                kv_view(entries@) =~= kv_view(self.entries@) + kv_view(other.entries@).take(
                    j as int,
                ),
            decreases other.entries@.len() - j,
        {
            let ghost before = entries@;
            entries.push((other.entries[j].0.clone(), other.entries[j].1.duplicate()));
            proof {
                assert(kv_view(entries@) =~= kv_view(before).push(
                    (other.entries@[j as int].0@, other.entries@[j as int].1@),
                ));
                assert(kv_view(other.entries@).take(j as int + 1) =~= kv_view(
                    other.entries@,
                ).take(j as int).push(kv_view(other.entries@)[j as int]));
            }
            j = j + 1;
        }
        proof {
            assert(kv_view(entries@) =~= kv_view(self.entries@) + kv_view(other.entries@));
            lemma_entries_map_concat(kv_view(self.entries@), kv_view(other.entries@));
        }
        AliasMap { entries }
    }
}

/// Concatenating two runs of bindings denotes the union of their
/// maps, the later run winning.
proof fn lemma_entries_map_concat(a: Seq<(Seq<char>, SpecShape)>, b: Seq<(Seq<char>, SpecShape)>)
    ensures
        entries_map(a + b) == entries_map(a).union_prefer_right(entries_map(b)),
    decreases b.len(),
{
    if b.len() == 0 {
        assert(a + b =~= a);
        assert(entries_map(a).union_prefer_right(entries_map(b)) =~= entries_map(a));
    } else {
        lemma_entries_map_concat(a, b.drop_last());
        assert((a + b).drop_last() =~= a + b.drop_last());
        assert((a + b).last() == b.last());
        assert(entries_map(a).union_prefer_right(entries_map(b.drop_last())).insert(
            b.last().0,
            b.last().1,
        ) =~= entries_map(a).union_prefer_right(
            entries_map(b.drop_last()).insert(b.last().0, b.last().1),
        ));
    }
}

} // verus!
