use vstd::prelude::*;
use itertools::Itertools;

verus! {

/// Whether `a` comes no later than `b` in lexicographic order of their
/// characters (for UTF-8 text this is the byte-wise order of `str`).
pub open spec fn lex_le(a: Seq<char>, b: Seq<char>) -> bool
    decreases a.len(),
{
    if a.len() == 0 {
        true
    } else if b.len() == 0 {
        false
    } else if a[0] != b[0] {
        (a[0] as u32) < (b[0] as u32)
    } else {
        lex_le(a.drop_first(), b.drop_first())
    }
}

/// The texts of a list of strings.
pub open spec fn texts(v: Seq<String>) -> Seq<Seq<char>> {
    v.map_values(|s: String| s@)
}

/// Whether a list of texts is in ascending lexicographic order.
pub open spec fn ascending(v: Seq<Seq<char>>) -> bool {
    forall|i: int, j: int| 0 <= i < j < v.len() ==> lex_le(#[trigger] v[i], #[trigger] v[j])
}

/// Relies on itertools::Itertools::sorted, which collects the items and
/// sorts them with `slice::sort` under `String`'s `Ord`: the same strings,
/// in ascending lexicographic order.
#[verifier::external_body]
fn sorted_strings(names: Vec<String>) -> (r: Vec<String>)
    ensures
        texts(r@).to_multiset() == texts(names@).to_multiset(),
        ascending(texts(r@)),
{
    names.into_iter().sorted().collect()
}

/// The map that a list of (name, value) entries stands for.
pub open spec fn map_of(s: Seq<(Seq<char>, Seq<char>)>) -> Map<Seq<char>, Seq<char>>
    decreases s.len(),
{
    if s.len() == 0 {
        Map::empty()
    } else {
        map_of(s.drop_last()).insert(s.last().0, s.last().1)
    }
}

/// No two entries share a name.
pub open spec fn names_unique(s: Seq<(Seq<char>, Seq<char>)>) -> bool {
    forall|i: int, j: int| 0 <= i < j < s.len() ==> (#[trigger] s[i]).0 != (#[trigger] s[j]).0
}

proof fn lemma_map_of_index(s: Seq<(Seq<char>, Seq<char>)>, i: int)
    requires
        names_unique(s),
        0 <= i < s.len(),
    ensures
        map_of(s).contains_key(s[i].0),
        map_of(s)[s[i].0] == s[i].1,
    decreases s.len(),
{
    if i < s.len() - 1 {
        lemma_map_of_index(s.drop_last(), i);
    }
}

proof fn lemma_map_of_absent(s: Seq<(Seq<char>, Seq<char>)>, k: Seq<char>)
    requires
        forall|i: int| 0 <= i < s.len() ==> (#[trigger] s[i]).0 != k,
    ensures
        !map_of(s).contains_key(k),
    decreases s.len(),
{
    if s.len() > 0 {
        lemma_map_of_absent(s.drop_last(), k);
    }
}

proof fn lemma_map_of_update(s: Seq<(Seq<char>, Seq<char>)>, i: int, v: Seq<char>)
    requires
        names_unique(s),
        0 <= i < s.len(),
    ensures
        map_of(s.update(i, (s[i].0, v))) == map_of(s).insert(s[i].0, v),
    decreases s.len(),
{
    let t = s.update(i, (s[i].0, v));
    if i == s.len() - 1 {
        assert(t.drop_last() =~= s.drop_last());
        lemma_map_of_absent(s.drop_last(), s[i].0);
        assert(map_of(s.drop_last()).insert(s[i].0, v) =~= map_of(s).insert(s[i].0, v));
    } else {
        lemma_map_of_update(s.drop_last(), i, v);
        assert(t.drop_last() =~= s.drop_last().update(i, (s[i].0, v)));
        assert(map_of(t) =~= map_of(s).insert(s[i].0, v));
    }
}

proof fn lemma_map_of_dom(s: Seq<(Seq<char>, Seq<char>)>)
    requires
        names_unique(s),
    ensures
        map_of(s).dom() == s.map_values(|e: (Seq<char>, Seq<char>)| e.0).to_set(),
        map_of(s).dom().finite(),
        map_of(s).dom().len() == s.len(),
    decreases s.len(),
{
    let names = s.map_values(|e: (Seq<char>, Seq<char>)| e.0);
    if s.len() == 0 {
        assert(names.to_set() =~= Set::empty());
    } else {
        lemma_map_of_dom(s.drop_last());
        let pre = s.drop_last().map_values(|e: (Seq<char>, Seq<char>)| e.0);
        assert(names =~= pre.push(s.last().0));
        lemma_map_of_absent(s.drop_last(), s.last().0);
        assert(names.to_set() =~= pre.to_set().insert(s.last().0)) by {
            assert forall|x| names.to_set().contains(x) <==> pre.to_set().insert(s.last().0).contains(x) by {
                if names.to_set().contains(x) {
                    let k = choose|k: int| 0 <= k < names.len() && names[k] == x;
                    if k < pre.len() {
                        assert(pre[k] == x);
                    }
                }
                if pre.to_set().contains(x) {
                    let k = choose|k: int| 0 <= k < pre.len() && pre[k] == x;
                    assert(names[k] == x);
                }
                if x == s.last().0 {
                    assert(names[names.len() - 1] == x);
                }
            }
        }
    }
}

/// The readings of one tick: metric name to rendered value. Names are
/// unique; inserting a name that is present replaces its value.
pub struct Snapshot {
    entries: Vec<(String, String)>,
}

impl Snapshot {
    pub closed spec fn entries_view(self) -> Seq<(Seq<char>, Seq<char>)> {
        self.entries@.map_values(|e: (String, String)| (e.0@, e.1@))
    }

    pub closed spec fn wf(self) -> bool {
        names_unique(self.entries_view())
    }
}

impl View for Snapshot {
    type V = Map<Seq<char>, Seq<char>>;

    closed spec fn view(&self) -> Map<Seq<char>, Seq<char>> {
        map_of(self.entries_view())
    }
}

impl Snapshot {
    /// An empty snapshot.
    pub fn new() -> (r: Snapshot)
        ensures
            r.wf(),
            r@ == Map::<Seq<char>, Seq<char>>::empty(),
    {
        let r = Snapshot { entries: Vec::new() };
        assert(r.entries_view() =~= Seq::empty());
        r
    }

    /// The number of names.
    pub fn len(&self) -> (r: usize)
        requires
            self.wf(),
        ensures
            r == self@.dom().len(),
    {
        proof {
            lemma_map_of_dom(self.entries_view());
        }
        self.entries.len()
    }

    fn index_of(&self, name: &String) -> (r: Option<usize>)
        requires
            self.wf(),
        ensures
            r matches Some(i) ==> i < self.entries_view().len() && self.entries_view()[i as int].0
                == name@,
            r is None ==> forall|i: int|
                0 <= i < self.entries_view().len() ==> (#[trigger] self.entries_view()[i]).0
                    != name@,
    {
        let mut i: usize = 0;
        while i < self.entries.len()
            invariant
                i <= self.entries@.len(),
                forall|j: int| 0 <= j < i ==> (#[trigger] self.entries_view()[j]).0 != name@,
            decreases self.entries@.len() - i,
        {
            if self.entries[i].0 == *name {
                return Some(i);
            }
            i = i + 1;
        }
        None
    }

    /// The value recorded under `name`, if any.
    pub fn get(&self, name: &String) -> (r: Option<String>)
        requires
            self.wf(),
        ensures
            self@.contains_key(name@) <==> r is Some,
            r matches Some(v) ==> v@ == self@[name@],
    {
        match self.index_of(name) {
            Some(i) => {
                proof {
                    lemma_map_of_index(self.entries_view(), i as int);
                }
                Some(self.entries[i].1.clone())
            },
            None => {
                proof {
                    lemma_map_of_absent(self.entries_view(), name@);
                }
                None
            },
        }
    }

    /// Records `value` under `name`, replacing what was there.
    pub fn insert(&mut self, name: String, value: String)
        requires
            old(self).wf(),
        ensures
            final(self).wf(),
            final(self)@ == old(self)@.insert(name@, value@),
    {
        match self.index_of(&name) {
            Some(i) => {
                proof {
                    lemma_map_of_update(self.entries_view(), i as int, value@);
                }
                let ghost pre = self.entries_view();
                self.entries.set(i, (name, value));
                assert(self.entries_view() =~= pre.update(i as int, (pre[i as int].0, value@)));
            },
            None => {
                let ghost pre = self.entries_view();
                self.entries.push((name, value));
                assert(self.entries_view() =~= pre.push((name@, value@)));
                assert(self.entries_view().drop_last() =~= pre);
            },
        }
    }

    /// The names, in ascending lexicographic order.
    pub fn sorted_keys(&self) -> (r: Vec<String>)
        requires
            self.wf(),
        ensures
            texts(r@).to_set() == self@.dom(),
            texts(r@).len() == self@.dom().len(),
            ascending(texts(r@)),
    {
        let mut names: Vec<String> = Vec::new();
        let mut i: usize = 0;
        while i < self.entries.len()
            invariant
                i <= self.entries@.len(),
                texts(names@) == self.entries_view().take(i as int).map_values(
                    |e: (Seq<char>, Seq<char>)| e.0,
                ),
            decreases self.entries@.len() - i,
        {
            let ghost pre = names@;
            let n = self.entries[i].0.clone();
            names.push(n);
            assert(texts(names@) =~= texts(pre).push(self.entries@[i as int].0@));
            assert(self.entries_view()[i as int].0 == self.entries@[i as int].0@);
            assert(self.entries_view().take(i + 1) =~= self.entries_view().take(i as int).push(
                self.entries_view()[i as int],
            ));
            assert(texts(names@) =~= self.entries_view().take(i + 1).map_values(
                |e: (Seq<char>, Seq<char>)| e.0,
            ));
            i = i + 1;
        }
        let ghost all = texts(names@);
        assert(self.entries_view().take(self.entries@.len() as int) =~= self.entries_view());
        proof {
            lemma_map_of_dom(self.entries_view());
        }
        let r = sorted_strings(names);
        proof {
            let rs = texts(r@);
            rs.to_multiset_ensures();
            all.to_multiset_ensures();
            assert(rs.len() == all.len());
            assert forall|x| rs.to_set().contains(x) <==> all.to_set().contains(x) by {
                if rs.to_set().contains(x) {
                    let k = choose|k: int| 0 <= k < rs.len() && rs[k] == x;
                    assert(rs.to_multiset().count(x) > 0);
                    assert(all.to_multiset().count(x) > 0);
                }
                if all.to_set().contains(x) {
                    let k = choose|k: int| 0 <= k < all.len() && all[k] == x;
                    assert(all.to_multiset().count(x) > 0);
                    assert(rs.to_multiset().count(x) > 0);
                }
            }
            assert(rs.to_set() =~= all.to_set());
        }
        r
    }
}

} // verus!
