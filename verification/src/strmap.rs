use vstd::prelude::*;

verus! {

/// The map that a list of entries stands for: the first entry with a key
/// gives that key's value.
pub open spec fn map_of<V: View>(s: Seq<(String, V)>) -> Map<Seq<char>, V::V>
    decreases s.len(),
{
    if s.len() == 0 {
        Map::empty()
    } else {
        map_of(s.drop_first()).insert(s[0].0@, s[0].1@)
    }
}

/// Whether some entry of `s` has the key `k`.
pub open spec fn has_key<V>(s: Seq<(String, V)>, k: Seq<char>) -> bool {
    exists|i: int| 0 <= i < s.len() && #[trigger] s[i].0@ == k
}

pub proof fn lemma_map_of_contains<V: View>(s: Seq<(String, V)>, k: Seq<char>)
    ensures
        map_of(s).contains_key(k) <==> has_key(s, k),
    decreases s.len(),
{
    if s.len() > 0 {
        lemma_map_of_contains(s.drop_first(), k);
        if has_key(s.drop_first(), k) {
            let i = choose|i: int| 0 <= i < s.drop_first().len() && #[trigger] s.drop_first()[i].0@ == k;
            assert(s[i + 1].0@ == k);
        }
        if has_key(s, k) && s[0].0@ != k {
            let i = choose|i: int| 0 <= i < s.len() && #[trigger] s[i].0@ == k;
            assert(s.drop_first()[i - 1].0@ == k);
        }
    }
}

pub proof fn lemma_map_of_first<V: View>(s: Seq<(String, V)>, i: int)
    requires
        0 <= i < s.len(),
        forall|j: int| 0 <= j < i ==> #[trigger] s[j].0@ != s[i].0@,
    ensures
        map_of(s).contains_key(s[i].0@),
        map_of(s)[s[i].0@] == s[i].1@,
    decreases s.len(),
{
    if i > 0 {
        let t = s.drop_first();
        assert forall|j: int| 0 <= j < i - 1 implies #[trigger] t[j].0@ != t[i - 1].0@ by {
            assert(s[j + 1].0@ != s[i].0@);
        }
        lemma_map_of_first(t, i - 1);
        assert(s[0].0@ != s[i].0@);
    }
}

pub proof fn lemma_map_of_push<V: View>(s: Seq<(String, V)>, k: String, v: V)
    requires
        !has_key(s, k@),
    ensures
        map_of(s.push((k, v))) == map_of(s).insert(k@, v@),
    decreases s.len(),
{
    if s.len() == 0 {
        let p = s.push((k, v));
        assert(p.drop_first() =~= Seq::<(String, V)>::empty());
        assert(p[0] == (k, v));
        assert(map_of(p.drop_first()) == Map::<Seq<char>, V::V>::empty());
        assert(map_of(p) =~= map_of(s).insert(k@, v@));
    } else {
        let t = s.drop_first();
        assert(s.push((k, v)).drop_first() =~= t.push((k, v)));
        if has_key(t, k@) {
            let i = choose|i: int| 0 <= i < t.len() && #[trigger] t[i].0@ == k@;
            assert(s[i + 1].0@ == k@);
        }
        lemma_map_of_push(t, k, v);
        assert(s[0].0@ != k@);
        assert(map_of(s.push((k, v))) =~= map_of(s).insert(k@, v@));
    }
}

pub proof fn lemma_map_of_update<V: View>(s: Seq<(String, V)>, i: int, k: String, v: V)
    requires
        0 <= i < s.len(),
        s[i].0@ == k@,
        forall|j: int| 0 <= j < i ==> #[trigger] s[j].0@ != k@,
    ensures
        map_of(s.update(i, (k, v))) == map_of(s).insert(k@, v@),
    decreases s.len(),
{
    let u = s.update(i, (k, v));
    if i == 0 {
        assert(u.drop_first() =~= s.drop_first());
        assert(map_of(u) =~= map_of(s).insert(k@, v@));
    } else {
        let t = s.drop_first();
        assert(u.drop_first() =~= t.update(i - 1, (k, v)));
        assert forall|j: int| 0 <= j < i - 1 implies #[trigger] t[j].0@ != k@ by {
            assert(s[j + 1].0@ != k@);
        }
        lemma_map_of_update(t, i - 1, k, v);
        assert(s[0].0@ != k@);
        assert(map_of(u) =~= map_of(s).insert(k@, v@));
    }
}

/// Compares two texts character by character.
pub fn str_eq(a: &str, b: &str) -> (r: bool)
    ensures
        r == (a@ == b@),
{
    let n = a.unicode_len();
    let m = b.unicode_len();
    if n != m {
        return false;
    }
    let mut i: usize = 0;
    while i < n
        invariant
            n == a@.len(),
            m == b@.len(),
            n == m,
            i <= n,
            forall|j: int| 0 <= j < i ==> a@[j] == b@[j],
        decreases n - i,
    {
        if a.get_char(i) != b.get_char(i) {
            return false;
        }
        i = i + 1;
    }
    assert(a@ =~= b@);
    true
}

/// Whether no two entries of `s` share a key.
pub open spec fn keys_distinct<V>(s: Seq<(String, V)>) -> bool {
    forall|i: int, j: int| 0 <= i < j < s.len() ==> #[trigger] s[i].0@ != #[trigger] s[j].0@
}

/// A map from text keys to values, kept as a list of entries in insertion
/// order, each key once.
pub struct StrMap<V> {
    entries: Vec<(String, V)>,
}

impl<V> StrMap<V> {
    #[verifier::type_invariant]
    spec fn inv(self) -> bool {
        keys_distinct(self.entries@)
    }
}

impl<V: View> View for StrMap<V> {
    type V = Map<Seq<char>, V::V>;

    closed spec fn view(&self) -> Map<Seq<char>, V::V> {
        map_of(self.entries@)
    }
}

impl<V: View> StrMap<V> {
    /// An empty map.
    pub fn new() -> (r: Self)
        ensures
            r@ == Map::<Seq<char>, V::V>::empty(),
    {
        StrMap { entries: Vec::new() }
    }

    /// The entries of the map, in insertion order.
    pub fn entries(&self) -> (r: &Vec<(String, V)>)
        ensures
            map_of(r@) == self@,
            keys_distinct(r@),
    {
        proof {
            use_type_invariant(self);
        }
        &self.entries
    }

    fn find(&self, key: &str) -> (r: Option<usize>)
        ensures
            match r {
                Some(i) => i < self.entries@.len() && self.entries@[i as int].0@ == key@ && forall|j: int|
                    0 <= j < i ==> #[trigger] self.entries@[j].0@ != key@,
                None => !has_key(self.entries@, key@),
            },
    {
        let mut i: usize = 0;
        while i < self.entries.len()
            invariant
                i <= self.entries@.len(),
                forall|j: int| 0 <= j < i ==> #[trigger] self.entries@[j].0@ != key@,
            decreases self.entries@.len() - i,
        {
            if str_eq(self.entries[i].0.as_str(), key) {
                return Some(i);
            }
            i = i + 1;
        }
        None
    }

    /// The value stored under `key`, if any.
    pub fn get(&self, key: &str) -> (r: Option<&V>)
        ensures
            match r {
                Some(v) => self@.contains_key(key@) && v@ == self@[key@],
                None => !self@.contains_key(key@),
            },
    {
        proof {
            lemma_map_of_contains(self.entries@, key@);
        }
        match self.find(key) {
            Some(i) => {
                proof {
                    lemma_map_of_first(self.entries@, i as int);
                }
                Some(&self.entries[i].1)
            },
            None => None,
        }
    }

    /// Whether `key` has a value.
    pub fn contains_key(&self, key: &str) -> (r: bool)
        ensures
            r == self@.contains_key(key@),
    {
        proof {
            lemma_map_of_contains(self.entries@, key@);
        }
        self.find(key).is_some()
    }

    /// Stores `value` under `key`, replacing the value stored there before.
    pub fn insert(&mut self, key: String, value: V)
        ensures
            final(self)@ == old(self)@.insert(key@, value@),
    {
        proof {
            use_type_invariant(&*self);
        }
        let found = self.find(key.as_str());
        let mut es: Vec<(String, V)> = Vec::new();
        std::mem::swap(&mut es, &mut self.entries);
        let ghost before = es@;
        match found {
            Some(i) => {
                proof {
                    lemma_map_of_update(before, i as int, key, value);
                }
                es.set(i, (key, value));
                assert(keys_distinct(es@)) by {
                    assert forall|a: int, b: int| 0 <= a < b < es@.len() implies #[trigger] es@[a].0@
                        != #[trigger] es@[b].0@ by {
                        assert(before[a].0@ != before[b].0@);
                    }
                }
            },
            None => {
                proof {
                    lemma_map_of_push(before, key, value);
                }
                es.push((key, value));
                assert(keys_distinct(es@)) by {
                    assert forall|a: int, b: int| 0 <= a < b < es@.len() implies #[trigger] es@[a].0@
                        != #[trigger] es@[b].0@ by {
                        if b == before.len() {
                            assert(before[a].0@ == es@[a].0@);
                        } else {
                            assert(before[a].0@ != before[b].0@);
                        }
                    }
                }
            },
        }
        self.entries = es;
    }
}

/// Values whose copy has the same view as the original.
pub trait Duplicate: View + Sized {
    fn duplicate(&self) -> (r: Self)
        ensures
            r@ == self@,
    ;
}

impl Duplicate for String {
    fn duplicate(&self) -> (r: Self) {
        self.clone()
    }
}

impl Duplicate for u8 {
    fn duplicate(&self) -> (r: Self) {
        *self
    }
}

impl Duplicate for i32 {
    fn duplicate(&self) -> (r: Self) {
        *self
    }
}

impl<V: Duplicate> Clone for StrMap<V> {
    fn clone(&self) -> (r: Self)
        ensures
            r@ == self@,
    {
        proof {
            use_type_invariant(self);
        }
        let mut entries: Vec<(String, V)> = Vec::new();
        let mut i: usize = 0;
        while i < self.entries.len()
            invariant
                i <= self.entries@.len(),
                keys_distinct(self.entries@),
                entries@.len() == i,
                forall|j: int|
                    0 <= j < i ==> (#[trigger] entries@[j]).0@ == self.entries@[j].0@ && entries@[j].1@
                        == self.entries@[j].1@,
            decreases self.entries@.len() - i,
        {
            let k = self.entries[i].0.clone();
            let v = self.entries[i].1.duplicate();
            entries.push((k, v));
            i = i + 1;
        }
        proof {
            lemma_map_of_same_views(entries@, self.entries@);
        }
        StrMap { entries }
    }
}

proof fn lemma_map_of_same_views<V: View>(a: Seq<(String, V)>, b: Seq<(String, V)>)
    requires
        a.len() == b.len(),
        forall|j: int| 0 <= j < a.len() ==> (#[trigger] a[j]).0@ == b[j].0@ && a[j].1@ == b[j].1@,
    ensures
        map_of(a) == map_of(b),
    decreases a.len(),
{
    if a.len() > 0 {
        assert forall|j: int| 0 <= j < a.drop_first().len() implies (#[trigger] a.drop_first()[j]).0@
            == b.drop_first()[j].0@ && a.drop_first()[j].1@ == b.drop_first()[j].1@ by {
            assert(a.drop_first()[j] == a[j + 1]);
            assert(b.drop_first()[j] == b[j + 1]);
        }
        lemma_map_of_same_views(a.drop_first(), b.drop_first());
        assert(a[0].0@ == b[0].0@ && a[0].1@ == b[0].1@);
    }
}

} // verus!
