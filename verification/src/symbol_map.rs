//! A map with text keys, for the few symbols that are traded at a time.
use crate::text::same_text;
use vstd::prelude::*;

verus! {

/// A key and its value.
#[derive(Debug)]
pub struct Entry<V> {
    pub key: String,
    pub value: V,
}

/// `i` is the place of the key.
pub open spec fn has_key_at<V>(e: Seq<Entry<V>>, k: Seq<char>, i: int) -> bool {
    0 <= i < e.len() && e[i].key@ == k
}

/// No key occurs twice.
pub open spec fn distinct_keys<V>(e: Seq<Entry<V>>) -> bool {
    forall|i: int, j: int|
        0 <= i < j < e.len() ==> (#[trigger] e[i]).key@ != (#[trigger] e[j]).key@
}

/// The map that a list of entries stands for.
pub open spec fn map_of<V>(e: Seq<Entry<V>>) -> Map<Seq<char>, V> {
    Map::new(
        |k: Seq<char>| exists|i: int| has_key_at(e, k, i),
        |k: Seq<char>| e[choose|i: int| has_key_at(e, k, i)].value,
    )
}

/// A map with text keys. The entries stand in the order in which their keys came.
#[derive(Debug)]
pub struct SymbolMap<V> {
    entries: Vec<Entry<V>>,
}

impl<V> View for SymbolMap<V> {
    type V = Map<Seq<char>, V>;

    closed spec fn view(&self) -> Map<Seq<char>, V> {
        map_of(self.entries@)
    }
}

proof fn lemma_at<V>(e: Seq<Entry<V>>, i: int)
    requires
        distinct_keys(e),
        0 <= i < e.len(),
    ensures
        map_of(e).dom().contains(e[i].key@),
        map_of(e)[e[i].key@] == e[i].value,
{
    let k = e[i].key@;
    assert(has_key_at(e, k, i));
    let j = choose|j: int| has_key_at(e, k, j);
    assert(has_key_at(e, k, j));
    if i < j {
        assert(e[i].key@ != e[j].key@);
    } else if j < i {
        assert(e[j].key@ != e[i].key@);
    }
}

proof fn lemma_dom<V>(e: Seq<Entry<V>>, k: Seq<char>) -> (i: int)
    requires
        map_of(e).dom().contains(k),
    ensures
        has_key_at(e, k, i),
{
    choose|i: int| has_key_at(e, k, i)
}

impl<V> SymbolMap<V> {
    #[verifier::type_invariant]
    spec fn inv(self) -> bool {
        distinct_keys(self.entries@)
    }

    /// The entries, in the order in which their keys came.
    pub closed spec fn entry_seq(&self) -> Seq<Entry<V>> {
        self.entries@
    }

    /// A map without entries.
    pub fn new() -> (r: SymbolMap<V>)
        ensures
            r@ == Map::<Seq<char>, V>::empty(),
    {
        let r = SymbolMap { entries: Vec::new() };
        assert(r@ =~= Map::<Seq<char>, V>::empty());
        r
    }

    fn position(&self, key: &str) -> (r: Option<usize>)
        ensures
            match r {
                Some(i) => has_key_at(self.entries@, key@, i as int) && self@.dom().contains(key@)
                    && self@[key@] == self.entries@[i as int].value,
                None => !self@.dom().contains(key@),
            },
    {
        proof {
            use_type_invariant(self);
        }
        let mut i: usize = 0;
        while i < self.entries.len()
            invariant
                distinct_keys(self.entries@),
                forall|k: int| 0 <= k < i ==> (#[trigger] self.entries@[k]).key@ != key@,
            decreases self.entries.len() - i,
        {
            if same_text(self.entries[i].key.as_str(), key) {
                proof {
                    lemma_at(self.entries@, i as int);
                }
                return Some(i);
            }
            i = i + 1;
        }
        None
    }

    /// The value of a key.
    pub fn get(&self, key: &str) -> (r: Option<&V>)
        ensures
            match r {
                Some(v) => self@.dom().contains(key@) && *v == self@[key@],
                None => !self@.dom().contains(key@),
            },
    {
        match self.position(key) {
            Some(i) => Some(&self.entries[i].value),
            None => None,
        }
    }

    /// Whether the key has a value.
    pub fn contains_key(&self, key: &str) -> (r: bool)
        ensures
            r == self@.dom().contains(key@),
    {
        self.position(key).is_some()
    }

    /// Gives the key a value, in place of any that it had.
    pub fn insert(&mut self, key: &str, value: V)
        ensures
            final(self)@ == old(self)@.insert(key@, value),
    {
        proof {
            use_type_invariant(&*self);
        }
        let ghost before = self.entries@;
        let entry = Entry { key: key.to_owned(), value };
        match self.position(key) {
            Some(i) => {
                let mut entries: Vec<Entry<V>> = Vec::new();
                std::mem::swap(&mut self.entries, &mut entries);
                entries.set(i, entry);
                proof {
                    let after = entries@;
                    assert(after == before.update(i as int, entry));
                    assert(distinct_keys(after)) by {
                        assert forall|a: int, b: int| 0 <= a < b < after.len() implies (
                        #[trigger] after[a]).key@ != (#[trigger] after[b]).key@ by {
                            assert(before[a].key@ != before[b].key@);
                            assert(after[a].key@ == before[a].key@);
                            assert(after[b].key@ == before[b].key@);
                        }
                    }
                    lemma_same_places(before, after, key@, value, i as int);
                }
                self.entries = entries;
            },
            None => {
                proof {
                    assert forall|a: int| 0 <= a < before.len() implies (#[trigger] before[a]).key@
                        != key@ by {
                        if before[a].key@ == key@ {
                            lemma_at(before, a);
                        }
                    }
                }
                let mut entries: Vec<Entry<V>> = Vec::new();
                std::mem::swap(&mut self.entries, &mut entries);
                entries.push(entry);
                proof {
                    lemma_pushed(before, entries@, entry);
                }
                self.entries = entries;
            },
        }
    }

    /// Takes the key and its value away.
    pub fn remove(&mut self, key: &str) -> (r: Option<V>)
        ensures
            final(self)@ == old(self)@.remove(key@),
            match r {
                Some(v) => old(self)@.dom().contains(key@) && v == old(self)@[key@],
                None => !old(self)@.dom().contains(key@),
            },
    {
        proof {
            use_type_invariant(&*self);
        }
        let ghost before = self.entries@;
        match self.position(key) {
            Some(i) => {
                let mut entries: Vec<Entry<V>> = Vec::new();
                std::mem::swap(&mut self.entries, &mut entries);
                let entry = entries.remove(i);
                proof {
                    lemma_removed(before, entries@, i as int);
                }
                self.entries = entries;
                Some(entry.value)
            },
            None => {
                assert(self@ =~= self@.remove(key@));
                None
            },
        }
    }

    /// Number of keys. The map is that of its entries, and no key occurs twice among them.
    pub fn len(&self) -> (r: usize)
        ensures
            r as int == self.entry_seq().len(),
            self@ == map_of(self.entry_seq()),
            distinct_keys(self.entry_seq()),
    {
        proof {
            use_type_invariant(self);
        }
        self.entries.len()
    }

    /// The entry at a place.
    pub fn entry(&self, i: usize) -> (r: &Entry<V>)
        requires
            i < self.entry_seq().len(),
        ensures
            *r == self.entry_seq()[i as int],
            self@.dom().contains(r.key@),
            self@[r.key@] == r.value,
    {
        proof {
            use_type_invariant(self);
            lemma_at(self.entries@, i as int);
        }
        &self.entries[i]
    }
}

proof fn lemma_same_places<V>(
    before: Seq<Entry<V>>,
    after: Seq<Entry<V>>,
    k: Seq<char>,
    v: V,
    i: int,
)
    requires
        distinct_keys(before),
        distinct_keys(after),
        before.len() == after.len(),
        has_key_at(before, k, i),
        has_key_at(after, k, i),
        after[i].value == v,
        forall|a: int| 0 <= a < before.len() && a != i ==> #[trigger] after[a] == before[a],
    ensures
        map_of(after) == map_of(before).insert(k, v),
{
    lemma_at(before, i);
    lemma_at(after, i);
    assert forall|x: Seq<char>|
        map_of(after).dom().contains(x) == map_of(before).insert(k, v).dom().contains(x) by {
        if map_of(after).dom().contains(x) {
            let j = lemma_dom(after, x);
            if j != i {
                assert(has_key_at(before, x, j));
            }
        }
        if map_of(before).dom().contains(x) {
            let j = lemma_dom(before, x);
            if j != i {
                assert(has_key_at(after, x, j));
            }
        }
    }
    assert forall|x: Seq<char>| map_of(after).dom().contains(x) implies map_of(after)[x] == map_of(
        before,
    ).insert(k, v)[x] by {
        let j = lemma_dom(after, x);
        lemma_at(after, j);
        if j != i {
            assert(after[j] == before[j]);
            lemma_at(before, j);
            assert(x != k) by {
                if j < i {
                    assert(after[j].key@ != after[i].key@);
                } else {
                    assert(after[i].key@ != after[j].key@);
                }
            }
        }
    }
    assert(map_of(after) =~= map_of(before).insert(k, v));
}

proof fn lemma_pushed<V>(before: Seq<Entry<V>>, after: Seq<Entry<V>>, e: Entry<V>)
    requires
        distinct_keys(before),
        after == before.push(e),
        forall|a: int| 0 <= a < before.len() ==> (#[trigger] before[a]).key@ != e.key@,
    ensures
        distinct_keys(after),
        map_of(after) == map_of(before).insert(e.key@, e.value),
{
    assert forall|a: int, b: int| 0 <= a < b < after.len() implies (#[trigger] after[a]).key@ != (
    #[trigger] after[b]).key@ by {
        assert(after[a] == before[a]);
        if b < before.len() {
            assert(after[b] == before[b]);
        }
    }
    let n = before.len() as int;
    assert(after[n] == e);
    lemma_at(after, n);
    assert forall|x: Seq<char>|
        map_of(after).dom().contains(x) == map_of(before).insert(e.key@, e.value).dom().contains(
            x,
        ) by {
        if map_of(after).dom().contains(x) {
            let j = lemma_dom(after, x);
            if j < n {
                assert(has_key_at(before, x, j));
            }
        }
        if map_of(before).dom().contains(x) {
            let j = lemma_dom(before, x);
            assert(has_key_at(after, x, j));
        }
    }
    assert forall|x: Seq<char>| map_of(after).dom().contains(x) implies map_of(after)[x] == map_of(
        before,
    ).insert(e.key@, e.value)[x] by {
        let j = lemma_dom(after, x);
        lemma_at(after, j);
        if j < n {
            assert(after[j] == before[j]);
            lemma_at(before, j);
        }
    }
    assert(map_of(after) =~= map_of(before).insert(e.key@, e.value));
}

proof fn lemma_removed<V>(before: Seq<Entry<V>>, after: Seq<Entry<V>>, i: int)
    requires
        distinct_keys(before),
        0 <= i < before.len(),
        after == before.remove(i),
    ensures
        distinct_keys(after),
        map_of(after) == map_of(before).remove(before[i].key@),
{
    let k = before[i].key@;
    assert forall|a: int| 0 <= a < after.len() implies #[trigger] after[a] == before[if a < i {
        a
    } else {
        a + 1
    }] by {}
    assert forall|a: int, b: int| 0 <= a < b < after.len() implies (#[trigger] after[a]).key@ != (
    #[trigger] after[b]).key@ by {
        let x = if a < i {
            a
        } else {
            a + 1
        };
        let y = if b < i {
            b
        } else {
            b + 1
        };
        assert(before[x].key@ != before[y].key@);
    }
    lemma_at(before, i);
    assert forall|x: Seq<char>|
        map_of(after).dom().contains(x) == map_of(before).remove(k).dom().contains(x) by {
        if map_of(after).dom().contains(x) {
            let j = lemma_dom(after, x);
            let y = if j < i {
                j
            } else {
                j + 1
            };
            assert(has_key_at(before, x, y));
            if y < i {
                assert(before[y].key@ != before[i].key@);
            } else {
                assert(before[i].key@ != before[y].key@);
            }
        }
        if map_of(before).remove(k).dom().contains(x) {
            let j = lemma_dom(before, x);
            if j < i {
                assert(has_key_at(after, x, j));
            } else {
                assert(after[j - 1] == before[j]);
                assert(has_key_at(after, x, j - 1));
            }
        }
    }
    assert forall|x: Seq<char>| map_of(after).dom().contains(x) implies map_of(after)[x] == map_of(
        before,
    ).remove(k)[x] by {
        let j = lemma_dom(after, x);
        lemma_at(after, j);
        let y = if j < i {
            j
        } else {
            j + 1
        };
        assert(after[j] == before[y]);
        lemma_at(before, y);
    }
    assert(map_of(after) =~= map_of(before).remove(k));
}

} // verus!
