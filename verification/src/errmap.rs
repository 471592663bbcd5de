//! An accumulator mapping a key (a target or sub-entity identifier)
//! to the message of the recoverable error recorded for it. Insertion
//! order is kept; inserting an existing key overwrites its message.

use crate::strings::str_eq;
use vstd::prelude::*;
use vstd::string::StringExecFns;

verus! {

/// A mapping from identifiers to error messages, in insertion order.
#[derive(Debug)]
pub struct ErrorMap {
    entries: Vec<(String, String)>,
}

impl View for ErrorMap {
    type V = Seq<(Seq<char>, Seq<char>)>;

    closed spec fn view(&self) -> Seq<(Seq<char>, Seq<char>)> {
        self.entries@.map(|_i: int, p: (String, String)| (p.0@, p.1@))
    }
}

/// Whether an entry sequence binds a key.
pub open spec fn map_contains_key(s: Seq<(Seq<char>, Seq<char>)>, k: Seq<char>) -> bool {
    exists|i: int| 0 <= i < s.len() && s[i].0 == k
}

/// The position of a key among the entries.
pub open spec fn key_index(s: Seq<(Seq<char>, Seq<char>)>, k: Seq<char>) -> int {
    choose|i: int| 0 <= i < s.len() && s[i].0 == k
}

/// Entries with pairwise distinct keys.
pub open spec fn map_wf(s: Seq<(Seq<char>, Seq<char>)>) -> bool {
    forall|i: int, j: int| 0 <= i < j < s.len() ==> s[i].0 != s[j].0
}

/// The value bound to a key.
pub open spec fn map_value(s: Seq<(Seq<char>, Seq<char>)>, k: Seq<char>) -> Seq<char> {
    s[key_index(s, k)].1
}

/// Inserting binds the key to the message: in place where the key is
/// already bound, at the end where it is new.
pub open spec fn map_insert(
    s: Seq<(Seq<char>, Seq<char>)>,
    k: Seq<char>,
    v: Seq<char>,
) -> Seq<(Seq<char>, Seq<char>)> {
    if map_contains_key(s, k) {
        s.update(key_index(s, k), (k, v))
    } else {
        s.push((k, v))
    }
}

/// With distinct keys, the position of a matching key is the position
/// of any matching entry.
pub proof fn lemma_key_index_unique(s: Seq<(Seq<char>, Seq<char>)>, k: Seq<char>, i: int)
    requires
        map_wf(s),
        0 <= i < s.len(),
        s[i].0 == k,
    ensures
        key_index(s, k) == i,
{
    let j = key_index(s, k);
    assert(0 <= j < s.len() && s[j].0 == k);
}

impl ErrorMap {
    /// Distinct keys; always maintained.
    pub open spec fn wf(&self) -> bool {
        map_wf(self@)
    }

    /// An empty map.
    pub fn new() -> (r: ErrorMap)
        ensures
            r@ == Seq::<(Seq<char>, Seq<char>)>::empty(),
            r.wf(),
    {
        let r = ErrorMap { entries: Vec::new() };
        proof {
            assert(r@ =~= Seq::<(Seq<char>, Seq<char>)>::empty());
        }
        r
    }

    /// The number of keys bound.
    pub fn len(&self) -> (r: usize)
        ensures
            r == self@.len(),
    {
        self.entries.len()
    }

    /// Whether no error has been recorded.
    pub fn is_empty(&self) -> (r: bool)
        ensures
            r == (self@.len() == 0),
    {
        self.entries.len() == 0
    }

    /// Whether an error has been recorded under the key.
    pub fn contains(&self, k: &str) -> (r: bool)
        ensures
            r == map_contains_key(self@, k@),
    {
        let n = self.entries.len();
        for i in 0..n
            invariant
                n == self.entries@.len(),
                forall|j: int| 0 <= j < i ==> self@[j].0 != k@,
        {
            if str_eq(self.entries[i].0.as_str(), k) {
                proof {
                    assert(self@[i as int].0 == k@);
                }
                return true;
            }
        }
        false
    }

    /// The message recorded under a key, if any.
    pub fn get(&self, k: &str) -> (r: Option<String>)
        requires
            self.wf(),
        ensures
            match r {
                Some(v) => map_contains_key(self@, k@) && v@ == map_value(self@, k@),
                None => !map_contains_key(self@, k@),
            },
    {
        let n = self.entries.len();
        for i in 0..n
            invariant
                self.wf(),
                n == self.entries@.len(),
                forall|j: int| 0 <= j < i ==> self@[j].0 != k@,
        {
            if str_eq(self.entries[i].0.as_str(), k) {
                proof {
                    assert(self@[i as int].0 == k@);
                    lemma_key_index_unique(self@, k@, i as int);
                    assert(self@[i as int].1 == self.entries@[i as int].1@);
                }
                return Some(self.entries[i].1.clone());
            }
        }
        None
    }

    /// Records a message under a key, overwriting any earlier one.
    pub fn insert(&mut self, k: String, v: String)
        requires
            old(self).wf(),
        ensures
            final(self)@ == map_insert(old(self)@, k@, v@),
            final(self).wf(),
    {
        let n = self.entries.len();
        for i in 0..n
            invariant
                self.wf(),
                self@ == old(self)@,
                n == self.entries@.len(),
                forall|j: int| 0 <= j < i ==> self@[j].0 != k@,
        {
            if str_eq(self.entries[i].0.as_str(), k.as_str()) {
                proof {
                    assert(self@[i as int].0 == k@);
                    lemma_key_index_unique(self@, k@, i as int);
                }
                self.entries.set(i, (k, v));
                proof {
                    assert(self@[i as int] == (k@, v@));
                    assert(forall|j: int|
                        0 <= j < self@.len() && j != i as int ==> self@[j] == old(self)@[j]);
                    assert(self@ =~= map_insert(old(self)@, k@, v@));
                    assert forall|a: int, b: int|
                        0 <= a < b < self@.len() implies self@[a].0 != self@[b].0 by {
                        assert(old(self)@[a].0 != old(self)@[b].0);
                        assert(self@[a].0 == old(self)@[a].0);
                        assert(self@[b].0 == old(self)@[b].0);
                    }
                }
                return ;
            }
        }
        self.entries.push((k, v));
        proof {
            assert(self@.len() == old(self)@.len() + 1);
            assert(forall|j: int| 0 <= j < old(self)@.len() ==> self@[j] == old(self)@[j]);
            assert(self@[old(self)@.len() as int] == (k@, v@));
            assert(self@ =~= map_insert(old(self)@, k@, v@));
            assert forall|a: int, b: int|
                0 <= a < b < self@.len() implies self@[a].0 != self@[b].0 by {
                if b < self@.len() - 1 {
                    assert(old(self)@[a].0 != old(self)@[b].0);
                }
            }
        }
    }

    /// The keys in insertion order.
    pub fn key_at(&self, i: usize) -> (r: String)
        requires
            i < self@.len(),
        ensures
            r@ == self@[i as int].0,
    {
        self.entries[i].0.clone()
    }

    /// Renders the map as `key=message;` pairs in insertion order.
    pub fn to_text(&self) -> (r: String)
        ensures
            r@ == rendered(self@),
    {
        let mut out = String::new();
        let n = self.entries.len();
        for i in 0..n
            invariant
                n == self.entries@.len(),
                out@ == rendered(self@.take(i as int)),
        {
            out.append(self.entries[i].0.as_str());
            out.append("=");
            out.append(self.entries[i].1.as_str());
            out.append(";");
            proof {
                assert(self@.take(i + 1).drop_last() =~= self@.take(i as int));
                assert(self@.take(i + 1).last() == self@[i as int]);
            }
        }
        proof {
            assert(self@.take(n as int) =~= self@);
        }
        out
    }
}

/// The rendering of entries as `key=message;` pairs.
pub open spec fn rendered(s: Seq<(Seq<char>, Seq<char>)>) -> Seq<char>
    decreases s.len(),
{
    if s.len() == 0 {
        Seq::empty()
    } else {
        rendered(s.drop_last()) + s.last().0 + "="@ + s.last().1 + ";"@
    }
}


/// Inserting binds exactly the given key: afterwards a key is bound
/// iff it was bound before or it is the inserted one.
pub proof fn lemma_map_insert_keys(
    s: Seq<(Seq<char>, Seq<char>)>,
    k: Seq<char>,
    v: Seq<char>,
    k2: Seq<char>,
)
    requires
        map_wf(s),
    ensures
        map_contains_key(map_insert(s, k, v), k2) <==> (map_contains_key(s, k2) || k2 == k),
{
    let s2 = map_insert(s, k, v);
    if map_contains_key(s, k) {
        let idx = key_index(s, k);
        assert(0 <= idx < s.len() && s[idx].0 == k);
        assert(forall|i: int| 0 <= i < s2.len() ==> s2[i].0 == s[i].0);
        if map_contains_key(s2, k2) {
            let w = choose|w: int| 0 <= w < s2.len() && s2[w].0 == k2;
            assert(s[w].0 == k2);
        }
        if map_contains_key(s, k2) {
            let w = choose|w: int| 0 <= w < s.len() && s[w].0 == k2;
            assert(s2[w].0 == k2);
        }
        if k2 == k {
            assert(s2[idx].0 == k2);
        }
    } else {
        if map_contains_key(s2, k2) {
            let w = choose|w: int| 0 <= w < s2.len() && s2[w].0 == k2;
            if w < s.len() {
                assert(s[w].0 == k2);
            } else {
                assert(k2 == k);
            }
        }
        if map_contains_key(s, k2) {
            let w = choose|w: int| 0 <= w < s.len() && s[w].0 == k2;
            assert(s2[w].0 == k2);
        }
        if k2 == k {
            assert(s2[s.len() as int].0 == k2);
        }
    }
}


/// Inserting never shrinks the map and never leaves it empty.
pub proof fn lemma_map_insert_len(s: Seq<(Seq<char>, Seq<char>)>, k: Seq<char>, v: Seq<char>)
    ensures
        map_insert(s, k, v).len() >= s.len(),
        map_insert(s, k, v).len() >= 1,
{
}


/// Inserting binds the key to exactly the message and leaves every
/// other binding as it was.
pub proof fn lemma_map_insert_value(
    s: Seq<(Seq<char>, Seq<char>)>,
    k: Seq<char>,
    v: Seq<char>,
    k2: Seq<char>,
)
    requires
        map_wf(s),
    ensures
        map_value(map_insert(s, k, v), k) == v,
        k2 != k && map_contains_key(s, k2) ==> map_value(map_insert(s, k, v), k2) == map_value(
            s,
            k2,
        ),
{
    let s2 = map_insert(s, k, v);
    assert(map_wf(s2)) by {
        if map_contains_key(s, k) {
            assert(forall|i: int| 0 <= i < s2.len() ==> s2[i].0 == s[i].0);
            assert forall|a: int, b: int| 0 <= a < b < s2.len() implies s2[a].0 != s2[b].0 by {
                assert(s[a].0 != s[b].0);
            }
        } else {
            assert forall|a: int, b: int| 0 <= a < b < s2.len() implies s2[a].0 != s2[b].0 by {
                if b < s2.len() - 1 {
                    assert(s[a].0 != s[b].0);
                } else {
                    assert(s2[b] == (k, v));
                }
            }
        }
    }
    if map_contains_key(s, k) {
        let idx = key_index(s, k);
        assert(0 <= idx < s.len() && s[idx].0 == k);
        assert(s2[idx] == (k, v));
        lemma_key_index_unique(s2, k, idx);
    } else {
        let idx = s.len() as int;
        assert(s2[idx] == (k, v));
        lemma_key_index_unique(s2, k, idx);
    }
    if k2 != k && map_contains_key(s, k2) {
        let w = key_index(s, k2);
        assert(0 <= w < s.len() && s[w].0 == k2);
        assert(s2[w] == s[w]);
        lemma_key_index_unique(s2, k2, w);
    }
}

} // verus!
