//! The blob storage model: archives raw document bytes under a key
//! derived deterministically from the target's provenance.

use crate::sboms::CdxFormat;
use crate::strings::str_eq;
use crate::xrefs::Xref;
use vstd::prelude::*;
use vstd::string::StringExecFns;

verus! {

/// Whether a blob is stored under the key.
pub open spec fn blobs_contain(s: Seq<(Seq<char>, Seq<u8>)>, k: Seq<char>) -> bool {
    exists|i: int| 0 <= i < s.len() && s[i].0 == k
}

/// The position of the blob stored under the key.
pub open spec fn blob_index(s: Seq<(Seq<char>, Seq<u8>)>, k: Seq<char>) -> int {
    choose|i: int| 0 <= i < s.len() && s[i].0 == k
}

/// Blobs with pairwise distinct keys.
pub open spec fn blobs_wf(s: Seq<(Seq<char>, Seq<u8>)>) -> bool {
    forall|i: int, j: int| 0 <= i < j < s.len() ==> s[i].0 != s[j].0
}

/// The bytes stored under a key.
pub open spec fn blob_value(s: Seq<(Seq<char>, Seq<u8>)>, k: Seq<char>) -> Seq<u8> {
    s[blob_index(s, k)].1
}

/// The effect of a put: replace in place when the key is present,
/// append when it is new.
pub open spec fn blob_put_spec(s: Seq<(Seq<char>, Seq<u8>)>, k: Seq<char>, v: Seq<u8>) -> Seq<
    (Seq<char>, Seq<u8>),
> {
    if blobs_contain(s, k) {
        s.update(blob_index(s, k), (k, v))
    } else {
        s.push((k, v))
    }
}

/// With distinct keys, any matching position is the position.
pub proof fn lemma_blob_index_unique(s: Seq<(Seq<char>, Seq<u8>)>, k: Seq<char>, i: int)
    requires
        blobs_wf(s),
        0 <= i < s.len(),
        s[i].0 == k,
    ensures
        blob_index(s, k) == i,
{
    let j = blob_index(s, k);
    assert(0 <= j < s.len() && s[j].0 == k);
}

/// A put preserves key distinctness.
pub proof fn lemma_blob_put_wf(s: Seq<(Seq<char>, Seq<u8>)>, k: Seq<char>, v: Seq<u8>)
    requires
        blobs_wf(s),
    ensures
        blobs_wf(blob_put_spec(s, k, v)),
{
    let s2 = blob_put_spec(s, k, v);
    if blobs_contain(s, k) {
        let idx = blob_index(s, k);
        assert(0 <= idx < s.len() && s[idx].0 == k);
        assert forall|a: int, b: int| 0 <= a < b < s2.len() implies s2[a].0 != s2[b].0 by {
            assert(s[a].0 != s[b].0);
            assert(s2[a].0 == s[a].0);
            assert(s2[b].0 == s[b].0);
        }
    } else {
        assert forall|a: int, b: int| 0 <= a < b < s2.len() implies s2[a].0 != s2[b].0 by {
            if b < s2.len() - 1 {
                assert(s[a].0 != s[b].0);
            }
        }
    }
}

/// LAW: the archive round-trips. Putting raw bytes under a key and
/// reading that key back returns byte-identical content.
pub proof fn lemma_blob_round_trip(s: Seq<(Seq<char>, Seq<u8>)>, k: Seq<char>, v: Seq<u8>)
    requires
        blobs_wf(s),
    ensures
        blobs_contain(blob_put_spec(s, k, v), k),
        blob_value(blob_put_spec(s, k, v), k) == v,
{
    let s2 = blob_put_spec(s, k, v);
    lemma_blob_put_wf(s, k, v);
    if blobs_contain(s, k) {
        let idx = blob_index(s, k);
        assert(0 <= idx < s.len() && s[idx].0 == k);
        assert(s2[idx] == (k, v));
        lemma_blob_index_unique(s2, k, idx);
    } else {
        let idx = s.len() as int;
        assert(s2[idx] == (k, v));
        lemma_blob_index_unique(s2, k, idx);
    }
}

/// The key a raw document is archived under, derived from the
/// provenance and the document format alone.
pub open spec fn blob_key_spec(x: Xref, format: CdxFormat) -> Seq<char> {
    x.provider@ + "/"@ + x.org_id@ + "/"@ + x.project_id@ + "."@ + format.extension_spec()
}

/// Builds the archive key for a target's raw document.
pub fn blob_key(x: &Xref, format: CdxFormat) -> (r: String)
    ensures
        r@ == blob_key_spec(*x, format),
{
    let mut key = String::new();
    key.append(x.provider.as_str());
    key.append("/");
    key.append(x.org_id.as_str());
    key.append("/");
    key.append(x.project_id.as_str());
    key.append(".");
    key.append(format.extension());
    key
}

/// An in-memory model of the blob storage backend.
#[derive(Debug)]
pub struct BlobStore {
    entries: Vec<(String, Vec<u8>)>,
}

impl View for BlobStore {
    type V = Seq<(Seq<char>, Seq<u8>)>;

    closed spec fn view(&self) -> Seq<(Seq<char>, Seq<u8>)> {
        self.entries@.map(|_i: int, p: (String, Vec<u8>)| (p.0@, p.1@))
    }
}

impl BlobStore {
    /// Distinct keys; always maintained.
    pub open spec fn wf(&self) -> bool {
        blobs_wf(self@)
    }

    /// An empty blob store.
    pub fn new() -> (r: BlobStore)
        ensures
            r@ == Seq::<(Seq<char>, Seq<u8>)>::empty(),
            r.wf(),
    {
        let r = BlobStore { entries: Vec::new() };
        proof {
            assert(r@ =~= Seq::<(Seq<char>, Seq<u8>)>::empty());
        }
        r
    }

    /// Stores bytes under a key, replacing any earlier content.
    pub fn put(&mut self, key: String, bytes: Vec<u8>)
        requires
            old(self).wf(),
        ensures
            final(self).wf(),
            final(self)@ == blob_put_spec(old(self)@, key@, bytes@),
    {
        let ghost kv = key@;
        let ghost bv = bytes@;
        let n = self.entries.len();
        for i in 0..n
            invariant
                self.wf(),
                self@ == old(self)@,
                n == self.entries@.len(),
                key@ == kv,
                bytes@ == bv,
                forall|j: int| 0 <= j < i ==> self@[j].0 != kv,
        {
            if str_eq(self.entries[i].0.as_str(), key.as_str()) {
                proof {
                    assert(self@[i as int].0 == kv);
                    lemma_blob_index_unique(self@, kv, i as int);
                }
                self.entries.set(i, (key, bytes));
                proof {
                    assert(self@[i as int] == (kv, bv));
                    assert(forall|j: int|
                        0 <= j < self@.len() && j != i as int ==> self@[j] == old(self)@[j]);
                    assert(self@ =~= blob_put_spec(old(self)@, kv, bv));
                    lemma_blob_put_wf(old(self)@, kv, bv);
                }
                return ;
            }
        }
        self.entries.push((key, bytes));
        proof {
            assert(self@.len() == old(self)@.len() + 1);
            assert(forall|j: int| 0 <= j < old(self)@.len() ==> self@[j] == old(self)@[j]);
            assert(self@[old(self)@.len() as int] == (kv, bv));
            assert(self@ =~= blob_put_spec(old(self)@, kv, bv));
            lemma_blob_put_wf(old(self)@, kv, bv);
        }
    }

    /// Reads back the bytes stored under a key.
    pub fn get(&self, key: &str) -> (r: Option<Vec<u8>>)
        requires
            self.wf(),
        ensures
            match r {
                Some(v) => blobs_contain(self@, key@) && v@ == blob_value(self@, key@),
                None => !blobs_contain(self@, key@),
            },
    {
        let n = self.entries.len();
        for i in 0..n
            invariant
                self.wf(),
                n == self.entries@.len(),
                forall|j: int| 0 <= j < i ==> self@[j].0 != key@,
        {
            if str_eq(self.entries[i].0.as_str(), key) {
                proof {
                    assert(self@[i as int].0 == key@);
                    lemma_blob_index_unique(self@, key@, i as int);
                }
                let mut out: Vec<u8> = Vec::new();
                let m = self.entries[i].1.len();
                for j in 0..m
                    invariant
                        m == self.entries@[i as int].1@.len(),
                        i < self.entries@.len(),
                        out@ =~= self.entries@[i as int].1@.take(j as int),
                    {
                    out.push(self.entries[i].1[j]);
                    proof {
                        assert(out@ =~= self.entries@[i as int].1@.take(j + 1));
                    }
                }
                proof {
                    assert(self.entries@[i as int].1@.take(m as int) =~= self.entries@[i as int].1@);
                }
                return Some(out);
            }
        }
        None
    }

    /// The number of stored blobs.
    pub fn len(&self) -> (r: usize)
        ensures
            r == self@.len(),
    {
        self.entries.len()
    }
}

} // verus!
