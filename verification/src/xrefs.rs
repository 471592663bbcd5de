//! Cross references: provenance records linking an entity to the
//! external system and target that produced it. Entities carry a set
//! of xrefs; merging records unions the sets without duplicates.

use crate::strings::str_eq;
use vstd::prelude::*;

verus! {

/// Identifies the originating provider and its native identifiers for
/// one target.
#[derive(Debug)]
pub struct Xref {
    /// The provider that observed the target.
    pub provider: String,
    /// The provider's identifier for the organization.
    pub org_id: String,
    /// The provider's identifier for the project.
    pub project_id: String,
}

impl View for Xref {
    type V = (Seq<char>, Seq<char>, Seq<char>);

    open spec fn view(&self) -> (Seq<char>, Seq<char>, Seq<char>) {
        (self.provider@, self.org_id@, self.project_id@)
    }
}

impl Clone for Xref {
    fn clone(&self) -> (res: Self)
        ensures
            res == *self,
    {
        Xref {
            provider: self.provider.clone(),
            org_id: self.org_id.clone(),
            project_id: self.project_id.clone(),
        }
    }
}

impl Xref {
    /// Whether two xrefs identify the same provenance.
    pub fn same_as(&self, other: &Xref) -> (r: bool)
        ensures
            r == (self@ == other@),
    {
        str_eq(self.provider.as_str(), other.provider.as_str()) && str_eq(
            self.org_id.as_str(),
            other.org_id.as_str(),
        ) && str_eq(self.project_id.as_str(), other.project_id.as_str())
    }
}

/// Whether a sequence of xrefs holds one with the given identity.
pub open spec fn xrefs_contain(s: Seq<Xref>, x: (Seq<char>, Seq<char>, Seq<char>)) -> bool {
    exists|i: int| 0 <= i < s.len() && s[i]@ == x
}

/// The union of two xref sets: the base, followed by those incoming
/// xrefs whose identity the result does not yet hold, in order.
pub open spec fn xref_union(base: Seq<Xref>, incoming: Seq<Xref>) -> Seq<Xref>
    decreases incoming.len(),
{
    if incoming.len() == 0 {
        base
    } else if xrefs_contain(base, incoming[0]@) {
        xref_union(base, incoming.drop_first())
    } else {
        xref_union(base.push(incoming[0]), incoming.drop_first())
    }
}

/// Copies a vector of xrefs.
pub fn clone_xrefs(v: &Vec<Xref>) -> (r: Vec<Xref>)
    ensures
        r@ == v@,
{
    let mut r: Vec<Xref> = Vec::new();
    let n = v.len();
    for i in 0..n
        invariant
            n == v@.len(),
            r@ =~= v@.take(i as int),
    {
        r.push(v[i].clone());
        proof {
            assert(r@ =~= v@.take(i + 1));
        }
    }
    proof {
        assert(v@.take(n as int) =~= v@);
    }
    r
}

/// Whether the vector holds an xref with the given identity.
pub fn contains_xref(base: &Vec<Xref>, x: &Xref) -> (r: bool)
    ensures
        r == xrefs_contain(base@, x@),
{
    let m = base.len();
    for j in 0..m
        invariant
            m == base@.len(),
            forall|w: int| 0 <= w < j ==> base@[w]@ != x@,
    {
        if base[j].same_as(x) {
            return true;
        }
    }
    false
}

/// Appends those incoming xrefs that are not yet present.
pub fn merge_xrefs(base: &mut Vec<Xref>, incoming: &Vec<Xref>)
    ensures
        final(base)@ == xref_union(old(base)@, incoming@),
{
    let n = incoming.len();
    proof {
        assert(incoming@.skip(0) =~= incoming@);
    }
    for i in 0..n
        invariant
            n == incoming@.len(),
            xref_union(old(base)@, incoming@) == xref_union(base@, incoming@.skip(i as int)),
    {
        proof {
            assert(incoming@.skip(i as int).len() > 0);
            assert(incoming@.skip(i as int)[0] == incoming@[i as int]);
            assert(incoming@.skip(i as int).drop_first() =~= incoming@.skip(i + 1));
        }
        if !contains_xref(base, &incoming[i]) {
            base.push(incoming[i].clone());
        }
    }
    proof {
        assert(incoming@.skip(n as int) =~= Seq::<Xref>::empty());
    }
}


/// LAW: merging xref sets is a union. An identity is in the merged
/// set exactly when either side holds it, so provenance accumulates
/// and is never duplicated or lost.
pub proof fn lemma_xref_union_membership(
    base: Seq<Xref>,
    incoming: Seq<Xref>,
    x: (Seq<char>, Seq<char>, Seq<char>),
)
    ensures
        xrefs_contain(xref_union(base, incoming), x) <==> (xrefs_contain(base, x)
            || xrefs_contain(incoming, x)),
    decreases incoming.len(),
{
    if incoming.len() == 0 {
        assert(!xrefs_contain(incoming, x));
    } else {
        let head = incoming[0];
        let rest = incoming.drop_first();
        let base2 = if xrefs_contain(base, head@) {
            base
        } else {
            base.push(head)
        };
        lemma_xref_union_membership(base2, rest, x);
        assert(xrefs_contain(incoming, x) <==> (head@ == x || xrefs_contain(rest, x))) by {
            if xrefs_contain(incoming, x) {
                let w = choose|w: int| 0 <= w < incoming.len() && incoming[w]@ == x;
                if w > 0 {
                    assert(rest[w - 1]@ == x);
                }
            }
            if xrefs_contain(rest, x) {
                let w = choose|w: int| 0 <= w < rest.len() && rest[w]@ == x;
                assert(incoming[w + 1]@ == x);
            }
            if head@ == x {
                assert(incoming[0]@ == x);
            }
        }
        assert(xrefs_contain(base2, x) <==> (xrefs_contain(base, x) || head@ == x)) by {
            if xrefs_contain(base, x) {
                let w = choose|w: int| 0 <= w < base.len() && base[w]@ == x;
                assert(base2[w]@ == x);
            }
            if !xrefs_contain(base, head@) && head@ == x {
                assert(base2[base.len() as int]@ == x);
            }
            if xrefs_contain(base, head@) && head@ == x {
                assert(xrefs_contain(base, x));
            }
            if xrefs_contain(base2, x) {
                let w = choose|w: int| 0 <= w < base2.len() && base2[w]@ == x;
                if w < base.len() {
                    assert(base[w]@ == x);
                } else {
                    assert(head@ == x);
                }
            }
        }
    }
}


/// Pairwise distinct provenance identities.
pub open spec fn xrefs_distinct(s: Seq<Xref>) -> bool {
    forall|i: int, j: int| 0 <= i < j < s.len() ==> s[i]@ != s[j]@
}

/// LAW: merging xref sets never duplicates. A set of distinct
/// identities stays distinct through any merge.
pub proof fn lemma_xref_union_distinct(base: Seq<Xref>, incoming: Seq<Xref>)
    requires
        xrefs_distinct(base),
    ensures
        xrefs_distinct(xref_union(base, incoming)),
    decreases incoming.len(),
{
    if incoming.len() > 0 {
        let head = incoming[0];
        let rest = incoming.drop_first();
        if xrefs_contain(base, head@) {
            lemma_xref_union_distinct(base, rest);
        } else {
            let base2 = base.push(head);
            assert forall|i: int, j: int|
                0 <= i < j < base2.len() implies base2[i]@ != base2[j]@ by {
                if j < base2.len() - 1 {
                    assert(base[i]@ != base[j]@);
                } else {
                    assert(base2[i] == base[i]);
                    assert(base2[j] == head);
                }
            }
            lemma_xref_union_distinct(base2, rest);
        }
    }
}

} // verus!
