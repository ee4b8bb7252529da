//! Sets of layer digests and their difference.

use vstd::prelude::*;

verus! {

/// A finite set of normalized layer digests.
///
/// The digests are kept in insertion order without repetition; the view
/// forgets the order.
#[derive(Debug)]
pub struct LayerSet {
    items: Vec<String>,
}

impl View for LayerSet {
    type V = Set<Seq<char>>;

    closed spec fn view(&self) -> Set<Seq<char>> {
        self.digests().to_set()
    }
}

impl LayerSet {
    /// The stored digests as character sequences, in insertion order.
    spec fn digests(&self) -> Seq<Seq<char>> {
        self.items@.map_values(|d: String| d@)
    }

    #[verifier::type_invariant]
    spec fn well_formed(&self) -> bool {
        self.digests().no_duplicates()
    }

    /// Every layer set is finite.
    pub proof fn lemma_finite(&self)
        ensures
            self@.finite(),
    {
        vstd::seq_lib::seq_to_set_is_finite(self.digests());
    }

    /// The empty set.
    pub fn new() -> (s: LayerSet)
        ensures
            s@ == Set::<Seq<char>>::empty(),
    {
        let s = LayerSet { items: Vec::new() };
        s
    }

    /// The number of digests in the set.
    pub fn len(&self) -> (n: usize)
        ensures
            n == self@.len(),
    {
        proof {
            use_type_invariant(self);
            self.digests().unique_seq_to_set();
        }
        self.items.len()
    }

    /// Whether the set holds no digest.
    pub fn is_empty(&self) -> (b: bool)
        ensures
            b == (self@ == Set::<Seq<char>>::empty()),
    {
        proof {
            use_type_invariant(self);
            self.digests().unique_seq_to_set();
            self.lemma_finite();
            if self@.len() == 0 {
                assert(self@ =~= Set::<Seq<char>>::empty());
            }
        }
        self.items.len() == 0
    }

    /// Whether `digest` is a member.
    pub fn contains(&self, digest: &str) -> (b: bool)
        ensures
            b == self@.contains(digest@),
    {
        let wanted: String = digest.to_owned();
        let mut i: usize = 0;
        while i < self.items.len()
            invariant
                i <= self.items.len(),
                wanted@ == digest@,
                forall|j: int| 0 <= j < i ==> self.digests()[j] != digest@,
            decreases self.items.len() - i,
        {
            if self.items[i] == wanted {
                assert(self.digests()[i as int] == digest@);
                return true;
            }
            i += 1;
        }
        false
    }

    /// The digests of the set, each of them once, in the order in which
    /// they were added.
    pub fn to_vec(&self) -> (digests: Vec<String>)
        ensures
            digests@.map_values(|d: String| d@).no_duplicates(),
            digests@.map_values(|d: String| d@).to_set() == self@,
            digests@.len() == self@.len(),
    {
        proof {
            use_type_invariant(self);
            self.digests().unique_seq_to_set();
        }
        let mut digests: Vec<String> = Vec::new();
        let mut i: usize = 0;
        while i < self.items.len()
            invariant
                i <= self.items.len(),
                digests@.map_values(|d: String| d@) == self.digests().take(i as int),
            decreases self.items.len() - i,
        {
            let ghost before = digests@.map_values(|d: String| d@);
            digests.push(self.items[i].clone());
            assert(digests@.map_values(|d: String| d@) =~= before.push(self.digests()[i as int]));
            assert(self.digests().take(i as int + 1) =~= before.push(self.digests()[i as int]));
            i += 1;
        }
        assert(self.digests().take(i as int) =~= self.digests());
        digests
    }

    /// Adds `digest`; returns whether it was new.
    pub fn insert(&mut self, digest: String) -> (added: bool)
        ensures
            final(self)@ == old(self)@.insert(digest@),
            added == !old(self)@.contains(digest@),
    {
        proof {
            use_type_invariant(&*self);
        }
        if self.contains(digest.as_str()) {
            false
        } else {
            let ghost before = self.digests();
            let mut taken = LayerSet { items: Vec::new() };
            std::mem::swap(self, &mut taken);
            let mut items = taken.items;
            items.push(digest);
            proof {
                let after = items@.map_values(|d: String| d@);
                assert(after =~= before.push(digest@));
                before.lemma_push_to_set_commute(digest@);
            }
            *self = LayerSet { items };
            true
        }
    }
}

impl Default for LayerSet {
    fn default() -> (s: LayerSet)
        ensures
            s@ == Set::<Seq<char>>::empty(),
    {
        LayerSet::new()
    }
}

/// The digests of `a` that are not in `b`.
pub fn difference(a: &LayerSet, b: &LayerSet) -> (d: LayerSet)
    ensures
        d@ == a@.difference(b@),
{
    let mut d = LayerSet::new();
    let mut i: usize = 0;
    while i < a.items.len()
        invariant
            i <= a.items.len(),
            d@ == a.digests().take(i as int).to_set().difference(b@),
        decreases a.items.len() - i,
    {
        let item = &a.items[i];
        proof {
            let seen = a.digests().take(i as int);
            assert(a.digests().take(i as int + 1) =~= seen.push(item@));
            seen.lemma_push_to_set_commute(item@);
        }
        if !b.contains(item.as_str()) {
            d.insert(item.clone());
        }
        i += 1;
    }
    assert(a.digests().take(i as int) =~= a.digests());
    d
}

/// The difference of two layer sets holds exactly the digests of the first
/// that the second lacks.  So the difference of a set and itself is empty,
/// an empty second set takes nothing away, and an empty first set leaves
/// nothing.
pub proof fn lemma_difference_laws(a: LayerSet, b: LayerSet)
    ensures
        forall|digest: Seq<char>|
            a@.difference(b@).contains(digest) <==> a@.contains(digest) && !b@.contains(digest),
        a@.difference(a@) == Set::<Seq<char>>::empty(),
        a@.difference(Set::<Seq<char>>::empty()) == a@,
        Set::<Seq<char>>::empty().difference(b@) == Set::<Seq<char>>::empty(),
{
}

} // verus!
