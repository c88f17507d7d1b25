use vstd::prelude::*;
use crate::piece::Piece;

verus! {

/// A persistent rule alteration owned by one player.
///
/// All variants but `KingOfTheHill` carry the piece (kind and color) that
/// gates them.
#[derive(Clone, Copy, Debug, PartialEq, Eq, Hash, Structural)]
pub enum Modifier {
    /// The holder may drop a captured piece of this kind onto an empty square.
    CrazyHouse(Piece),
    /// A capture by this piece explodes the neighbouring non-pawn pieces.
    Atomic(Piece),
    /// This piece captures without leaving its square.
    Sniper(Piece),
    /// A king on a centre square wins the round.
    KingOfTheHill,
    /// Capturing the last piece of this kind and color wins the round.
    Extinction(Piece),
    /// Three checks delivered by this piece win the round.
    TripleCheck(Piece),
}

/// The modifiers held by one player: a set, each value at most once.
pub struct ModifierSet {
    items: Vec<Modifier>,
}

impl View for ModifierSet {
    type V = Set<Modifier>;

    closed spec fn view(&self) -> Set<Modifier> {
        self.items@.to_set()
    }
}

impl ModifierSet {
    /// The held modifiers in the order in which they were gained.
    pub closed spec fn order(&self) -> Seq<Modifier> {
        self.items@
    }

    pub closed spec fn wf(&self) -> bool {
        self.items@.no_duplicates()
    }

    proof fn lemma_push(s: Seq<Modifier>, m: Modifier)
        ensures
            s.push(m).to_set() == s.to_set().insert(m),
    {
        assert forall|x: Modifier| s.push(m).contains(x) <==> (s.contains(x) || x == m) by {
            if s.contains(x) {
                let i = choose|i: int| 0 <= i < s.len() && s[i] == x;
                assert(s.push(m)[i] == x);
            }
            if x == m {
                assert(s.push(m)[s.len() as int] == m);
            }
            if s.push(m).contains(x) {
                let i = choose|i: int| 0 <= i < s.push(m).len() && s.push(m)[i] == x;
                if i < s.len() {
                    assert(s[i] == x);
                }
            }
        }
        assert(s.push(m).to_set() =~= s.to_set().insert(m));
    }

    /// A set holding no modifier.
    pub fn new() -> (r: ModifierSet)
        ensures
            r.wf(),
            r@ == Set::<Modifier>::empty(),
            r.order() == Seq::<Modifier>::empty(),
    {
        let r = ModifierSet { items: Vec::new() };
        assert(r.items@.to_set() =~= Set::<Modifier>::empty());
        r
    }

    /// Whether `m` is held.
    pub fn contains(&self, m: Modifier) -> (r: bool)
        requires
            self.wf(),
        ensures
            r == self@.contains(m),
    {
        let mut i: usize = 0;
        while i < self.items.len()
            invariant
                i <= self.items@.len(),
                forall|j: int| 0 <= j < i ==> self.items@[j] != m,
            decreases self.items@.len() - i,
        {
            if self.items[i] == m {
                assert(self.items@.contains(m));
                return true;
            }
            i = i + 1;
        }
        false
    }

    /// Adds `m`; a value already held is not added twice.
    pub fn insert(&mut self, m: Modifier)
        requires
            old(self).wf(),
        ensures
            final(self).wf(),
            final(self)@ == old(self)@.insert(m),
            old(self)@.contains(m) ==> final(self).order() == old(self).order(),
            !old(self)@.contains(m) ==> final(self).order() == old(self).order().push(m),
    {
        if !self.contains(m) {
            proof {
                Self::lemma_push(self.items@, m);
            }
            self.items.push(m);
        } else {
            assert(old(self)@.insert(m) =~= old(self)@);
        }
    }

    /// The number of modifiers held.
    pub fn len(&self) -> (r: usize)
        requires
            self.wf(),
        ensures
            r == self@.len(),
            r == self.order().len(),
    {
        proof {
            self.items@.unique_seq_to_set();
        }
        self.items.len()
    }

    /// The `i`-th modifier in the order in which they were gained.
    pub fn get(&self, i: usize) -> (r: Modifier)
        requires
            i < self.order().len(),
        ensures
            r == self.order()[i as int],
            self@.contains(r),
    {
        self.items[i]
    }
}

} // verus!
