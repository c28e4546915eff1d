//! Addresses of sub-terms and the learner's multi-selection.
//!
//! An [`Address`] is the path of child indices from the root of an
//! expression tree (the empty path is the root).  A [`SelectionSet`] is the
//! ordered, duplicate-free collection of addresses the learner has clicked
//! on the current step; it is toggled one address at a time and cleared
//! whenever the step it was computed against is superseded.

use vstd::prelude::*;

verus! {

broadcast use vstd::std_specs::vec::group_vec_axioms;

/// A path of child indices locating a node within an expression tree.
#[derive(Debug)]
pub struct Address {
    pub path: Vec<usize>,
}

impl Address {
    /// The mathematical value of the address: its index sequence.
    pub open spec fn model(self) -> Seq<usize> {
        self.path@
    }

    pub fn new(path: Vec<usize>) -> (a: Address)
        ensures
            a.model() == path@,
    {
        Address { path }
    }

    /// A copy with the same index sequence.
    pub fn duplicate(&self) -> (a: Address)
        ensures
            a.model() == self.model(),
    {
        let mut path: Vec<usize> = Vec::new();
        let n = self.path.len();
        #[verifier::loop_isolation(false)]
        for i in 0..n
            invariant
                path@ == self.path@.subrange(0, i as int),
        {
            path.push(self.path[i]);
            proof {
                assert(path@ =~= self.path@.subrange(0, i + 1 as int));
            }
        }
        proof {
            assert(path@ =~= self.path@);
        }
        Address { path }
    }

    /// Two addresses are equal exactly when their index sequences are.
    pub fn same_as(&self, other: &Address) -> (r: bool)
        ensures
            r == (self.model() == other.model()),
    {
        let n = self.path.len();
        if n != other.path.len() {
            proof {
                assert(self.model() != other.model());
            }
            return false;
        }
        #[verifier::loop_isolation(false)]
        for i in 0..n
            invariant
                forall|j: int| 0 <= j < i ==> self.path@[j] == other.path@[j],
        {
            if self.path[i] != other.path[i] {
                return false;
            }
        }
        proof {
            assert(self.model() =~= other.model());
        }
        true
    }
}

/// The models of a sequence of addresses, element by element.
pub open spec fn addrs_model(s: Seq<Address>) -> Seq<Seq<usize>> {
    s.map(|i: int, a: Address| a.path@)
}

/// The predicate selecting everything other than `a`; used by removal.
pub open spec fn differs_from(a: Seq<usize>) -> spec_fn(Seq<usize>) -> bool {
    |x: Seq<usize>| x != a
}

/// What one toggle does to the selection, as a sequence transformer:
/// wanting an absent address appends it, wanting a present one changes
/// nothing, and unwanting removes every entry equal to it.
pub open spec fn spec_toggle(s: Seq<Seq<usize>>, a: Seq<usize>, want_present: bool) -> Seq<
    Seq<usize>,
> {
    if want_present {
        if s.contains(a) {
            s
        } else {
            s.push(a)
        }
    } else {
        s.filter(differs_from(a))
    }
}

/// The learner's current multi-selection: an ordered, duplicate-free
/// collection of addresses on the active step.
#[derive(Debug)]
pub struct SelectionSet {
    pub addresses: Vec<Address>,
}

impl SelectionSet {
    /// The mathematical value of the selection: the sequence of address
    /// index sequences, in click order.
    pub open spec fn model(self) -> Seq<Seq<usize>> {
        addrs_model(self.addresses@)
    }

    pub fn new() -> (s: SelectionSet)
        ensures
            s.model() == Seq::<Seq<usize>>::empty(),
    {
        let s = SelectionSet { addresses: Vec::new() };
        proof {
            assert(s.model() =~= Seq::<Seq<usize>>::empty());
        }
        s
    }

    /// Whether `addr` is currently selected.
    pub fn contains(&self, addr: &Address) -> (r: bool)
        ensures
            r == self.model().contains(addr.model()),
    {
        let n = self.addresses.len();
        #[verifier::loop_isolation(false)]
        for i in 0..n
            invariant
                forall|j: int| 0 <= j < i ==> self.model()[j] != addr.model(),
        {
            if self.addresses[i].same_as(addr) {
                proof {
                    assert(self.model()[i as int] == addr.model());
                }
                return true;
            }
        }
        false
    }

    /// Toggle `addr`: append it when wanted and absent, leave the
    /// selection alone when wanted and present, and remove every entry
    /// equal to it when unwanted.
    pub fn toggle(&mut self, addr: &Address, want_present: bool)
        ensures
            final(self).model() == spec_toggle(old(self).model(), addr.model(), want_present),
    {
        if want_present {
            if !self.contains(addr) {
                self.addresses.push(addr.duplicate());
                proof {
                    assert(self.model() =~= old(self).model().push(addr.model()));
                }
            }
        } else {
            let mut kept: Vec<Address> = Vec::new();
            let n = self.addresses.len();
            #[verifier::loop_isolation(false)]
            for i in 0..n
                invariant
                    addrs_model(kept@) == addrs_model(self.addresses@.subrange(0, i as int)).filter(
                        differs_from(addr.model()),
                    ),
            {
                proof {
                    let prefix = addrs_model(self.addresses@.subrange(0, i as int));
                    let next = addrs_model(self.addresses@.subrange(0, i + 1 as int));
                    assert(next.drop_last() =~= prefix);
                    assert(next.last() == self.addresses@[i as int].path@);
                    reveal_with_fuel(Seq::filter, 2);
                }
                if !self.addresses[i].same_as(addr) {
                    let a = self.addresses[i].duplicate();
                    kept.push(a);
                    proof {
                        assert(addrs_model(kept@) =~= addrs_model(kept@.drop_last()).push(
                            self.addresses@[i as int].path@,
                        ));
                    }
                }
            }
            proof {
                assert(self.addresses@.subrange(0, n as int) =~= self.addresses@);
            }
            self.addresses = kept;
        }
    }

    /// Forget the whole selection.
    pub fn clear(&mut self)
        ensures
            final(self).model() == Seq::<Seq<usize>>::empty(),
    {
        self.addresses = Vec::new();
        proof {
            assert(self.model() =~= Seq::<Seq<usize>>::empty());
        }
    }

    pub fn len(&self) -> (n: usize)
        ensures
            n == self.model().len(),
    {
        self.addresses.len()
    }
}

/// Law: toggling an address on twice leaves the selection exactly as one
/// toggle does.
pub proof fn lemma_toggle_idempotent(s: Seq<Seq<usize>>, a: Seq<usize>)
    ensures
        spec_toggle(spec_toggle(s, a, true), a, true) == spec_toggle(s, a, true),
{
    let s1 = spec_toggle(s, a, true);
    if !s.contains(a) {
        assert(s.push(a)[s.len() as int] == a);
        assert(s1.contains(a));
    }
}

/// Every element of `s` other than `a` survives removal untouched: when no
/// element equals `a`, removal is the identity.
proof fn lemma_remove_absent(s: Seq<Seq<usize>>, a: Seq<usize>)
    requires
        forall|i: int| 0 <= i < s.len() ==> s[i] != a,
    ensures
        s.filter(differs_from(a)) == s,
    decreases s.len(),
{
    reveal_with_fuel(Seq::filter, 2);
    if s.len() > 0 {
        lemma_remove_absent(s.drop_last(), a);
        assert(s.filter(differs_from(a)) =~= s);
    } else {
        assert(s.filter(differs_from(a)) =~= s);
    }
}

/// Law: toggling an absent address on and then off returns the selection
/// to exactly what it was.
pub proof fn lemma_toggle_round_trip(s: Seq<Seq<usize>>, a: Seq<usize>)
    requires
        !s.contains(a),
    ensures
        spec_toggle(spec_toggle(s, a, true), a, false) == s,
{
    let s1 = s.push(a);
    reveal_with_fuel(Seq::filter, 2);
    assert(s1.drop_last() =~= s);
    assert(forall|i: int| 0 <= i < s.len() ==> s[i] != a) by {
        assert(forall|i: int| 0 <= i < s.len() ==> s[i] == s[i] && !s.contains(a));
    }
    lemma_remove_absent(s, a);
    assert(spec_toggle(s1, a, false) == s1.filter(differs_from(a)));
}

} // verus!
