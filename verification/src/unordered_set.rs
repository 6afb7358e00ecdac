//! An insertion-ordered set of integers, as the contracts' storage sets keep
//! their items: a new item goes to the end, and removing an item moves the
//! last item into its place.
use vstd::prelude::*;

verus! {

/// The sequence left after removing the item at `i` by moving the last item
/// into its place.
pub open spec fn swap_removed(s: Seq<u64>, i: int) -> Seq<u64> {
    s.update(i, s.last()).drop_last()
}

/// `s` after removing `x` by moving the last item into its place; `s` when
/// `x` is not there.
pub open spec fn remove_value(s: Seq<u64>, x: u64) -> Seq<u64> {
    if s.contains(x) {
        swap_removed(s, s.index_of(x))
    } else {
        s
    }
}

/// `s` with `x` added at the end, unless it is already there.
pub open spec fn insert_value(s: Seq<u64>, x: u64) -> Seq<u64> {
    if s.contains(x) {
        s
    } else {
        s.push(x)
    }
}

/// Removing `x` keeps the items distinct and leaves exactly the other items.
pub proof fn lemma_remove_value_members(s: Seq<u64>, x: u64)
    requires
        s.no_duplicates(),
    ensures
        remove_value(s, x).no_duplicates(),
        forall|y: u64| #[trigger] remove_value(s, x).contains(y) <==> (s.contains(y) && y != x),
{
    if s.contains(x) {
        let i = s.index_of(x);
        let t = remove_value(s, x);
        assert(s[i] == x);
        assert forall|a: int, b: int| 0 <= a < t.len() && 0 <= b < t.len() && a != b implies t[a] != t[b] by {
            let la = if a == i { s.len() - 1 } else { a };
            let lb = if b == i { s.len() - 1 } else { b };
            assert(t[a] == s[la]);
            assert(t[b] == s[lb]);
        }
        assert forall|y: u64| #[trigger] t.contains(y) <==> (s.contains(y) && y != x) by {
            if t.contains(y) {
                let k = choose|k: int| 0 <= k < t.len() && t[k] == y;
                let lk = if k == i { s.len() - 1 } else { k };
                assert(t[k] == s[lk]);
                assert(lk != i);
            }
            if s.contains(y) && y != x {
                let k = choose|k: int| 0 <= k < s.len() && s[k] == y;
                assert(k != i);
                if k == s.len() - 1 {
                    assert(t[i] == y);
                } else {
                    assert(t[k] == y);
                }
            }
        }
    }
}

/// Inserting `x` keeps the items distinct and adds exactly `x`.
pub proof fn lemma_insert_value_members(s: Seq<u64>, x: u64)
    requires
        s.no_duplicates(),
    ensures
        insert_value(s, x).no_duplicates(),
        forall|y: u64| #[trigger] insert_value(s, x).contains(y) <==> (s.contains(y) || y == x),
{
    if !s.contains(x) {
        let t = s.push(x);
        assert(t[s.len() as int] == x);
        assert forall|y: u64| #[trigger] t.contains(y) <==> (s.contains(y) || y == x) by {
            if t.contains(y) {
                let k = choose|k: int| 0 <= k < t.len() && t[k] == y;
                if k < s.len() {
                    assert(s[k] == y);
                }
            }
            if s.contains(y) {
                let k = choose|k: int| 0 <= k < s.len() && s[k] == y;
                assert(t[k] == y);
            }
        }
    }
}

/// A set of integers kept in insertion order, with no item twice.
pub struct UnorderedSet {
    items: Vec<u64>,
}

impl View for UnorderedSet {
    type V = Seq<u64>;

    closed spec fn view(&self) -> Seq<u64> {
        self.items@
    }
}

impl UnorderedSet {
    /// No item occurs twice.
    #[verifier::type_invariant]
    pub open spec fn no_repeats(&self) -> bool {
        self@.no_duplicates()
    }

    pub fn new() -> (s: Self)
        ensures
            s@ == Seq::<u64>::empty(),
    {
        UnorderedSet { items: Vec::new() }
    }

    pub fn len(&self) -> (n: usize)
        ensures
            n == self@.len(),
    {
        self.items.len()
    }

    pub fn is_empty(&self) -> (b: bool)
        ensures
            b == (self@.len() == 0),
    {
        self.items.len() == 0
    }

    pub fn get(&self, i: usize) -> (x: u64)
        requires
            i < self@.len(),
        ensures
            x == self@[i as int],
    {
        self.items[i]
    }

    /// The position of `x`, if it is in the set.
    pub fn position(&self, x: u64) -> (r: Option<usize>)
        ensures
            match r {
                Some(i) => i < self@.len() && self@[i as int] == x,
                None => !self@.contains(x),
            },
    {
        let mut i: usize = 0;
        while i < self.items.len()
            invariant
                i <= self.items@.len(),
                forall|j: int| 0 <= j < i ==> self.items@[j] != x,
            decreases self.items.len() - i,
        {
            if self.items[i] == x {
                return Some(i);
            }
            i = i + 1;
        }
        None
    }

    pub fn contains(&self, x: u64) -> (b: bool)
        ensures
            b == self@.contains(x),
    {
        self.position(x).is_some()
    }

    /// Adds `x` at the end unless it is already there; says whether it was added.
    pub fn insert(&mut self, x: u64) -> (added: bool)
        ensures
            added == !old(self)@.contains(x),
            final(self)@ == insert_value(old(self)@, x),
    {
        proof {
            use_type_invariant(&*self);
        }
        if self.contains(x) {
            false
        } else {
            let mut items: Vec<u64> = Vec::new();
            std::mem::swap(&mut items, &mut self.items);
            items.push(x);
            self.items = items;
            true
        }
    }

    /// Removes `x`, moving the last item into its place; says whether it was there.
    pub fn swap_remove(&mut self, x: u64) -> (removed: bool)
        ensures
            removed == old(self)@.contains(x),
            removed ==> exists|i: int|
                0 <= i < old(self)@.len() && old(self)@[i] == x && final(self)@ == swap_removed(
                    old(self)@,
                    i,
                ),
            !removed ==> final(self)@ == old(self)@,
            final(self)@ == remove_value(old(self)@, x),
            final(self)@.to_set() == old(self)@.to_set().remove(x),
    {
        proof {
            use_type_invariant(&*self);
        }
        match self.position(x) {
            Some(i) => {
                let ghost s = self.items@;
                proof {
                    let k = s.index_of(x);
                    assert(s[k] == x);
                    assert(s[i as int] == x);
                    assert(k == i);
                }
                let mut items: Vec<u64> = Vec::new();
                std::mem::swap(&mut items, &mut self.items);
                items.swap_remove(i);
                proof {
                    let t = swap_removed(s, i as int);
                    assert(t == items@);
                    assert forall|a: int, b: int| 0 <= a < b < t.len() implies t[a] != t[b] by {
                        if a == i {
                            assert(t[a] == s[s.len() - 1]);
                            assert(t[b] == s[b]);
                        } else if b == i {
                            assert(t[b] == s[s.len() - 1]);
                            assert(t[a] == s[a]);
                        } else {
                            assert(t[a] == s[a] && t[b] == s[b]);
                        }
                    }
                }
                self.items = items;
                proof {
                    let t = swap_removed(s, i as int);
                    assert(t == self.items@);
                    assert forall|y: u64| t.to_set().contains(y) == s.to_set().remove(x).contains(y) by {
                        if t.contains(y) {
                            let k = choose|k: int| 0 <= k < t.len() && t[k] == y;
                            if k == i {
                                assert(s[s.len() - 1] == y);
                            } else {
                                assert(s[k] == y);
                            }
                        }
                        if s.contains(y) && y != x {
                            let k = choose|k: int| 0 <= k < s.len() && s[k] == y;
                            if k == s.len() - 1 {
                                assert(t[i as int] == y);
                            } else {
                                assert(k != i);
                                assert(t[k] == y);
                            }
                        }
                    }
                    assert(t.to_set() =~= s.to_set().remove(x));
                }
                true
            },
            None => {
                proof {
                    assert(self@.to_set() =~= self@.to_set().remove(x));
                }
                false
            },
        }
    }

    /// A copy of the set.
    pub fn duplicate(&self) -> (r: Self)
        ensures
            r@ == self@,
    {
        proof {
            use_type_invariant(self);
        }
        UnorderedSet { items: self.items.clone() }
    }

    /// The items, in order.
    pub fn to_vec(&self) -> (v: Vec<u64>)
        ensures
            v@ == self@,
    {
        self.items.clone()
    }
}

} // verus!
