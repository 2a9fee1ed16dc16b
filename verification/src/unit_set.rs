//! The units a player has selected: each at most once, in ascending order.
use vstd::prelude::*;

verus! {

/// A set of unit numbers that is walked in ascending order.
pub struct UnitSet {
    ids: Vec<u32>,
}

/// Whether a list is strictly ascending.
pub open spec fn ascending(ids: Seq<u32>) -> bool {
    forall|i: int, j: int| 0 <= i < j < ids.len() ==> #[trigger] ids[i] < #[trigger] ids[j]
}

impl View for UnitSet {
    type V = Seq<u32>;

    closed spec fn view(&self) -> Seq<u32> {
        self.ids@
    }
}

impl UnitSet {
    /// Whether the units stand in order, none twice.
    pub open spec fn valid(&self) -> bool {
        ascending(self@)
    }

    /// No unit.
    pub fn new() -> (set: UnitSet)
        ensures
            set@ == Seq::<u32>::empty(),
            set.valid(),
    {
        UnitSet { ids: Vec::new() }
    }

    /// How many units there are.
    pub fn len(&self) -> (n: usize)
        ensures
            n == self@.len(),
    {
        self.ids.len()
    }

    /// The unit at a position.
    pub fn get(&self, i: usize) -> (id: u32)
        requires
            i < self@.len(),
        ensures
            id == self@[i as int],
    {
        self.ids[i]
    }

    /// Whether a unit is selected.
    pub fn contains(&self, id: u32) -> (found: bool)
        ensures
            found == self@.contains(id),
    {
        let mut i: usize = 0;
        while i < self.ids.len()
            invariant
                i <= self.ids.len(),
                forall|k: int| 0 <= k < i ==> self.ids@[k] != id,
            decreases self.ids.len() - i,
        {
            if self.ids[i] == id {
                return true;
            }
            i += 1;
        }
        false
    }

    /// Drops every unit.
    pub fn clear(&mut self)
        ensures
            final(self)@ == Seq::<u32>::empty(),
            final(self).valid(),
    {
        self.ids.clear();
    }

    /// Selects a unit that was not selected, and the other way round.
    pub fn toggle(&mut self, id: u32)
        requires
            old(self).valid(),
        ensures
            final(self).valid(),
            forall|x: u32| #[trigger]
                final(self)@.contains(x) <==> (if x == id {
                    !old(self)@.contains(x)
                } else {
                    old(self)@.contains(x)
                }),
    {
        let mut i: usize = 0;
        while i < self.ids.len() && self.ids[i] < id
            invariant
                i <= self.ids.len(),
                self@ == old(self)@,
                forall|k: int| 0 <= k < i ==> self.ids@[k] < id,
            decreases self.ids.len() - i,
        {
            i += 1;
        }
        let ghost before = self.ids@;
        if i < self.ids.len() && self.ids[i] == id {
            self.ids.remove(i);
            proof {
                let after = self.ids@;
                assert forall|x: u32| #[trigger] after.contains(x) <==> (if x == id {
                    !before.contains(x)
                } else {
                    before.contains(x)
                }) by {
                    if before.contains(x) && x != id {
                        let k = choose|k: int| 0 <= k < before.len() && before[k] == x;
                        if k < i {
                            assert(after[k] == x);
                        } else {
                            assert(after[k - 1] == x);
                        }
                    }
                    if after.contains(x) {
                        let k = choose|k: int| 0 <= k < after.len() && after[k] == x;
                        if k < i {
                            assert(before[k] == x);
                        } else {
                            assert(before[k + 1] == x);
                        }
                    }
                    assert(before[i as int] == id);
                }
            }
        } else {
            self.ids.insert(i, id);
            proof {
                let after = self.ids@;
                assert(!before.contains(id)) by {
                    if before.contains(id) {
                        let k = choose|k: int| 0 <= k < before.len() && before[k] == id;
                        assert(before[i as int] <= before[k]);
                    }
                }
                assert forall|x: u32| #[trigger] after.contains(x) <==> (if x == id {
                    !before.contains(x)
                } else {
                    before.contains(x)
                }) by {
                    assert(after[i as int] == id);
                    if before.contains(x) {
                        let k = choose|k: int| 0 <= k < before.len() && before[k] == x;
                        if k < i {
                            assert(after[k] == x);
                        } else {
                            assert(after[k + 1] == x);
                        }
                    }
                    if after.contains(x) && x != id {
                        let k = choose|k: int| 0 <= k < after.len() && after[k] == x;
                        if k < i {
                            assert(before[k] == x);
                        } else {
                            assert(before[k - 1] == x);
                        }
                    }
                }
                assert(ascending(after)) by {
                    assert forall|a: int, b: int| 0 <= a < b < after.len() implies #[trigger] after[a] < #[trigger] after[b] by {
                        if b < i {
                            assert(before[a] < before[b]);
                        } else if a < i && b > i {
                            assert(before[a] < before[b - 1]);
                        } else if a > i {
                            assert(before[a - 1] < before[b - 1]);
                        } else if a == i {
                            assert(before[i as int] <= before[b - 1]);
                        }
                    }
                }
            }
        }
    }

    /// Selects exactly the units whose numbers come in ascending order from `ids`.
    pub fn of_ascending(ids: Vec<u32>) -> (set: UnitSet)
        requires
            ascending(ids@),
        ensures
            set@ == ids@,
            set.valid(),
    {
        UnitSet { ids }
    }
}

/// Two selections of the same units are the same list.
pub proof fn selection_is_determined(a: Seq<u32>, b: Seq<u32>)
    requires
        ascending(a),
        ascending(b),
        forall|x: u32| a.contains(x) <==> b.contains(x),
    ensures
        a == b,
    decreases a.len(),
{
    if a.len() == 0 {
        if b.len() > 0 {
            assert(b.contains(b[0]));
        }
        assert(a =~= b);
    } else {
        let x = a.last();
        assert(a.contains(x));
        assert(b.contains(x));
        let k = choose|k: int| 0 <= k < b.len() && b[k] == x;
        if k < b.len() - 1 {
            assert(b.contains(b.last()));
            let m = choose|m: int| 0 <= m < a.len() && a[m] == b.last();
            assert(b[k] < b.last());
            if m < a.len() - 1 {
                assert(a[m] < a.last());
            }
        }
        let a0 = a.drop_last();
        let b0 = b.drop_last();
        assert forall|y: u32| a0.contains(y) <==> b0.contains(y) by {
            if a0.contains(y) {
                let m = choose|m: int| 0 <= m < a0.len() && a0[m] == y;
                assert(a[m] == y && a[m] < a.last());
                assert(b.contains(y));
                let n = choose|n: int| 0 <= n < b.len() && b[n] == y;
                assert(b0[n] == y);
            }
            if b0.contains(y) {
                let m = choose|m: int| 0 <= m < b0.len() && b0[m] == y;
                assert(b[m] == y && b[m] < b.last());
                assert(b.contains(y));
                assert(a.contains(y));
                let n = choose|n: int| 0 <= n < a.len() && a[n] == y;
                assert(a0[n] == y);
            }
        }
        selection_is_determined(a0, b0);
        assert(a =~= a0.push(x));
        assert(b =~= b0.push(x));
    }
}

} // verus!
