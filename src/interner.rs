//! Small integer ids for tag names, given out in the order the names are
//! first seen.

use vstd::prelude::*;

verus! {

/// Whether no name appears twice.
pub open spec fn distinct(names: Seq<Seq<char>>) -> bool {
    forall|i: int, j: int| 0 <= i < j < names.len() ==> names[i] != names[j]
}

/// The index of `k` in a table that holds it.
pub open spec fn position(names: Seq<Seq<char>>, k: Seq<char>) -> int {
    choose|i: int| 0 <= i < names.len() && names[i] == k
}

/// Interning `k`: the new table, the id of `k`, and whether `k` was new;
/// `None` where `k` is new and every id is taken.
pub open spec fn intern_step(names: Seq<Seq<char>>, k: Seq<char>) -> Option<
    (Seq<Seq<char>>, i32, bool),
> {
    if names.contains(k) {
        Some((names, position(names, k) as i32, false))
    } else if names.len() <= i32::MAX {
        Some((names.push(k), names.len() as i32, true))
    } else {
        None
    }
}

/// The table after interning each name of `ks` in turn, starting empty: the
/// distinct names of `ks`, each once.
pub open spec fn first_seen(ks: Seq<Seq<char>>) -> Seq<Seq<char>>
    decreases ks.len(),
{
    if ks.len() == 0 {
        Seq::empty()
    } else {
        let t = first_seen(ks.drop_last());
        if t.contains(ks.last()) {
            t
        } else {
            t.push(ks.last())
        }
    }
}

/// The index at which `k` first occurs in `ks`.
pub open spec fn first_index(ks: Seq<Seq<char>>, k: Seq<char>) -> Option<int>
    decreases ks.len(),
{
    if ks.len() == 0 {
        None
    } else {
        match first_index(ks.drop_last(), k) {
            Some(i) => Some(i),
            None => if ks.last() == k {
                Some(ks.len() - 1)
            } else {
                None
            },
        }
    }
}

/// The table of tag names seen so far; a name's id is its index.
pub struct TagInterner {
    names: Vec<String>,
}

impl View for TagInterner {
    type V = Seq<Seq<char>>;

    closed spec fn view(&self) -> Seq<Seq<char>> {
        self.names@.map_values(|s: String| s@)
    }
}

impl TagInterner {
    pub closed spec fn wf(&self) -> bool {
        &&& distinct(self@)
        &&& self@.len() <= i32::MAX as int + 1
    }

    pub fn new() -> (r: TagInterner)
        ensures
            r.wf(),
            r@ == Seq::<Seq<char>>::empty(),
    {
        let r = TagInterner { names: Vec::new() };
        assert(r@ =~= Seq::<Seq<char>>::empty());
        r
    }

    /// The id of `name`, and whether it was new: a new name gets the next id
    /// and joins the table. `None` where the name is new and every id of the
    /// tag table is taken.
    pub fn intern(&mut self, name: &String) -> (r: Option<(i32, bool)>)
        requires
            old(self).wf(),
        ensures
            final(self).wf(),
            match intern_step(old(self)@, name@) {
                Some((t, id, new)) => r == Some((id, new)) && final(self)@ == t,
                None => r is None && final(self)@ == old(self)@,
            },
    {
        let ghost names = self@;
        let mut i: usize = 0;
        while i < self.names.len()
            invariant
                i <= self.names@.len(),
                names == self@,
                names == self.names@.map_values(|s: String| s@),
                distinct(names),
                names.len() <= i32::MAX as int + 1,
                forall|j: int| 0 <= j < i ==> names[j] != name@,
            decreases self.names@.len() - i,
        {
            if self.names[i] == *name {
                proof {
                    assert(names[i as int] == name@);
                    assert(names.contains(name@));
                    let p = position(names, name@);
                    assert(names[p] == name@);
                    assert(p == i);
                }
                return Some((i as i32, false));
            }
            i = i + 1;
        }
        assert(!names.contains(name@));
        if self.names.len() > i32::MAX as usize {
            return None;
        }
        let id = self.names.len() as i32;
        self.names.push(name.clone());
        assert(self@ =~= names.push(name@));
        Some((id, true))
    }
}

proof fn lemma_first_index_bounds(ks: Seq<Seq<char>>, k: Seq<char>)
    ensures
        first_index(ks, k) is Some <==> ks.contains(k),
        first_index(ks, k) matches Some(i) ==> 0 <= i < ks.len() && ks[i] == k,
    decreases ks.len(),
{
    if ks.len() > 0 {
        let d = ks.drop_last();
        lemma_first_index_bounds(d, k);
        if d.contains(k) {
            let j = choose|j: int| 0 <= j < d.len() && d[j] == k;
            assert(ks[j] == k);
        }
        if ks.contains(k) && !d.contains(k) {
            let j = choose|j: int| 0 <= j < ks.len() && ks[j] == k;
            if j < d.len() {
                assert(d[j] == k);
            }
        }
    }
}

/// Interning a run of names from an empty table gives each distinct name one
/// id, dense from 0, in the order in which the names first occur; the ids are
/// a function of the names alone, so a second run over the same names gives
/// the same ids.
pub proof fn lemma_first_seen_ids(ks: Seq<Seq<char>>)
    ensures
        distinct(first_seen(ks)),
        forall|k: Seq<char>| first_seen(ks).contains(k) <==> ks.contains(k),
        forall|i: int|
            0 <= i < first_seen(ks).len() ==> first_index(ks, #[trigger] first_seen(ks)[i]) is Some,
        forall|i: int, j: int|
            0 <= i < j < first_seen(ks).len() ==> first_index(ks, first_seen(ks)[i])->0
                < first_index(ks, first_seen(ks)[j])->0,
    decreases ks.len(),
{
    if ks.len() > 0 {
        let d = ks.drop_last();
        let t = first_seen(d);
        lemma_first_seen_ids(d);
        let f = first_seen(ks);
        assert forall|k: Seq<char>| f.contains(k) <==> ks.contains(k) by {
            if ks.contains(k) && k != ks.last() {
                let j = choose|j: int| 0 <= j < ks.len() && ks[j] == k;
                assert(d[j] == k);
            }
            if d.contains(k) {
                let j = choose|j: int| 0 <= j < d.len() && d[j] == k;
                assert(ks[j] == k);
            }
            if k == ks.last() {
                assert(ks[ks.len() - 1] == k);
            }
            if t.contains(ks.last()) {
                assert(f == t);
            } else {
                assert(f == t.push(ks.last()));
                assert(f[t.len() as int] == ks.last());
                if t.contains(k) {
                    let j = choose|j: int| 0 <= j < t.len() && t[j] == k;
                    assert(f[j] == k);
                }
                if f.contains(k) {
                    let j = choose|j: int| 0 <= j < f.len() && f[j] == k;
                    if j < t.len() {
                        assert(t[j] == k);
                    }
                }
            }
        }
        assert forall|k: Seq<char>| t.contains(k) implies first_index(ks, k) == first_index(d, k) by {
            lemma_first_index_bounds(d, k);
        }
        if !t.contains(ks.last()) {
            let f = first_seen(ks);
            assert(f == t.push(ks.last()));
            assert forall|i: int, j: int| 0 <= i < j < f.len() implies f[i] != f[j] by {
                if j == f.len() - 1 {
                    assert(t.contains(f[i]));
                }
            }
            lemma_first_index_bounds(d, ks.last());
            assert(first_index(ks, ks.last()) == Some(ks.len() - 1));
            assert forall|i: int| 0 <= i < f.len() implies first_index(ks, #[trigger] f[i]) is Some by {
                if i < t.len() {
                    assert(t.contains(f[i]));
                }
            }
            assert forall|i: int, j: int|
                0 <= i < j < f.len() implies first_index(ks, f[i])->0 < first_index(ks, f[j])->0 by {
                assert(t.contains(f[i]));
                lemma_first_index_bounds(d, f[i]);
                if j < t.len() {
                    assert(t.contains(f[j]));
                    assert(f[j] == t[j]);
                }
            }
        } else {
            assert forall|i: int| 0 <= i < t.len() implies first_index(ks, #[trigger] t[i]) is Some by {
                assert(t.contains(t[i]));
            }
            assert forall|i: int, j: int|
                0 <= i < j < t.len() implies first_index(ks, t[i])->0 < first_index(ks, t[j])->0 by {
                assert(t.contains(t[i]));
                assert(t.contains(t[j]));
            }
        }
    }
}

/// Interning one more name into `first_seen(ks)` gives `first_seen` of the
/// longer run, with the name at its id, new exactly where `ks` lacks it.
pub proof fn lemma_intern_step_first_seen(ks: Seq<Seq<char>>, k: Seq<char>)
    requires
        first_seen(ks).len() <= i32::MAX as int + 1,
    ensures
        intern_step(first_seen(ks), k) matches Some((t, id, new)) ==> t == first_seen(ks.push(k))
            && 0 <= id < t.len() && t[id as int] == k && new == !ks.contains(k),
{
    lemma_first_seen_ids(ks);
    let t = first_seen(ks);
    let p = ks.push(k);
    assert(p.drop_last() =~= ks);
    if t.contains(k) {
        let i = position(t, k);
        assert(t[i] == k);
    } else {
        assert(t.push(k)[t.len() as int] == k);
    }
}

} // verus!
