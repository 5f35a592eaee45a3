use vstd::prelude::*;

use std::collections::VecDeque;

verus! {

/// `h` with its first entry equal to `a` taken out, if there is one.
pub open spec fn without_first(h: Seq<Seq<char>>, a: Seq<char>) -> Seq<Seq<char>>
    decreases h.len(),
{
    if h.len() == 0 {
        h
    } else if h[0] == a {
        h.drop_first()
    } else {
        seq![h[0]] + without_first(h.drop_first(), a)
    }
}

/// The texts of a sequence of strings.
pub open spec fn views(h: Seq<String>) -> Seq<Seq<char>> {
    h.map_values(|s: String| s@)
}

/// The history after `a` was used, when it holds at most `max` entries:
/// `a` moves to the most recent end, and the oldest entry leaves when the
/// history is full.
pub open spec fn with_recent(h: Seq<Seq<char>>, a: Seq<char>, max: nat) -> Seq<Seq<char>> {
    let rest = without_first(h, a);
    let kept = if rest.len() == max && rest.len() > 0 {
        rest.drop_first()
    } else {
        rest
    };
    kept.push(a)
}

proof fn lemma_without_first_at(h: Seq<Seq<char>>, a: Seq<char>, p: int)
    requires
        0 <= p < h.len(),
        h[p] == a,
        forall|j: int| 0 <= j < p ==> h[j] != a,
    ensures
        without_first(h, a) == h.remove(p),
    decreases h.len(),
{
    if p == 0 {
        assert(h.drop_first() =~= h.remove(0));
    } else {
        let t = h.drop_first();
        assert forall|j: int| 0 <= j < p - 1 implies t[j] != a by {
            assert(t[j] == h[j + 1]);
        }
        lemma_without_first_at(t, a, p - 1);
        assert(seq![h[0]] + t.remove(p - 1) =~= h.remove(p));
    }
}

proof fn lemma_without_first_absent(h: Seq<Seq<char>>, a: Seq<char>)
    requires
        forall|j: int| 0 <= j < h.len() ==> h[j] != a,
    ensures
        without_first(h, a) == h,
    decreases h.len(),
{
    if h.len() > 0 {
        let t = h.drop_first();
        assert forall|j: int| 0 <= j < t.len() implies t[j] != a by {
            assert(t[j] == h[j + 1]);
        }
        lemma_without_first_absent(t, a);
        assert(seq![h[0]] + t =~= h);
    }
}

/// No address occurs twice.
pub open spec fn distinct(h: Seq<Seq<char>>) -> bool {
    forall|i: int, j: int| 0 <= i < j < h.len() ==> h[i] != h[j]
}

proof fn lemma_without_first_distinct(h: Seq<Seq<char>>, a: Seq<char>)
    requires
        distinct(h),
    ensures
        distinct(without_first(h, a)),
        forall|j: int| 0 <= j < without_first(h, a).len() ==> without_first(h, a)[j] != a,
        without_first(h, a).len() <= h.len(),
{
    if exists|p: int| 0 <= p < h.len() && h[p] == a {
        let p = choose|p: int| 0 <= p < h.len() && h[p] == a;
        assert forall|j: int| 0 <= j < p implies h[j] != a by {
            if h[j] == a {
                assert(h[j] == h[p]);
            }
        }
        lemma_without_first_at(h, a, p);
        let r = h.remove(p);
        assert forall|j: int| 0 <= j < r.len() implies r[j] != a by {
            if j < p {
                assert(r[j] == h[j]);
            } else {
                assert(r[j] == h[j + 1]);
            }
        }
        assert forall|i: int, j: int| 0 <= i < j < r.len() implies r[i] != r[j] by {
            let hi = if i < p { i } else { i + 1 };
            let hj = if j < p { j } else { j + 1 };
            assert(r[i] == h[hi]);
            assert(r[j] == h[hj]);
        }
    } else {
        lemma_without_first_absent(h, a);
    }
}

/// Recording an address in a history that holds no address twice and no
/// more than `max` entries leaves it so, and the address is then the most
/// recent entry.
pub proof fn lemma_history_stays_bounded(h: Seq<Seq<char>>, a: Seq<char>, max: nat)
    requires
        distinct(h),
        h.len() <= max,
        max > 0,
    ensures
        distinct(with_recent(h, a, max)),
        with_recent(h, a, max).len() <= max,
        with_recent(h, a, max).last() == a,
{
    lemma_without_first_distinct(h, a);
    let rest = without_first(h, a);
    let kept = if rest.len() == max && rest.len() > 0 {
        rest.drop_first()
    } else {
        rest
    };
    assert forall|j: int| 0 <= j < kept.len() implies kept[j] != a by {
        if rest.len() == max && rest.len() > 0 {
            assert(kept[j] == rest[j + 1]);
        }
    }
    assert forall|i: int, j: int| 0 <= i < j < kept.len() implies kept[i] != kept[j] by {
        if rest.len() == max && rest.len() > 0 {
            assert(kept[i] == rest[i + 1]);
            assert(kept[j] == rest[j + 1]);
        }
    }
    let r = kept.push(a);
    assert forall|i: int, j: int| 0 <= i < j < r.len() implies r[i] != r[j] by {
        if j == kept.len() {
            assert(r[i] == kept[i]);
        } else {
            assert(r[i] == kept[i]);
            assert(r[j] == kept[j]);
        }
    }
}

/// The most recently used destination addresses, oldest first.
pub struct AddrCache {
    history: VecDeque<String>,
}

impl AddrCache {
    /// The addresses, oldest first.
    pub closed spec fn entries_view(&self) -> Seq<Seq<char>> {
        views(self.history@)
    }

    pub fn new() -> (r: AddrCache)
        ensures
            r.entries_view() == Seq::<Seq<char>>::empty(),
    {
        let r = AddrCache { history: VecDeque::new() };
        assert(r.entries_view() =~= Seq::<Seq<char>>::empty());
        r
    }

    /// A history holding `entries`, oldest first.
    pub fn from_entries(entries: Vec<String>) -> (r: AddrCache)
        ensures
            r.entries_view() == views(entries@),
    {
        let mut history: VecDeque<String> = VecDeque::new();
        let mut i: usize = 0;
        while i < entries.len()
            invariant
                i <= entries@.len(),
                history@.len() == i,
                forall|j: int| 0 <= j < i ==> history@[j]@ == entries@[j]@,
            decreases entries@.len() - i,
        {
            history.push_back(entries[i].clone());
            i = i + 1;
        }
        assert(views(history@) =~= views(entries@));
        AddrCache { history }
    }

    /// The addresses, oldest first.
    pub fn entries(&self) -> (r: Vec<String>)
        ensures
            views(r@) == self.entries_view(),
    {
        let mut r: Vec<String> = Vec::new();
        let mut i: usize = 0;
        while i < self.history.len()
            invariant
                i <= self.history@.len(),
                r@.len() == i,
                forall|j: int| 0 <= j < i ==> r@[j]@ == self.history@[j]@,
            decreases self.history@.len() - i,
        {
            r.push(self.history[i].clone());
            i = i + 1;
        }
        assert(views(r@) =~= views(self.history@));
        r
    }

    fn position(&self, addr: &String) -> (r: Option<usize>)
        ensures
            match r {
                Some(p) => {
                    &&& p < self.entries_view().len()
                    &&& self.entries_view()[p as int] == addr@
                    &&& forall|j: int| 0 <= j < p ==> self.entries_view()[j] != addr@
                },
                None => forall|j: int|
                    0 <= j < self.entries_view().len() ==> self.entries_view()[j] != addr@,
            },
    {
        let mut i: usize = 0;
        while i < self.history.len()
            invariant
                i <= self.history@.len(),
                forall|j: int| 0 <= j < i ==> self.entries_view()[j] != addr@,
            decreases self.history@.len() - i,
        {
            if self.history[i] == *addr {
                return Some(i);
            }
            i = i + 1;
        }
        None
    }

    /// Records `addr` as the most recently used address in a history that
    /// keeps `max_history` entries.
    pub fn add_addr(&mut self, addr: String, max_history: usize)
        ensures
            final(self).entries_view() == with_recent(
                old(self).entries_view(),
                addr@,
                max_history as nat,
            ),
    {
        let ghost h0 = self.entries_view();
        match self.position(&addr) {
            Some(p) => {
                proof {
                    lemma_without_first_at(h0, addr@, p as int);
                }
                self.history.remove(p);
                assert(self.entries_view() =~= h0.remove(p as int));
            },
            None => {
                proof {
                    lemma_without_first_absent(h0, addr@);
                }
            },
        }
        let ghost h1 = self.entries_view();
        if self.history.len() == max_history {
            match self.history.pop_front() {
                Some(_) => {
                    assert(self.entries_view() =~= h1.drop_first());
                },
                None => {},
            }
        }
        let ghost h2 = self.entries_view();
        self.history.push_back(addr);
        assert(self.entries_view() =~= h2.push(addr@));
    }

    /// The address at `index` of the history, oldest first; `None` for any
    /// index past the end, which stands for entering a new address.
    pub fn pick(&self, index: usize) -> (r: Option<String>)
        ensures
            index < self.entries_view().len() ==> r is Some && r->Some_0@
                == self.entries_view()[index as int],
            index >= self.entries_view().len() ==> r is None,
    {
        if index < self.history.len() {
            Some(self.history[index].clone())
        } else {
            None
        }
    }

    pub fn is_empty(&self) -> (r: bool)
        ensures
            r == (self.entries_view().len() == 0),
    {
        self.history.len() == 0
    }
}

} // verus!
