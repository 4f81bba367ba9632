use vstd::prelude::*;

verus! {

/// Most entries one queue keeps.
pub const TOPQ_CAPACITY: usize = 4;

/// A value with its priority and the window of ticks in which it holds.
#[derive(Debug, Clone, Copy, PartialEq, Eq, Structural)]
pub struct TopqItem {
    pub item: bool,
    pub prio: u8,
    pub start_time: u64,
    pub expiry_time: u64,
}

/// Whether an entry holds at time `t`: from its start through its expiry,
/// both included, so a zero-length window holds at its start alone. A window
/// whose expiry rolled past the end of the range runs on from zero.
pub open spec fn valid_at(e: TopqItem, t: u64) -> bool {
    if e.start_time <= e.expiry_time {
        e.start_time <= t && t <= e.expiry_time
    } else {
        t >= e.start_time || t <= e.expiry_time
    }
}

/// The entries of `s` that hold at `t`, in order.
pub open spec fn keep_valid(s: Seq<TopqItem>, t: u64) -> Seq<TopqItem>
    decreases s.len(),
{
    if s.len() == 0 {
        s
    } else if valid_at(s.last(), t) {
        keep_valid(s.drop_last(), t).push(s.last())
    } else {
        keep_valid(s.drop_last(), t)
    }
}

/// Entries run from the highest priority down.
pub open spec fn prio_sorted(s: Seq<TopqItem>) -> bool {
    forall|i: int, j: int| 0 <= i < j < s.len() ==> #[trigger] s[i].prio >= #[trigger] s[j].prio
}

/// The first entry that holds at `t`.
pub open spec fn first_valid(s: Seq<TopqItem>, t: u64) -> Option<TopqItem>
    decreases s.len(),
{
    if s.len() == 0 {
        None
    } else if valid_at(s[0], t) {
        Some(s[0])
    } else {
        first_valid(s.drop_first(), t)
    }
}

/// Index of the first entry with priority `prio` and value `item`, if any.
pub open spec fn find_match(s: Seq<TopqItem>, prio: u8, item: bool) -> Option<int>
    decreases s.len(),
{
    if s.len() == 0 {
        None
    } else if s[0].prio == prio && s[0].item == item {
        Some(0)
    } else {
        match find_match(s.drop_first(), prio, item) {
            Some(k) => Some(k + 1),
            None => None,
        }
    }
}

/// Where an entry of priority `prio` goes: ahead of every entry of its
/// priority or lower, so that among equals the newest comes first.
pub open spec fn insert_pos(s: Seq<TopqItem>, prio: u8) -> int
    decreases s.len(),
{
    if s.len() == 0 || s[0].prio <= prio {
        0
    } else {
        1 + insert_pos(s.drop_first(), prio)
    }
}

proof fn lemma_find_match(s: Seq<TopqItem>, prio: u8, item: bool)
    ensures
        find_match(s, prio, item) matches Some(k) ==> 0 <= k < s.len() && s[k].prio == prio && s[k].item == item,
        find_match(s, prio, item) is None ==> forall|i: int| 0 <= i < s.len() ==> !(#[trigger] s[i].prio == prio && s[i].item == item),
    decreases s.len(),
{
    if s.len() > 0 {
        lemma_find_match(s.drop_first(), prio, item);
        if find_match(s, prio, item) is None {
            assert forall|i: int| 0 <= i < s.len() implies !(#[trigger] s[i].prio == prio && s[i].item == item) by {
                if i > 0 {
                    assert(s.drop_first()[i - 1] == s[i]);
                }
            }
        }
    }
}

proof fn lemma_insert_pos(s: Seq<TopqItem>, prio: u8)
    ensures
        0 <= insert_pos(s, prio) <= s.len(),
        forall|i: int| 0 <= i < insert_pos(s, prio) ==> #[trigger] s[i].prio > prio,
        prio_sorted(s) ==> forall|i: int| insert_pos(s, prio) <= i < s.len() ==> #[trigger] s[i].prio <= prio,
    decreases s.len(),
{
    if s.len() > 0 && s[0].prio > prio {
        let d = s.drop_first();
        lemma_insert_pos(d, prio);
        assert forall|i: int| 0 <= i < insert_pos(s, prio) implies #[trigger] s[i].prio > prio by {
            if i > 0 {
                assert(d[i - 1] == s[i]);
            }
        }
        if prio_sorted(s) {
            assert(prio_sorted(d));
            assert forall|i: int| insert_pos(s, prio) <= i < s.len() implies #[trigger] s[i].prio <= prio by {
                assert(d[i - 1] == s[i]);
            }
        }
    }
}

/// Adds `e` to the live entries `s`: an entry of equal priority and value is
/// replaced; a full queue drops its lowest-priority, oldest entry, or `e`
/// itself when `e` would rank last.
pub open spec fn topq_insert(s: Seq<TopqItem>, e: TopqItem) -> Seq<TopqItem> {
    let s1 = match find_match(s, e.prio, e.item) {
        Some(k) => s.remove(k),
        None => s,
    };
    let p = insert_pos(s1, e.prio);
    if p >= TOPQ_CAPACITY {
        s1
    } else {
        let s2 = s1.insert(p, e);
        if s2.len() > TOPQ_CAPACITY {
            s2.drop_last()
        } else {
            s2
        }
    }
}

proof fn lemma_keep_valid(s: Seq<TopqItem>, t: u64)
    ensures
        keep_valid(s, t).len() <= s.len(),
        prio_sorted(s) ==> prio_sorted(keep_valid(s, t)),
        forall|i: int| 0 <= i < keep_valid(s, t).len() ==> valid_at(#[trigger] keep_valid(s, t)[i], t),
        forall|i: int|
            0 <= i < keep_valid(s, t).len() ==> exists|j: int| 0 <= j < s.len() && s[j] == #[trigger] keep_valid(s, t)[i],
    decreases s.len(),
{
    if s.len() > 0 {
        let d = s.drop_last();
        lemma_keep_valid(d, t);
        let k = keep_valid(d, t);
        if prio_sorted(s) {
            assert(prio_sorted(d));
            if valid_at(s.last(), t) {
                let r = k.push(s.last());
                assert forall|i: int, j: int| 0 <= i < j < r.len() implies #[trigger] r[i].prio >= #[trigger] r[j].prio by {
                    if j == r.len() - 1 {
                        let w = choose|w: int| 0 <= w < d.len() && d[w] == k[i];
                        assert(s[w] == k[i]);
                    }
                }
            }
        }
        assert forall|i: int| 0 <= i < keep_valid(s, t).len() implies exists|j: int| 0 <= j < s.len() && s[j] == #[trigger] keep_valid(s, t)[i] by {
            if i < k.len() {
                let w = choose|w: int| 0 <= w < d.len() && d[w] == k[i];
                assert(s[w] == keep_valid(s, t)[i]);
            } else {
                assert(s[s.len() - 1] == keep_valid(s, t)[i]);
            }
        }
    }
}

/// The value a queue reports at `t` belongs to a valid entry of the highest
/// priority among those valid at `t`; once no entry is valid, there is none.
pub proof fn lemma_first_valid_highest(s: Seq<TopqItem>, t: u64)
    requires
        prio_sorted(s),
    ensures
        first_valid(s, t) is None <==> forall|i: int| 0 <= i < s.len() ==> !valid_at(#[trigger] s[i], t),
        first_valid(s, t) matches Some(e) ==> valid_at(e, t) && (forall|i: int| 0 <= i < s.len() && valid_at(#[trigger] s[i], t) ==> e.prio >= s[i].prio) && (exists|i: int| 0 <= i < s.len() && s[i] == e),
    decreases s.len(),
{
    if s.len() > 0 {
        let d = s.drop_first();
        assert(prio_sorted(d));
        lemma_first_valid_highest(d, t);
        if !valid_at(s[0], t) {
            assert forall|i: int| 0 <= i < s.len() && valid_at(#[trigger] s[i], t) implies i >= 1 && d[i - 1] == s[i] by {}
            if first_valid(d, t) is None {
                assert forall|i: int| 0 <= i < s.len() implies !valid_at(#[trigger] s[i], t) by {
                    if i > 0 {
                        assert(d[i - 1] == s[i]);
                    }
                }
            }
            if first_valid(d, t) is Some {
                let e = first_valid(d, t)->Some_0;
                let w = choose|w: int| 0 <= w < d.len() && d[w] == e;
                assert(s[w + 1] == e);
                assert forall|i: int| 0 <= i < s.len() && valid_at(#[trigger] s[i], t) implies e.prio >= s[i].prio by {
                    assert(d[i - 1] == s[i]);
                }
            }
        } else {
            assert(s[0] == s[0]);
        }
    }
}

/// Inserting a value at a priority that already holds that value replaces
/// the old entry, so the new window takes its place and nothing is dropped.
pub proof fn lemma_insert_refreshes(s: Seq<TopqItem>, e: TopqItem)
    requires
        s.len() <= TOPQ_CAPACITY,
        prio_sorted(s),
        find_match(s, e.prio, e.item) is Some,
    ensures
        topq_insert(s, e).len() == s.len(),
        topq_insert(s, e).contains(e),
{
    lemma_find_match(s, e.prio, e.item);
    let k = find_match(s, e.prio, e.item)->Some_0;
    let s1 = s.remove(k);
    lemma_insert_pos(s1, e.prio);
    let p = insert_pos(s1, e.prio);
    let s2 = s1.insert(p, e);
    assert(s2[p] == e);
    assert(topq_insert(s, e) == s2);
}

/// A timed priority queue: up to four values, each valid for a window of
/// ticks, of which the highest-priority valid one wins.
///
/// Entries are keyed by priority and value together: a second value at the
/// same priority stands beside the first, ahead of it, and only a repeat of
/// the same priority and value replaces an entry. (The `topq` crate keys its
/// entries by priority alone, so a second value replaces the first; the
/// test `topq_crate_keys_by_priority_alone` shows the difference.)
pub struct Topq {
    items: Vec<TopqItem>,
}

impl View for Topq {
    type V = Seq<TopqItem>;

    closed spec fn view(&self) -> Seq<TopqItem> {
        self.items@
    }
}

impl Topq {
    /// At most four entries, from the highest priority down.
    pub open spec fn wf(&self) -> bool {
        self@.len() <= TOPQ_CAPACITY && prio_sorted(self@)
    }

    /// An empty queue.
    pub fn new() -> (r: Topq)
        ensures
            r.wf(),
            r@ == Seq::<TopqItem>::empty(),
    {
        Topq { items: Vec::new() }
    }

    /// Drops every entry that does not hold at `now`.
    pub fn prune(&mut self, now: u64)
        requires
            old(self).wf(),
        ensures
            final(self).wf(),
            final(self)@ == keep_valid(old(self)@, now),
    {
        let mut kept: Vec<TopqItem> = Vec::new();
        let mut i: usize = 0;
        while i < self.items.len()
            invariant
                i <= self.items@.len(),
                kept@ == keep_valid(self.items@.take(i as int), now),
            decreases self.items@.len() - i,
        {
            let e = self.items[i];
            assert(self.items@.take(i + 1).drop_last() =~= self.items@.take(i as int));
            if e.start_time <= e.expiry_time {
                if e.start_time <= now && now <= e.expiry_time {
                    kept.push(e);
                }
            } else if now >= e.start_time || now <= e.expiry_time {
                kept.push(e);
            }
            i = i + 1;
        }
        assert(self.items@.take(i as int) =~= self.items@);
        proof {
            lemma_keep_valid(self.items@, now);
        }
        self.items = kept;
    }

    /// Index of the first entry with priority `prio` and value `item`.
    fn find_index(&self, prio: u8, item: bool) -> (r: Option<usize>)
        ensures
            r matches Some(k) ==> find_match(self@, prio, item) == Some(k as int),
            r is None ==> find_match(self@, prio, item) is None,
    {
        let ghost live = self@;
        let mut k: usize = 0;
        assert(live.skip(0) =~= live);
        while k < self.items.len()
            invariant
                self@ == live,
                k <= live.len(),
                find_match(live, prio, item) == (match find_match(live.skip(k as int), prio, item) {
                    Some(j) => Some(j + k),
                    None => None,
                }),
            decreases live.len() - k,
        {
            let cur = self.items[k];
            assert(live.skip(k as int)[0] == cur);
            assert(live.skip(k as int).drop_first() =~= live.skip(k + 1));
            if cur.prio == prio && cur.item == item {
                return Some(k);
            }
            k = k + 1;
        }
        assert(live.skip(k as int) =~= Seq::<TopqItem>::empty());
        None
    }

    /// Where an entry of priority `prio` goes.
    fn position(&self, prio: u8) -> (r: usize)
        ensures
            r == insert_pos(self@, prio),
    {
        let ghost s1 = self@;
        let mut p: usize = 0;
        assert(s1.skip(0) =~= s1);
        while p < self.items.len() && self.items[p].prio > prio
            invariant
                self@ == s1,
                p <= s1.len(),
                insert_pos(s1, prio) == p + insert_pos(s1.skip(p as int), prio),
            decreases s1.len() - p,
        {
            assert(s1.skip(p as int)[0] == s1[p as int]);
            assert(s1.skip(p as int).drop_first() =~= s1.skip(p + 1));
            p = p + 1;
        }
        if p < self.items.len() {
            assert(s1.skip(p as int)[0] == s1[p as int]);
        } else {
            assert(s1.skip(p as int) =~= Seq::<TopqItem>::empty());
        }
        p
    }

    /// Drops the entry at `k`.
    fn remove_at(&mut self, k: usize)
        requires
            old(self).wf(),
            k < old(self)@.len(),
        ensures
            final(self).wf(),
            final(self)@ == old(self)@.remove(k as int),
    {
        let ghost live = self@;
        self.items.remove(k);
        assert forall|i: int, j: int| 0 <= i < j < self@.len() implies #[trigger] self@[i].prio >= #[trigger] self@[j].prio by {
            let ii = if i < k { i } else { i + 1 };
            let jj = if j < k { j } else { j + 1 };
            assert(self@[i] == live[ii]);
            assert(self@[j] == live[jj]);
        }
    }

    /// Puts `e` at `p`, where it keeps the order, and drops the last entry if
    /// the queue overflows.
    fn place(&mut self, p: usize, e: TopqItem)
        requires
            old(self).wf(),
            p < TOPQ_CAPACITY,
            p == insert_pos(old(self)@, e.prio),
        ensures
            final(self).wf(),
            final(self)@ == (if old(self)@.len() + 1 > TOPQ_CAPACITY {
                old(self)@.insert(p as int, e).drop_last()
            } else {
                old(self)@.insert(p as int, e)
            }),
    {
        let ghost s1 = self@;
        proof {
            lemma_insert_pos(s1, e.prio);
        }
        self.items.insert(p, e);
        let ghost s2 = self@;
        assert(s2 == s1.insert(p as int, e));
        assert(prio_sorted(s2)) by {
            assert forall|i: int, j: int| 0 <= i < j < s2.len() implies #[trigger] s2[i].prio >= #[trigger] s2[j].prio by {
                if i < p && j < p {
                    assert(s2[i] == s1[i] && s2[j] == s1[j]);
                } else if i < p && j == p {
                    assert(s2[i] == s1[i]);
                } else if i < p {
                    assert(s2[i] == s1[i] && s2[j] == s1[j - 1]);
                } else if i == p {
                    assert(s2[j] == s1[j - 1]);
                } else {
                    assert(s2[i] == s1[i - 1] && s2[j] == s1[j - 1]);
                }
            }
        }
        if self.items.len() > TOPQ_CAPACITY {
            self.items.pop();
            assert(self@ =~= s2.drop_last());
        }
    }

    /// Adds `item` with priority `prio`, valid from `now` for `valid_for`
    /// ticks, after dropping what no longer holds at `now`.
    pub fn insert(&mut self, item: bool, prio: u8, valid_for: u64, now: u64)
        requires
            old(self).wf(),
        ensures
            final(self).wf(),
            final(self)@ == topq_insert(
                keep_valid(old(self)@, now),
                TopqItem { item, prio, start_time: now, expiry_time: now.wrapping_add(valid_for) },
            ),
    {
        self.prune(now);
        let e = TopqItem { item, prio, start_time: now, expiry_time: now.wrapping_add(valid_for) };
        proof {
            lemma_find_match(self@, prio, item);
        }
        match self.find_index(prio, item) {
            Some(k) => self.remove_at(k),
            None => {},
        }
        let p = self.position(prio);
        proof {
            lemma_insert_pos(self@, prio);
        }
        if p < TOPQ_CAPACITY {
            self.place(p, e);
        }
    }

    /// The value of the highest-priority entry that holds at `now`.
    pub fn get_data(&self, now: u64) -> (r: Option<bool>)
        requires
            self.wf(),
        ensures
            r == (match first_valid(self@, now) {
                Some(e) => Some(e.item),
                None => None,
            }),
    {
        let mut i: usize = 0;
        assert(self@.skip(0) =~= self@);
        while i < self.items.len()
            invariant
                i <= self.items@.len(),
                first_valid(self@, now) == first_valid(self@.skip(i as int), now),
            decreases self.items@.len() - i,
        {
            let e = self.items[i];
            assert(self@.skip(i as int)[0] == e);
            assert(self@.skip(i as int).drop_first() =~= self@.skip(i + 1));
            let ok = if e.start_time <= e.expiry_time {
                e.start_time <= now && now <= e.expiry_time
            } else {
                now >= e.start_time || now <= e.expiry_time
            };
            if ok {
                return Some(e.item);
            }
            i = i + 1;
        }
        assert(self@.skip(i as int) =~= Seq::<TopqItem>::empty());
        None
    }
}

} // verus!
