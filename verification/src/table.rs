//! A table of what was last noted of each remote host, with the time of the note.
use vstd::prelude::*;

verus! {

/// Whole seconds from `earlier` to `now`, both in nanoseconds; none where `now` is not
/// later.
pub open spec fn seconds_between(earlier: u128, now: u128) -> nat {
    if now > earlier {
        ((now - earlier) / 1_000_000_000) as nat
    } else {
        0
    }
}

/// Whole seconds from `earlier` to `now`.
pub fn elapsed_seconds(earlier: u128, now: u128) -> (secs: u128)
    ensures
        secs == seconds_between(earlier, now),
{
    now.saturating_sub(earlier) / 1_000_000_000
}

/// A note that carries the time, in nanoseconds, at which it was made.
pub trait Stamped: Copy {
    spec fn stamp(self) -> u128;

    fn stamped_at(&self) -> (at: u128)
        ensures
            at == self.stamp(),
    ;
}

/// The notes of `m` that are less than `secs` seconds old at `now`.
pub open spec fn recent<V: Stamped>(m: Map<Seq<char>, V>, now: u128, secs: nat) -> Map<
    Seq<char>,
    V,
> {
    Map::new(
        |k: Seq<char>| m.contains_key(k) && seconds_between(m[k].stamp(), now) < secs,
        |k: Seq<char>| m[k],
    )
}

/// At most one note for each host.
pub struct HostTable<V> {
    rows: Vec<(String, V)>,
}

impl<V> View for HostTable<V> {
    type V = Map<Seq<char>, V>;

    closed spec fn view(&self) -> Map<Seq<char>, V> {
        Map::new(
            |k: Seq<char>| has_row(self.rows@, k),
            |k: Seq<char>| self.rows@[row_of(self.rows@, k)].1,
        )
    }
}

spec fn has_row<V>(rows: Seq<(String, V)>, k: Seq<char>) -> bool {
    exists|i: int| 0 <= i < rows.len() && (#[trigger] rows[i]).0@ == k
}

spec fn row_of<V>(rows: Seq<(String, V)>, k: Seq<char>) -> int {
    choose|i: int| 0 <= i < rows.len() && (#[trigger] rows[i]).0@ == k
}

spec fn distinct<V>(rows: Seq<(String, V)>) -> bool {
    forall|i: int, j: int|
        0 <= i < j < rows.len() ==> (#[trigger] rows[i]).0@ != (#[trigger] rows[j]).0@
}

impl<V: Stamped> HostTable<V> {
    /// No host has two rows.
    pub closed spec fn wf(&self) -> bool {
        distinct(self.rows@)
    }

    proof fn lemma_row(self, i: int)
        requires
            self.wf(),
            0 <= i < self.rows@.len(),
        ensures
            self@.contains_key(self.rows@[i].0@),
            self@[self.rows@[i].0@] == self.rows@[i].1,
    {
        let k = self.rows@[i].0@;
        let j = row_of(self.rows@, k);
        assert(has_row(self.rows@, k));
        assert(self.rows@[j].0@ == k);
        assert(i == j);
    }

    /// A table without notes.
    pub fn new() -> (t: Self)
        ensures
            t.wf(),
            t@ == Map::<Seq<char>, V>::empty(),
    {
        let t = HostTable { rows: Vec::new() };
        assert(t@ =~= Map::<Seq<char>, V>::empty());
        t
    }

    /// The number of hosts with a note.
    pub fn len(&self) -> (n: usize)
        requires
            self.wf(),
        ensures
            n == self@.dom().len(),
            self@.dom().finite(),
    {
        proof {
            let keys = self.rows@.map_values(|r: (String, V)| r.0@);
            assert(keys.no_duplicates()) by {
                assert forall|i: int, j: int|
                    0 <= i < keys.len() && 0 <= j < keys.len() && i != j implies keys[i]
                    != keys[j] by {
                    if i < j {
                        assert(self.rows@[i].0@ != self.rows@[j].0@);
                    } else {
                        assert(self.rows@[j].0@ != self.rows@[i].0@);
                    }
                }
            }
            keys.unique_seq_to_set();
            assert(keys.to_set() =~= self@.dom()) by {
                assert forall|k: Seq<char>| keys.to_set().contains(k) <==> self@.dom().contains(
                    k,
                ) by {
                    if has_row(self.rows@, k) {
                        let i = row_of(self.rows@, k);
                        assert(keys[i] == k);
                    }
                    if keys.contains(k) {
                        let i = choose|i: int| 0 <= i < keys.len() && keys[i] == k;
                        assert(self.rows@[i].0@ == k);
                    }
                }
            }
        }
        self.rows.len()
    }

    /// The row of `host`, where it has one.
    fn find(&self, host: &str) -> (r: Option<usize>)
        requires
            self.wf(),
        ensures
            match r {
                Some(i) => i < self.rows@.len() && self.rows@[i as int].0@ == host@,
                None => !has_row(self.rows@, host@),
            },
    {
        let name = host.to_owned();
        let mut i: usize = 0;
        while i < self.rows.len()
            invariant
                i <= self.rows@.len(),
                name@ == host@,
                forall|j: int| 0 <= j < i ==> (#[trigger] self.rows@[j]).0@ != host@,
            decreases self.rows@.len() - i,
        {
            if self.rows[i].0 == name {
                return Some(i);
            }
            i = i + 1;
        }
        None
    }

    /// The note on `host`.
    pub fn get(&self, host: &str) -> (r: Option<V>)
        requires
            self.wf(),
        ensures
            match r {
                Some(v) => self@.contains_key(host@) && self@[host@] == v,
                None => !self@.contains_key(host@),
            },
    {
        match self.find(host) {
            Some(i) => {
                proof {
                    self.lemma_row(i as int);
                }
                Some(self.rows[i].1)
            },
            None => None,
        }
    }

    /// Notes `v` on `host`, in place of an earlier note.
    pub fn insert(&mut self, host: &str, v: V)
        requires
            old(self).wf(),
        ensures
            final(self).wf(),
            final(self)@ == old(self)@.insert(host@, v),
    {
        match self.find(host) {
            Some(i) => {
                let name = host.to_owned();
                self.rows.set(i, (name, v));
                proof {
                    lemma_set_row(*old(self), *self, i as int, v);
                }
            },
            None => {
                let name = host.to_owned();
                self.rows.push((name, v));
                proof {
                    assert(self.rows@.take(old(self).rows@.len() as int) =~= old(self).rows@);
                    lemma_add_row(*old(self), *self, v);
                }
            },
        }
    }

    /// Drops the notes that are `secs` seconds old or older at `now`.
    pub fn keep_recent(&mut self, now: u128, secs: u64)
        requires
            old(self).wf(),
        ensures
            final(self).wf(),
            final(self)@ == recent(old(self)@, now, secs as nat),
    {
        let mut i: usize = 0;
        while i < self.rows.len()
            invariant
                self.wf(),
                i <= self.rows@.len(),
                recent(self@, now, secs as nat) == recent(old(self)@, now, secs as nat),
                forall|j: int|
                    0 <= j < i ==> seconds_between((#[trigger] self.rows@[j]).1.stamp(), now)
                        < secs,
            decreases self.rows@.len() - i,
        {
            if elapsed_seconds(self.rows[i].1.stamped_at(), now) < secs as u128 {
                i = i + 1;
            } else {
                let ghost earlier = *self;
                self.rows.remove(i);
                proof {
                    lemma_remove_row(earlier, *self, i as int, now, secs as nat);
                }
            }
        }
        assert(self@ =~= recent(self@, now, secs as nat)) by {
            assert forall|k: Seq<char>| self@.contains_key(k) implies seconds_between(
                self@[k].stamp(),
                now,
            ) < secs by {
                let j = row_of(self.rows@, k);
                assert(self.rows@[j].0@ == k);
                self.lemma_row(j);
            }
        }
    }
}

proof fn lemma_set_row<V: Stamped>(a: HostTable<V>, b: HostTable<V>, i: int, v: V)
    requires
        a.wf(),
        0 <= i < a.rows@.len(),
        b.rows@.len() == a.rows@.len(),
        b.rows@[i].0@ == a.rows@[i].0@,
        b.rows@[i].1 == v,
        forall|j: int| 0 <= j < a.rows@.len() && j != i ==> b.rows@[j] == a.rows@[j],
    ensures
        b.wf(),
        b@ == a@.insert(a.rows@[i].0@, v),
{
    let host = a.rows@[i].0@;
    assert forall|p: int, q: int| 0 <= p < q < b.rows@.len() implies (#[trigger] b.rows@[p]).0@
        != (#[trigger] b.rows@[q]).0@ by {
        assert(a.rows@[p].0@ != a.rows@[q].0@);
    }
    assert forall|k: Seq<char>| b@.contains_key(k) <==> a@.insert(host, v).contains_key(k) by {
        if has_row(b.rows@, k) {
            let j = row_of(b.rows@, k);
            assert(a.rows@[j].0@ == k);
        }
        if has_row(a.rows@, k) {
            let j = row_of(a.rows@, k);
            assert(b.rows@[j].0@ == k);
        }
        if k == host {
            assert(b.rows@[i].0@ == k);
        }
    }
    assert forall|k: Seq<char>| b@.contains_key(k) implies b@[k] == a@.insert(host, v)[k] by {
        let j = row_of(b.rows@, k);
        assert(b.rows@[j].0@ == k);
        b.lemma_row(j);
        a.lemma_row(j);
        b.lemma_row(i);
    }
    assert(b@ =~= a@.insert(host, v));
}

proof fn lemma_add_row<V: Stamped>(a: HostTable<V>, b: HostTable<V>, v: V)
    requires
        a.wf(),
        b.rows@.len() == a.rows@.len() + 1,
        b.rows@.take(a.rows@.len() as int) == a.rows@,
        b.rows@.last().1 == v,
        !has_row(a.rows@, b.rows@.last().0@),
    ensures
        b.wf(),
        b@ == a@.insert(b.rows@.last().0@, v),
{
    let host = b.rows@.last().0@;
    let n = a.rows@.len() as int;
    assert forall|j: int| 0 <= j < n implies b.rows@[j] == a.rows@[j] by {
        assert(b.rows@.take(n)[j] == b.rows@[j]);
    }
    assert forall|p: int, q: int| 0 <= p < q < b.rows@.len() implies (#[trigger] b.rows@[p]).0@
        != (#[trigger] b.rows@[q]).0@ by {
        assert(b.rows@[p] == a.rows@[p]);
        if q < n {
            assert(a.rows@[p].0@ != a.rows@[q].0@);
        } else {
            assert(a.rows@[p].0@ != host);
        }
    }
    assert forall|k: Seq<char>| b@.contains_key(k) <==> a@.insert(host, v).contains_key(k) by {
        if has_row(b.rows@, k) {
            let j = row_of(b.rows@, k);
            if j < n {
                assert(a.rows@[j].0@ == k);
            }
        }
        if has_row(a.rows@, k) {
            let j = row_of(a.rows@, k);
            assert(b.rows@[j].0@ == k);
        }
        if k == host {
            assert(b.rows@[n].0@ == k);
        }
    }
    assert forall|k: Seq<char>| b@.contains_key(k) implies b@[k] == a@.insert(host, v)[k] by {
        let j = row_of(b.rows@, k);
        assert(b.rows@[j].0@ == k);
        b.lemma_row(j);
        if j < n {
            a.lemma_row(j);
            assert(k != host);
        }
    }
    assert(b@ =~= a@.insert(host, v));
}

proof fn lemma_remove_row<V: Stamped>(
    a: HostTable<V>,
    b: HostTable<V>,
    i: int,
    now: u128,
    secs: nat,
)
    requires
        a.wf(),
        0 <= i < a.rows@.len(),
        b.rows@ == a.rows@.remove(i),
        seconds_between(a.rows@[i].1.stamp(), now) >= secs,
    ensures
        b.wf(),
        recent(b@, now, secs) == recent(a@, now, secs),
{
    assert forall|j: int| 0 <= j < b.rows@.len() implies b.rows@[j] == a.rows@[if j < i {
        j
    } else {
        j + 1
    }] by {}
    assert forall|p: int, q: int| 0 <= p < q < b.rows@.len() implies (#[trigger] b.rows@[p]).0@
        != (#[trigger] b.rows@[q]).0@ by {
        let p2 = if p < i { p } else { p + 1 };
        let q2 = if q < i { q } else { q + 1 };
        assert(a.rows@[p2].0@ != a.rows@[q2].0@);
    }
    let (ra, rb) = (recent(a@, now, secs), recent(b@, now, secs));
    assert forall|k: Seq<char>| b@.contains_key(k) implies a@.contains_key(k) && a@[k] == b@[k] by {
        let j = row_of(b.rows@, k);
        assert(b.rows@[j].0@ == k);
        b.lemma_row(j);
        a.lemma_row(if j < i { j } else { j + 1 });
    }
    assert forall|k: Seq<char>| ra.contains_key(k) implies b@.contains_key(k) && a@[k] == b@[k] by {
        let j = row_of(a.rows@, k);
        assert(a.rows@[j].0@ == k);
        a.lemma_row(j);
        assert(j != i);
        b.lemma_row(if j < i { j } else { j - 1 });
    }
    assert(ra =~= rb);
}

/// The whole seconds between two times are the most that fit between them; there are none
/// where the second is not later.
pub proof fn law_seconds_between(earlier: u128, now: u128, secs: u128)
    requires
        call_ensures(elapsed_seconds, (earlier, now), secs),
    ensures
        secs == seconds_between(earlier, now),
        now >= earlier ==> secs * 1_000_000_000 <= now - earlier < (secs + 1) * 1_000_000_000,
        now <= earlier ==> secs == 0,
{
}

/// Less than `n` seconds lie between two times exactly where the second is earlier than `n`
/// seconds, in nanoseconds, behind the first, or not later.
pub proof fn law_seconds_bound(earlier: u128, now: u128, n: nat)
    ensures
        seconds_between(earlier, now) < n <==> n > 0 && now < earlier + n * 1_000_000_000,
{
}

/// What is kept are the notes younger than the bound, each as it was, and nothing else.
pub proof fn law_recent_notes<V: Stamped>(m: Map<Seq<char>, V>, now: u128, secs: nat, host: Seq<char>)
    ensures
        recent(m, now, secs).contains_key(host) <==> m.contains_key(host) && secs > 0 && now
            < m[host].stamp() + secs * 1_000_000_000,
        recent(m, now, secs).contains_key(host) ==> recent(m, now, secs)[host] == m[host],
{
    if m.contains_key(host) {
        law_seconds_bound(m[host].stamp(), now, secs);
    }
}

/// A note is found again under its host, and a note on one host changes nothing for another.
pub proof fn law_noted_is_found<V: Stamped>(host: &str, v: V, other: &str)
    ensures
        forall|t: &mut HostTable<V>| #[trigger]
            call_ensures(HostTable::<V>::insert, (t, host, v), ()) ==> {
                &&& final(t)@.contains_key(host@)
                &&& final(t)@[host@] == v
                &&& other@ != host@ ==> (final(t)@.contains_key(other@) <==> t@.contains_key(
                    other@,
                ))
                &&& other@ != host@ && t@.contains_key(other@) ==> final(t)@[other@] == t@[other@]
            },
{
}

/// A table answers with the note that was made last on a host, and an empty one with none.
pub proof fn law_note_is_read_back<V: Stamped>(
    host: &str,
    v: V,
    after: HostTable<V>,
    read: Option<V>,
    empty: HostTable<V>,
    unread: Option<V>,
)
    requires
        call_ensures(HostTable::<V>::get, (&after, host), read),
        call_ensures(HostTable::<V>::new, (), empty),
        call_ensures(HostTable::<V>::get, (&empty, host), unread),
    ensures
        forall|t: &mut HostTable<V>| #[trigger]
            call_ensures(HostTable::<V>::insert, (t, host, v), ()) && *final(t) == after ==> read
                == Some(v),
        unread is None,
{
}

/// Dropping old notes keeps those younger than the bound, each as it was, and no other.
pub proof fn law_old_notes_go<V: Stamped>(now: u128, secs: u64, host: Seq<char>)
    ensures
        forall|t: &mut HostTable<V>| #[trigger]
            call_ensures(HostTable::<V>::keep_recent, (t, now, secs), ()) ==> {
                &&& final(t)@.contains_key(host) <==> t@.contains_key(host) && secs > 0 && now
                    < t@[host].stamp() + secs * 1_000_000_000
                &&& final(t)@.contains_key(host) ==> final(t)@[host] == t@[host]
            },
{
    assert forall|t: &mut HostTable<V>| #[trigger]
        call_ensures(HostTable::<V>::keep_recent, (t, now, secs), ()) implies {
        &&& final(t)@.contains_key(host) <==> t@.contains_key(host) && secs > 0 && now
            < t@[host].stamp() + secs * 1_000_000_000
        &&& final(t)@.contains_key(host) ==> final(t)@[host] == t@[host]
    } by {
        law_recent_notes(t@, now, secs as nat, host);
    }
}

} // verus!
