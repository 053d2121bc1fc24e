//! The history store: the most recent snapshots, oldest first, never more
//! than [`CAPACITY`] of them.

use crate::data::Data;
use vstd::prelude::*;

verus! {

/// The number of snapshots the history keeps.
pub const CAPACITY: usize = 100;

/// The last `CAPACITY` items of `s`, or all of `s` where it holds fewer.
pub open spec fn newest<T>(s: Seq<T>) -> Seq<T> {
    if s.len() <= CAPACITY {
        s
    } else {
        s.skip(s.len() - CAPACITY)
    }
}

/// The history that follows `entries` once `arrival` has been appended: a
/// full history first gives up its oldest entry.
pub open spec fn appended<T>(entries: Seq<T>, arrival: T) -> Seq<T> {
    if entries.len() >= CAPACITY {
        entries.skip(entries.len() - CAPACITY + 1).push(arrival)
    } else {
        entries.push(arrival)
    }
}

/// The history that follows `entries` once each of `arrivals` has been
/// appended, in order.
pub open spec fn appended_all<T>(entries: Seq<T>, arrivals: Seq<T>) -> Seq<T>
    decreases arrivals.len(),
{
    if arrivals.len() == 0 {
        entries
    } else {
        appended(appended_all(entries, arrivals.drop_last()), arrivals.last())
    }
}

/// One append keeps the newest of everything that ever arrived.
pub proof fn lemma_appended_is_newest<T>(entries: Seq<T>, arrival: T)
    requires
        entries.len() <= CAPACITY,
    ensures
        appended(entries, arrival) == newest(entries.push(arrival)),
        appended(entries, arrival).len() <= CAPACITY,
{
    assert(appended(entries, arrival) =~= newest(entries.push(arrival)));
}

/// However many snapshots arrive, the history never holds more than
/// `CAPACITY`, and it holds exactly the newest of what was there and what
/// arrived, in order of arrival.
pub proof fn lemma_appended_all_is_newest<T>(entries: Seq<T>, arrivals: Seq<T>)
    requires
        entries.len() <= CAPACITY,
    ensures
        appended_all(entries, arrivals) == newest(entries + arrivals),
        appended_all(entries, arrivals).len() <= CAPACITY,
    decreases arrivals.len(),
{
    if arrivals.len() == 0 {
        assert(entries + arrivals =~= entries);
    } else {
        let earlier = arrivals.drop_last();
        lemma_appended_all_is_newest(entries, earlier);
        let before = appended_all(entries, earlier);
        assert(entries + arrivals =~= (entries + earlier).push(arrivals.last()));
        assert(appended(before, arrivals.last()) =~= newest(entries + arrivals));
    }
}

/// Started empty, a history holds exactly the last `CAPACITY` arrivals, or
/// all of them where fewer arrived, in order of arrival.
pub proof fn lemma_history_holds_newest_arrivals<T>(arrivals: Seq<T>)
    ensures
        appended_all(Seq::<T>::empty(), arrivals) == newest(arrivals),
        arrivals.len() >= CAPACITY ==> appended_all(Seq::<T>::empty(), arrivals) == arrivals.skip(
            arrivals.len() - CAPACITY,
        ),
{
    lemma_appended_all_is_newest(Seq::<T>::empty(), arrivals);
    assert(Seq::<T>::empty() + arrivals =~= arrivals);
    if arrivals.len() == CAPACITY {
        assert(arrivals.skip(0) =~= arrivals);
    }
}

/// The retained snapshots, oldest first.
pub struct History {
    entries: Vec<Data>,
}

impl View for History {
    type V = Seq<Data>;

    closed spec fn view(&self) -> Seq<Data> {
        self.entries@
    }
}

impl History {
    /// The history holds no more than `CAPACITY` snapshots. Every history
    /// does: there is no other way to make one than `new` and `append`.
    pub open spec fn wf(&self) -> bool {
        self@.len() <= CAPACITY
    }

    /// A history with nothing in it.
    pub fn new() -> (history: Self)
        ensures
            history@ == Seq::<Data>::empty(),
            history.wf(),
    {
        History { entries: Vec::new() }
    }

    /// Retains `snapshot` as the newest entry. A full history first gives up
    /// its oldest entry; no other entry moves.
    pub fn append(&mut self, snapshot: Data)
        ensures
            final(self)@ == appended(old(self)@, snapshot),
            final(self).wf(),
    {
        while self.entries.len() >= CAPACITY
            invariant
                self.entries@.len() <= old(self)@.len(),
                self.entries@.len() + 1 >= CAPACITY || self.entries@.len() == old(self)@.len(),
                self.entries@ =~= old(self)@.skip(old(self)@.len() - self.entries@.len()),
            decreases self.entries@.len(),
        {
            self.entries.remove(0);
        }
        self.entries.push(snapshot);
        assert(self.entries@ =~= appended(old(self)@, snapshot));
    }

    pub fn len(&self) -> (n: usize)
        ensures
            n == self@.len(),
    {
        self.entries.len()
    }

    /// The newest snapshot, if any has arrived.
    pub fn latest(&self) -> (newest: Option<&Data>)
        ensures
            self@.len() == 0 ==> newest is None,
            self@.len() > 0 ==> newest == Some(&self@.last()),
    {
        let n = self.entries.len();
        if n == 0 {
            None
        } else {
            Some(&self.entries[n - 1])
        }
    }

    /// Every retained snapshot, oldest first.
    pub fn entries(&self) -> (entries: &Vec<Data>)
        ensures
            entries@ == self@,
    {
        &self.entries
    }
}

} // verus!
