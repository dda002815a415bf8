//! The alarm queue: pending alarms kept in ascending order of due time.
use vstd::prelude::*;
use sorted_vec::SortedVec;
use crate::alarm::{Alarm, AlarmView};

verus! {

/// Declares `sorted_vec::SortedVec`, a vector that its own methods keep in
/// ascending order; its contents are read only through `entries_of`.
#[verifier::external_type_specification]
#[verifier::external_body]
#[verifier::reject_recursive_types(T)]
pub struct ExSortedVec<T: Ord>(SortedVec<T>);

/// The entries of a sorted vector of (due time, name) pairs, in its order.
pub uninterp spec fn entries_of(v: SortedVec<(i64, String)>) -> Seq<(i64, String)>;

/// Relies on `SortedVec::new`: an empty vector.
#[verifier::external_body]
fn entries_new() -> (r: SortedVec<(i64, String)>)
    ensures
        entries_of(r) == Seq::<(i64, String)>::empty(),
{
    SortedVec::new()
}

/// Relies on `SortedVec::len` (through `Deref` to `Vec`): the number of entries.
#[verifier::external_body]
fn entries_len(v: &SortedVec<(i64, String)>) -> (r: usize)
    ensures
        r == entries_of(*v).len(),
{
    v.len()
}

/// Relies on indexing a `SortedVec` (through `Deref` to `Vec`): the entry at
/// `i`, which must be in bounds.
#[verifier::external_body]
fn entry_at(v: &SortedVec<(i64, String)>, i: usize) -> (r: &(i64, String))
    requires
        i < entries_of(*v).len(),
    ensures
        *r == entries_of(*v)[i as int],
{
    &v[i]
}

/// Relies on `SortedVec::insert`: the entry goes in at the index returned,
/// found by binary search, so every entry before it is not greater and every
/// entry after it not smaller; tuples compare their first fields first.
#[verifier::external_body]
fn entries_insert(v: &mut SortedVec<(i64, String)>, e: (i64, String)) -> (r: usize)
    ensures
        r <= entries_of(*old(v)).len(),
        entries_of(*final(v)) == entries_of(*old(v)).insert(r as int, e),
        forall|j: int| 0 <= j < r ==> entries_of(*old(v))[j].0 <= e.0,
        forall|j: int| r <= j < entries_of(*old(v)).len() ==> e.0 <= entries_of(*old(v))[j].0,
{
    v.insert(e)
}

/// Relies on `SortedVec::remove_index`: takes out and returns the entry at
/// `i`, which must be in bounds (it panics otherwise).
#[verifier::external_body]
fn entries_remove(v: &mut SortedVec<(i64, String)>, i: usize) -> (r: (i64, String))
    requires
        i < entries_of(*old(v)).len(),
    ensures
        r == entries_of(*old(v))[i as int],
        entries_of(*final(v)) == entries_of(*old(v)).remove(i as int),
{
    v.remove_index(i)
}

/// The alarm that an entry stands for.
pub open spec fn entry_view(e: (i64, String)) -> AlarmView {
    AlarmView { due: e.0 as int, name: e.1@ }
}

/// Due times never decrease along `s`.
pub open spec fn sorted_by_due(s: Seq<AlarmView>) -> bool {
    forall|i: int, j: int| 0 <= i <= j < s.len() ==> s[i].due <= s[j].due
}

/// `i` is the first index of `s` whose alarm is called `name`.
pub open spec fn is_first_named(s: Seq<AlarmView>, name: Seq<char>, i: int) -> bool {
    &&& 0 <= i < s.len()
    &&& s[i].name == name
    &&& forall|j: int| 0 <= j < i ==> s[j].name != name
}

/// No alarm of `s` is called `name`.
pub open spec fn none_named(s: Seq<AlarmView>, name: Seq<char>) -> bool {
    forall|j: int| 0 <= j < s.len() ==> s[j].name != name
}

/// Pending alarms, kept in ascending order of due time. Alarms with equal
/// due times may stand in any order.
pub struct AlarmQueue {
    entries: SortedVec<(i64, String)>,
}

impl View for AlarmQueue {
    type V = Seq<AlarmView>;

    closed spec fn view(&self) -> Seq<AlarmView> {
        entries_of(self.entries).map_values(|e: (i64, String)| entry_view(e))
    }
}

impl AlarmQueue {
    /// A well-formed queue holds its alarms in ascending order of due time.
    pub open spec fn wf(&self) -> bool {
        sorted_by_due(self@)
    }

    /// An empty queue.
    pub fn new() -> (r: Self)
        ensures
            r@ == Seq::<AlarmView>::empty(),
            r.wf(),
    {
        let q = AlarmQueue { entries: entries_new() };
        assert(q@ =~= Seq::<AlarmView>::empty());
        q
    }

    /// The number of pending alarms.
    pub fn len(&self) -> (r: usize)
        ensures
            r == self@.len(),
    {
        entries_len(&self.entries)
    }

    /// Whether no alarm is pending.
    pub fn is_empty(&self) -> (r: bool)
        ensures
            r == (self@.len() == 0),
    {
        entries_len(&self.entries) == 0
    }

    /// Inserts `alarm` where its due time keeps the queue in order. Nothing
    /// is deduplicated.
    pub fn insert(&mut self, alarm: Alarm)
        requires
            old(self).wf(),
        ensures
            exists|i: int|
                {
                    &&& 0 <= i <= old(self)@.len()
                    &&& final(self)@ == old(self)@.insert(i, alarm@)
                    &&& forall|j: int| 0 <= j < i ==> old(self)@[j].due <= alarm@.due
                    &&& forall|j: int| i <= j < old(self)@.len() ==> alarm@.due <= old(self)@[j].due
                },
            final(self)@.to_multiset() == old(self)@.to_multiset().insert(alarm@),
            final(self).wf(),
    {
        let ghost before = self@;
        let (due, name) = alarm.into_parts();
        let at = entries_insert(&mut self.entries, (due, name));
        proof {
            let after = self@;
            assert(after =~= before.insert(at as int, alarm@));
            vstd::seq_lib::to_multiset_insert(before, at as int, alarm@);
            assert forall|i: int, j: int| 0 <= i <= j < after.len() implies after[i].due
                <= after[j].due by {
                if j < at {
                } else if j == at {
                    if i < at {
                        assert(after[i] == before[i]);
                    }
                } else if i < at {
                    assert(after[i] == before[i]);
                    assert(after[j] == before[j - 1]);
                } else if i == at {
                    assert(after[j] == before[j - 1]);
                } else {
                    assert(after[i] == before[i - 1]);
                    assert(after[j] == before[j - 1]);
                }
            }
        }
    }

    /// Removes and returns the alarm with the smallest due time, or `None`
    /// when the queue is empty.
    pub fn pop_minimum(&mut self) -> (r: Option<Alarm>)
        requires
            old(self).wf(),
        ensures
            old(self)@.len() == 0 ==> r is None && final(self)@ == old(self)@,
            old(self)@.len() > 0 ==> r is Some && r->0@ == old(self)@[0] && final(self)@
                == old(self)@.drop_first(),
            r is Some ==> forall|j: int|
                0 <= j < old(self)@.len() ==> r->0@.due <= old(self)@[j].due,
            r is Some ==> old(self)@.to_multiset() == final(self)@.to_multiset().insert(r->0@),
            final(self).wf(),
    {
        if entries_len(&self.entries) == 0 {
            return None;
        }
        let ghost before = self@;
        let (due, name) = entries_remove(&mut self.entries, 0);
        assert(self@ =~= before.drop_first());
        proof {
            assert(before.drop_first() =~= before.remove(0));
            lemma_take_out(before, 0);
        }
        Some(Alarm::new(name, due))
    }

    /// Removes and returns the first alarm, in queue order, called `name`;
    /// `None`, with the queue unchanged, when no alarm has that name. At most
    /// one alarm is removed.
    pub fn remove_by_name(&mut self, name: &str) -> (r: Option<Alarm>)
        requires
            old(self).wf(),
        ensures
            none_named(old(self)@, name@) ==> r is None && final(self)@ == old(self)@,
            !none_named(old(self)@, name@) ==> r is Some && exists|i: int|
                is_first_named(old(self)@, name@, i) && r->0@ == old(self)@[i] && final(self)@
                    == old(self)@.remove(i),
            r is Some ==> old(self)@.to_multiset() == final(self)@.to_multiset().insert(r->0@),
            final(self).wf(),
    {
        let ghost before = self@;
        let key = name.to_owned();
        let n = entries_len(&self.entries);
        let mut i: usize = 0;
        while i < n
            invariant
                n == before.len(),
                before == old(self)@,
                self@ == before,
                key@ == name@,
                sorted_by_due(before),
                0 <= i <= n,
                forall|j: int| 0 <= j < i ==> before[j].name != name@,
            decreases n - i,
        {
            let e = entry_at(&self.entries, i);
            assert(before[i as int] == entry_view(entries_of(self.entries)[i as int]));
            if e.1 == key {
                let (due, label) = entries_remove(&mut self.entries, i);
                let found = Alarm::new(label, due);
                assert(self@ =~= before.remove(i as int));
                assert(is_first_named(before, name@, i as int));
                proof {
                    lemma_take_out(before, i as int);
                }
                return Some(found);
            }
            i = i + 1;
        }
        None
    }
}

/// Taking the item at `i` out of `s` loses nothing else.
proof fn lemma_take_out(s: Seq<AlarmView>, i: int)
    requires
        0 <= i < s.len(),
    ensures
        s.to_multiset() == s.remove(i).to_multiset().insert(s[i]),
{
    broadcast use vstd::multiset::group_multiset_axioms;

    vstd::seq_lib::to_multiset_remove(s, i);
    vstd::seq_lib::to_multiset_contains(s, s[i]);
    assert(s.contains(s[i]));
    assert(s.to_multiset() =~= s.remove(i).to_multiset().insert(s[i]));
}

/// Popping a well-formed queue again and again yields alarms whose due
/// times never decrease: what is left after a pop is still in order, and
/// the next alarm is due no earlier than the one just taken.
pub proof fn lemma_pops_in_due_order(s: Seq<AlarmView>)
    requires
        sorted_by_due(s),
        s.len() > 0,
    ensures
        sorted_by_due(s.drop_first()),
        s.len() > 1 ==> s[0].due <= s.drop_first()[0].due,
{
}

} // verus!
