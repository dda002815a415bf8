//! Alarms: a name and an absolute due time.
use vstd::prelude::*;
use crate::clock::now_millis;

verus! {

/// What an alarm is, in mathematical terms: its due time in milliseconds
/// since the Unix epoch, and its name.
pub ghost struct AlarmView {
    pub due: int,
    pub name: Seq<char>,
}

/// A named point in time. Alarms are ordered by due time alone; the name is
/// a label chosen by the caller and need not be unique.
#[derive(Debug)]
pub struct Alarm {
    name: String,
    due_ms: i64,
}

impl View for Alarm {
    type V = AlarmView;

    closed spec fn view(&self) -> AlarmView {
        AlarmView { due: self.due_ms as int, name: self.name@ }
    }
}

/// How two due times compare.
pub open spec fn due_order(a: int, b: int) -> core::cmp::Ordering {
    if a < b {
        core::cmp::Ordering::Less
    } else if a > b {
        core::cmp::Ordering::Greater
    } else {
        core::cmp::Ordering::Equal
    }
}

impl PartialEq for Alarm {
    /// Alarms are equal when they are due at the same time, whatever their names.
    fn eq(&self, other: &Alarm) -> (r: bool) {
        self.due_ms == other.due_ms
    }
}

impl vstd::std_specs::cmp::PartialEqSpecImpl for Alarm {
    open spec fn obeys_eq_spec() -> bool {
        true
    }

    open spec fn eq_spec(&self, other: &Alarm) -> bool {
        self@.due == other@.due
    }
}

impl Eq for Alarm {

}

impl PartialOrd for Alarm {
    /// Alarms are ordered by due time alone.
    fn partial_cmp(&self, other: &Alarm) -> (r: Option<core::cmp::Ordering>) {
        if self.due_ms < other.due_ms {
            Some(core::cmp::Ordering::Less)
        } else if self.due_ms > other.due_ms {
            Some(core::cmp::Ordering::Greater)
        } else {
            Some(core::cmp::Ordering::Equal)
        }
    }
}

impl vstd::std_specs::cmp::PartialOrdSpecImpl for Alarm {
    open spec fn obeys_partial_cmp_spec() -> bool {
        true
    }

    open spec fn partial_cmp_spec(&self, other: &Alarm) -> Option<core::cmp::Ordering> {
        Some(due_order(self@.due, other@.due))
    }
}

/// How long to wait, in milliseconds, at time `now` for something due at
/// `due`: nothing when it is already due.
pub open spec fn wait_spec(due: int, now: int) -> int {
    if due > now {
        due - now
    } else {
        0
    }
}

/// Milliseconds from `now_ms` until `due_ms`, or 0 when `due_ms` is not
/// later than `now_ms` (an overdue alarm fires at once).
pub fn wait_ms(due_ms: i64, now_ms: i64) -> (r: u64)
    ensures
        r as int == wait_spec(due_ms as int, now_ms as int),
{
    if due_ms > now_ms {
        (due_ms as i128 - now_ms as i128) as u64
    } else {
        0
    }
}

impl Alarm {
    /// An alarm called `name`, due `due_ms` milliseconds after the Unix epoch.
    pub fn new(name: String, due_ms: i64) -> (r: Self)
        ensures
            r@ == (AlarmView { due: due_ms as int, name: name@ }),
    {
        Alarm { name, due_ms }
    }

    /// The alarm's label.
    pub fn name(&self) -> (r: &str)
        ensures
            r@ == self@.name,
    {
        self.name.as_str()
    }

    /// The due time, in milliseconds since the Unix epoch.
    pub fn due_ms(&self) -> (r: i64)
        ensures
            r as int == self@.due,
    {
        self.due_ms
    }

    /// How long the alarm still has to wait at `now_ms`: 0 once it is due.
    pub fn wait_from(&self, now_ms: i64) -> (r: u64)
        ensures
            r as int == wait_spec(self@.due, now_ms as int),
    {
        wait_ms(self.due_ms, now_ms)
    }

    /// How long the alarm still has to wait, read against the clock: never
    /// more than the time from some instant up to its due time, and 0 once
    /// it is due.
    pub fn remaining_ms(&self) -> (r: u64)
        ensures
            exists|now: i64| r as int == wait_spec(self@.due, now as int),
    {
        let now = now_millis();
        self.wait_from(now)
    }

    /// Takes the alarm apart into its due time and name.
    pub fn into_parts(self) -> (r: (i64, String))
        ensures
            r.0 as int == self@.due,
            r.1@ == self@.name,
    {
        (self.due_ms, self.name)
    }
}

} // verus!
