//! Completion percentages and progress notes.
use vstd::prelude::*;
use crate::clock::now_millis;

verus! {

/// The largest completion, in percent.
pub const FULL_PERCENT: i32 = 100;

/// A completion percentage, always between 0 and 100 inclusive.
#[derive(PartialEq, Eq, Structural, Debug, Clone, Copy)]
pub struct Completion(i32);

impl Completion {
    #[verifier::type_invariant]
    spec fn in_range(self) -> bool {
        0 <= self.0 <= 100
    }

    /// The percentage held.
    pub closed spec fn percent(self) -> int {
        self.0 as int
    }

    /// A completion of `perc` percent; `perc` must lie between 0 and 100.
    pub fn new(perc: i32) -> (r: Self)
        requires
            0 <= perc <= 100,
        ensures
            r.percent() == perc as int,
    {
        Completion(perc)
    }

    /// A completion of 0 percent.
    pub fn zero() -> (r: Self)
        ensures
            r.percent() == 0,
    {
        Completion(0)
    }

    /// A completion of 100 percent.
    pub fn full() -> (r: Self)
        ensures
            r.percent() == 100,
    {
        Completion(FULL_PERCENT)
    }

    /// Whether the completion has reached 100 percent.
    pub fn is_complete(&self) -> (r: bool)
        ensures
            r == (self.percent() == 100),
    {
        self.0 == FULL_PERCENT
    }

    /// The percentage as an integer.
    pub fn val(&self) -> (r: i32)
        ensures
            r as int == self.percent(),
            0 <= r <= 100,
    {
        proof {
            use_type_invariant(self);
        }
        self.0
    }

    /// The completion followed by a percent sign, as in `40%`.
    pub fn to_string(&self) -> (r: String)
        ensures
            r@ == decimal_text(self.percent() as i32) + seq!['%'],
    {
        percent_text(self.0)
    }

    /// Lowers the completion by `other`, stopping at 0.
    pub fn sub_assign(&mut self, other: Self)
        ensures
            final(self).percent() == saturating_sub_spec(old(self).percent(), other.percent()),
    {
        *self = *self - other;
    }

    /// Raises the completion by `other`, stopping at 100.
    pub fn add_assign(&mut self, other: Self)
        ensures
            final(self).percent() == saturating_add_spec(old(self).percent(), other.percent()),
    {
        *self = *self + other;
    }
}

/// `a - b`, or 0 where that is negative.
pub open spec fn saturating_sub_spec(a: int, b: int) -> int {
    if a - b > 0 {
        a - b
    } else {
        0
    }
}

/// `a + b`, or 100 where that is larger.
pub open spec fn saturating_add_spec(a: int, b: int) -> int {
    if a + b < 100 {
        a + b
    } else {
        100
    }
}

impl core::ops::Sub for Completion {
    type Output = Self;

    fn sub(self, other: Self) -> (r: Self)
        ensures
            r.percent() == saturating_sub_spec(self.percent(), other.percent()),
    {
        proof {
            use_type_invariant(self);
            use_type_invariant(other);
        }
        let new_val: i32 = self.0 - other.0;
        if new_val > 0 {
            Completion(new_val)
        } else {
            Completion(0)
        }
    }
}

impl vstd::std_specs::ops::SubSpecImpl for Completion {
    open spec fn obeys_sub_spec() -> bool {
        true
    }

    open spec fn sub_req(self, rhs: Self) -> bool {
        true
    }

    closed spec fn sub_spec(self, rhs: Self) -> Self {
        Completion(saturating_sub_spec(self.0 as int, rhs.0 as int) as i32)
    }
}

impl core::ops::Add for Completion {
    type Output = Self;

    fn add(self, other: Self) -> (r: Self)
        ensures
            r.percent() == saturating_add_spec(self.percent(), other.percent()),
    {
        proof {
            use_type_invariant(self);
            use_type_invariant(other);
        }
        let new_val: i32 = self.0 + other.0;
        if new_val < FULL_PERCENT {
            Completion(new_val)
        } else {
            Completion(FULL_PERCENT)
        }
    }
}

impl vstd::std_specs::ops::AddSpecImpl for Completion {
    open spec fn obeys_add_spec() -> bool {
        true
    }

    open spec fn add_req(self, rhs: Self) -> bool {
        true
    }

    closed spec fn add_spec(self, rhs: Self) -> Self {
        Completion(saturating_add_spec(self.0 as int, rhs.0 as int) as i32)
    }
}

/// A note on a task, with an optional estimate of how much of the task it
/// completed.
#[derive(Debug)]
pub struct ProgressNote {
    /// What was done.
    pub note: String,
    /// When the note was written, in milliseconds since the Unix epoch.
    pub timestamp_ms: i64,
    /// How much of the task the note completed, when estimated.
    pub completed: Option<Completion>,
}

impl ProgressNote {
    /// A note stamped with the current time, with no completion.
    pub fn new(note: String) -> (r: Self)
        ensures
            r.note@ == note@,
            r.completed is None,
    {
        ProgressNote { note, timestamp_ms: now_millis(), completed: None }
    }

    /// A note stamped with the current time that completed `perc` percent of
    /// the task; `perc` must lie between 0 and 100.
    pub fn with_completion(note: String, perc: i32) -> (r: Self)
        requires
            0 <= perc <= 100,
        ensures
            r.note@ == note@,
            r.completed is Some && r.completed->0.percent() == perc as int,
    {
        ProgressNote { note, timestamp_ms: now_millis(), completed: Some(Completion::new(perc)) }
    }

    /// Drops the completion estimate, keeping the note.
    pub fn reset_completion(&mut self)
        ensures
            final(self).completed is None,
            final(self).note == old(self).note,
            final(self).timestamp_ms == old(self).timestamp_ms,
    {
        self.completed = None;
    }
}

/// The decimal text of `v`, as `format!` writes it.
pub uninterp spec fn decimal_text(v: i32) -> Seq<char>;

/// Relies on `format!`: the decimal digits of `v` followed by `%`.
#[verifier::external_body]
fn percent_text(v: i32) -> (r: String)
    ensures
        r@ == decimal_text(v) + seq!['%'],
{
    format!("{}%", v)
}

} // verus!
