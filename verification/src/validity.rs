use vstd::prelude::*;
use crate::clock::now_millis;
use crate::validate::{self, Error};
use crate::Instant;

verus! {

/// A time window gating when an entitlement (invitation, account enablement)
/// is considered active. When both bounds are present the start never lies
/// after the end; `new`, `starting_on` and `until` refuse to build such a
/// window.
#[derive(Debug, Clone, Copy, PartialEq, Eq, Structural)]
pub enum Validity {
    /// A validity that is always valid.
    OpenEnded,
    /// A validity starting on the specified instant.
    StartingOn(Instant),
    /// A validity ending on the specified instant.
    Until(Instant),
    /// A validity holding between the specified instants.
    Between(Instant, Instant),
}

impl Validity {
    /// Both bounds, where present, are ordered.
    pub open spec fn wf(self) -> bool {
        self matches Validity::Between(s, e) ==> s <= e
    }

    /// Whether the window covers the given instant.
    pub open spec fn spec_valid_at(self, now: int) -> bool {
        match self {
            Validity::OpenEnded => true,
            Validity::StartingOn(s) => s <= now,
            Validity::Until(e) => now <= e,
            Validity::Between(s, e) => s <= now <= e,
        }
    }

    /// Create a new `Validity` from optional start and end instants; fails
    /// when both bounds are given and the start lies after the end.
    pub fn new(start_date: Option<Instant>, end_date: Option<Instant>) -> (r: Result<Self, Error>)
        ensures
            match r {
                Ok(v) => {
                    &&& v.wf()
                    &&& match (start_date, end_date) {
                        (Some(s), Some(e)) => s <= e && v == Validity::Between(s, e),
                        (Some(s), None) => v == Validity::StartingOn(s),
                        (None, Some(e)) => v == Validity::Until(e),
                        (None, None) => v == Validity::OpenEnded,
                    }
                },
                Err(e) => start_date matches Some(s) && end_date matches Some(n) && s > n
                    && (e matches Error::GreatestThan(f, m) && f@ == "start_date"@ && m == n),
            },
    {
        match (start_date, end_date) {
            (Some(start), Some(end)) => {
                validate::max("start_date", start, end)?;
                Ok(Validity::Between(start, end))
            },
            (Some(start), None) => Ok(Validity::StartingOn(start)),
            (None, Some(end)) => Ok(Validity::Until(end)),
            (None, None) => Ok(Validity::OpenEnded),
        }
    }

    /// Factory function for an always valid window.
    pub fn open_ended() -> (r: Self)
        ensures
            r == Validity::OpenEnded,
    {
        Validity::OpenEnded
    }

    /// Narrow the window to start on the given instant; fails when the new
    /// start would lie after an existing end.
    pub fn starting_on(&self, date: Instant) -> (r: Result<Self, Error>)
        ensures
            match r {
                Ok(v) => match *self {
                    Validity::OpenEnded | Validity::StartingOn(_) => v == Validity::StartingOn(
                        date,
                    ),
                    Validity::Until(e) | Validity::Between(_, e) => date <= e && v
                        == Validity::Between(date, e),
                },
                Err(e) => match *self {
                    Validity::OpenEnded | Validity::StartingOn(_) => false,
                    Validity::Until(n) | Validity::Between(_, n) => date > n && (e
                        matches Error::GreatestThan(f, m) && f@ == "start_date"@ && m == n),
                },
            },
            match r { Ok(v) => self.wf() ==> v.wf(), Err(_) => true },
    {
        match self {
            Validity::OpenEnded | Validity::StartingOn(_) => Ok(Validity::StartingOn(date)),
            Validity::Until(end) | Validity::Between(_, end) => {
                validate::max("start_date", date, *end)?;
                Ok(Validity::Between(date, *end))
            },
        }
    }

    /// Narrow the window to end on the given instant; fails when the new end
    /// would lie before an existing start.
    pub fn until(&self, date: Instant) -> (r: Result<Self, Error>)
        ensures
            match r {
                Ok(v) => match *self {
                    Validity::OpenEnded | Validity::Until(_) => v == Validity::Until(date),
                    Validity::StartingOn(s) | Validity::Between(s, _) => date >= s && v
                        == Validity::Between(s, date),
                },
                Err(e) => match *self {
                    Validity::OpenEnded | Validity::Until(_) => false,
                    Validity::StartingOn(s) | Validity::Between(s, _) => date < s && (e
                        matches Error::LesserThan(f, m) && f@ == "end_date"@ && m == s),
                },
            },
            match r { Ok(v) => self.wf() ==> v.wf(), Err(_) => true },
    {
        match self {
            Validity::OpenEnded | Validity::Until(_) => Ok(Validity::Until(date)),
            Validity::StartingOn(start) | Validity::Between(start, _) => {
                validate::min("end_date", date, *start)?;
                Ok(Validity::Between(*start, date))
            },
        }
    }

    /// Retrieve the validity start instant, if any.
    pub fn start_date(&self) -> (r: Option<Instant>)
        ensures
            match *self {
                Validity::StartingOn(s) | Validity::Between(s, _) => r == Some(s),
                _ => r is None,
            },
    {
        match self {
            Validity::StartingOn(date) | Validity::Between(date, _) => Some(*date),
            _ => None,
        }
    }

    /// Retrieve the validity end instant, if any.
    pub fn end_date(&self) -> (r: Option<Instant>)
        ensures
            match *self {
                Validity::Until(e) | Validity::Between(_, e) => r == Some(e),
                _ => r is None,
            },
    {
        match self {
            Validity::Until(date) | Validity::Between(_, date) => Some(*date),
            _ => None,
        }
    }

    /// Check if the validity covers the given instant.
    pub fn is_valid_at(&self, now: Instant) -> (r: bool)
        ensures
            r == self.spec_valid_at(now as int),
    {
        match self {
            Validity::OpenEnded => true,
            Validity::StartingOn(start) => *start <= now,
            Validity::Until(end) => now <= *end,
            Validity::Between(start, end) => *start <= now && now <= *end,
        }
    }

    /// Check if the validity covers the instant the wall clock reports now.
    pub fn is_valid(&self) -> (r: bool)
        ensures
            self is OpenEnded ==> r,
            exists|now: Instant| r == self.spec_valid_at(now as int),
    {
        let now = now_millis();
        let r = self.is_valid_at(now);
        proof {
            assert(r == self.spec_valid_at(now as int));
        }
        r
    }
}

impl Default for Validity {
    /// The default validity is open ended.
    fn default() -> (r: Self)
        ensures
            r == Validity::OpenEnded,
    {
        Validity::OpenEnded
    }
}

} // verus!
