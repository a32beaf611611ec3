use vstd::prelude::*;
use crate::clock::now_millis;
use crate::validity::Validity;
use crate::Instant;

verus! {

/// The on/off switch of a user account combined with the time window in
/// which the account may actually be used.
#[derive(Debug, Clone, Copy, PartialEq, Eq, Structural)]
pub enum Enablement {
    Enabled(Validity),
    Disabled,
}

impl Enablement {
    /// An account is live at an instant when it is switched on and its
    /// validity window covers the instant.
    pub open spec fn spec_enabled_at(self, now: int) -> bool {
        match self {
            Enablement::Enabled(v) => v.spec_valid_at(now),
            Enablement::Disabled => false,
        }
    }

    /// Whether the window of a switched-on status misses the instant.
    pub open spec fn spec_time_expired_at(self, now: int) -> bool {
        match self {
            Enablement::Enabled(v) => !v.spec_valid_at(now),
            Enablement::Disabled => false,
        }
    }

    /// Creates a new `Enablement` from a flag and a validity window.
    pub fn new(enabled: bool, validity: Validity) -> (r: Self)
        ensures
            enabled ==> r == Enablement::Enabled(validity),
            !enabled ==> r == Enablement::Disabled,
    {
        match enabled {
            true => Enablement::Enabled(validity),
            false => Enablement::Disabled,
        }
    }

    /// Creates an enabled `Enablement` with an indefinite validity.
    pub fn indefinite() -> (r: Self)
        ensures
            r == Enablement::Enabled(Validity::OpenEnded),
    {
        Enablement::Enabled(Validity::OpenEnded)
    }

    /// Returns true if the enablement status is switched on, regardless of
    /// its window.
    pub fn enabled(&self) -> (r: bool)
        ensures
            r == (self is Enabled),
    {
        match self {
            Enablement::Enabled(_) => true,
            _ => false,
        }
    }

    /// Returns the validity window, if the status is switched on.
    pub fn validty(&self) -> (r: Option<&Validity>)
        ensures
            match *self {
                Enablement::Enabled(v) => r matches Some(rv) && *rv == v,
                Enablement::Disabled => r is None,
            },
    {
        match self {
            Enablement::Enabled(validity) => Some(validity),
            _ => None,
        }
    }

    /// Whether the window of a switched-on status misses the given instant.
    pub fn is_time_expired_at(&self, now: Instant) -> (r: bool)
        ensures
            r == self.spec_time_expired_at(now as int),
    {
        match self {
            Enablement::Enabled(validity) => !validity.is_valid_at(now),
            _ => false,
        }
    }

    /// Whether the window of a switched-on status misses the instant the
    /// wall clock reports now.
    pub fn is_time_expired(&self) -> (r: bool)
        ensures
            self is Disabled ==> !r,
            self == Enablement::Enabled(Validity::OpenEnded) ==> !r,
            exists|now: Instant| r == self.spec_time_expired_at(now as int),
    {
        let now = now_millis();
        let r = self.is_time_expired_at(now);
        proof {
            assert(r == self.spec_time_expired_at(now as int));
        }
        r
    }

    /// Whether the account is live at the given instant.
    pub fn is_enabled_at(&self, now: Instant) -> (r: bool)
        ensures
            r == self.spec_enabled_at(now as int),
    {
        match self {
            Enablement::Enabled(_) => !self.is_time_expired_at(now),
            _ => false,
        }
    }

    /// Whether the account is live at the instant the wall clock reports now.
    pub fn is_enabled(&self) -> (r: bool)
        ensures
            self is Disabled ==> !r,
            self == Enablement::Enabled(Validity::OpenEnded) ==> r,
            exists|now: Instant| r == self.spec_enabled_at(now as int),
    {
        let now = now_millis();
        let r = self.is_enabled_at(now);
        proof {
            assert(r == self.spec_enabled_at(now as int));
        }
        r
    }
}

} // verus!
