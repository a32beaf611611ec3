mod clock;
pub mod enablement;
pub mod group;
pub mod ids;
pub mod invitation;
pub mod member_service;
pub mod password;
pub mod person;
pub mod role;
pub mod tenant;
pub mod user;
pub mod validate;
pub mod validity;

use vstd::prelude::*;

verus! {

/// Milliseconds relative to an arbitrary fixed epoch; the single canonical
/// instant representation used by validity windows and enablement checks.
pub type Instant = i64;

} // verus!
