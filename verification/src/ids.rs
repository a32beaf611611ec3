use vstd::prelude::*;
use crate::validate::{self, Error};

verus! {

/// What parsing a string as a UUID and re-rendering it yields: `Some` of the
/// canonical hyphenated form when the string is one of the textual UUID forms,
/// `None` otherwise. The result is a function of the string alone.
pub uninterp spec fn uuid_canonical(s: Seq<char>) -> Option<Seq<char>>;

/// Relies on `uuid::Uuid::try_parse` and the hyphenated `Display` form of
/// `uuid::Uuid`: parses the string and renders it back as the canonical
/// 36-character form, which parses to itself.
#[verifier::external_body]
fn parse_uuid(s: &str) -> (r: Option<String>)
    ensures
        match r {
            Some(c) => uuid_canonical(s@) == Some(c@) && c@.len() == 36 && uuid_canonical(c@)
                == Some(c@),
            None => uuid_canonical(s@) is None,
        },
{
    match uuid::Uuid::try_parse(s) {
        Ok(u) => Some(u.to_string()),
        Err(_) => None,
    }
}

/// Relies on `uuid::Uuid::new_v4` and the hyphenated `Display` form of
/// `uuid::Uuid`: a freshly generated random UUID always renders as 36
/// characters in the canonical form, which parses to itself.
#[verifier::external_body]
pub(crate) fn random_uuid_string() -> (r: String)
    ensures
        r@.len() == 36,
        uuid_canonical(r@) == Some(r@),
{
    uuid::Uuid::new_v4().to_string()
}

/// A value object representing a unique tenant identifier: a UUID held in
/// its canonical hyphenated form.
#[derive(Debug, PartialEq, Eq, Hash)]
pub struct TenantId(String);

impl View for TenantId {
    type V = Seq<char>;

    closed spec fn view(&self) -> Seq<char> {
        self.0@
    }
}

impl Clone for TenantId {
    /// Cloning keeps the identifier text.
    fn clone(&self) -> (r: Self)
        ensures
            r == *self,
    {
        TenantId(self.0.clone())
    }
}

impl TenantId {
    /// The held string is a canonical UUID rendering.
    pub open spec fn wf(self) -> bool {
        uuid_canonical(self@) == Some(self@) && self@.len() == 36
    }

    /// Creates a new random tenant identifier.
    pub fn random() -> (r: Self)
        ensures
            r.wf(),
    {
        TenantId(random_uuid_string())
    }

    /// Creates a new tenant identifier from a raw string, which must spell
    /// a UUID; the identifier keeps the canonical form of it.
    pub fn new(raw_tenant_id: &str) -> (r: Result<Self, Error>)
        ensures
            match r {
                Ok(t) => uuid_canonical(raw_tenant_id@) == Some(t@) && t.wf(),
                Err(e) => uuid_canonical(raw_tenant_id@) is None && e is InvalidFormat,
            },
    {
        match parse_uuid(raw_tenant_id) {
            Some(canonical) => Ok(TenantId(canonical)),
            None => Err(Error::InvalidFormat("tenant_id".to_owned())),
        }
    }

    /// The canonical text of the identifier.
    pub fn as_str(&self) -> (r: &str)
        ensures
            r@ == self@,
    {
        self.0.as_str()
    }

    /// The canonical text of the identifier, as an owned string.
    pub fn into_string(&self) -> (r: String)
        ensures
            r@ == self@,
    {
        self.0.clone()
    }

    /// Whether two identifiers spell the same UUID text.
    pub fn matches(&self, other: &TenantId) -> (r: bool)
        ensures
            r == (self@ == other@),
    {
        validate::str_eq(self.0.as_str(), other.0.as_str())
    }
}

} // verus!
