use vstd::prelude::*;
use crate::clock::now_millis;
use crate::ids::{random_uuid_string, TenantId};
use crate::validate::{self, Error};
use crate::validity::Validity;
use crate::Instant;

verus! {

/// The logical identifier of a registration invitation: a non-empty string
/// of at most 36 characters.
#[derive(Debug, PartialEq, Eq)]
pub struct InvitationId(String);

impl View for InvitationId {
    type V = Seq<char>;

    closed spec fn view(&self) -> Seq<char> {
        self.0@
    }
}

impl Clone for InvitationId {
    /// Cloning keeps the identifier text.
    fn clone(&self) -> (r: Self)
        ensures
            r == *self,
    {
        InvitationId(self.0.clone())
    }
}

impl InvitationId {
    /// The held string is non-empty and fits the identifier bound.
    pub open spec fn wf(self) -> bool {
        0 < self@.len() <= 36
    }

    /// Creates a new `InvitationId` from a string, refusing an empty or
    /// overlong one.
    pub fn new(value: &str) -> (r: Result<Self, Error>)
        ensures
            match r {
                Ok(v) => v@ == value@ && v.wf(),
                Err(e) => match e {
                    Error::Required(n) => value@.len() == 0 && n@ == "InvitationId"@,
                    Error::TooLong(n, m) => value@.len() > 36 && n@ == "InvitationId"@ && m == 36,
                    _ => false,
                },
            },
    {
        validate::not_empty("InvitationId", value)?;
        validate::max_length("InvitationId", value, 36)?;
        Ok(InvitationId(value.to_owned()))
    }

    /// Generates a new random `InvitationId`.
    pub fn random() -> (r: Self)
        ensures
            r.wf(),
            r@.len() == 36,
    {
        InvitationId(random_uuid_string())
    }

    /// The text of the identifier.
    pub fn as_str(&self) -> (r: &str)
        ensures
            r@ == self@,
    {
        self.0.as_str()
    }

    /// The text of the identifier, as an owned string.
    pub fn into_string(&self) -> (r: String)
        ensures
            r@ == self@,
    {
        self.0.clone()
    }
}

/// The human-readable description of an invitation: a non-empty string of at
/// most 255 characters.
#[derive(Debug, PartialEq, Eq)]
pub struct InvitationDescription(String);

impl View for InvitationDescription {
    type V = Seq<char>;

    closed spec fn view(&self) -> Seq<char> {
        self.0@
    }
}

impl Clone for InvitationDescription {
    /// Cloning keeps the description text.
    fn clone(&self) -> (r: Self)
        ensures
            r == *self,
    {
        InvitationDescription(self.0.clone())
    }
}

impl InvitationDescription {
    /// The held string is non-empty and fits the description bound.
    pub open spec fn wf(self) -> bool {
        0 < self@.len() <= 255
    }

    /// Creates a new `InvitationDescription` from a string, refusing an
    /// empty or overlong one.
    pub fn new(value: &str) -> (r: Result<Self, Error>)
        ensures
            match r {
                Ok(v) => v@ == value@ && v.wf(),
                Err(e) => match e {
                    Error::Required(n) => value@.len() == 0 && n@ == "InvitationDescription"@,
                    Error::TooLong(n, m) => value@.len() > 255 && n@ == "InvitationDescription"@
                        && m == 255,
                    _ => false,
                },
            },
    {
        validate::not_empty("InvitationDescription", value)?;
        validate::max_length("InvitationDescription", value, 255)?;
        Ok(InvitationDescription(value.to_owned()))
    }

    /// The text of the description.
    pub fn as_str(&self) -> (r: &str)
        ensures
            r@ == self@,
    {
        self.0.as_str()
    }

    /// The text of the description, as an owned string.
    pub fn into_string(&self) -> (r: String)
        ensures
            r@ == self@,
    {
        self.0.clone()
    }
}

/// The mathematical content of a registration invitation.
pub ghost struct InvitationV {
    pub invitation_id: Seq<char>,
    pub description: Seq<char>,
    pub validity: Validity,
}

impl InvitationV {
    /// An invitation answers both to its identifier and to its description.
    pub open spec fn identified_by(self, identifier: Seq<char>) -> bool {
        self.invitation_id == identifier || self.description == identifier
    }

    /// An invitation is available at an instant when its validity window
    /// covers it.
    pub open spec fn available_at(self, now: int) -> bool {
        self.validity.spec_valid_at(now)
    }

    pub open spec fn wf(self) -> bool {
        &&& 0 < self.invitation_id.len() <= 36
        &&& 0 < self.description.len() <= 255
        &&& self.validity.wf()
    }
}

/// Entity gating self-registration on a tenant: an identifier, a
/// description, and the validity window in which the invitation is open.
#[derive(Debug)]
pub struct RegistrationInvitation {
    invitation_id: InvitationId,
    description: InvitationDescription,
    validity: Validity,
}

impl View for RegistrationInvitation {
    type V = InvitationV;

    closed spec fn view(&self) -> InvitationV {
        InvitationV {
            invitation_id: self.invitation_id@,
            description: self.description@,
            validity: self.validity,
        }
    }
}

impl PartialEq for RegistrationInvitation {
    /// Two invitations are the same invitation when they share the
    /// identifier, whatever their description or validity.
    fn eq(&self, other: &Self) -> (r: bool) {
        validate::str_eq(self.invitation_id.as_str(), other.invitation_id.as_str())
    }
}

impl vstd::std_specs::cmp::PartialEqSpecImpl for RegistrationInvitation {
    open spec fn obeys_eq_spec() -> bool {
        true
    }

    open spec fn eq_spec(&self, other: &RegistrationInvitation) -> bool {
        self@.invitation_id == other@.invitation_id
    }
}

impl Clone for RegistrationInvitation {
    /// Cloning keeps all parts of the invitation.
    fn clone(&self) -> (r: Self)
        ensures
            r == *self,
    {
        RegistrationInvitation {
            invitation_id: self.invitation_id.clone(),
            description: self.description.clone(),
            validity: self.validity,
        }
    }
}

impl RegistrationInvitation {
    pub open spec fn wf(self) -> bool {
        self@.wf()
    }

    /// Re-create an invitation from already validated parts.
    pub fn hydrate(
        invitation_id: InvitationId,
        description: InvitationDescription,
        validity: Validity,
    ) -> (r: Self)
        ensures
            r@.invitation_id == invitation_id@,
            r@.description == description@,
            r@.validity == validity,
    {
        RegistrationInvitation { invitation_id, description, validity }
    }

    /// Create a new invitation with the given description, a random
    /// identifier and the default open-ended validity.
    pub fn new(description: InvitationDescription) -> (r: Self)
        ensures
            r@.description == description@,
            r@.validity == Validity::OpenEnded,
            r@.invitation_id.len() == 36,
    {
        RegistrationInvitation {
            invitation_id: InvitationId::random(),
            description,
            validity: Validity::OpenEnded,
        }
    }

    /// The logical unique identifier of the invitation.
    pub fn invitation_id(&self) -> (r: &InvitationId)
        ensures
            r@ == self@.invitation_id,
    {
        &self.invitation_id
    }

    /// The description of the invitation.
    pub fn description(&self) -> (r: &InvitationDescription)
        ensures
            r@ == self@.description,
    {
        &self.description
    }

    /// The validity of the invitation.
    pub fn validity(&self) -> (r: &Validity)
        ensures
            *r == self@.validity,
    {
        &self.validity
    }

    /// Check if the invitation answers to the given identifier, by its
    /// identifier or by its description.
    pub fn is_identified_by(&self, identifier: &str) -> (r: bool)
        ensures
            r == self@.identified_by(identifier@),
    {
        validate::str_eq(self.invitation_id.as_str(), identifier) || validate::str_eq(
            self.description.as_str(),
            identifier,
        )
    }

    /// Check if the invitation is available at the given instant.
    pub fn is_available_at(&self, now: Instant) -> (r: bool)
        ensures
            r == self@.available_at(now as int),
    {
        self.validity.is_valid_at(now)
    }

    /// Check if the invitation is available at the instant the wall clock
    /// reports now.
    pub fn is_available(&self) -> (r: bool)
        ensures
            self@.validity is OpenEnded ==> r,
            exists|now: Instant| r == self@.available_at(now as int),
    {
        let now = now_millis();
        let r = self.is_available_at(now);
        proof {
            assert(r == self@.available_at(now as int));
        }
        r
    }

    /// Replace the validity of the invitation with the provided window.
    pub fn redefine_as(&mut self, validity: Validity)
        ensures
            final(self)@ == (InvitationV { validity, ..old(self)@ }),
    {
        self.validity = validity;
    }
}

/// The mathematical content of an invitation read model.
pub ghost struct InvitationDescriptorV {
    pub tenant_id: Seq<char>,
    pub invitation_id: Seq<char>,
    pub invitation_description: Seq<char>,
    pub invitation_validity: Validity,
}

/// The read model that listing an invitation of a tenant yields.
pub open spec fn descriptor_of(tenant_id: Seq<char>, inv: InvitationV) -> InvitationDescriptorV {
    InvitationDescriptorV {
        tenant_id,
        invitation_id: inv.invitation_id,
        invitation_description: inv.description,
        invitation_validity: inv.validity,
    }
}

/// A read model of one invitation of a tenant, handed out by listing
/// operations.
#[derive(Debug)]
pub struct InvitationDescriptor {
    pub tenant_id: TenantId,
    pub invitation_id: InvitationId,
    pub invitation_description: InvitationDescription,
    pub invitation_validity: Validity,
}

impl View for InvitationDescriptor {
    type V = InvitationDescriptorV;

    open spec fn view(&self) -> InvitationDescriptorV {
        InvitationDescriptorV {
            tenant_id: self.tenant_id@,
            invitation_id: self.invitation_id@,
            invitation_description: self.invitation_description@,
            invitation_validity: self.invitation_validity,
        }
    }
}

impl InvitationDescriptor {
    /// Captures the identifying parts of an invitation of a tenant.
    pub fn new(tenant_id: &TenantId, invitation: &RegistrationInvitation) -> (r: Self)
        ensures
            r@ == descriptor_of(tenant_id@, invitation@),
    {
        InvitationDescriptor {
            tenant_id: tenant_id.clone(),
            invitation_id: invitation.invitation_id.clone(),
            invitation_description: invitation.description.clone(),
            invitation_validity: invitation.validity,
        }
    }
}

} // verus!
