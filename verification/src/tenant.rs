use vstd::prelude::*;
use crate::clock::now_millis;
use crate::ids::TenantId;
use crate::invitation::{
    descriptor_of, InvitationDescription, InvitationDescriptor, InvitationDescriptorV,
    InvitationV, RegistrationInvitation,
};
use crate::validate::{self, Error};
use crate::validity::Validity;
use crate::Instant;

verus! {

/// The name of a tenant: a non-empty string of at most 70 characters.
#[derive(Debug, PartialEq, Eq)]
pub struct TenantName(String);

impl View for TenantName {
    type V = Seq<char>;

    closed spec fn view(&self) -> Seq<char> {
        self.0@
    }
}

impl Clone for TenantName {
    /// Cloning keeps the name text.
    fn clone(&self) -> (r: Self)
        ensures
            r == *self,
    {
        TenantName(self.0.clone())
    }
}

impl TenantName {
    /// The held string is non-empty and fits the name bound.
    pub open spec fn wf(self) -> bool {
        0 < self@.len() <= 70
    }

    /// Creates a new `TenantName` from a string, refusing an empty or
    /// overlong one.
    pub fn new(value: &str) -> (r: Result<Self, Error>)
        ensures
            match r {
                Ok(v) => v@ == value@ && v.wf(),
                Err(e) => match e {
                    Error::Required(n) => value@.len() == 0 && n@ == "TenantName"@,
                    Error::TooLong(n, m) => value@.len() > 70 && n@ == "TenantName"@ && m == 70,
                    _ => false,
                },
            },
    {
        validate::not_empty("TenantName", value)?;
        validate::max_length("TenantName", value, 70)?;
        Ok(TenantName(value.to_owned()))
    }

    /// The text of the name.
    pub fn as_str(&self) -> (r: &str)
        ensures
            r@ == self@,
    {
        self.0.as_str()
    }

    /// The text of the name, as an owned string.
    pub fn into_string(&self) -> (r: String)
        ensures
            r@ == self@,
    {
        self.0.clone()
    }
}

/// The description of a tenant: a non-empty string of at most 255
/// characters.
#[derive(Debug, PartialEq, Eq)]
pub struct TenantDescription(String);

impl View for TenantDescription {
    type V = Seq<char>;

    closed spec fn view(&self) -> Seq<char> {
        self.0@
    }
}

impl Clone for TenantDescription {
    /// Cloning keeps the description text.
    fn clone(&self) -> (r: Self)
        ensures
            r == *self,
    {
        TenantDescription(self.0.clone())
    }
}

impl TenantDescription {
    /// The held string is non-empty and fits the description bound.
    pub open spec fn wf(self) -> bool {
        0 < self@.len() <= 255
    }

    /// Creates a new `TenantDescription` from a string, refusing an empty
    /// or overlong one.
    pub fn new(value: &str) -> (r: Result<Self, Error>)
        ensures
            match r {
                Ok(v) => v@ == value@ && v.wf(),
                Err(e) => match e {
                    Error::Required(n) => value@.len() == 0 && n@ == "TenantDescription"@,
                    Error::TooLong(n, m) => value@.len() > 255 && n@ == "TenantDescription"@
                        && m == 255,
                    _ => false,
                },
            },
    {
        validate::not_empty("TenantDescription", value)?;
        validate::max_length("TenantDescription", value, 255)?;
        Ok(TenantDescription(value.to_owned()))
    }

    /// The text of the description.
    pub fn as_str(&self) -> (r: &str)
        ensures
            r@ == self@,
    {
        self.0.as_str()
    }

    /// The text of the description, as an owned string.
    pub fn into_string(&self) -> (r: String)
        ensures
            r@ == self@,
    {
        self.0.clone()
    }
}

/// The failure conditions of tenant-level operations.
#[derive(Debug, Clone, PartialEq, Eq)]
pub enum TenantError {
    /// The tenant is not active.
    NotActive,
    /// An invitation with the given identifier is already available.
    InvitationExists(String),
    /// No invitation with the given identifier exists.
    InvitationNotFound(String),
    /// A field constraint was violated.
    Validation(Error),
}

/// The mathematical content of a tenant.
pub ghost struct TenantV {
    pub tenant_id: Seq<char>,
    pub name: Seq<char>,
    pub description: Option<Seq<char>>,
    pub active: bool,
    pub invitations: Seq<InvitationV>,
}

/// The index of the first invitation answering to the identifier, if any.
pub open spec fn spec_find_invitation(invs: Seq<InvitationV>, identifier: Seq<char>) -> Option<
    int,
>
    decreases invs.len(),
{
    if invs.len() == 0 {
        None
    } else if invs[0].identified_by(identifier) {
        Some(0int)
    } else {
        match spec_find_invitation(invs.drop_first(), identifier) {
            Some(i) => Some(i + 1),
            None => None,
        }
    }
}

/// Whether the first invitation answering to the identifier is available at
/// the instant.
pub open spec fn spec_available_through(
    invs: Seq<InvitationV>,
    identifier: Seq<char>,
    now: int,
) -> bool {
    match spec_find_invitation(invs, identifier) {
        Some(i) => invs[i].available_at(now),
        None => false,
    }
}

/// The read models of the invitations whose availability at `now` equals
/// `want`, in stored order.
pub open spec fn descriptors_for(
    tenant_id: Seq<char>,
    invs: Seq<InvitationV>,
    want: bool,
    now: int,
) -> Seq<InvitationDescriptorV> {
    invs.filter(|inv: InvitationV| inv.available_at(now) == want).map_values(
        |inv: InvitationV| descriptor_of(tenant_id, inv),
    )
}

/// How one more invitation extends the listed read models.
pub proof fn lemma_descriptors_for_push(
    tenant_id: Seq<char>,
    invs: Seq<InvitationV>,
    next: InvitationV,
    want: bool,
    now: int,
)
    ensures
        descriptors_for(tenant_id, invs.push(next), want, now) == if next.available_at(now)
            == want {
            descriptors_for(tenant_id, invs, want, now).push(descriptor_of(tenant_id, next))
        } else {
            descriptors_for(tenant_id, invs, want, now)
        },
{
    reveal(Seq::filter);
    let pred = |inv: InvitationV| inv.available_at(now) == want;
    let pushed = invs.push(next);
    assert(pushed.drop_last() =~= invs);
    assert(pushed.last() == next);
    if pred(next) {
        assert(pushed.filter(pred) == invs.filter(pred).push(next));
        assert(pushed.filter(pred).map_values(|inv: InvitationV| descriptor_of(tenant_id, inv))
            =~= invs.filter(pred).map_values(|inv: InvitationV| descriptor_of(tenant_id, inv)).push(
            descriptor_of(tenant_id, next),
        ));
    } else {
        assert(pushed.filter(pred) == invs.filter(pred));
    }
}

/// The converse: an index that answers to the identifier, with nothing
/// answering before it, is what `spec_find_invitation` finds.
pub proof fn lemma_find_invitation_at(invs: Seq<InvitationV>, identifier: Seq<char>, i: int)
    requires
        0 <= i < invs.len(),
        invs[i].identified_by(identifier),
        forall|j: int| 0 <= j < i ==> !(#[trigger] invs[j]).identified_by(identifier),
    ensures
        spec_find_invitation(invs, identifier) == Some(i),
    decreases invs.len(),
{
    if i != 0 {
        let rest = invs.drop_first();
        assert(forall|j: int| 1 <= j < invs.len() ==> invs[j] == #[trigger] rest[j - 1]);
        assert forall|j: int| 0 <= j < i - 1 implies !(#[trigger] rest[j]).identified_by(
            identifier,
        ) by {
            assert(!invs[j + 1].identified_by(identifier));
        }
        lemma_find_invitation_at(rest, identifier, i - 1);
    }
}

/// And: when no invitation answers to the identifier, nothing is found.
pub proof fn lemma_find_invitation_none(invs: Seq<InvitationV>, identifier: Seq<char>)
    requires
        forall|j: int| 0 <= j < invs.len() ==> !(#[trigger] invs[j]).identified_by(identifier),
    ensures
        spec_find_invitation(invs, identifier) is None,
    decreases invs.len(),
{
    if invs.len() != 0 {
        let rest = invs.drop_first();
        assert(forall|j: int| 1 <= j < invs.len() ==> invs[j] == #[trigger] rest[j - 1]);
        assert forall|j: int| 0 <= j < rest.len() implies !(#[trigger] rest[j]).identified_by(
            identifier,
        ) by {
            assert(!invs[j + 1].identified_by(identifier));
        }
        lemma_find_invitation_none(rest, identifier);
    }
}

/// Aggregate root collecting the registration invitations of one tenant and
/// its active flag; an inactive tenant refuses every invitation operation.
#[derive(Debug)]
pub struct Tenant {
    tenant_id: TenantId,
    name: TenantName,
    description: Option<TenantDescription>,
    active: bool,
    invitations: Vec<RegistrationInvitation>,
}

impl View for Tenant {
    type V = TenantV;

    closed spec fn view(&self) -> TenantV {
        TenantV {
            tenant_id: self.tenant_id@,
            name: self.name@,
            description: match self.description {
                Some(d) => Some(d@),
                None => None,
            },
            active: self.active,
            invitations: self.invitations@.map_values(|inv: RegistrationInvitation| inv@),
        }
    }
}

impl PartialEq for Tenant {
    /// Two tenants are the same tenant when they share the identifier,
    /// whatever their state.
    fn eq(&self, other: &Self) -> (r: bool) {
        self.tenant_id.matches(&other.tenant_id)
    }
}

impl vstd::std_specs::cmp::PartialEqSpecImpl for Tenant {
    open spec fn obeys_eq_spec() -> bool {
        true
    }

    open spec fn eq_spec(&self, other: &Tenant) -> bool {
        self@.tenant_id == other@.tenant_id
    }
}

impl Tenant {
    /// Hydrates an existing tenant from already validated parts.
    pub fn hydrate(
        tenant_id: TenantId,
        name: TenantName,
        description: Option<TenantDescription>,
        active: bool,
        invitations: Vec<RegistrationInvitation>,
    ) -> (r: Self)
        ensures
            r@.tenant_id == tenant_id@,
            r@.name == name@,
            r@.description == match description {
                Some(d) => Some(d@),
                None => None::<Seq<char>>,
            },
            r@.active == active,
            r@.invitations == invitations@.map_values(|inv: RegistrationInvitation| inv@),
    {
        Tenant { tenant_id, name, description, active, invitations }
    }

    /// Creates a new tenant with the given name, description and status,
    /// a fresh random identifier and no invitations.
    pub fn new(name: TenantName, description: Option<TenantDescription>, active: bool) -> (r:
        Self)
        ensures
            r@.name == name@,
            r@.description == match description {
                Some(d) => Some(d@),
                None => None::<Seq<char>>,
            },
            r@.active == active,
            r@.invitations == Seq::<InvitationV>::empty(),
            r@.tenant_id.len() == 36,
    {
        let t = Tenant {
            tenant_id: TenantId::random(),
            name,
            description,
            active,
            invitations: Vec::new(),
        };
        proof {
            assert(t@.invitations =~= Seq::<InvitationV>::empty());
        }
        t
    }

    /// The logical unique identifier of the tenant.
    pub fn tenant_id(&self) -> (r: &TenantId)
        ensures
            r@ == self@.tenant_id,
    {
        &self.tenant_id
    }

    /// The name of the tenant.
    pub fn name(&self) -> (r: &TenantName)
        ensures
            r@ == self@.name,
    {
        &self.name
    }

    /// The optional description of the tenant.
    pub fn description(&self) -> (r: &Option<TenantDescription>)
        ensures
            match *r {
                Some(d) => self@.description == Some(d@),
                None => self@.description is None,
            },
    {
        &self.description
    }

    /// Whether the tenant is active.
    pub fn active(&self) -> (r: bool)
        ensures
            r == self@.active,
    {
        self.active
    }

    /// All registration invitations of the tenant.
    pub fn invitations(&self) -> (r: &Vec<RegistrationInvitation>)
        ensures
            r@.map_values(|inv: RegistrationInvitation| inv@) == self@.invitations,
    {
        &self.invitations
    }

    /// Activates the tenant.
    pub fn activate(&mut self)
        ensures
            final(self)@ == (TenantV { active: true, ..old(self)@ }),
    {
        self.active = true;
    }

    /// Deactivates the tenant.
    pub fn deactivate(&mut self)
        ensures
            final(self)@ == (TenantV { active: false, ..old(self)@ }),
    {
        self.active = false;
    }

    /// The read models of the invitations whose availability at `now`
    /// equals `available`, in their stored order.
    fn registration_invitations_for(&self, available: bool, now: Instant) -> (r: Vec<
        InvitationDescriptor,
    >)
        ensures
            r@.map_values(|d: InvitationDescriptor| d@) == descriptors_for(
                self@.tenant_id,
                self@.invitations,
                available,
                now as int,
            ),
    {
        let ghost dview = |d: InvitationDescriptor| d@;
        let mut out: Vec<InvitationDescriptor> = Vec::new();
        let n = self.invitations.len();
        proof {
            assert(self@.invitations.take(0) =~= Seq::<InvitationV>::empty());
            reveal(Seq::filter);
            assert(out@.map_values(dview) =~= descriptors_for(
                self@.tenant_id,
                self@.invitations.take(0),
                available,
                now as int,
            ));
        }
        for i in 0..n
            invariant
                n == self.invitations.len(),
                dview == (|d: InvitationDescriptor| d@),
                out@.map_values(dview) == descriptors_for(
                    self@.tenant_id,
                    self@.invitations.take(i as int),
                    available,
                    now as int,
                ),
        {
            let ghost prefix = self@.invitations.take(i as int);
            let ghost next = self@.invitations[i as int];
            proof {
                assert(self@.invitations.take(i + 1) =~= prefix.push(next));
                lemma_descriptors_for_push(
                    self@.tenant_id,
                    prefix,
                    next,
                    available,
                    now as int,
                );
            }
            if self.invitations[i].is_available_at(now) == available {
                let descriptor = InvitationDescriptor::new(&self.tenant_id, &self.invitations[i]);
                let ghost out_before = out@;
                out.push(descriptor);
                proof {
                    assert(out@.map_values(dview) =~= out_before.map_values(dview).push(
                        descriptor@,
                    ));
                }
            }
        }
        proof {
            assert(self@.invitations.take(n as int) =~= self@.invitations);
        }
        out
    }

    /// Retrieve the read models of all invitations available at the given
    /// instant.
    ///
    /// It fails with [`TenantError::NotActive`] if the tenant is not active.
    pub fn all_available_registration_invitations_at(&self, now: Instant) -> (r: Result<
        Vec<InvitationDescriptor>,
        TenantError,
    >)
        ensures
            match r {
                Ok(v) => self@.active && v@.map_values(|d: InvitationDescriptor| d@)
                    == descriptors_for(self@.tenant_id, self@.invitations, true, now as int),
                Err(e) => !self@.active && e == TenantError::NotActive,
            },
    {
        if !self.active {
            return Err(TenantError::NotActive);
        }
        Ok(self.registration_invitations_for(true, now))
    }

    /// Retrieve the read models of all invitations available at the instant
    /// the wall clock reports now.
    ///
    /// It fails with [`TenantError::NotActive`] if the tenant is not active.
    pub fn all_available_registration_invitations(&self) -> (r: Result<
        Vec<InvitationDescriptor>,
        TenantError,
    >)
        ensures
            match r {
                Ok(v) => self@.active && exists|now: Instant|
                    v@.map_values(|d: InvitationDescriptor| d@) == descriptors_for(
                        self@.tenant_id,
                        self@.invitations,
                        true,
                        now as int,
                    ),
                Err(e) => !self@.active && e == TenantError::NotActive,
            },
    {
        let now = now_millis();
        let r = self.all_available_registration_invitations_at(now);
        proof {
            if r is Ok {
                assert(r->Ok_0@.map_values(|d: InvitationDescriptor| d@) == descriptors_for(
                    self@.tenant_id,
                    self@.invitations,
                    true,
                    now as int,
                ));
            }
        }
        r
    }

    /// Retrieve the read models of all invitations not available at the
    /// given instant.
    ///
    /// It fails with [`TenantError::NotActive`] if the tenant is not active.
    pub fn all_unavailable_registration_invitations_at(&self, now: Instant) -> (r: Result<
        Vec<InvitationDescriptor>,
        TenantError,
    >)
        ensures
            match r {
                Ok(v) => self@.active && v@.map_values(|d: InvitationDescriptor| d@)
                    == descriptors_for(self@.tenant_id, self@.invitations, false, now as int),
                Err(e) => !self@.active && e == TenantError::NotActive,
            },
    {
        if !self.active {
            return Err(TenantError::NotActive);
        }
        Ok(self.registration_invitations_for(false, now))
    }

    /// Retrieve the read models of all invitations not available at the
    /// instant the wall clock reports now.
    ///
    /// It fails with [`TenantError::NotActive`] if the tenant is not active.
    pub fn all_unavailable_registration_invitations(&self) -> (r: Result<
        Vec<InvitationDescriptor>,
        TenantError,
    >)
        ensures
            match r {
                Ok(v) => self@.active && exists|now: Instant|
                    v@.map_values(|d: InvitationDescriptor| d@) == descriptors_for(
                        self@.tenant_id,
                        self@.invitations,
                        false,
                        now as int,
                    ),
                Err(e) => !self@.active && e == TenantError::NotActive,
            },
    {
        let now = now_millis();
        let r = self.all_unavailable_registration_invitations_at(now);
        proof {
            if r is Ok {
                assert(r->Ok_0@.map_values(|d: InvitationDescriptor| d@) == descriptors_for(
                    self@.tenant_id,
                    self@.invitations,
                    false,
                    now as int,
                ));
            }
        }
        r
    }

    /// The position of the first invitation answering to the identifier.
    fn invitation_position(&self, identifier: &str) -> (r: Option<usize>)
        ensures
            match r {
                Some(i) => i < self@.invitations.len() && spec_find_invitation(
                    self@.invitations,
                    identifier@,
                ) == Some(i as int),
                None => spec_find_invitation(self@.invitations, identifier@) is None,
            },
    {
        let n = self.invitations.len();
        for i in 0..n
            invariant
                n == self.invitations.len(),
                forall|j: int|
                    0 <= j < i ==> !(#[trigger] self@.invitations[j]).identified_by(identifier@),
        {
            if self.invitations[i].is_identified_by(identifier) {
                proof {
                    lemma_find_invitation_at(self@.invitations, identifier@, i as int);
                }
                return Some(i);
            }
        }
        proof {
            lemma_find_invitation_none(self@.invitations, identifier@);
        }
        None
    }

    /// Check if a tenant invitation is available through the provided
    /// identifier at the given instant.
    ///
    /// It fails with [`TenantError::NotActive`] if the tenant is not active.
    pub fn is_registration_available_through_at(&self, identifier: &str, now: Instant) -> (r:
        Result<bool, TenantError>)
        ensures
            match r {
                Ok(b) => self@.active && b == spec_available_through(
                    self@.invitations,
                    identifier@,
                    now as int,
                ),
                Err(e) => !self@.active && e == TenantError::NotActive,
            },
    {
        if !self.active {
            return Err(TenantError::NotActive);
        }
        match self.invitation_position(identifier) {
            Some(i) => Ok(self.invitations[i].is_available_at(now)),
            None => Ok(false),
        }
    }

    /// Check if a tenant invitation is available through the provided
    /// identifier at the instant the wall clock reports now.
    ///
    /// It fails with [`TenantError::NotActive`] if the tenant is not active.
    pub fn is_registration_available_through(&self, identifier: &str) -> (r: Result<
        bool,
        TenantError,
    >)
        ensures
            match r {
                Ok(b) => self@.active && exists|now: Instant|
                    b == spec_available_through(self@.invitations, identifier@, now as int),
                Err(e) => !self@.active && e == TenantError::NotActive,
            },
    {
        let now = now_millis();
        let r = self.is_registration_available_through_at(identifier, now);
        proof {
            if r is Ok {
                assert(r->Ok_0 == spec_available_through(
                    self@.invitations,
                    identifier@,
                    now as int,
                ));
            }
        }
        r
    }

    /// Offer a new open-ended registration invitation with the given
    /// description, judging availability at the given instant.
    ///
    /// It fails with [`TenantError::NotActive`] if the tenant is not active,
    /// with [`TenantError::InvitationExists`] if an invitation already
    /// answers to the description and is available, and with
    /// [`TenantError::Validation`] if the description violates its field
    /// constraints. No failure changes the invitations.
    pub fn offer_invitation_at(&mut self, description: &str, now: Instant) -> (r: Result<
        (),
        TenantError,
    >)
        ensures
            match r {
                Ok(()) => {
                    &&& old(self)@.active
                    &&& !spec_available_through(old(self)@.invitations, description@, now as int)
                    &&& 0 < description@.len() <= 255
                    &&& final(self)@.invitations.len() == old(self)@.invitations.len() + 1
                    &&& final(self)@.invitations.drop_last() == old(self)@.invitations
                    &&& final(self)@.invitations.last().description == description@
                    &&& final(self)@.invitations.last().validity == Validity::OpenEnded
                    &&& final(self)@.invitations.last().invitation_id.len() == 36
                    &&& final(self)@ == (TenantV {
                        invitations: final(self)@.invitations,
                        ..old(self)@
                    })
                },
                Err(e) => {
                    &&& *final(self) == *old(self)
                    &&& match e {
                        TenantError::NotActive => !old(self)@.active,
                        TenantError::InvitationExists(d) => old(self)@.active && d@ == description@
                            && spec_available_through(
                            old(self)@.invitations,
                            description@,
                            now as int,
                        ),
                        TenantError::Validation(_) => old(self)@.active
                            && !spec_available_through(
                            old(self)@.invitations,
                            description@,
                            now as int,
                        ) && !(0 < description@.len() <= 255),
                        _ => false,
                    }
                },
            },
    {
        if !self.active {
            return Err(TenantError::NotActive);
        }
        let available = match self.is_registration_available_through_at(description, now) {
            Ok(b) => b,
            Err(e) => {
                return Err(e);
            },
        };
        if available {
            return Err(TenantError::InvitationExists(description.to_owned()));
        }
        let invitation_description = match InvitationDescription::new(description) {
            Ok(d) => d,
            Err(e) => {
                return Err(TenantError::Validation(e));
            },
        };
        let invitation = RegistrationInvitation::new(invitation_description);
        let ghost before = self@.invitations;
        self.invitations.push(invitation);
        proof {
            assert(final(self)@.invitations =~= before.push(invitation@));
            assert(final(self)@.invitations.drop_last() =~= before);
        }
        Ok(())
    }

    /// Offer a new open-ended registration invitation with the given
    /// description, judging availability at the instant the wall clock
    /// reports now.
    ///
    /// It fails as [`Tenant::offer_invitation_at`] does, and never changes
    /// the invitations on failure.
    pub fn offer_invitation(&mut self, description: &str) -> (r: Result<(), TenantError>)
        ensures
            match r {
                Ok(()) => {
                    &&& old(self)@.active
                    &&& 0 < description@.len() <= 255
                    &&& final(self)@.invitations.len() == old(self)@.invitations.len() + 1
                    &&& final(self)@.invitations.drop_last() == old(self)@.invitations
                    &&& final(self)@.invitations.last().description == description@
                    &&& final(self)@.invitations.last().validity == Validity::OpenEnded
                    &&& final(self)@.invitations.last().invitation_id.len() == 36
                    &&& final(self)@ == (TenantV {
                        invitations: final(self)@.invitations,
                        ..old(self)@
                    })
                },
                Err(e) => {
                    &&& *final(self) == *old(self)
                    &&& !(e is NotActive) ==> old(self)@.active
                    &&& e is NotActive ==> !old(self)@.active
                },
            },
            (old(self)@.active && spec_find_invitation(old(self)@.invitations, description@)
                is None && 0 < description@.len() <= 255) ==> r is Ok,
    {
        let now = now_millis();
        let r = self.offer_invitation_at(description, now);
        proof {
            if spec_find_invitation(old(self)@.invitations, description@) is None {
                assert(!spec_available_through(old(self)@.invitations, description@, now as int));
            }
        }
        r
    }

    /// Redefine the validity of the invitation answering to the identifier.
    ///
    /// It fails with [`TenantError::NotActive`] if the tenant is not active
    /// and with [`TenantError::InvitationNotFound`] if no invitation answers
    /// to the identifier. No failure changes the invitations.
    pub fn redefine_invitation_as(&mut self, identifier: &str, validity: Validity) -> (r: Result<
        (),
        TenantError,
    >)
        ensures
            match r {
                Ok(()) => {
                    &&& old(self)@.active
                    &&& match spec_find_invitation(old(self)@.invitations, identifier@) {
                        Some(i) => final(self)@ == (TenantV {
                            invitations: old(self)@.invitations.update(
                                i,
                                InvitationV { validity, ..old(self)@.invitations[i] },
                            ),
                            ..old(self)@
                        }),
                        None => false,
                    }
                },
                Err(e) => {
                    &&& *final(self) == *old(self)
                    &&& match e {
                        TenantError::NotActive => !old(self)@.active,
                        TenantError::InvitationNotFound(d) => old(self)@.active && d@
                            == identifier@ && spec_find_invitation(
                            old(self)@.invitations,
                            identifier@,
                        ) is None,
                        _ => false,
                    }
                },
            },
    {
        if !self.active {
            return Err(TenantError::NotActive);
        }
        match self.invitation_position(identifier) {
            Some(i) => {
                let ghost before = self@.invitations;
                let invitation = &mut self.invitations[i];
                invitation.redefine_as(validity);
                proof {
                    assert(final(self)@.invitations =~= before.update(
                        i as int,
                        InvitationV { validity, ..before[i as int] },
                    ));
                }
                Ok(())
            },
            None => Err(TenantError::InvitationNotFound(identifier.to_owned())),
        }
    }

    /// Withdraw the invitation answering to the identifier.
    ///
    /// It fails with [`TenantError::NotActive`] if the tenant is not active
    /// and with [`TenantError::InvitationNotFound`] if no invitation answers
    /// to the identifier. No failure changes the invitations.
    pub fn withdraw_invitation(&mut self, identifier: &str) -> (r: Result<(), TenantError>)
        ensures
            match r {
                Ok(()) => {
                    &&& old(self)@.active
                    &&& match spec_find_invitation(old(self)@.invitations, identifier@) {
                        Some(i) => final(self)@ == (TenantV {
                            invitations: old(self)@.invitations.remove(i),
                            ..old(self)@
                        }),
                        None => false,
                    }
                },
                Err(e) => {
                    &&& *final(self) == *old(self)
                    &&& match e {
                        TenantError::NotActive => !old(self)@.active,
                        TenantError::InvitationNotFound(d) => old(self)@.active && d@
                            == identifier@ && spec_find_invitation(
                            old(self)@.invitations,
                            identifier@,
                        ) is None,
                        _ => false,
                    }
                },
            },
    {
        if !self.active {
            return Err(TenantError::NotActive);
        }
        match self.invitation_position(identifier) {
            Some(i) => {
                let ghost before = self@.invitations;
                self.invitations.remove(i);
                proof {
                    assert(final(self)@.invitations =~= before.remove(i as int));
                }
                Ok(())
            },
            None => Err(TenantError::InvitationNotFound(identifier.to_owned())),
        }
    }
}

/// Law: on an active tenant holding no invitation answering to `d`, offering
/// an invitation described by `d` (which appends a fresh open-ended
/// invitation) makes registration available through `d` at every instant;
/// redefining that invitation to a window ending at a past instant (what
/// `redefine_invitation_as` leaves behind) makes it unavailable now.
pub proof fn lemma_invitation_availability_round_trip(
    invs: Seq<InvitationV>,
    fresh: InvitationV,
    d: Seq<char>,
    now: Instant,
    past: Instant,
)
    requires
        forall|j: int| 0 <= j < invs.len() ==> !(#[trigger] invs[j]).identified_by(d),
        fresh.description == d,
        fresh.validity == Validity::OpenEnded,
        past < now,
    ensures
        spec_available_through(invs.push(fresh), d, now as int),
        spec_find_invitation(invs.push(fresh), d) == Some(invs.len() as int),
        !spec_available_through(
            invs.push(fresh).update(
                invs.len() as int,
                InvitationV { validity: Validity::Until(past), ..fresh },
            ),
            d,
            now as int,
        ),
{
    let pushed = invs.push(fresh);
    assert(forall|j: int| 0 <= j < invs.len() ==> pushed[j] == #[trigger] invs[j]);
    lemma_find_invitation_at(pushed, d, invs.len() as int);
    let redefined = pushed.update(
        invs.len() as int,
        InvitationV { validity: Validity::Until(past), ..fresh },
    );
    assert(forall|j: int| 0 <= j < invs.len() ==> redefined[j] == #[trigger] invs[j]);
    lemma_find_invitation_at(redefined, d, invs.len() as int);
}

} // verus!
