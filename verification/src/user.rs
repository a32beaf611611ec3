use vstd::prelude::*;
use crate::clock::now_millis;
use crate::enablement::Enablement;
use crate::ids::TenantId;
use crate::password::{argon2_matches, spec_strength, EncryptedPassword, PlainPassword};
use crate::person::{ContactInformation, EmailAddress, FullName, Person, PersonV};
use crate::validate::{self, Error};
use crate::Instant;

verus! {

/// Value object representing a username: a non-empty string of at most 255
/// characters.
#[derive(Debug, PartialEq, Eq)]
pub struct Username(String);

impl View for Username {
    type V = Seq<char>;

    closed spec fn view(&self) -> Seq<char> {
        self.0@
    }
}

impl Clone for Username {
    /// Cloning keeps the username text.
    fn clone(&self) -> (r: Self)
        ensures
            r == *self,
    {
        Username(self.0.clone())
    }
}

impl Username {
    /// The held string is non-empty and fits the username bound.
    pub open spec fn wf(self) -> bool {
        0 < self@.len() <= 255
    }

    /// Creates a new `Username`, refusing an empty or overlong one.
    pub fn new(username: &str) -> (r: Result<Self, Error>)
        ensures
            match r {
                Ok(v) => v@ == username@ && v.wf(),
                Err(e) => match e {
                    Error::Required(n) => username@.len() == 0 && n@ == "username"@,
                    Error::TooLong(n, m) => username@.len() > 255 && n@ == "username"@ && m == 255,
                    _ => false,
                },
            },
    {
        validate::not_empty("username", username)?;
        validate::max_length("username", username, 255)?;
        Ok(Username(username.to_owned()))
    }

    /// The text of the username.
    pub fn as_str(&self) -> (r: &str)
        ensures
            r@ == self@,
    {
        self.0.as_str()
    }

    /// The text of the username, as an owned string.
    pub fn to_string(&self) -> (r: String)
        ensures
            r@ == self@,
    {
        self.0.clone()
    }

    /// The text of the username, as an owned string.
    pub fn into_string(&self) -> (r: String)
        ensures
            r@ == self@,
    {
        self.0.clone()
    }
}

/// The mathematical content of a user.
pub ghost struct UserV {
    pub tenant_id: Seq<char>,
    pub username: Seq<char>,
    pub password: Seq<char>,
    pub enablement: Enablement,
    pub person: PersonV,
}

impl UserV {
    /// A user account is live at an instant when its enablement is on and
    /// covers the instant.
    pub open spec fn enabled_at(self, now: int) -> bool {
        self.enablement.spec_enabled_at(now)
    }
}

/// User is the aggregate root entity representing a user in the system.
#[derive(Debug)]
pub struct User {
    tenant_id: TenantId,
    username: Username,
    password: EncryptedPassword,
    enablement: Enablement,
    person: Person,
}

impl View for User {
    type V = UserV;

    closed spec fn view(&self) -> UserV {
        UserV {
            tenant_id: self.tenant_id@,
            username: self.username@,
            password: self.password@,
            enablement: self.enablement,
            person: self.person@,
        }
    }
}

impl Clone for User {
    /// Cloning keeps every part of the user.
    fn clone(&self) -> (r: Self)
        ensures
            r@ == self@,
    {
        User {
            tenant_id: self.tenant_id.clone(),
            username: self.username.clone(),
            password: self.password.clone(),
            enablement: self.enablement,
            person: self.person.clone(),
        }
    }
}

impl PartialEq for User {
    /// Two users are the same user when they share the tenant and the
    /// username, whatever their state.
    fn eq(&self, other: &Self) -> (r: bool) {
        self.tenant_id.matches(&other.tenant_id) && validate::str_eq(
            self.username.as_str(),
            other.username.as_str(),
        )
    }
}

impl vstd::std_specs::cmp::PartialEqSpecImpl for User {
    open spec fn obeys_eq_spec() -> bool {
        true
    }

    open spec fn eq_spec(&self, other: &User) -> bool {
        self@.tenant_id == other@.tenant_id && self@.username == other@.username
    }
}

impl User {
    /// Hydrate a user from already validated parts.
    pub fn hydrate(
        tenant_id: TenantId,
        username: Username,
        password: EncryptedPassword,
        enablement: Enablement,
        person: Person,
    ) -> (r: Self)
        ensures
            r@ == (UserV {
                tenant_id: tenant_id@,
                username: username@,
                password: password@,
                enablement,
                person: person@,
            }),
    {
        User { tenant_id, username, password, enablement, person }
    }

    /// Creates a new user, protecting the given plain password: the
    /// password must be non-empty, not weak and different from the
    /// username. Its hash is salted, so the stored text is not stated.
    pub fn new(
        tenant_id: TenantId,
        username: Username,
        password: PlainPassword,
        enablement: Enablement,
        person: Person,
    ) -> (r: Result<Self, Error>)
        ensures
            match r {
                Ok(u) => {
                    &&& u@.tenant_id == tenant_id@
                    &&& u@.username == username@
                    &&& u@.enablement == enablement
                    &&& u@.person == person@
                    &&& password@.len() != 0
                    &&& spec_strength(password@) >= 20
                    &&& password@ != username@
                },
                Err(e) => password@.len() == 0 || spec_strength(password@) < 20 || password@
                    == username@ || e is Generic,
            },
    {
        let mut user = User {
            tenant_id,
            username,
            password: EncryptedPassword::default(),
            enablement,
            person,
        };
        let result = user.protect_password(PlainPassword::default(), password);
        match result {
            Ok(()) => Ok(user),
            Err(e) => Err(e),
        }
    }

    /// The identifier of the tenant the user belongs to.
    pub fn tenant_id(&self) -> (r: &TenantId)
        ensures
            r@ == self@.tenant_id,
    {
        &self.tenant_id
    }

    /// The username of the user.
    pub fn username(&self) -> (r: &Username)
        ensures
            r@ == self@.username,
    {
        &self.username
    }

    /// The password hash of the user.
    pub fn password(&self) -> (r: &EncryptedPassword)
        ensures
            r@ == self@.password,
    {
        &self.password
    }

    /// The enablement of the user.
    pub fn enablement(&self) -> (r: &Enablement)
        ensures
            *r == self@.enablement,
    {
        &self.enablement
    }

    /// The person behind the user.
    pub fn person(&self) -> (r: &Person)
        ensures
            r@ == self@.person,
    {
        &self.person
    }

    /// Replace the password, confirming the old one first. On success only
    /// the password hash changes; on failure nothing changes.
    pub fn change_password(&mut self, old_password: PlainPassword, new_password: PlainPassword) -> (r:
        Result<(), Error>)
        ensures
            match r {
                Ok(()) => {
                    &&& argon2_matches(old(self)@.password, old_password@)
                    &&& new_password@.len() != 0
                    &&& spec_strength(new_password@) >= 20
                    &&& new_password@ != old_password@
                    &&& new_password@ != old(self)@.username
                    &&& final(self)@ == (UserV { password: final(self)@.password, ..old(self)@ })
                },
                Err(_) => *final(self) == *old(self),
            },
    {
        validate::not_empty("new_password", new_password.as_ref())?;
        let confirmed = self.password.verify(old_password.clone())?;
        validate::is_true(confirmed, "current password not confirmed")?;
        self.protect_password(old_password, new_password)
    }

    /// Changes the person's contact information.
    pub fn change_personal_contact_information(&mut self, contact_information: ContactInformation)
        ensures
            final(self)@ == (UserV {
                person: PersonV { contact_information: contact_information@, ..old(self)@.person },
                ..old(self)@
            }),
    {
        self.person.change_contact_information(contact_information);
    }

    /// Changes the person's full name.
    pub fn change_personal_name(&mut self, name: FullName)
        ensures
            final(self)@ == (UserV {
                person: PersonV { name: name@, ..old(self)@.person },
                ..old(self)@
            }),
    {
        self.person.change_name(name);
    }

    /// Replace the enablement of the user.
    pub fn define_enablement(&mut self, enablement: Enablement)
        ensures
            final(self)@ == (UserV { enablement, ..old(self)@ }),
    {
        self.enablement = enablement;
    }

    /// Whether the user account is live at the given instant.
    pub fn is_enabled_at(&self, now: Instant) -> (r: bool)
        ensures
            r == self@.enabled_at(now as int),
    {
        self.enablement.is_enabled_at(now)
    }

    /// Whether the user account is live at the instant the wall clock
    /// reports now.
    pub fn is_enabled(&self) -> (r: bool)
        ensures
            self@.enablement is Disabled ==> !r,
            self@.enablement == Enablement::Enabled(crate::validity::Validity::OpenEnded) ==> r,
            exists|now: Instant| r == self@.enabled_at(now as int),
    {
        let now = now_millis();
        let r = self.is_enabled_at(now);
        proof {
            assert(r == self@.enabled_at(now as int));
        }
        r
    }

    /// Store the new password's salted hash after checking that it differs
    /// from the old one, is not weak and differs from the username.
    fn protect_password(&mut self, old_password: PlainPassword, new_password: PlainPassword) -> (r:
        Result<(), Error>)
        ensures
            match r {
                Ok(()) => {
                    &&& new_password@ != old_password@
                    &&& spec_strength(new_password@) >= 20
                    &&& new_password@ != old(self)@.username
                    &&& final(self)@ == (UserV { password: final(self)@.password, ..old(self)@ })
                },
                Err(e) => {
                    &&& *final(self) == *old(self)
                    &&& (new_password@ == old_password@ || spec_strength(new_password@) < 20
                        || new_password@ == old(self)@.username || e is Generic)
                },
            },
    {
        validate::not_equals("new_password", new_password.as_ref(), old_password.as_ref())?;
        validate::is_false(new_password.is_weak(), "new password is weak")?;
        validate::not_equals("new_password", new_password.as_ref(), self.username.as_str())?;
        let encrypted = match new_password.encrypt() {
            Ok(p) => p,
            Err(e) => {
                return Err(e);
            },
        };
        self.password = encrypted;
        Ok(())
    }
}

/// A read model of a user: its tenant, username and email address.
#[derive(Debug)]
pub struct UserDescriptor {
    pub tenant_id: TenantId,
    pub username: String,
    pub email_address: EmailAddress,
}

impl UserDescriptor {
    /// Captures the identifying parts of a user.
    pub fn new(user: &User) -> (r: Self)
        ensures
            r.tenant_id@ == user@.tenant_id,
            r.username@ == user@.username,
            r.email_address@ == user@.person.contact_information.email_address,
    {
        UserDescriptor {
            tenant_id: user.tenant_id.clone(),
            username: user.username.to_string(),
            email_address: user.person.email_address().clone(),
        }
    }
}

/// The failure conditions of the user repository.
#[derive(Debug, Clone, PartialEq, Eq)]
pub enum UserRepositoryError {
    /// No user with the given username exists in the tenant.
    NotFound(String, String),
    /// A user with the given username already exists in the tenant.
    Exists(String, String),
}

/// The index of the first stored user keyed by the tenant and username, if
/// any.
pub open spec fn spec_find_user(users: Seq<UserV>, tenant_id: Seq<char>, username: Seq<char>) -> Option<int>
    decreases users.len(),
{
    if users.len() == 0 {
        None
    } else if users[0].tenant_id == tenant_id && users[0].username == username {
        Some(0int)
    } else {
        match spec_find_user(users.drop_first(), tenant_id, username) {
            Some(i) => Some(i + 1),
            None => None,
        }
    }
}

/// An in-memory store of users, looked up by tenant and username.
pub struct UserRepository {
    users: Vec<User>,
}

impl View for UserRepository {
    type V = Seq<UserV>;

    closed spec fn view(&self) -> Seq<UserV> {
        self.users@.map_values(|u: User| u@)
    }
}

impl UserRepository {
    /// Creates an empty repository.
    pub fn new() -> (r: Self)
        ensures
            r@ == Seq::<UserV>::empty(),
    {
        let r = UserRepository { users: Vec::new() };
        proof {
            assert(r@ =~= Seq::<UserV>::empty());
        }
        r
    }

    /// The position of the first user keyed by the tenant and username.
    fn position(&self, tenant_id: &TenantId, username: &Username) -> (r: Option<usize>)
        ensures
            match r {
                Some(i) => i < self@.len() && spec_find_user(self@, tenant_id@, username@)
                    == Some(i as int),
                None => spec_find_user(self@, tenant_id@, username@) is None,
            },
    {
        let n = self.users.len();
        for i in 0..n
            invariant
                n == self.users.len(),
                forall|j: int|
                    0 <= j < i ==> !((#[trigger] self@[j]).tenant_id == tenant_id@
                        && self@[j].username == username@),
        {
            if self.users[i].tenant_id().matches(tenant_id) && validate::str_eq(
                self.users[i].username().as_str(),
                username.as_str(),
            ) {
                proof {
                    lemma_find_user_at(self@, tenant_id@, username@, i as int);
                }
                return Some(i);
            }
        }
        proof {
            lemma_find_user_none(self@, tenant_id@, username@);
        }
        None
    }

    /// Adds a new user; fails when one with the same tenant and username is
    /// already stored.
    pub fn add(&mut self, user: &User) -> (r: Result<(), UserRepositoryError>)
        ensures
            match r {
                Ok(()) => spec_find_user(old(self)@, user@.tenant_id, user@.username) is None
                    && final(self)@ == old(self)@.push(user@),
                Err(e) => e is Exists && spec_find_user(
                    old(self)@,
                    user@.tenant_id,
                    user@.username,
                ) is Some && *final(self) == *old(self),
            },
    {
        match self.position(user.tenant_id(), user.username()) {
            Some(_) => Err(
                UserRepositoryError::Exists(
                    user.tenant_id().into_string(),
                    user.username().to_string(),
                ),
            ),
            None => {
                let ghost before = self@;
                self.users.push(user.clone());
                proof {
                    assert(final(self)@ =~= before.push(user@));
                }
                Ok(())
            },
        }
    }

    /// Replaces the stored user with the same tenant and username; fails
    /// when none is stored.
    pub fn update(&mut self, user: &User) -> (r: Result<(), UserRepositoryError>)
        ensures
            match r {
                Ok(()) => match spec_find_user(old(self)@, user@.tenant_id, user@.username) {
                    Some(i) => final(self)@ == old(self)@.update(i, user@),
                    None => false,
                },
                Err(e) => e is NotFound && spec_find_user(
                    old(self)@,
                    user@.tenant_id,
                    user@.username,
                ) is None && *final(self) == *old(self),
            },
    {
        match self.position(user.tenant_id(), user.username()) {
            Some(i) => {
                let ghost before = self@;
                let slot = &mut self.users[i];
                *slot = user.clone();
                proof {
                    assert(final(self)@ =~= before.update(i as int, user@));
                }
                Ok(())
            },
            None => Err(
                UserRepositoryError::NotFound(
                    user.tenant_id().into_string(),
                    user.username().to_string(),
                ),
            ),
        }
    }

    /// Removes the stored user with the same tenant and username; fails
    /// when none is stored.
    pub fn remove(&mut self, user: &User) -> (r: Result<(), UserRepositoryError>)
        ensures
            match r {
                Ok(()) => match spec_find_user(old(self)@, user@.tenant_id, user@.username) {
                    Some(i) => final(self)@ == old(self)@.remove(i),
                    None => false,
                },
                Err(e) => e is NotFound && spec_find_user(
                    old(self)@,
                    user@.tenant_id,
                    user@.username,
                ) is None && *final(self) == *old(self),
            },
    {
        match self.position(user.tenant_id(), user.username()) {
            Some(i) => {
                let ghost before = self@;
                self.users.remove(i);
                proof {
                    assert(final(self)@ =~= before.remove(i as int));
                }
                Ok(())
            },
            None => Err(
                UserRepositoryError::NotFound(
                    user.tenant_id().into_string(),
                    user.username().to_string(),
                ),
            ),
        }
    }

    /// Finds the user keyed by the tenant and username; fails when none is
    /// stored.
    pub fn find_by_username(&self, tenant_id: &TenantId, username: &Username) -> (r: Result<
        User,
        UserRepositoryError,
    >)
        ensures
            match r {
                Ok(u) => match spec_find_user(self@, tenant_id@, username@) {
                    Some(i) => u@ == self@[i],
                    None => false,
                },
                Err(e) => e is NotFound && spec_find_user(self@, tenant_id@, username@) is None,
            },
    {
        match self.position(tenant_id, username) {
            Some(i) => Ok(self.users[i].clone()),
            None => Err(
                UserRepositoryError::NotFound(tenant_id.into_string(), username.to_string()),
            ),
        }
    }

    /// All stored users of the tenant whose first and last names open with
    /// the given prefixes, in stored order.
    pub fn find_all_similarly_named(
        &self,
        id: &TenantId,
        first_name_prefix: &str,
        last_name_prefix: &str,
    ) -> (r: Vec<User>)
        ensures
            r@.map_values(|u: User| u@) == similarly_named(
                self@,
                id@,
                first_name_prefix@,
                last_name_prefix@,
            ),
    {
        let ghost uview = |u: User| u@;
        let mut out: Vec<User> = Vec::new();
        let n = self.users.len();
        proof {
            reveal(Seq::filter);
            assert(self@.take(0) =~= Seq::<UserV>::empty());
            assert(out@.map_values(uview) =~= similarly_named(
                self@.take(0),
                id@,
                first_name_prefix@,
                last_name_prefix@,
            ));
        }
        for i in 0..n
            invariant
                n == self.users.len(),
                uview == (|u: User| u@),
                out@.map_values(uview) == similarly_named(
                    self@.take(i as int),
                    id@,
                    first_name_prefix@,
                    last_name_prefix@,
                ),
        {
            let ghost prefix = self@.take(i as int);
            let ghost next = self@[i as int];
            proof {
                assert(self@.take(i + 1) =~= prefix.push(next));
                lemma_similarly_named_push(
                    prefix,
                    next,
                    id@,
                    first_name_prefix@,
                    last_name_prefix@,
                );
            }
            let candidate = &self.users[i];
            if candidate.tenant_id().matches(id) && validate::str_starts_with(
                candidate.person().name().first_name(),
                first_name_prefix,
            ) && validate::str_starts_with(
                candidate.person().name().last_name(),
                last_name_prefix,
            ) {
                let ghost out_before = out@;
                out.push(candidate.clone());
                proof {
                    assert(out@.map_values(uview) =~= out_before.map_values(uview).push(next));
                }
            }
        }
        proof {
            assert(self@.take(n as int) =~= self@);
        }
        out
    }
}

/// The stored users of the tenant whose first and last names open with the
/// given prefixes, in stored order.
pub open spec fn similarly_named(
    users: Seq<UserV>,
    tid: Seq<char>,
    first: Seq<char>,
    last: Seq<char>,
) -> Seq<UserV> {
    users.filter(
        |u: UserV|
            u.tenant_id == tid && first.is_prefix_of(u.person.name.first_name)
                && last.is_prefix_of(u.person.name.last_name),
    )
}

/// How one more stored user extends the similarly-named selection.
pub proof fn lemma_similarly_named_push(
    users: Seq<UserV>,
    next: UserV,
    tid: Seq<char>,
    first: Seq<char>,
    last: Seq<char>,
)
    ensures
        similarly_named(users.push(next), tid, first, last) == if next.tenant_id == tid
            && first.is_prefix_of(next.person.name.first_name) && last.is_prefix_of(
            next.person.name.last_name,
        ) {
            similarly_named(users, tid, first, last).push(next)
        } else {
            similarly_named(users, tid, first, last)
        },
{
    reveal(Seq::filter);
    let pred = |u: UserV|
        u.tenant_id == tid && first.is_prefix_of(u.person.name.first_name) && last.is_prefix_of(
            u.person.name.last_name,
        );
    assert(users.push(next).drop_last() =~= users);
    assert(users.push(next).last() == next);
    if pred(next) {
        assert(users.push(next).filter(pred) == users.filter(pred).push(next));
    } else {
        assert(users.push(next).filter(pred) == users.filter(pred));
    }
}

/// The converse direction for `spec_find_user`: an index with the key, with
/// no earlier one, is what the search finds.
pub proof fn lemma_find_user_at(
    users: Seq<UserV>,
    tenant_id: Seq<char>,
    username: Seq<char>,
    i: int,
)
    requires
        0 <= i < users.len(),
        users[i].tenant_id == tenant_id && users[i].username == username,
        forall|j: int|
            0 <= j < i ==> !((#[trigger] users[j]).tenant_id == tenant_id && users[j].username
                == username),
    ensures
        spec_find_user(users, tenant_id, username) == Some(i),
    decreases users.len(),
{
    if i != 0 {
        let rest = users.drop_first();
        assert(forall|j: int| 1 <= j < users.len() ==> users[j] == #[trigger] rest[j - 1]);
        assert forall|j: int| 0 <= j < i - 1 implies !((#[trigger] rest[j]).tenant_id == tenant_id
            && rest[j].username == username) by {
            assert(users[j + 1] == rest[j]);
        }
        lemma_find_user_at(rest, tenant_id, username, i - 1);
    }
}

/// When no stored user has the key, nothing is found.
pub proof fn lemma_find_user_none(users: Seq<UserV>, tenant_id: Seq<char>, username: Seq<char>)
    requires
        forall|j: int|
            0 <= j < users.len() ==> !((#[trigger] users[j]).tenant_id == tenant_id
                && users[j].username == username),
    ensures
        spec_find_user(users, tenant_id, username) is None,
    decreases users.len(),
{
    if users.len() != 0 {
        let rest = users.drop_first();
        assert(forall|j: int| 1 <= j < users.len() ==> users[j] == #[trigger] rest[j - 1]);
        assert forall|j: int| 0 <= j < rest.len() implies !((#[trigger] rest[j]).tenant_id
            == tenant_id && rest[j].username == username) by {
            assert(users[j + 1] == rest[j]);
        }
        lemma_find_user_none(rest, tenant_id, username);
    }
}

} // verus!
