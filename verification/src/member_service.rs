use vstd::prelude::*;
use crate::group::{Group, GroupMember, GroupMemberV, GroupName, GroupV};
use crate::ids::TenantId;
use crate::user::{spec_find_user, User, UserRepository, UserV};
use crate::validate::{self, Error};
use crate::clock::now_millis;
use crate::Instant;

verus! {

/// The failure conditions of the group repository.
#[derive(Debug, Clone, PartialEq, Eq)]
pub enum GroupRepositoryError {
    /// No group with the given name exists in the tenant.
    NotFound(String, String),
    /// A group with the given name already exists in the tenant.
    Exists(String, String),
}

/// The index of the first stored group keyed by the tenant and name, if
/// any.
pub open spec fn spec_find_group(
    groups: Seq<GroupV>,
    tenant_id: Seq<char>,
    name: Seq<char>,
) -> Option<int>
    decreases groups.len(),
{
    if groups.len() == 0 {
        None
    } else if groups[0].tenant_id == tenant_id && groups[0].name == name {
        Some(0int)
    } else {
        match spec_find_group(groups.drop_first(), tenant_id, name) {
            Some(i) => Some(i + 1),
            None => None,
        }
    }
}

/// The stored group keyed by the tenant and name, if any.
pub open spec fn group_at(groups: Seq<GroupV>, tenant_id: Seq<char>, name: Seq<char>) -> Option<
    GroupV,
> {
    match spec_find_group(groups, tenant_id, name) {
        Some(i) => Some(groups[i]),
        None => None,
    }
}

/// What `spec_find_group` finds: an index in range whose group carries the
/// key.
pub proof fn lemma_find_group_props(groups: Seq<GroupV>, tenant_id: Seq<char>, name: Seq<char>)
    ensures
        match spec_find_group(groups, tenant_id, name) {
            Some(i) => 0 <= i < groups.len() && groups[i].tenant_id == tenant_id
                && groups[i].name == name,
            None => forall|j: int|
                0 <= j < groups.len() ==> !((#[trigger] groups[j]).tenant_id == tenant_id
                    && groups[j].name == name),
        },
    decreases groups.len(),
{
    if groups.len() != 0 && !(groups[0].tenant_id == tenant_id && groups[0].name == name) {
        let rest = groups.drop_first();
        lemma_find_group_props(rest, tenant_id, name);
        assert(forall|j: int| 1 <= j < groups.len() ==> groups[j] == #[trigger] rest[j - 1]);
        if spec_find_group(rest, tenant_id, name) is None {
            assert forall|j: int| 0 <= j < groups.len() implies !((#[trigger] groups[j]).tenant_id
                == tenant_id && groups[j].name == name) by {
                if j >= 1 {
                    assert(!(rest[j - 1].tenant_id == tenant_id && rest[j - 1].name == name));
                }
            }
        }
    }
}

/// The converse direction: an index with the key, with no earlier one, is
/// what the search finds.
pub proof fn lemma_find_group_at(
    groups: Seq<GroupV>,
    tenant_id: Seq<char>,
    name: Seq<char>,
    i: int,
)
    requires
        0 <= i < groups.len(),
        groups[i].tenant_id == tenant_id && groups[i].name == name,
        forall|j: int|
            0 <= j < i ==> !((#[trigger] groups[j]).tenant_id == tenant_id && groups[j].name
                == name),
    ensures
        spec_find_group(groups, tenant_id, name) == Some(i),
    decreases groups.len(),
{
    if i != 0 {
        let rest = groups.drop_first();
        assert(forall|j: int| 1 <= j < groups.len() ==> groups[j] == #[trigger] rest[j - 1]);
        assert forall|j: int| 0 <= j < i - 1 implies !((#[trigger] rest[j]).tenant_id == tenant_id
            && rest[j].name == name) by {
            assert(groups[j + 1] == rest[j]);
        }
        lemma_find_group_at(rest, tenant_id, name, i - 1);
    }
}

/// When no stored group has the key, nothing is found.
pub proof fn lemma_find_group_none(groups: Seq<GroupV>, tenant_id: Seq<char>, name: Seq<char>)
    requires
        forall|j: int|
            0 <= j < groups.len() ==> !((#[trigger] groups[j]).tenant_id == tenant_id
                && groups[j].name == name),
    ensures
        spec_find_group(groups, tenant_id, name) is None,
    decreases groups.len(),
{
    if groups.len() != 0 {
        let rest = groups.drop_first();
        assert(forall|j: int| 1 <= j < groups.len() ==> groups[j] == #[trigger] rest[j - 1]);
        assert forall|j: int| 0 <= j < rest.len() implies !((#[trigger] rest[j]).tenant_id
            == tenant_id && rest[j].name == name) by {
            assert(groups[j + 1] == rest[j]);
        }
        lemma_find_group_none(rest, tenant_id, name);
    }
}

/// An in-memory store of groups, looked up by tenant and name. The
/// membership traversal resolves nested groups against it.
pub struct GroupRepository {
    groups: Vec<Group>,
}

impl View for GroupRepository {
    type V = Seq<GroupV>;

    closed spec fn view(&self) -> Seq<GroupV> {
        self.groups@.map_values(|g: Group| g@)
    }
}

impl GroupRepository {
    /// Creates an empty repository.
    pub fn new() -> (r: Self)
        ensures
            r@ == Seq::<GroupV>::empty(),
    {
        let r = GroupRepository { groups: Vec::new() };
        proof {
            assert(r@ =~= Seq::<GroupV>::empty());
        }
        r
    }

    /// The position of the first group keyed by the tenant and name.
    fn position(&self, tenant_id: &TenantId, name: &GroupName) -> (r: Option<usize>)
        ensures
            match r {
                Some(i) => i < self@.len() && spec_find_group(self@, tenant_id@, name@) == Some(
                    i as int,
                ),
                None => spec_find_group(self@, tenant_id@, name@) is None,
            },
    {
        let n = self.groups.len();
        for i in 0..n
            invariant
                n == self.groups.len(),
                forall|j: int|
                    0 <= j < i ==> !((#[trigger] self@[j]).tenant_id == tenant_id@
                        && self@[j].name == name@),
        {
            if self.groups[i].tenant_id().matches(tenant_id) && validate::str_eq(
                self.groups[i].name().as_str(),
                name.as_str(),
            ) {
                proof {
                    lemma_find_group_at(self@, tenant_id@, name@, i as int);
                }
                return Some(i);
            }
        }
        proof {
            lemma_find_group_none(self@, tenant_id@, name@);
        }
        None
    }

    /// Adds a new group; fails when one with the same tenant and name is
    /// already stored.
    pub fn add(&mut self, group: &Group) -> (r: Result<(), GroupRepositoryError>)
        ensures
            match r {
                Ok(()) => spec_find_group(old(self)@, group@.tenant_id, group@.name) is None
                    && final(self)@ == old(self)@.push(group@),
                Err(e) => e is Exists && spec_find_group(
                    old(self)@,
                    group@.tenant_id,
                    group@.name,
                ) is Some && *final(self) == *old(self),
            },
    {
        match self.position(group.tenant_id(), group.name()) {
            Some(_) => Err(
                GroupRepositoryError::Exists(
                    group.tenant_id().into_string(),
                    group.name().into_string(),
                ),
            ),
            None => {
                let ghost before = self@;
                self.groups.push(group.clone());
                proof {
                    assert(final(self)@ =~= before.push(group@));
                }
                Ok(())
            },
        }
    }

    /// Replaces the stored group with the same tenant and name; fails when
    /// none is stored.
    pub fn update(&mut self, group: &Group) -> (r: Result<(), GroupRepositoryError>)
        ensures
            match r {
                Ok(()) => match spec_find_group(old(self)@, group@.tenant_id, group@.name) {
                    Some(i) => final(self)@ == old(self)@.update(i, group@),
                    None => false,
                },
                Err(e) => e is NotFound && spec_find_group(
                    old(self)@,
                    group@.tenant_id,
                    group@.name,
                ) is None && *final(self) == *old(self),
            },
    {
        match self.position(group.tenant_id(), group.name()) {
            Some(i) => {
                let ghost before = self@;
                let slot = &mut self.groups[i];
                *slot = group.clone();
                proof {
                    assert(final(self)@ =~= before.update(i as int, group@));
                }
                Ok(())
            },
            None => Err(
                GroupRepositoryError::NotFound(
                    group.tenant_id().into_string(),
                    group.name().into_string(),
                ),
            ),
        }
    }

    /// Removes the stored group with the same tenant and name; fails when
    /// none is stored.
    pub fn remove(&mut self, group: &Group) -> (r: Result<(), GroupRepositoryError>)
        ensures
            match r {
                Ok(()) => match spec_find_group(old(self)@, group@.tenant_id, group@.name) {
                    Some(i) => final(self)@ == old(self)@.remove(i),
                    None => false,
                },
                Err(e) => e is NotFound && spec_find_group(
                    old(self)@,
                    group@.tenant_id,
                    group@.name,
                ) is None && *final(self) == *old(self),
            },
    {
        match self.position(group.tenant_id(), group.name()) {
            Some(i) => {
                let ghost before = self@;
                self.groups.remove(i);
                proof {
                    assert(final(self)@ =~= before.remove(i as int));
                }
                Ok(())
            },
            None => Err(
                GroupRepositoryError::NotFound(
                    group.tenant_id().into_string(),
                    group.name().into_string(),
                ),
            ),
        }
    }

    /// Finds the group keyed by the tenant and name; fails when none is
    /// stored.
    pub fn find_by_name(&self, tenant_id: &TenantId, name: &GroupName) -> (r: Result<
        Group,
        GroupRepositoryError,
    >)
        ensures
            match r {
                Ok(g) => group_at(self@, tenant_id@, name@) == Some(g@),
                Err(e) => e is NotFound && group_at(self@, tenant_id@, name@) is None,
            },
    {
        match self.position(tenant_id, name) {
            Some(i) => Ok(self.groups[i].clone()),
            None => Err(
                GroupRepositoryError::NotFound(tenant_id.into_string(), name.into_string()),
            ),
        }
    }

    /// All stored groups of the tenant, in stored order.
    pub fn find_all(&self, id: &TenantId) -> (r: Vec<Group>)
        ensures
            r@.map_values(|g: Group| g@) == self@.filter(
                |g: GroupV| g.tenant_id == id@,
            ),
    {
        let ghost gview = |g: Group| g@;
        let ghost pred = |g: GroupV| g.tenant_id == id@;
        let mut out: Vec<Group> = Vec::new();
        let n = self.groups.len();
        proof {
            reveal(Seq::filter);
            assert(self@.take(0) =~= Seq::<GroupV>::empty());
            assert(out@.map_values(gview) =~= self@.take(0).filter(pred));
        }
        for i in 0..n
            invariant
                n == self.groups.len(),
                gview == (|g: Group| g@),
                pred == (|g: GroupV| g.tenant_id == id@),
                out@.map_values(gview) == self@.take(i as int).filter(pred),
        {
            let ghost prefix = self@.take(i as int);
            let ghost next = self@[i as int];
            proof {
                reveal(Seq::filter);
                assert(self@.take(i + 1) =~= prefix.push(next));
                assert(self@.take(i + 1).drop_last() =~= prefix);
                assert(self@.take(i + 1).last() == next);
            }
            if self.groups[i].tenant_id().matches(id) {
                let ghost out_before = out@;
                out.push(self.groups[i].clone());
                proof {
                    assert(out@.map_values(gview) =~= out_before.map_values(gview).push(next));
                }
            }
        }
        proof {
            assert(self@.take(n as int) =~= self@);
        }
        out
    }
}


/// Whether the member, followed through nested-group edges resolved
/// against the stored groups of the tenant, can reach the target within
/// `k` hops: the member is the target itself, or it is a stored nested
/// group one of whose members leads to the target in one hop fewer.
pub open spec fn member_leads_to(
    groups: Seq<GroupV>,
    tid: Seq<char>,
    m: GroupMemberV,
    target: GroupMemberV,
    k: nat,
) -> bool
    decreases k,
{
    m == target || (k > 0 && match m {
        GroupMemberV::Group(name) => match group_at(groups, tid, name) {
            Some(g) => exists|j: int|
                0 <= j < g.members.len() && member_leads_to(
                    groups,
                    tid,
                    #[trigger] g.members[j],
                    target,
                    (k - 1) as nat,
                ),
            None => false,
        },
        GroupMemberV::User(_) => false,
    })
}

/// Whether the target is reachable from any entry of the membership list,
/// in any number of hops.
pub open spec fn reaches_from(
    groups: Seq<GroupV>,
    tid: Seq<char>,
    members: Seq<GroupMemberV>,
    target: GroupMemberV,
) -> bool {
    exists|j: int, k: nat|
        0 <= j < members.len() && #[trigger] member_leads_to(groups, tid, members[j], target, k)
}

/// The stored group a member resolves to: a nested-group member found in
/// the tenant's stored groups, nothing for a user member or a dangling
/// name.
pub open spec fn member_resolves_to(groups: Seq<GroupV>, tid: Seq<char>, m: GroupMemberV) -> Option<
    GroupV,
> {
    match m {
        GroupMemberV::Group(name) => group_at(groups, tid, name),
        GroupMemberV::User(_) => None,
    }
}

/// Whether any entry of the membership list resolves to a stored group.
pub open spec fn spec_any_resolvable(
    groups: Seq<GroupV>,
    tid: Seq<char>,
    members: Seq<GroupMemberV>,
) -> bool {
    exists|j: int|
        0 <= j < members.len() && #[trigger] member_resolves_to(groups, tid, members[j]) is Some
}

/// Whether the user, looked up afresh in the stored users of the tenant,
/// is currently live: stored and enabled at the instant.
pub open spec fn spec_confirmed(
    users: Seq<UserV>,
    tid: Seq<char>,
    uname: Seq<char>,
    now: int,
) -> bool {
    match spec_find_user(users, tid, uname) {
        Some(i) => users[i].enabled_at(now),
        None => false,
    }
}

/// Whether the user is a member of the group within `k` nesting hops: a
/// direct member is confirmed against the stored users; otherwise some
/// nested-group member of the group must contain the user in one hop
/// fewer.
pub open spec fn spec_member_of(
    groups: Seq<GroupV>,
    users: Seq<UserV>,
    tid: Seq<char>,
    g: GroupV,
    uname: Seq<char>,
    now: int,
    k: nat,
) -> bool
    decreases k,
{
    if g.members.contains(GroupMemberV::User(uname)) {
        spec_confirmed(users, tid, uname, now)
    } else {
        k > 0 && exists|j: int|
            0 <= j < g.members.len() && match #[trigger] g.members[j] {
                GroupMemberV::Group(nm) => match group_at(groups, tid, nm) {
                    Some(ng) => spec_member_of(groups, users, tid, ng, uname, now, (k - 1) as nat),
                    None => false,
                },
                GroupMemberV::User(_) => false,
            }
    }
}

/// Whether the user is a member of the group, within any number of hops.
pub open spec fn spec_is_member(
    groups: Seq<GroupV>,
    users: Seq<UserV>,
    tid: Seq<char>,
    g: GroupV,
    uname: Seq<char>,
    now: int,
) -> bool {
    exists|k: nat| #[trigger] spec_member_of(groups, users, tid, g, uname, now, k)
}

/// Whether the member resolves to a stored group of which the user is a
/// member.
pub open spec fn nested_hit(
    groups: Seq<GroupV>,
    users: Seq<UserV>,
    tid: Seq<char>,
    m: GroupMemberV,
    uname: Seq<char>,
    now: int,
) -> bool {
    match member_resolves_to(groups, tid, m) {
        Some(ng) => spec_is_member(groups, users, tid, ng, uname, now),
        None => false,
    }
}

/// Whether some entry of the membership list resolves to a stored group of
/// which the user is a member.
pub open spec fn spec_nested(
    groups: Seq<GroupV>,
    users: Seq<UserV>,
    tid: Seq<char>,
    members: Seq<GroupMemberV>,
    uname: Seq<char>,
    now: int,
) -> bool {
    exists|j: int|
        0 <= j < members.len() && #[trigger] nested_hit(groups, users, tid, members[j], uname, now)
}

/// Membership unfolds by one level: for a direct member it is the stored
/// confirmation, otherwise it is membership in some resolved nested group.
pub proof fn lemma_is_member_unfold(
    groups: Seq<GroupV>,
    users: Seq<UserV>,
    tid: Seq<char>,
    g: GroupV,
    uname: Seq<char>,
    now: int,
)
    ensures
        spec_is_member(groups, users, tid, g, uname, now) == if g.members.contains(
            GroupMemberV::User(uname),
        ) {
            spec_confirmed(users, tid, uname, now)
        } else {
            spec_nested(groups, users, tid, g.members, uname, now)
        },
{
    if g.members.contains(GroupMemberV::User(uname)) {
        if spec_confirmed(users, tid, uname, now) {
            assert(spec_member_of(groups, users, tid, g, uname, now, 0));
        }
    } else {
        if spec_is_member(groups, users, tid, g, uname, now) {
            let k = choose|k: nat| spec_member_of(groups, users, tid, g, uname, now, k);
            let j = choose|j: int|
                0 <= j < g.members.len() && match #[trigger] g.members[j] {
                    GroupMemberV::Group(nm) => match group_at(groups, tid, nm) {
                        Some(ng) => spec_member_of(
                            groups,
                            users,
                            tid,
                            ng,
                            uname,
                            now,
                            (k - 1) as nat,
                        ),
                        None => false,
                    },
                    GroupMemberV::User(_) => false,
                };
            assert(nested_hit(groups, users, tid, g.members[j], uname, now));
        }
        if spec_nested(groups, users, tid, g.members, uname, now) {
            let j = choose|j: int|
                0 <= j < g.members.len() && #[trigger] nested_hit(
                    groups,
                    users,
                    tid,
                    g.members[j],
                    uname,
                    now,
                );
            let ng = member_resolves_to(groups, tid, g.members[j])->Some_0;
            let k = choose|k: nat| spec_member_of(groups, users, tid, ng, uname, now, k);
            assert(spec_member_of(groups, users, tid, g, uname, now, k + 1));
        }
    }
}

/// A rank assignment certifying that the tenant's stored nested-group
/// graph is acyclic: every stored group of the tenant has a rank below the
/// number of stored groups, and each of its resolved nested groups ranks
/// strictly lower.
pub open spec fn rank_ok(groups: Seq<GroupV>, tid: Seq<char>, rank: Map<Seq<char>, nat>) -> bool {
    forall|i: int|
        0 <= i < groups.len() && (#[trigger] groups[i]).tenant_id == tid ==> {
            &&& rank.dom().contains(groups[i].name)
            &&& rank[groups[i].name] < groups.len()
            &&& forall|j: int|
                0 <= j < groups[i].members.len() ==> match #[trigger] groups[i].members[j] {
                    GroupMemberV::Group(nm) => group_at(groups, tid, nm) is Some ==> {
                        &&& rank.dom().contains(nm)
                        &&& rank[nm] < rank[groups[i].name]
                    },
                    GroupMemberV::User(_) => true,
                }
        }
}

/// The tenant's stored nested-group graph admits a rank assignment, so it
/// holds no cycle.
pub open spec fn acyclic(groups: Seq<GroupV>, tid: Seq<char>) -> bool {
    exists|rank: Map<Seq<char>, nat>| #[trigger] rank_ok(groups, tid, rank)
}

/// What a rank certificate gives every search frontier: each resolved
/// nested-group member of a stored group of the tenant ranks below the
/// number of stored groups.
pub proof fn lemma_rank_bounds(groups: Seq<GroupV>, tid: Seq<char>, rank: Map<Seq<char>, nat>, name: Seq<char>)
    requires
        rank_ok(groups, tid, rank),
        group_at(groups, tid, name) is Some,
    ensures
        rank.dom().contains(name),
        rank[name] < groups.len(),
        group_at(groups, tid, name)->Some_0.tenant_id == tid,
        group_at(groups, tid, name)->Some_0.name == name,
{
    lemma_find_group_props(groups, tid, name);
}

/// A traversal engine answering membership questions over the nested-group
/// graph, resolving group names and user lookups against the repositories
/// it borrows.
pub struct GroupMemberService<'a> {
    group_repository: &'a GroupRepository,
    user_repository: &'a UserRepository,
}

impl<'a> GroupMemberService<'a> {
    /// The stored groups the traversal resolves nested names against.
    pub closed spec fn groups(&self) -> Seq<GroupV> {
        self.group_repository@
    }

    /// The stored users the traversal confirms enablement against.
    pub closed spec fn users(&self) -> Seq<UserV> {
        self.user_repository@
    }

    /// Creates a service over the given repositories.
    pub fn new(group_repository: &'a GroupRepository, user_repository: &'a UserRepository) -> (r:
        Self)
        ensures
            r.groups() == group_repository@,
            r.users() == user_repository@,
    {
        GroupMemberService { group_repository, user_repository }
    }

    /// Re-resolve the user by the group's tenant and the username and
    /// report whether that stored user is enabled at the instant; a user
    /// missing from the store is simply not confirmed.
    pub fn confirm_user_at(&self, group: &Group, user: &User, now: Instant) -> (r: Result<
        bool,
        Error,
    >)
        ensures
            r == Ok::<bool, Error>(
                spec_confirmed(self.users(), group@.tenant_id, user@.username, now as int),
            ),
    {
        match self.user_repository.find_by_username(group.tenant_id(), user.username()) {
            Ok(found) => Ok(found.is_enabled_at(now)),
            Err(_) => Ok(false),
        }
    }

    /// Re-resolve the user and report whether that stored user is enabled
    /// at the instant the wall clock reports now.
    pub fn confirm_user(&self, group: &Group, user: &User) -> (r: Result<bool, Error>)
        ensures
            exists|now: Instant|
                r == Ok::<bool, Error>(
                    #[trigger] spec_confirmed(
                        self.users(),
                        group@.tenant_id,
                        user@.username,
                        now as int,
                    ),
                ),
    {
        let now = now_millis();
        let r = self.confirm_user_at(group, user, now);
        proof {
            assert(r == Ok::<bool, Error>(
                spec_confirmed(self.users(), group@.tenant_id, user@.username, now as int),
            ));
        }
        r
    }

    /// Depth-first search for the target among the group's members and,
    /// through stored nested groups, their members. The fuel bounds the
    /// nesting depth; a rank certificate guarantees it is never exhausted.
    #[verifier::loop_isolation(false)]
    fn member_search(
        &self,
        group: &Group,
        target: &GroupMember,
        fuel: usize,
        Ghost(ropt): Ghost<Option<Map<Seq<char>, nat>>>,
    ) -> (r: Result<bool, Error>)
        requires
            match ropt {
                Some(rank) => rank_ok(self.groups(), group@.tenant_id, rank) && (forall|j: int|
                    0 <= j < group@.members.len() ==> match #[trigger] group@.members[j] {
                        GroupMemberV::Group(nm) => group_at(
                            self.groups(),
                            group@.tenant_id,
                            nm,
                        ) is Some ==> rank.dom().contains(nm) && rank[nm] < fuel,
                        GroupMemberV::User(_) => true,
                    }),
                None => true,
            },
        ensures
            match r {
                Ok(b) => b == reaches_from(
                    self.groups(),
                    group@.tenant_id,
                    group@.members,
                    target@,
                ),
                Err(e) => e is Generic && ropt is None,
            },
        decreases fuel,
    {
        let ghost gs = self.groups();
        let ghost tid = group@.tenant_id;
        let members = group.members();
        let n = members.len();
        for i in 0..n
            invariant
                forall|j: int, k: nat|
                    0 <= j < i ==> !(#[trigger] member_leads_to(
                        gs,
                        tid,
                        group@.members[j],
                        target@,
                        k,
                    )),
        {
            let m = &members[i];
            proof {
                assert(m@ == group@.members[i as int]);
            }
            if m.equals(target) {
                proof {
                    assert(member_leads_to(gs, tid, group@.members[i as int], target@, 0));
                    assert(reaches_from(gs, tid, group@.members, target@));
                }
                return Ok(true);
            }
            match m {
                GroupMember::Group(name) => {
                    match self.group_repository.find_by_name(group.tenant_id(), name) {
                        Ok(nested) => {
                            proof {
                                lemma_find_group_props(gs, tid, name@);
                                assert(group_at(gs, tid, name@) == Some(nested@));
                                assert(nested@.tenant_id == tid);
                            }
                            if fuel == 0 {
                                proof {
                                    match ropt {
                                        Some(rank) => {
                                            assert(group@.members[i as int]
                                                == GroupMemberV::Group(name@));
                                            assert(group_at(gs, tid, name@) is Some);
                                            assert(rank[name@] < fuel);
                                        },
                                        None => {},
                                    }
                                    assert(ropt is None);
                                }
                                return Err(
                                    Error::Generic("group recursion detected".to_owned()),
                                );
                            }
                            let ghost sub = ropt;
                            proof {
                                match sub {
                                    Some(rank) => {
                                    lemma_rank_bounds(gs, tid, rank, name@);
                                    assert forall|j: int|
                                        0 <= j < nested@.members.len() implies match #[trigger] nested@.members[j] {
                                        GroupMemberV::Group(nm) => group_at(gs, tid, nm)
                                            is Some ==> rank.dom().contains(nm) && rank[nm] < (fuel
                                            - 1) as nat,
                                        GroupMemberV::User(_) => true,
                                    } by {
                                        let idx = spec_find_group(gs, tid, name@)->Some_0;
                                        lemma_find_group_props(gs, tid, name@);
                                        assert(gs[idx] == nested@);
                                    }
                                    },
                                    None => {},
                                }
                            }
                            match self.member_search(&nested, target, fuel - 1, Ghost(sub)) {
                                Ok(true) => {
                                    proof {
                                        let (j2, k) = choose|j2: int, k: nat|
                                            0 <= j2 < nested@.members.len()
                                                && #[trigger] member_leads_to(
                                                gs,
                                                tid,
                                                nested@.members[j2],
                                                target@,
                                                k,
                                            );
                                        assert(member_leads_to(
                                            gs,
                                            tid,
                                            group@.members[i as int],
                                            target@,
                                            k + 1,
                                        ));
                                    }
                                    return Ok(true);
                                },
                                Ok(false) => {
                                    proof {
                                        assert forall|k: nat|
                                            !(#[trigger] member_leads_to(
                                                gs,
                                                tid,
                                                group@.members[i as int],
                                                target@,
                                                k,
                                            )) by {
                                            if member_leads_to(
                                                gs,
                                                tid,
                                                group@.members[i as int],
                                                target@,
                                                k,
                                            ) {
                                                let j2 = choose|j2: int|
                                                    0 <= j2 < nested@.members.len()
                                                        && member_leads_to(
                                                        gs,
                                                        tid,
                                                        #[trigger] nested@.members[j2],
                                                        target@,
                                                        (k - 1) as nat,
                                                    );
                                                assert(member_leads_to(
                                                    gs,
                                                    tid,
                                                    nested@.members[j2],
                                                    target@,
                                                    (k - 1) as nat,
                                                ));
                                                assert(reaches_from(
                                                    gs,
                                                    tid,
                                                    nested@.members,
                                                    target@,
                                                ));
                                            }
                                        }
                                    }
                                },
                                Err(e) => {
                                    return Err(e);
                                },
                            }
                        },
                        Err(_) => {
                            proof {
                                assert(group_at(gs, tid, name@) is None);
                                assert forall|k: nat|
                                    !(#[trigger] member_leads_to(
                                        gs,
                                        tid,
                                        group@.members[i as int],
                                        target@,
                                        k,
                                    )) by {}
                            }
                        },
                    }
                },
                GroupMember::User(_) => {
                    proof {
                        assert forall|k: nat|
                            !(#[trigger] member_leads_to(
                                gs,
                                tid,
                                group@.members[i as int],
                                target@,
                                k,
                            )) by {}
                    }
                },
            }
        }
        proof {
            assert(!reaches_from(gs, tid, group@.members, target@));
        }
        Ok(false)
    }

    /// Depth-first search over the group's nested-group members for the
    /// candidate member, used before adding an edge to reject cycles: the
    /// candidate is found if it stands anywhere in the reachable set,
    /// including among the group's own direct members.
    ///
    /// When the stored graph of the tenant is acyclic the search always
    /// answers; the error is reserved for a stored graph that already
    /// holds a cycle.
    pub fn is_member_group(&self, group: &Group, member: &GroupMember) -> (r: Result<bool, Error>)
        ensures
            match r {
                Ok(b) => b == reaches_from(
                    self.groups(),
                    group@.tenant_id,
                    group@.members,
                    member@,
                ),
                Err(e) => e is Generic && !acyclic(self.groups(), group@.tenant_id),
            },
    {
        let ghost gs = self.groups();
        let ghost tid = group@.tenant_id;
        let fuel = self.group_repository.groups.len();
        let ghost ropt: Option<Map<Seq<char>, nat>> = if acyclic(gs, tid) {
            Some(choose|rank: Map<Seq<char>, nat>| #[trigger] rank_ok(gs, tid, rank))
        } else {
            None
        };
        proof {
            match ropt {
                Some(rank) => {
                assert forall|j: int|
                    0 <= j < group@.members.len() implies match #[trigger] group@.members[j] {
                    GroupMemberV::Group(nm) => group_at(gs, tid, nm) is Some
                        ==> rank.dom().contains(nm) && rank[nm] < fuel,
                    GroupMemberV::User(_) => true,
                } by {
                    match group@.members[j] {
                        GroupMemberV::Group(nm) => {
                            if group_at(gs, tid, nm) is Some {
                                lemma_rank_bounds(gs, tid, rank, nm);
                            }
                        },
                        GroupMemberV::User(_) => {},
                    }
                }
                },
                None => {},
            }
        }
        self.member_search(group, member, fuel, Ghost(ropt))
    }
}



/// What every rank certificate gives a search frontier: each member that
/// resolves to a stored group ranks below the number of stored groups.
pub proof fn lemma_search_frontier(
    gs: Seq<GroupV>,
    tid: Seq<char>,
    rank: Map<Seq<char>, nat>,
    members: Seq<GroupMemberV>,
)
    requires
        rank_ok(gs, tid, rank),
    ensures
        forall|j: int|
            0 <= j < members.len() ==> match #[trigger] members[j] {
                GroupMemberV::Group(nm) => group_at(gs, tid, nm) is Some ==> rank.dom().contains(
                    nm,
                ) && rank[nm] < gs.len(),
                GroupMemberV::User(_) => true,
            },
{
    assert forall|j: int|
        0 <= j < members.len() implies match #[trigger] members[j] {
        GroupMemberV::Group(nm) => group_at(gs, tid, nm) is Some ==> rank.dom().contains(nm)
            && rank[nm] < gs.len(),
        GroupMemberV::User(_) => true,
    } by {
        match members[j] {
            GroupMemberV::Group(nm) => {
                if group_at(gs, tid, nm) is Some {
                    lemma_rank_bounds(gs, tid, rank, nm);
                }
            },
            GroupMemberV::User(_) => {},
        }
    }
}

/// What a nested-membership query promises: for a user of the group's
/// tenant that is enabled at the instant, an answer is exact and an error
/// is reserved for a cyclic stored graph; for any other user the query
/// fails as soon as a nested group resolves, and answers `false` when none
/// does.
pub open spec fn nested_query_outcome(
    gs: Seq<GroupV>,
    us: Seq<UserV>,
    g: GroupV,
    u: UserV,
    r: Result<bool, Error>,
    now: int,
) -> bool {
    if u.tenant_id == g.tenant_id && u.enabled_at(now) {
        match r {
            Ok(b) => b == spec_nested(gs, us, g.tenant_id, g.members, u.username, now),
            Err(e) => e is Generic && !acyclic(gs, g.tenant_id),
        }
    } else {
        &&& (spec_any_resolvable(gs, g.tenant_id, g.members) ==> r is Err)
        &&& (!spec_any_resolvable(gs, g.tenant_id, g.members) ==> r == Ok::<bool, Error>(false))
    }
}

/// What a full membership query promises: a cross-tenant user or one not
/// enabled at the instant is rejected, and otherwise the answer is exact,
/// with an error reserved for a cyclic stored graph.
pub open spec fn membership_query_outcome(
    gs: Seq<GroupV>,
    us: Seq<UserV>,
    g: GroupV,
    u: UserV,
    r: Result<bool, Error>,
    now: int,
) -> bool {
    if u.tenant_id != g.tenant_id {
        r matches Err(e) && e is NotEqual
    } else if !u.enabled_at(now) {
        r matches Err(e) && e is Generic
    } else {
        match r {
            Ok(b) => b == spec_is_member(gs, us, g.tenant_id, g, u.username, now),
            Err(e) => e is Generic && !acyclic(gs, g.tenant_id),
        }
    }
}

impl<'a> GroupMemberService<'a> {
    /// Whether the user is a member of the group at the instant: a direct
    /// member is confirmed against the stored users, and otherwise the
    /// stored nested groups are searched depth first. The fuel bounds the
    /// nesting depth; a rank certificate guarantees it is never exhausted.
    #[verifier::loop_isolation(false)]
    fn user_search(
        &self,
        group: &Group,
        user: &User,
        now: Instant,
        fuel: usize,
        Ghost(ropt): Ghost<Option<Map<Seq<char>, nat>>>,
    ) -> (r: Result<bool, Error>)
        requires
            match ropt {
                Some(rank) => rank_ok(self.groups(), group@.tenant_id, rank) && (forall|j: int|
                    0 <= j < group@.members.len() ==> match #[trigger] group@.members[j] {
                        GroupMemberV::Group(nm) => group_at(
                            self.groups(),
                            group@.tenant_id,
                            nm,
                        ) is Some ==> rank.dom().contains(nm) && rank[nm] < fuel,
                        GroupMemberV::User(_) => true,
                    }),
                None => true,
            },
        ensures
            match r {
                Ok(b) => b == spec_is_member(
                    self.groups(),
                    self.users(),
                    group@.tenant_id,
                    group@,
                    user@.username,
                    now as int,
                ),
                Err(e) => e is Generic && ropt is None,
            },
        decreases fuel,
    {
        let ghost gs = self.groups();
        let ghost us = self.users();
        let ghost tid = group@.tenant_id;
        let ghost uname = user@.username;
        proof {
            lemma_is_member_unfold(gs, us, tid, group@, uname, now as int);
        }
        let direct = GroupMember::from_user(user);
        if group.contains_member(&direct) {
            match self.confirm_user_at(group, user, now) {
                Ok(b) => Ok(b),
                Err(e) => Err(e),
            }
        } else {
            let members = group.members();
            let n = members.len();
            for i in 0..n
                invariant
                    forall|j: int|
                        0 <= j < i ==> !(#[trigger] nested_hit(
                            gs,
                            us,
                            tid,
                            group@.members[j],
                            uname,
                            now as int,
                        )),
            {
                let m = &members[i];
                proof {
                    assert(m@ == group@.members[i as int]);
                }
                match m {
                    GroupMember::Group(name) => {
                        match self.group_repository.find_by_name(group.tenant_id(), name) {
                            Ok(nested) => {
                                proof {
                                    lemma_find_group_props(gs, tid, name@);
                                    assert(group_at(gs, tid, name@) == Some(nested@));
                                    assert(nested@.tenant_id == tid);
                                }
                                if fuel == 0 {
                                    proof {
                                        match ropt {
                                            Some(rank) => {
                                                assert(group@.members[i as int]
                                                    == GroupMemberV::Group(name@));
                                                assert(rank[name@] < fuel);
                                            },
                                            None => {},
                                        }
                                        assert(ropt is None);
                                    }
                                    return Err(
                                        Error::Generic("group recursion detected".to_owned()),
                                    );
                                }
                                let ghost sub = ropt;
                                proof {
                                    match sub {
                                        Some(rank) => {
                                            lemma_rank_bounds(gs, tid, rank, name@);
                                            assert forall|j: int|
                                                0 <= j < nested@.members.len() implies match #[trigger] nested@.members[j] {
                                                GroupMemberV::Group(nm) => group_at(gs, tid, nm)
                                                    is Some ==> rank.dom().contains(nm) && rank[nm]
                                                    < (fuel - 1) as nat,
                                                GroupMemberV::User(_) => true,
                                            } by {
                                                let idx = spec_find_group(gs, tid, name@)->Some_0;
                                                lemma_find_group_props(gs, tid, name@);
                                                assert(gs[idx] == nested@);
                                            }
                                        },
                                        None => {},
                                    }
                                }
                                match self.user_search(&nested, user, now, fuel - 1, Ghost(sub)) {
                                    Ok(true) => {
                                        proof {
                                            assert(nested_hit(
                                                gs,
                                                us,
                                                tid,
                                                group@.members[i as int],
                                                uname,
                                                now as int,
                                            ));
                                            assert(spec_nested(
                                                gs,
                                                us,
                                                tid,
                                                group@.members,
                                                uname,
                                                now as int,
                                            ));
                                        }
                                        return Ok(true);
                                    },
                                    Ok(false) => {
                                        proof {
                                            assert(!nested_hit(
                                                gs,
                                                us,
                                                tid,
                                                group@.members[i as int],
                                                uname,
                                                now as int,
                                            ));
                                        }
                                    },
                                    Err(e) => {
                                        return Err(e);
                                    },
                                }
                            },
                            Err(_) => {
                                proof {
                                    assert(group_at(gs, tid, name@) is None);
                                    assert(!nested_hit(
                                        gs,
                                        us,
                                        tid,
                                        group@.members[i as int],
                                        uname,
                                        now as int,
                                    ));
                                }
                            },
                        }
                    },
                    GroupMember::User(_) => {
                        proof {
                            assert(!nested_hit(
                                gs,
                                us,
                                tid,
                                group@.members[i as int],
                                uname,
                                now as int,
                            ));
                        }
                    },
                }
            }
            proof {
                assert(!spec_nested(gs, us, tid, group@.members, uname, now as int));
            }
            Ok(false)
        }
    }

    /// Depth-first search over the group's nested-group members for the
    /// user, recursing through each stored nested group's own membership;
    /// a dangling nested-group name is skipped, not fatal.
    pub fn is_user_in_nested_group_at(&self, group: &Group, user: &User, now: Instant) -> (r:
        Result<bool, Error>)
        ensures
            nested_query_outcome(self.groups(), self.users(), group@, user@, r, now as int),
    {
        let ghost gs = self.groups();
        let ghost us = self.users();
        let ghost tid = group@.tenant_id;
        let ghost uname = user@.username;
        let ghost valid = user@.tenant_id == tid && user@.enabled_at(now as int);
        let fuel = self.group_repository.groups.len();
        proof {
            assert(gs.len() == self.group_repository.groups@.len());
        }
        let ghost ropt: Option<Map<Seq<char>, nat>> = if acyclic(gs, tid) {
            Some(choose|rank: Map<Seq<char>, nat>| #[trigger] rank_ok(gs, tid, rank))
        } else {
            None
        };
        let members = group.members();
        let n = members.len();
        #[verifier::loop_isolation(false)]
        for i in 0..n
            invariant
                forall|j: int|
                    0 <= j < i ==> !(#[trigger] nested_hit(
                        gs,
                        us,
                        tid,
                        group@.members[j],
                        uname,
                        now as int,
                    )),
                !valid ==> forall|j: int|
                    0 <= j < i ==> member_resolves_to(gs, tid, #[trigger] group@.members[j])
                        is None,
        {
            let m = &members[i];
            proof {
                assert(m@ == group@.members[i as int]);
            }
            match m {
                GroupMember::Group(name) => {
                    match self.group_repository.find_by_name(group.tenant_id(), name) {
                        Ok(nested) => {
                            proof {
                                lemma_find_group_props(gs, tid, name@);
                                assert(group_at(gs, tid, name@) == Some(nested@));
                                assert(nested@.tenant_id == tid);
                                assert(member_resolves_to(
                                    gs,
                                    tid,
                                    group@.members[i as int],
                                ) is Some);
                                assert(spec_any_resolvable(gs, tid, group@.members));
                            }
                            validate::equals(
                                "tenant_id",
                                user.tenant_id().as_str(),
                                group.tenant_id().as_str(),
                            )?;
                            validate::is_true(user.is_enabled_at(now), "user is not enabled")?;
                            let ghost sub = ropt;
                            proof {
                                match sub {
                                    Some(rank) => {
                                        lemma_search_frontier(gs, tid, rank, nested@.members);
                                    },
                                    None => {},
                                }
                            }
                            match self.user_search(&nested, user, now, fuel, Ghost(sub)) {
                                Ok(true) => {
                                    proof {
                                        assert(nested_hit(
                                            gs,
                                            us,
                                            tid,
                                            group@.members[i as int],
                                            uname,
                                            now as int,
                                        ));
                                        assert(spec_nested(
                                            gs,
                                            us,
                                            tid,
                                            group@.members,
                                            uname,
                                            now as int,
                                        ));
                                    }
                                    return Ok(true);
                                },
                                Ok(false) => {
                                    proof {
                                        assert(!nested_hit(
                                            gs,
                                            us,
                                            tid,
                                            group@.members[i as int],
                                            uname,
                                            now as int,
                                        ));
                                    }
                                },
                                Err(e) => {
                                    return Err(e);
                                },
                            }
                        },
                        Err(_) => {
                            proof {
                                assert(group_at(gs, tid, name@) is None);
                                assert(!nested_hit(
                                    gs,
                                    us,
                                    tid,
                                    group@.members[i as int],
                                    uname,
                                    now as int,
                                ));
                            }
                        },
                    }
                },
                GroupMember::User(_) => {
                    proof {
                        assert(!nested_hit(
                            gs,
                            us,
                            tid,
                            group@.members[i as int],
                            uname,
                            now as int,
                        ));
                    }
                },
            }
        }
        proof {
            assert(!spec_nested(gs, us, tid, group@.members, uname, now as int));
            if !valid {
                assert forall|j: int|
                    0 <= j < group@.members.len() implies !(#[trigger] member_resolves_to(
                    gs,
                    tid,
                    group@.members[j],
                ) is Some) by {}
                assert(!spec_any_resolvable(gs, tid, group@.members));
            }
        }
        Ok(false)
    }

    /// Depth-first search over the group's nested-group members for the
    /// user, judged at the instant the wall clock reports now.
    pub fn is_user_in_nested_group(&self, group: &Group, user: &User) -> (r: Result<bool, Error>)
        ensures
            exists|now: Instant|
                #[trigger] nested_query_outcome(
                    self.groups(),
                    self.users(),
                    group@,
                    user@,
                    r,
                    now as int,
                ),
    {
        let now = now_millis();
        let r = self.is_user_in_nested_group_at(group, user, now);
        proof {
            assert(nested_query_outcome(self.groups(), self.users(), group@, user@, r, now as int));
        }
        r
    }
}



/// Law: membership is transitive through nesting. When group `a` holds
/// group `b` as a member, `b` is the stored group of that name, `b` holds
/// the user as a direct member, and the stored user is confirmed at the
/// instant, then the user is a member of `a` at that instant.
pub proof fn lemma_transitive_membership(
    groups: Seq<GroupV>,
    users: Seq<UserV>,
    tid: Seq<char>,
    a: GroupV,
    b: GroupV,
    uname: Seq<char>,
    now: int,
)
    requires
        group_at(groups, tid, b.name) == Some(b),
        a.members.contains(GroupMemberV::Group(b.name)),
        b.members.contains(GroupMemberV::User(uname)),
        spec_confirmed(users, tid, uname, now),
    ensures
        spec_is_member(groups, users, tid, a, uname, now),
{
    assert(spec_member_of(groups, users, tid, b, uname, now, 0));
    if a.members.contains(GroupMemberV::User(uname)) {
        assert(spec_member_of(groups, users, tid, a, uname, now, 0));
    } else {
        let j = choose|j: int| 0 <= j < a.members.len() && a.members[j] == GroupMemberV::Group(
            b.name,
        );
        assert(spec_member_of(groups, users, tid, a, uname, now, 1)) by {
            assert(a.members[j] == GroupMemberV::Group(b.name));
        }
    }
}

/// Law: removing the user from the nested group removes the transitive
/// membership. When `a`'s only member is group `b`, `b` is the stored
/// group of that name, and `b` holds no entry for the user and no nested
/// groups of its own, the user is not a member of `a` at any instant.
/// Removal itself changes nothing else: `remove_user` leaves every other
/// entry of the membership list in place.
pub proof fn lemma_membership_gone_after_removal(
    groups: Seq<GroupV>,
    users: Seq<UserV>,
    tid: Seq<char>,
    a: GroupV,
    b: GroupV,
    uname: Seq<char>,
    now: int,
)
    requires
        group_at(groups, tid, b.name) == Some(b),
        a.members == seq![GroupMemberV::Group(b.name)],
        !b.members.contains(GroupMemberV::User(uname)),
        forall|j: int| 0 <= j < b.members.len() ==> (#[trigger] b.members[j]) is User,
    ensures
        !spec_is_member(groups, users, tid, a, uname, now),
{
    assert forall|k: nat| !(#[trigger] spec_member_of(groups, users, tid, b, uname, now, k)) by {
        if spec_member_of(groups, users, tid, b, uname, now, k) {
            let j = choose|j: int|
                0 <= j < b.members.len() && match #[trigger] b.members[j] {
                    GroupMemberV::Group(nm) => match group_at(groups, tid, nm) {
                        Some(ng) => spec_member_of(groups, users, tid, ng, uname, now, (k - 1) as nat),
                        None => false,
                    },
                    GroupMemberV::User(_) => false,
                };
            assert(b.members[j] is User);
        }
    }
    assert(!a.members.contains(GroupMemberV::User(uname))) by {
        assert(a.members.len() == 1);
        assert(a.members[0] == GroupMemberV::Group(b.name));
    }
    assert forall|k: nat| !(#[trigger] spec_member_of(groups, users, tid, a, uname, now, k)) by {
        if spec_member_of(groups, users, tid, a, uname, now, k) {
            let j = choose|j: int|
                0 <= j < a.members.len() && match #[trigger] a.members[j] {
                    GroupMemberV::Group(nm) => match group_at(groups, tid, nm) {
                        Some(ng) => spec_member_of(groups, users, tid, ng, uname, now, (k - 1) as nat),
                        None => false,
                    },
                    GroupMemberV::User(_) => false,
                };
            assert(a.members[j] == GroupMemberV::Group(b.name));
            assert(spec_member_of(groups, users, tid, b, uname, now, (k - 1) as nat));
        }
    }
}


} // verus!
