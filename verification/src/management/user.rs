//! Users, the organizations they belong to, and the roles they hold there.

use crate::management::phc::{
    b64_unpadded, encode_salt, pbkdf2_hash, pbkdf2_phc, pbkdf2_verifies, pbkdf2_verify, phc_parse,
    phc_parses, phc_reencode, phc_reencoded, MAX_SALT_BYTES,
};
use std::collections::HashMap;
use vstd::prelude::*;
use vstd::std_specs::convert::{FromSpecImpl, TryFromSpecImpl};
use vstd::utf8::encode_utf8;

verus! {

/// The role a user has inside an organization.
#[derive(Clone, Copy, PartialEq, Eq, Debug, Hash, Structural)]
#[allow(missing_docs)]
pub enum Role {
    EditOrganizationStations,
    CreateOrganizationStations,
    DeleteOrganizationStations,
    EditMaintainedStations,
    CreateMaintainedStations,
    DeleteMaintainedStations,
    EditOrgUserRoles,
    EditOwnOrganization,
    ApproveStations,
}

impl Role {
    /// The number under which the role is stored.
    pub open spec fn number(self) -> i32 {
        match self {
            Role::EditOrganizationStations => 0,
            Role::CreateOrganizationStations => 1,
            Role::DeleteOrganizationStations => 2,
            Role::EditMaintainedStations => 3,
            Role::CreateMaintainedStations => 4,
            Role::DeleteMaintainedStations => 5,
            Role::EditOrgUserRoles => 6,
            Role::EditOwnOrganization => 7,
            Role::ApproveStations => 8,
        }
    }

    /// The role that is stored under `role`; an error where there is none.
    pub open spec fn of_number(role: i32) -> Result<Role, &'static str> {
        if role == 0 {
            Ok(Role::EditOrganizationStations)
        } else if role == 1 {
            Ok(Role::CreateOrganizationStations)
        } else if role == 2 {
            Ok(Role::DeleteOrganizationStations)
        } else if role == 3 {
            Ok(Role::EditMaintainedStations)
        } else if role == 4 {
            Ok(Role::CreateMaintainedStations)
        } else if role == 5 {
            Ok(Role::DeleteMaintainedStations)
        } else if role == 6 {
            Ok(Role::EditOrgUserRoles)
        } else if role == 7 {
            Ok(Role::EditOwnOrganization)
        } else if role == 8 {
            Ok(Role::ApproveStations)
        } else {
            Err(no_such_role())
        }
    }
}

/// What a number that stands for no role is answered with.
pub open spec fn no_such_role() -> &'static str {
    "No role corresponding to {role} value!"
}

impl TryFrom<i32> for Role {
    type Error = &'static str;

    fn try_from(role: i32) -> (res: Result<Self, Self::Error>) {
        match role {
            0 => Ok(Role::EditOrganizationStations),
            1 => Ok(Role::CreateOrganizationStations),
            2 => Ok(Role::DeleteOrganizationStations),
            3 => Ok(Role::EditMaintainedStations),
            4 => Ok(Role::CreateMaintainedStations),
            5 => Ok(Role::DeleteMaintainedStations),
            6 => Ok(Role::EditOrgUserRoles),
            7 => Ok(Role::EditOwnOrganization),
            8 => Ok(Role::ApproveStations),
            _ => Err("No role corresponding to {role} value!"),
        }
    }
}

impl TryFromSpecImpl<i32> for Role {
    open spec fn obeys_try_from_spec() -> bool {
        true
    }

    open spec fn try_from_spec(role: i32) -> Result<Self, Self::Error> {
        Role::of_number(role)
    }
}

impl From<Role> for i32 {
    fn from(val: Role) -> (res: Self) {
        match val {
            Role::EditOrganizationStations => 0,
            Role::CreateOrganizationStations => 1,
            Role::DeleteOrganizationStations => 2,
            Role::EditMaintainedStations => 3,
            Role::CreateMaintainedStations => 4,
            Role::DeleteMaintainedStations => 5,
            Role::EditOrgUserRoles => 6,
            Role::EditOwnOrganization => 7,
            Role::ApproveStations => 8,
        }
    }
}

impl FromSpecImpl<Role> for i32 {
    open spec fn obeys_from_spec() -> bool {
        true
    }

    open spec fn from_spec(val: Role) -> Self {
        val.number()
    }
}

/// A role and its number stand for each other: the number of a role is
/// read back as that role, a number that is read as a role is the number of
/// that role, and the numbers that are read as a role are 0 to 8.
pub proof fn lemma_role_numbers(role: Role, number: i32)
    ensures
        Role::of_number(role.number()) == Ok::<Role, &'static str>(role),
        Role::of_number(number) matches Ok(r) ==> r.number() == number,
        Role::of_number(number) is Ok <==> 0 <= number <= 8,
        Role::of_number(number) is Err ==> Role::of_number(number) == Err::<
            Role,
            &'static str,
        >(no_such_role()),
{
}

/// A user of the services.
#[derive(Clone)]
pub struct User {
    /// Unique identifier of the user, a UUID
    pub id: u128,
    /// Name of the user
    pub name: Option<String>,
    /// Email of the user
    pub email: Option<String>,
    /// Hash of the password of the user
    pub password: String,
    /// Which notifications the user wants by mail
    pub email_setting: Option<i32>,
    /// The user is deleted and only kept for the consistency of the database
    pub deactivated: bool,
    /// The user administers all of the services
    pub admin: bool,
}

/// One role of one user within one organization.
#[derive(Debug, Clone, Copy, PartialEq, Eq, Structural)]
pub struct OrgUsersRelation {
    /// Primary key, a UUID
    pub id: u128,
    /// The organization for which the role is set, a UUID
    pub organization: u128,
    /// The user for whom the role is set, a UUID
    pub user_id: u128,
    /// The role itself
    pub role: Role,
}

/// A user together with the roles held in each organization.
#[derive(Clone)]
pub struct AuthorizedUser {
    /// The user
    pub user: User,
    /// The roles of the user by organization
    pub roles: HashMap<u128, Vec<Role>>,
}

/// The UUID of the community organization, which holds the crowdsourced stations.
pub const COMMUNITY_ORG_ID: u128 = 0x53e643d7_c300_4de7_ab48_540d08a0cbc6;

/// An organization.
#[derive(Debug, Clone)]
pub struct Organization {
    /// Primary key, a UUID
    pub id: u128,
    /// Name of the organization
    pub name: String,
    /// The information about the organization is public
    pub public: bool,
    /// Owner of the organization, a UUID
    pub owner: u128,
    /// The organization is deleted
    pub deactivated: bool,
}

/// The roles that `associations` set for `organization`, in their order.
pub open spec fn roles_in(associations: Seq<OrgUsersRelation>, organization: u128) -> Seq<Role>
    decreases associations.len(),
{
    if associations.len() == 0 {
        Seq::empty()
    } else {
        let before = roles_in(associations.drop_last(), organization);
        if associations.last().organization == organization {
            before.push(associations.last().role)
        } else {
            before
        }
    }
}

/// One of `associations` is for `organization`.
pub open spec fn mentions(associations: Seq<OrgUsersRelation>, organization: u128) -> bool {
    exists|i: int|
        0 <= i < associations.len() && (#[trigger] associations[i]).organization == organization
}

/// Associations that do not mention an organization set no role for it.
pub proof fn lemma_unmentioned_has_no_roles(
    associations: Seq<OrgUsersRelation>,
    organization: u128,
)
    requires
        !mentions(associations, organization),
    ensures
        roles_in(associations, organization).len() == 0,
    decreases associations.len(),
{
    if associations.len() > 0 {
        let before = associations.drop_last();
        assert(associations.last() == associations[associations.len() - 1]);
        assert forall|i: int| 0 <= i < before.len() implies (#[trigger] before[i]).organization
            != organization by {
            assert(before[i] == associations[i]);
        }
        lemma_unmentioned_has_no_roles(before, organization);
    }
}

/// One of `associations` sets `role` for `organization`.
pub open spec fn sets_role(
    associations: Seq<OrgUsersRelation>,
    organization: u128,
    role: Role,
) -> bool {
    exists|i: int|
        0 <= i < associations.len() && (#[trigger] associations[i]).organization == organization
            && associations[i].role == role
}

/// A role is among those that associations set for an organization exactly
/// when one of them sets it.
pub proof fn lemma_roles_in_are_the_roles_set(
    associations: Seq<OrgUsersRelation>,
    organization: u128,
    role: Role,
)
    ensures
        roles_in(associations, organization).contains(role) <==> sets_role(
            associations,
            organization,
            role,
        ),
    decreases associations.len(),
{
    if associations.len() > 0 {
        let before = associations.drop_last();
        let last = associations.last();
        let here = roles_in(associations, organization);
        let earlier = roles_in(before, organization);
        lemma_roles_in_are_the_roles_set(before, organization, role);
        if sets_role(associations, organization, role) {
            let i = choose|i: int|
                0 <= i < associations.len() && (#[trigger] associations[i]).organization
                    == organization && associations[i].role == role;
            if i < before.len() {
                assert(before[i] == associations[i]);
                assert(sets_role(before, organization, role));
                let k = choose|k: int| 0 <= k < earlier.len() && earlier[k] == role;
                assert(here[k] == role);
            } else {
                assert(here[earlier.len() as int] == role);
            }
        }
        if here.contains(role) {
            let k = choose|k: int| 0 <= k < here.len() && here[k] == role;
            if k < earlier.len() {
                assert(earlier[k] == role);
                assert(earlier.contains(role));
                let i = choose|i: int|
                    0 <= i < before.len() && (#[trigger] before[i]).organization == organization
                        && before[i].role == role;
                assert(associations[i] == before[i]);
            } else {
                assert(associations[associations.len() - 1] == last);
            }
        }
    }
}

impl AuthorizedUser {
    /// The roles of the user in `organization`: none where the user has no
    /// entry for it.
    pub open spec fn roles_of(self, organization: u128) -> Seq<Role> {
        if self.roles@.contains_key(organization) {
            self.roles@[organization]@
        } else {
            Seq::empty()
        }
    }

    /// The roles are those that `associations` set: there is an entry for
    /// each organization that they mention and for no other, and it holds the
    /// roles that they set for it, in their order.
    pub open spec fn grouped_from(self, associations: Seq<OrgUsersRelation>) -> bool {
        forall|organization: u128|
            {
                &&& self.roles@.contains_key(organization) <==> mentions(
                    associations,
                    organization,
                )
                &&& #[trigger] self.roles_of(organization) == roles_in(associations, organization)
            }
    }

    /// A user whose roles were grouped from associations has a role in an
    /// organization exactly when one of the associations sets it.
    pub proof fn lemma_has_the_roles_set(
        self,
        associations: Seq<OrgUsersRelation>,
        organization: u128,
        role: Role,
    )
        requires
            self.grouped_from(associations),
        ensures
            self.roles_of(organization).contains(role) <==> sets_role(
                associations,
                organization,
                role,
            ),
    {
        assert(self.roles_of(organization) == roles_in(associations, organization));
        lemma_roles_in_are_the_roles_set(associations, organization, role);
    }

    /// Puts together the user that the database holds for an identifier, if it
    /// holds one, and the associations of that user with organizations.
    pub fn from_postgres(user: Option<User>, associations: Vec<OrgUsersRelation>) -> (res: Option<
        Self,
    >)
        ensures
            match user {
                Some(found_user) => res matches Some(authorized) && authorized.user == found_user
                    && authorized.grouped_from(associations@),
                None => res is None,
            },
    {
        broadcast use vstd::std_specs::hash::group_hash_axioms;

        match user {
            Some(found_user) => {
                let mut roles: HashMap<u128, Vec<Role>> = HashMap::new();
                let mut i: usize = 0;
                while i < associations.len()
                    invariant
                        i <= associations.len(),
                        forall|organization: u128|
                            #![trigger roles@.contains_key(organization)]
                            {
                                &&& roles@.contains_key(organization) <==> mentions(
                                    associations@.take(i as int),
                                    organization,
                                )
                                &&& roles@.contains_key(organization) ==> roles@[organization]@
                                    == roles_in(associations@.take(i as int), organization)
                            },
                    decreases associations.len() - i,
                {
                    let association = associations[i];
                    let ghost before = associations@.take(i as int);
                    let ghost after = associations@.take(i + 1);
                    let ghost earlier = roles@;
                    let mut list = match roles.remove(&association.organization) {
                        Some(list) => list,
                        None => Vec::new(),
                    };
                    proof {
                        if !earlier.contains_key(association.organization) {
                            lemma_unmentioned_has_no_roles(before, association.organization);
                        }
                        assert(list@ == roles_in(before, association.organization));
                    }
                    list.push(association.role);
                    roles.insert(association.organization, list);
                    proof {
                        assert(after.drop_last() == before);
                        assert(after.last() == association);
                        assert forall|organization: u128|
                            #![trigger roles@.contains_key(organization)]
                            {
                                &&& roles@.contains_key(organization) <==> mentions(
                                    after,
                                    organization,
                                )
                                &&& roles@.contains_key(organization) ==> roles@[organization]@
                                    == roles_in(after, organization)
                            } by {
                            if mentions(before, organization) {
                                let j = choose|j: int|
                                    0 <= j < before.len() && (#[trigger] before[j]).organization
                                        == organization;
                                assert(after[j].organization == organization);
                            }
                            if organization == association.organization {
                                assert(after[i as int].organization == organization);
                            }
                            if mentions(after, organization) && organization
                                != association.organization {
                                let j = choose|j: int|
                                    0 <= j < after.len() && (#[trigger] after[j]).organization
                                        == organization;
                                assert(before[j].organization == organization);
                            }
                        }
                    }
                    i += 1;
                }
                let authorized = AuthorizedUser { user: found_user, roles };
                proof {
                    assert(associations@.take(i as int) == associations@);
                    assert forall|organization: u128|
                        {
                            &&& authorized.roles@.contains_key(organization) <==> mentions(
                                associations@,
                                organization,
                            )
                            &&& #[trigger] authorized.roles_of(organization) == roles_in(
                                associations@,
                                organization,
                            )
                        } by {
                        if !mentions(associations@, organization) {
                            lemma_unmentioned_has_no_roles(associations@, organization);
                        }
                    }
                }
                Some(authorized)
            },
            None => None,
        }
    }

    /// The roles that the user has in this organization.
    pub fn get_roles(&self, organization: &u128) -> (res: Vec<Role>)
        ensures
            res@ == self.roles_of(*organization),
    {
        broadcast use vstd::std_specs::hash::group_hash_axioms;

        match self.roles.get(organization) {
            Some(list) => {
                let mut copy: Vec<Role> = Vec::new();
                let mut i: usize = 0;
                while i < list.len()
                    invariant
                        i <= list.len(),
                        copy@ == list@.take(i as int),
                    decreases list.len() - i,
                {
                    copy.push(list[i]);
                    proof {
                        assert(list@.take(i + 1) == list@.take(i as int).push(list@[i as int]));
                    }
                    i += 1;
                }
                proof {
                    assert(list@.take(i as int) == list@);
                }
                copy
            },
            None => Vec::new(),
        }
    }

    /// The user may act in this role: as an administrator, or by having the
    /// role in the organization.
    pub fn allowed(&self, organization: &u128, role: &Role) -> (res: bool)
        ensures
            res == (self.user.admin || self.roles_of(*organization).contains(*role)),
    {
        self.user.admin || self.has_role(organization, role)
    }

    /// The user has the role in the organization.
    pub fn has_role(&self, organization: &u128, role: &Role) -> (res: bool)
        ensures
            res == self.roles_of(*organization).contains(*role),
    {
        let roles = self.get_roles(organization);
        let mut i: usize = 0;
        while i < roles.len()
            invariant
                i <= roles.len(),
                roles@ == self.roles_of(*organization),
                forall|j: int| 0 <= j < i ==> roles@[j] != *role,
            decreases roles.len() - i,
        {
            if roles[i] == *role {
                proof {
                    assert(roles@[i as int] == *role);
                }
                return true;
            }
            i += 1;
        }
        false
    }

    /// The user is an administrator.
    pub fn is_admin(&self) -> (res: bool)
        ensures
            res == self.user.admin,
    {
        self.user.admin
    }
}

/// Why a password could not be hashed, or could not be held against a hash.
#[derive(Debug)]
pub enum PasswordError {
    /// `pbkdf2` could not hash the password under the salt
    Hashing(pbkdf2::password_hash::Error),
    /// The text is no hash that can be read
    Unreadable(pbkdf2::password_hash::Error),
}

/// The hash under which a password is stored, for a salt given as bytes: the
/// PBKDF2 hash of the password under the salt in B64, as a PHC string that was
/// read back and written once more. `None` where any of these steps fails.
pub open spec fn stored_hash(password: Seq<u8>, salt: Seq<u8>) -> Option<Seq<char>> {
    match pbkdf2_phc(password, b64_unpadded(salt)) {
        Some(hash) => phc_reencoded(hash),
        None => None,
    }
}

/// Takes a plain text password and the salt of this installation, and returns
/// the PBKDF2 hash of the password as a PHC string, or the step that failed.
///
/// The salt has at most [`MAX_SALT_BYTES`] bytes.
pub fn try_hash_password(password: &String, salt: &[u8]) -> (res: Result<String, PasswordError>)
    requires
        salt@.len() <= MAX_SALT_BYTES,
    ensures
        match pbkdf2_phc(encode_utf8(password@), b64_unpadded(salt@)) {
            Some(hash) => match phc_reencoded(hash) {
                Some(text) => res matches Ok(stored) && stored@ == text,
                None => res matches Err(PasswordError::Unreadable(_)),
            },
            None => res matches Err(PasswordError::Hashing(_)),
        },
{
    let salt_text = match encode_salt(salt) {
        Ok(text) => text,
        Err(_) => vstd::pervasive::unreached(),
    };
    match pbkdf2_hash(password.as_str().as_bytes(), salt_text.as_str()) {
        Ok(password_hash) => match phc_reencode(password_hash.as_str()) {
            Ok(text) => Ok(text),
            Err(e) => Err(PasswordError::Unreadable(e)),
        },
        Err(e) => Err(PasswordError::Hashing(e)),
    }
}

/// Takes a plain text password and the salt of this installation, and returns
/// the PBKDF2 hash of the password as a PHC string.
///
/// The salt has at most [`MAX_SALT_BYTES`] bytes.
pub fn hash_password(password: &String, salt: &[u8]) -> (res: Option<String>)
    requires
        salt@.len() <= MAX_SALT_BYTES,
    ensures
        match stored_hash(encode_utf8(password@), salt@) {
            Some(hash) => res matches Some(text) && text@ == hash,
            None => res is None,
        },
{
    match try_hash_password(password, salt) {
        Ok(text) => Some(text),
        Err(_) => None,
    }
}

/// Holds a plain text password against a PBKDF2 hash given as a PHC string:
/// whether they correspond to the same password, or an error for a text that
/// is no PHC string.
pub fn check_password(password: &String, hashed_password: &str) -> (res: Result<
    bool,
    PasswordError,
>)
    ensures
        match res {
            Ok(same) => phc_parses(hashed_password@) && same == pbkdf2_verifies(
                encode_utf8(password@),
                hashed_password@,
            ),
            Err(e) => !phc_parses(hashed_password@) && e is Unreadable,
        },
{
    match phc_parse(hashed_password) {
        Ok(_) => {},
        Err(e) => {
            return Err(PasswordError::Unreadable(e));
        },
    }
    match pbkdf2_verify(password.as_str().as_bytes(), hashed_password) {
        Ok(_) => Ok(true),
        Err(_) => Ok(false),
    }
}

/// Takes a plain text password and a PBKDF2 hash as a PHC string, and returns
/// true if they correspond to the same password. A text that is no PHC string
/// corresponds to no password.
pub fn verify_password(password: &String, hashed_password: &str) -> (res: bool)
    ensures
        res == (phc_parses(hashed_password@) && pbkdf2_verifies(
            encode_utf8(password@),
            hashed_password@,
        )),
{
    match check_password(password, hashed_password) {
        Ok(same) => same,
        Err(_) => false,
    }
}

} // verus!
