use std::collections::hash_map::DefaultHasher;
use std::hash::{Hash, Hasher};
use tlms::management::user::{
    check_password, hash_password, try_hash_password, verify_password, AuthorizedUser,
    OrgUsersRelation, Organization, PasswordError, Role, User, COMMUNITY_ORG_ID,
};

const ROLES: [Role; 9] = [
    Role::EditOrganizationStations,
    Role::CreateOrganizationStations,
    Role::DeleteOrganizationStations,
    Role::EditMaintainedStations,
    Role::CreateMaintainedStations,
    Role::DeleteMaintainedStations,
    Role::EditOrgUserRoles,
    Role::EditOwnOrganization,
    Role::ApproveStations,
];

const ORG_A: u128 = 0xaaaa_0000_0000_0000_0000_0000_0000_0001;
const ORG_B: u128 = 0xbbbb_0000_0000_0000_0000_0000_0000_0002;
const ORG_C: u128 = 0xcccc_0000_0000_0000_0000_0000_0000_0003;

fn user(admin: bool) -> User {
    User {
        id: 42,
        name: Some(String::from("Ada")),
        email: None,
        password: String::from("$pbkdf2-sha256$..."),
        email_setting: Some(1),
        deactivated: false,
        admin,
    }
}

fn relation(id: u128, organization: u128, role: Role) -> OrgUsersRelation {
    OrgUsersRelation { id, organization, user_id: 42, role }
}

fn authorized(admin: bool) -> AuthorizedUser {
    AuthorizedUser::from_postgres(
        Some(user(admin)),
        vec![
            relation(1, ORG_A, Role::EditOwnOrganization),
            relation(2, ORG_B, Role::ApproveStations),
            relation(3, ORG_A, Role::EditOrgUserRoles),
            relation(4, ORG_A, Role::EditOwnOrganization),
        ],
    )
    .unwrap()
}

#[test]
fn roles_are_read_from_their_numbers() {
    for (number, role) in ROLES.iter().enumerate() {
        assert_eq!(Role::try_from(number as i32), Ok(*role));
    }
}

#[test]
fn roles_are_written_as_their_numbers() {
    for (number, role) in ROLES.iter().enumerate() {
        assert_eq!(i32::from(*role), number as i32);
        let into: i32 = (*role).into();
        assert_eq!(into, number as i32);
    }
}

#[test]
fn a_number_without_a_role_is_refused() {
    for number in [-1, 9, 10, i32::MIN, i32::MAX] {
        assert_eq!(Role::try_from(number), Err("No role corresponding to {role} value!"));
    }
}

#[test]
fn a_role_survives_the_way_through_its_number() {
    for role in ROLES {
        assert_eq!(Role::try_from(i32::from(role)), Ok(role));
    }
    for number in 0..9 {
        assert_eq!(i32::from(Role::try_from(number).unwrap()), number);
    }
}

#[test]
fn equal_roles_hash_alike() {
    let hash = |role: Role| {
        let mut hasher = DefaultHasher::new();
        role.hash(&mut hasher);
        hasher.finish()
    };
    for role in ROLES {
        assert_eq!(hash(role), hash(role));
    }
    assert_ne!(hash(Role::ApproveStations), hash(Role::EditOwnOrganization));
}

#[test]
fn no_user_no_authorization() {
    assert!(AuthorizedUser::from_postgres(None, Vec::new()).is_none());
    let relations = vec![relation(1, ORG_A, Role::ApproveStations)];
    assert!(AuthorizedUser::from_postgres(None, relations).is_none());
}

#[test]
fn a_user_without_associations_has_no_roles() {
    let authorized = AuthorizedUser::from_postgres(Some(user(false)), Vec::new()).unwrap();
    assert!(authorized.roles.is_empty());
    assert_eq!(authorized.get_roles(&ORG_A), Vec::new());
    assert_eq!(authorized.user.id, 42);
    assert_eq!(authorized.user.name.as_deref(), Some("Ada"));
}

#[test]
fn roles_are_grouped_by_organization_in_their_order() {
    let authorized = authorized(false);
    assert_eq!(authorized.roles.len(), 2);
    assert_eq!(
        authorized.roles[&ORG_A],
        vec![Role::EditOwnOrganization, Role::EditOrgUserRoles, Role::EditOwnOrganization]
    );
    assert_eq!(authorized.roles[&ORG_B], vec![Role::ApproveStations]);
    assert!(!authorized.roles.contains_key(&ORG_C));
}

#[test]
fn get_roles_copies_the_entry() {
    let authorized = authorized(false);
    assert_eq!(
        authorized.get_roles(&ORG_A),
        vec![Role::EditOwnOrganization, Role::EditOrgUserRoles, Role::EditOwnOrganization]
    );
    assert_eq!(authorized.get_roles(&ORG_B), vec![Role::ApproveStations]);
    assert_eq!(authorized.get_roles(&ORG_C), Vec::new());
    assert_eq!(authorized.get_roles(&COMMUNITY_ORG_ID), Vec::new());
}

#[test]
fn has_role_looks_in_the_organization_only() {
    let authorized = authorized(false);
    assert!(authorized.has_role(&ORG_A, &Role::EditOrgUserRoles));
    assert!(authorized.has_role(&ORG_A, &Role::EditOwnOrganization));
    assert!(!authorized.has_role(&ORG_A, &Role::ApproveStations));
    assert!(authorized.has_role(&ORG_B, &Role::ApproveStations));
    assert!(!authorized.has_role(&ORG_B, &Role::EditOrgUserRoles));
    assert!(!authorized.has_role(&ORG_C, &Role::ApproveStations));
}

#[test]
fn an_administrator_is_allowed_everything() {
    let admin = authorized(true);
    assert!(admin.is_admin());
    for role in ROLES {
        assert!(admin.allowed(&ORG_A, &role));
        assert!(admin.allowed(&ORG_C, &role));
    }
    assert!(!admin.has_role(&ORG_C, &Role::ApproveStations));
}

#[test]
fn another_user_is_allowed_what_the_roles_allow() {
    let plain = authorized(false);
    assert!(!plain.is_admin());
    for role in ROLES {
        assert_eq!(plain.allowed(&ORG_A, &role), plain.has_role(&ORG_A, &role));
        assert!(!plain.allowed(&ORG_C, &role));
    }
    assert!(plain.allowed(&ORG_B, &Role::ApproveStations));
    assert!(!plain.allowed(&ORG_B, &Role::DeleteMaintainedStations));
}

#[test]
fn the_community_organization_keeps_its_identifier() {
    assert_eq!(COMMUNITY_ORG_ID, 0x53e643d7_c300_4de7_ab48_540d08a0cbc6);
    let community = Organization {
        id: COMMUNITY_ORG_ID,
        name: String::from("community"),
        public: true,
        owner: 42,
        deactivated: false,
    };
    assert_eq!(community.clone().id, COMMUNITY_ORG_ID);
}

#[test]
fn a_password_hashes_to_its_phc_string() {
    let hash = hash_password(&String::from("hunter2"), b"0123456789abcdef");
    assert_eq!(
        hash.as_deref(),
        Some(
            "$pbkdf2-sha256$i=10000,l=32$MDEyMzQ1Njc4OWFiY2RlZg$XV63uRH3+zky8O+EPkxs1/g/ERMHARqzto/fRpgt2AM"
        )
    );
    let hash = hash_password(&String::from("correct horse"), b"abc");
    assert_eq!(
        hash.as_deref(),
        Some("$pbkdf2-sha256$i=10000,l=32$YWJj$zQuU20bnqUPxpQ2smMFyqOcKobN7P9T6bm0qOgaYyuk")
    );
}

#[test]
fn the_longest_salt_is_taken() {
    let salt: Vec<u8> = (0..48).collect();
    let hash = hash_password(&String::from("pässword"), &salt);
    assert_eq!(
        hash.as_deref(),
        Some(
            "$pbkdf2-sha256$i=10000,l=32$AAECAwQFBgcICQoLDA0ODxAREhMUFRYXGBkaGxwdHh8gISIjJCUmJygpKissLS4v$K8nPx0/Yj8bNMUjJTlNplL2TE09dk36BimrLP8+h/zU"
        )
    );
}

#[test]
fn a_salt_that_is_too_short_gives_no_hash() {
    assert_eq!(hash_password(&String::from("hunter2"), b""), None);
    assert_eq!(hash_password(&String::from("hunter2"), b"ab"), None);
}

#[test]
fn a_password_verifies_against_its_hash() {
    let password = String::from("hunter2");
    let hash = hash_password(&password, b"0123456789abcdef").unwrap();
    assert!(verify_password(&password, &hash));
    assert!(!verify_password(&String::from("hunter3"), &hash));
    assert!(!verify_password(&String::new(), &hash));
}

#[test]
fn a_password_verifies_against_a_hash_with_other_parameters() {
    // PBKDF2-SHA256 of "password" under the salt "salt", one round, 20 bytes
    let hash = "$pbkdf2-sha256$i=1,l=20$c2FsdA$Eg+2z/z4syxD5yJSVsT4N6hlSMk";
    assert!(verify_password(&String::from("password"), hash));
    assert!(!verify_password(&String::from("Password"), hash));
}

#[test]
fn a_text_that_is_no_hash_verifies_nothing() {
    let password = String::from("hunter2");
    for text in ["", "hunter2", "$", "$pbkdf2-sha256", "$pbkdf2-sha256$i=10000,l=32$MDEy$%%%", "$argon2id$v=19$m=16,t=2,p=1$c2FsdHNhbHQ$3IhAkZB9UCPolSJzTgJK1Q"] {
        assert!(!verify_password(&password, text), "{text:?}");
    }
}

#[test]
fn a_failed_hash_names_the_step_that_failed() {
    let password = String::from("hunter2");
    assert!(matches!(try_hash_password(&password, b"ab"), Err(PasswordError::Hashing(_))));
    assert!(matches!(try_hash_password(&password, b""), Err(PasswordError::Hashing(_))));
    let hash = try_hash_password(&password, b"0123456789abcdef").unwrap();
    assert_eq!(Some(hash), hash_password(&password, b"0123456789abcdef"));
}

#[test]
fn a_text_that_is_no_hash_cannot_be_checked() {
    let password = String::from("hunter2");
    for text in ["", "hunter2", "$", "$pbkdf2-sha256$i=10000,l=32$MDEy$%%%"] {
        assert!(
            matches!(check_password(&password, text), Err(PasswordError::Unreadable(_))),
            "{text:?}"
        );
        assert!(!verify_password(&password, text));
    }
}

#[test]
fn a_hash_that_can_be_read_is_checked() {
    let password = String::from("hunter2");
    let hash = hash_password(&password, b"0123456789abcdef").unwrap();
    assert!(matches!(check_password(&password, &hash), Ok(true)));
    assert!(matches!(check_password(&String::from("hunter3"), &hash), Ok(false)));
    // a hash of another algorithm can be read, and matches nothing
    let other = "$argon2id$v=19$m=16,t=2,p=1$c2FsdHNhbHQ$3IhAkZB9UCPolSJzTgJK1Q";
    assert!(matches!(check_password(&password, other), Ok(false)));
}
