use oclus_server::account::{create_user, CreateUserRequest};
use oclus_server::error::ErrorDto;
use oclus_server::group::{create_group, delete_group, get_group_public, update_group, CreateGroupRequest, GroupStore, UpdateGroupRequest};
use oclus_server::middleware::AuthStatus;
use oclus_server::store::AuthStore;

fn store_with_user() -> (AuthStore, i64) {
    let mut store = AuthStore::new();
    let dto = create_user(
        &mut store,
        CreateUserRequest {
            email: "a@example.com".to_string(),
            username: "alice".to_string(),
            password: "P@ssword1234".to_string(),
        },
        1_000,
    )
    .expect("creation should succeed");
    (store, dto.id)
}

#[test]
fn test_create_group_requires_identity() {
    let (users, _uid) = store_with_user();
    let mut groups = GroupStore::new();
    let r = create_group(
        &mut groups,
        &users,
        &None,
        CreateGroupRequest { name: "readers".to_string() },
        1_100,
    );
    assert_eq!(r.unwrap_err(), ErrorDto::InvalidCredentials);
}

#[test]
fn test_create_group_checks_owner() {
    let (users, uid) = store_with_user();
    let mut groups = GroupStore::new();

    // a vanished owner is reported as not found
    let ghostly = Some(AuthStatus { user_id: uid + 9, strong: false });
    let r = create_group(
        &mut groups,
        &users,
        &ghostly,
        CreateGroupRequest { name: "readers".to_string() },
        1_100,
    );
    assert_eq!(r.unwrap_err(), ErrorDto::NotFound);

    // an existing owner creates the group
    let weak = Some(AuthStatus { user_id: uid, strong: false });
    let group = create_group(
        &mut groups,
        &users,
        &weak,
        CreateGroupRequest { name: "readers".to_string() },
        1_100,
    )
    .unwrap();
    assert_eq!(group.name, "readers");
    assert_eq!(group.owner_id, uid);
    assert_eq!(group.created_on, 1_100);
}

#[test]
fn test_group_read_update_delete() {
    let (users, uid) = store_with_user();
    let mut groups = GroupStore::new();
    let weak = Some(AuthStatus { user_id: uid, strong: false });
    let strong = Some(AuthStatus { user_id: uid, strong: true });

    let group = create_group(
        &mut groups,
        &users,
        &weak,
        CreateGroupRequest { name: "readers".to_string() },
        1_100,
    )
    .unwrap();

    // public read needs an identity
    assert_eq!(get_group_public(&groups, &None, group.id), Err(ErrorDto::InvalidCredentials));
    assert_eq!(get_group_public(&groups, &weak, group.id).unwrap().name, "readers");
    assert_eq!(get_group_public(&groups, &weak, group.id + 7), Err(ErrorDto::NotFound));

    // rename, keeping fields that were left out
    let updated = update_group(
        &mut groups,
        &weak,
        group.id,
        UpdateGroupRequest { name: Some("writers".to_string()) },
    )
    .unwrap();
    assert_eq!(updated.name, "writers");
    assert_eq!(updated.owner_id, uid);
    let unchanged = update_group(&mut groups, &weak, group.id, UpdateGroupRequest { name: None })
        .unwrap();
    assert_eq!(unchanged.name, "writers");

    // deletion needs the strong tier
    assert_eq!(delete_group(&mut groups, &weak, group.id), Err(ErrorDto::InvalidCredentials));
    assert_eq!(get_group_public(&groups, &weak, group.id).unwrap().name, "writers");
    assert_eq!(delete_group(&mut groups, &strong, group.id), Ok(()));
    assert_eq!(get_group_public(&groups, &weak, group.id), Err(ErrorDto::NotFound));
    assert_eq!(delete_group(&mut groups, &strong, group.id), Err(ErrorDto::NotFound));
}
