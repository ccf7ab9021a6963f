use axum_template::{
    AppError, AppState, CreateUser, IsWho, Permission, PermissionIn, Role, RoleIn, RolePermission,
    UpdateUser, UpdateUserOptions,
};

fn store_with_reference_data() -> AppState {
    let roles = vec![Role::new(1, "User"), Role::new(2, "Moderator"), Role::new(3, "Admin")];
    let names = [
        "READ",
        "WRITE",
        "DELETE",
        "MANAGE_PERMISSIONS",
        "MANAGE_USERS",
        "MANAGE_ROLES",
        "VIEW_REPORTS",
        "EDIT_SETTINGS",
        "UPDATE_USER_INFO",
        "UPDATE_USER_ROLES",
        "UPDATE_USER_PERMISSIONS",
    ];
    let mut permissions = Vec::new();
    let mut role_permissions = Vec::new();
    for (i, name) in names.iter().enumerate() {
        let id = i as i32 + 1;
        permissions.push(Permission::new(id, name));
        role_permissions.push(RolePermission { role_id: 3, permission_id: id });
    }
    for id in [1, 9] {
        role_permissions.push(RolePermission { role_id: 1, permission_id: id });
    }
    for id in [1, 2, 7, 11] {
        role_permissions.push(RolePermission { role_id: 2, permission_id: id });
    }
    AppState::new(roles, permissions, role_permissions)
}

fn store_with_three_users() -> AppState {
    let mut state = store_with_reference_data();
    for name in ["ann", "ben", "cat"] {
        state.insert_user(name, "digest".to_string(), 1).unwrap();
    }
    state
}

fn permission_ids(state: &AppState, user_id: i32) -> Vec<i32> {
    let mut ids: Vec<i32> =
        state.user_permissions.iter().filter(|m| m.user_id == user_id).map(|m| m.item_id).collect();
    ids.sort();
    ids
}

fn role_ids(state: &AppState, user_id: i32) -> Vec<i32> {
    let mut ids: Vec<i32> =
        state.user_roles.iter().filter(|m| m.user_id == user_id).map(|m| m.item_id).collect();
    ids.sort();
    ids
}

fn request(
    username: Option<&str>,
    roles: Option<Vec<i32>>,
    permissions: Option<Vec<i32>>,
    who: IsWho,
) -> UpdateUser {
    let options = UpdateUserOptions {
        username: username.map(|n| n.to_string()),
        password: None,
        roles: roles.map(|ids| ids.into_iter().map(|id| RoleIn { id, name: "role".to_string() }).collect()),
        permissions: permissions.map(|ids| {
            ids.into_iter().map(|id| PermissionIn { id, name: "permission".to_string() }).collect()
        }),
    };
    UpdateUser::new(options, who)
}

#[test]
fn second_reconciliation_writes_nothing() {
    let mut state = store_with_three_users();
    state.update_roles_at(vec![2], 1, 10).unwrap();
    state.update_permissions_at(vec![2, 7], 1, 20).unwrap();
    assert_eq!(permission_ids(&state, 1), vec![2, 7]);
    let rows = state.user_permissions.clone();
    state.update_permissions_at(vec![2, 7], 1, 30).unwrap();
    assert_eq!(state.user_permissions, rows);
    state.update_permissions_at(vec![7, 2, 7], 1, 40).unwrap();
    assert_eq!(state.user_permissions, rows);
}

#[test]
fn reconciliation_writes_only_the_difference() {
    let mut state = store_with_three_users();
    state.update_roles_at(vec![2], 1, 10).unwrap();
    assert_eq!(permission_ids(&state, 1), vec![1, 2, 7, 11]);
    state.update_permissions_at(vec![1, 2], 1, 20).unwrap();
    assert_eq!(permission_ids(&state, 1), vec![1, 2]);
    let kept = state.user_permissions.iter().find(|m| m.user_id == 1 && m.item_id == 1).unwrap();
    assert_eq!((kept.created_at, kept.updated_at), (1, 1));
    state.update_permissions_at(vec![1, 2, 11], 1, 30).unwrap();
    let added = state.user_permissions.iter().find(|m| m.user_id == 1 && m.item_id == 11).unwrap();
    assert_eq!((added.created_at, added.updated_at), (30, 30));
    let kept = state.user_permissions.iter().find(|m| m.user_id == 1 && m.item_id == 2).unwrap();
    assert_eq!((kept.created_at, kept.updated_at), (10, 10));
    assert_eq!(permission_ids(&state, 2), vec![1, 9]);
}

#[test]
fn permission_outside_the_roles_is_a_bad_request() {
    let mut state = store_with_three_users();
    let rows = state.user_permissions.clone();
    let r = state.update_permissions_at(vec![1, 3], 1, 20);
    assert!(matches!(r, Err(AppError::BadRequest(_))));
    assert_eq!(state.user_permissions, rows);
    match state.update_permissions(vec![3], 1) {
        Err(e) => assert_eq!(e.message(), "bad request: Permission: 3 is not valid for user: 1"),
        Ok(_) => panic!("permission 3 is outside the roles of user 1"),
    }
    assert!(matches!(state.update_permissions(vec![1], 99), Err(AppError::BadRequest(_))));
    assert_eq!(state.update_permissions(vec![], 99), Ok(()));
}

#[test]
fn permissions_after_role_reconciliation_are_covered_by_the_roles() {
    let mut state = store_with_three_users();
    state.update_roles_at(vec![1, 2], 1, 10).unwrap();
    assert_eq!(role_ids(&state, 1), vec![1, 2]);
    assert_eq!(permission_ids(&state, 1), vec![1, 2, 7, 9, 11]);
    state.update_permissions_at(vec![2], 1, 20).unwrap();
    state.update_roles_at(vec![1], 1, 30).unwrap();
    assert_eq!(role_ids(&state, 1), vec![1]);
    assert_eq!(permission_ids(&state, 1), vec![1, 9]);
    state.update_roles_at(vec![], 1, 40).unwrap();
    assert_eq!(role_ids(&state, 1), Vec::<i32>::new());
    assert_eq!(permission_ids(&state, 1), Vec::<i32>::new());
    assert_eq!(role_ids(&state, 2), vec![1]);
    assert_eq!(permission_ids(&state, 2), vec![1, 9]);
}

#[test]
fn stranger_is_forbidden() {
    let mut state = store_with_three_users();
    let who = IsWho::new(false, false, false);
    let r = state.update_user(1, request(Some("renamed"), None, None, who));
    assert_eq!(r.err(), Some(AppError::Forbidden("Permission denied".to_string())));
    let r = state.update_user(99, request(Some("renamed"), None, None, who));
    assert!(matches!(r, Err(AppError::Forbidden(_))));
    assert_eq!(state.get_user_by_id(1).unwrap().user_info.username, "ann");
}

#[test]
fn own_user_changes_name_and_password_only() {
    let mut state = store_with_three_users();
    let who = IsWho::new(true, true, true);
    let options = UpdateUserOptions {
        username: Some("ann2".to_string()),
        password: Some("fresh-secret".to_string()),
        roles: Some(vec![RoleIn { id: 3, name: "Admin".to_string() }]),
        permissions: Some(vec![PermissionIn { id: 1, name: "READ".to_string() }]),
    };
    let user = state.update_user(1, UpdateUser::new(options, who)).unwrap();
    assert_eq!(user.user_info.username, "ann2");
    assert_eq!(user.user_info.password, "");
    assert_eq!(role_ids(&state, 1), vec![1]);
    assert_eq!(permission_ids(&state, 1), vec![1, 9]);
    assert!(state.verify_user("ann2", "fresh-secret").is_ok());
    let r = state.update_user(1, request(Some("ben"), None, None, who));
    assert!(matches!(r, Err(AppError::DatabaseError(_))));
    let user = state.update_user(1, request(None, None, None, who)).unwrap();
    assert_eq!(user.user_info.username, "ann2");
    assert!(state.verify_user("ann2", "fresh-secret").is_ok());
}

#[test]
fn moderator_changes_permissions_only() {
    let mut state = store_with_three_users();
    let who = IsWho::new(false, true, false);
    let user = state.update_user(2, request(Some("renamed"), Some(vec![3]), Some(vec![9]), who)).unwrap();
    assert_eq!(user.user_info.username, "ben");
    assert_eq!(role_ids(&state, 2), vec![1]);
    assert_eq!(permission_ids(&state, 2), vec![9]);
    let r = state.update_user(2, request(None, None, Some(vec![5]), who));
    assert_eq!(r.err(), Some(AppError::BadRequest("Permission: 5 is not valid for user: 2".to_string())));
    assert_eq!(permission_ids(&state, 2), vec![9]);
    let r = state.update_user(2, request(None, None, Some(vec![5]), who));
    assert!(matches!(r, Err(AppError::BadRequest(_))));
    let r = state.update_user(99, request(None, None, None, who));
    assert!(matches!(r, Err(AppError::NotFound(_))));
}

#[test]
fn admin_changes_roles_and_permissions() {
    let mut state = store_with_three_users();
    let who = IsWho::new(false, false, true);
    let user = state.update_user(3, request(Some("renamed"), Some(vec![2]), Some(vec![2, 7]), who)).unwrap();
    assert_eq!(user.user_info.username, "cat");
    let roles: Vec<i32> = user.roles.iter().map(|r| r.id).collect();
    assert_eq!(roles, vec![2]);
    let permissions: Vec<i32> = user.permissions.iter().map(|p| p.id).collect();
    assert_eq!(permissions, vec![2, 7]);
    let r = state.update_user(3, request(None, Some(vec![1]), Some(vec![2]), who));
    assert!(matches!(r, Err(AppError::BadRequest(_))));
    assert_eq!(role_ids(&state, 3), vec![1]);
    assert_eq!(permission_ids(&state, 3), vec![1, 9]);
    let both = IsWho::new(false, true, true);
    state.update_user(2, request(Some("renamed"), Some(vec![3]), Some(vec![1, 4]), both)).unwrap();
    assert_eq!(role_ids(&state, 2), vec![3]);
    assert_eq!(permission_ids(&state, 2), vec![1, 4]);
    assert_eq!(state.get_user_by_id(2).unwrap().user_info.username, "ben");
    let user = state.update_user(2, request(None, Some(vec![2, 3]), None, who)).unwrap();
    assert_eq!(user.permissions.len(), 11);
}

#[test]
fn second_page_of_one() {
    let state = store_with_three_users();
    let page = state.get_users(1, 1).unwrap();
    assert_eq!(page.users.len(), 1);
    assert_eq!(page.users[0].user_info.username, "ben");
    assert_eq!(page.total_count, 3);
}

#[test]
fn signup_then_sign_in() {
    let mut state = store_with_reference_data();
    state.create_user(CreateUser::new("alice", "secret")).unwrap();
    let user = state.verify_user("alice", "secret").unwrap();
    assert_eq!(user.user_info.username, "alice");
    assert_eq!(
        state.verify_user("alice", "wrong").err(),
        Some(AppError::Unauthorized("Invalid password".to_string()))
    );
    assert!(matches!(state.verify_user("nobody", "secret"), Err(AppError::NotFound(_))));
}

#[test]
fn malformed_stored_digest_is_a_hash_error() {
    let state = store_with_three_users();
    assert!(matches!(state.verify_user("ann", "secret"), Err(AppError::PasswordHashError(_))));
}

#[test]
fn deletion_cascades() {
    let mut state = store_with_three_users();
    state.update_roles_at(vec![1, 2], 2, 10).unwrap();
    state.delete_user(2).unwrap();
    assert!(matches!(state.get_user_by_id(2), Err(AppError::NotFound(_))));
    assert!(state.user_roles.iter().all(|m| m.user_id != 2));
    assert!(state.user_permissions.iter().all(|m| m.user_id != 2));
    assert_eq!(role_ids(&state, 1), vec![1]);
    assert_eq!(permission_ids(&state, 3), vec![1, 9]);
    assert_eq!(state.get_users(10, 0).unwrap().total_count, 2);
    assert!(matches!(state.delete_user(2), Err(AppError::NotFound(_))));
    let next = state.insert_user("dan", "digest".to_string(), 20).unwrap();
    assert_eq!(next.user_info.id, 4);
}

#[test]
fn duplicate_signup_is_refused() {
    let mut state = store_with_reference_data();
    assert!(state.create_user(CreateUser::new("alice", "secret")).is_ok());
    let second = state.create_user(CreateUser::new("alice", "other-secret"));
    assert!(matches!(second, Err(AppError::UserExisted(_))));
    assert_eq!(state.users.len(), 1);
    match state.insert_user("alice", "digest".to_string(), 1) {
        Err(e) => assert_eq!(e.message(), "user existed: User: alice already exists"),
        Ok(_) => panic!("alice has signed up already"),
    }
}
