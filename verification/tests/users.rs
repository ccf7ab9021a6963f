use axum_template::{
    AppError, AppState, CreateUser, IsWho, Permission, Role, RolePermission, UpdateUser,
    UpdateUserOptions,
};

fn reference_data() -> AppState {
    let roles = vec![Role::new(1, "User"), Role::new(2, "Moderator"), Role::new(3, "Admin")];
    let names = [
        "READ",
        "WRITE",
        "DELETE",
        "MANAGE_PERMISSIONS",
        "MANAGE_USERS",
        "MANAGE_ROLES",
        "VIEW_REPORTS",
        "EDIT_SETTINGS",
        "UPDATE_USER_INFO",
        "UPDATE_USER_ROLES",
        "UPDATE_USER_PERMISSIONS",
    ];
    let mut permissions = Vec::new();
    let mut role_permissions = Vec::new();
    for (i, name) in names.iter().enumerate() {
        let id = i as i32 + 1;
        permissions.push(Permission::new(id, name));
        role_permissions.push(RolePermission { role_id: 3, permission_id: id });
    }
    for id in [1, 9] {
        role_permissions.push(RolePermission { role_id: 1, permission_id: id });
    }
    for id in [1, 2, 7, 11] {
        role_permissions.push(RolePermission { role_id: 2, permission_id: id });
    }
    AppState::new(roles, permissions, role_permissions)
}

/// Eleven users; `alice` signed up with the password `123456`.
fn test_state() -> AppState {
    let mut state = reference_data();
    state.insert_user("superman", "digest".to_string(), 1).unwrap();
    state.create_user(CreateUser::new("alice", "123456")).unwrap();
    for name in ["bob", "charlie", "dave", "eve", "frank", "grace", "heidi", "ivan", "judy"] {
        state.insert_user(name, "digest".to_string(), 1).unwrap();
    }
    state
}

#[test]
fn create_user_test() {
    let mut state = test_state();
    let user = CreateUser::new("alice1", "alice_password");
    let user = state.create_user(user).unwrap();
    assert_eq!(user.user_info.username, "alice1");
}

#[test]
fn delete_user_test() {
    let mut state = test_state();
    let user = CreateUser::new("bob1", "bob_password");
    let user = state.create_user(user).unwrap();
    state.delete_user(user.user_info.id).unwrap();
}

#[test]
fn update_user_test() {
    let mut state = test_state();
    let user = CreateUser::new("charlie1", "charlie_password");
    let user = state.create_user(user).unwrap();
    let is_who = IsWho { is_own_user: true, is_moderator: false, is_admin: false };
    let user_options = UpdateUserOptions {
        username: Some("charlie_updated".to_string()),
        password: Some("charlie_password_updated".to_string()),
        roles: None,
        permissions: None,
    };
    let updated_user = UpdateUser::new(user_options, is_who);
    let updated_user = state.update_user(user.user_info.id, updated_user).unwrap();
    assert_eq!(updated_user.user_info.username, "charlie_updated");
}

#[test]
fn get_users_test() {
    let state = test_state();
    let ret = state.get_users(2, 0).unwrap();
    assert_eq!(ret.users.len(), 2);
    let ret = state.get_users(1, 1).unwrap();
    assert_eq!(ret.users.len(), 1);
    assert_eq!(ret.total_count, 11);
}

#[test]
fn get_user_by_id_test() {
    let mut state = test_state();
    let user = CreateUser::new("mike", "mike_password");
    let user = state.create_user(user).unwrap();
    let user = state.get_user_by_id(user.user_info.id).unwrap();
    assert_eq!(user.user_info.username, "mike");
}

#[test]
fn verify_user_test() {
    let state = test_state();
    let user = state.verify_user("alice", "123456").unwrap();
    assert_eq!(user.user_info.username, "alice");
}

#[test]
fn tests_verify_user_test() {
    let mut state = test_state();
    let user = CreateUser::new("nancy", "nancy_password");
    let user = state.create_user(user).unwrap();
    let user = state.verify_user(&user.user_info.username, "nancy_password").unwrap();
    assert_eq!(user.user_info.username, "nancy");
}

#[test]
fn signup_gives_the_default_role_and_its_permissions() {
    let mut state = reference_data();
    let user = state.insert_user("zoe", "digest".to_string(), 42).unwrap();
    assert_eq!(user.user_info.id, 1);
    assert_eq!(user.user_info.created_at, 42);
    assert_eq!(user.user_info.updated_at, 42);
    assert_eq!(user.user_info.password, "digest");
    let roles: Vec<i32> = user.roles.iter().map(|r| r.id).collect();
    assert_eq!(roles, vec![1]);
    let permissions: Vec<i32> = user.permissions.iter().map(|p| p.id).collect();
    assert_eq!(permissions, vec![1, 9]);
    assert_eq!(state.next_user_id, 2);
    let second = state.insert_user("yan", "digest".to_string(), 43).unwrap();
    assert_eq!(second.user_info.id, 2);
}

#[test]
fn lookups_by_username() {
    let state = test_state();
    let shown = state.get_user_by_username("alice").unwrap();
    assert_eq!(shown.user_info.id, 2);
    assert_eq!(shown.user_info.password, "");
    let checked = state.verify_user_by_username("alice").unwrap();
    assert!(checked.user_info.password.starts_with("$argon2"));
    assert!(matches!(state.get_user_by_username("nobody"), Err(AppError::NotFound(_))));
    assert!(matches!(state.verify_user_by_username("nobody"), Err(AppError::NotFound(_))));
    assert_eq!(state.is_user_exists_by_username("alice"), Ok(true));
    assert_eq!(state.is_user_exists_by_username("nobody"), Ok(false));
    assert_eq!(state.is_user_exists_by_id(11), Ok(true));
    assert_eq!(state.is_user_exists_by_id(12), Ok(false));
}

#[test]
fn missing_id_is_not_found() {
    let mut state = test_state();
    assert!(matches!(state.get_user_by_id(99), Err(AppError::NotFound(_))));
    assert!(matches!(state.delete_user(99), Err(AppError::NotFound(_))));
    assert!(matches!(state.update_roles_at(vec![2], 99, 5), Err(AppError::NotFound(_))));
    match state.get_user_by_id(99) {
        Err(e) => assert_eq!(e.message(), "not found: User: 99 not found"),
        Ok(_) => panic!("user 99 does not exist"),
    }
    match state.delete_user(-7) {
        Err(e) => assert_eq!(e.message(), "not found: User with id -7 not found"),
        Ok(_) => panic!("user -7 does not exist"),
    }
    match state.get_user_by_username("nobody") {
        Err(e) => assert_eq!(e.message(), "not found: User: nobody not found"),
        Ok(_) => panic!("nobody has not signed up"),
    }
}

#[test]
fn listing_windows() {
    let state = test_state();
    let page = state.get_users(100, 0).unwrap();
    assert_eq!(page.users.len(), 11);
    assert_eq!(page.users[0].user_info.username, "superman");
    assert_eq!(page.users[10].user_info.username, "judy");
    assert_eq!(page.users[1].user_info.password, "");
    let page = state.get_users(3, 9).unwrap();
    let ids: Vec<i32> = page.users.iter().map(|u| u.user_info.id).collect();
    assert_eq!(ids, vec![10, 11]);
    let page = state.get_users(5, 11).unwrap();
    assert_eq!(page.users.len(), 0);
    assert_eq!(page.total_count, 11);
    let page = state.get_users(0, 0).unwrap();
    assert_eq!(page.users.len(), 0);
    assert!(matches!(state.get_users(-1, 0), Err(AppError::DatabaseError(_))));
    assert!(matches!(state.get_users(1, -1), Err(AppError::DatabaseError(_))));
}

#[test]
fn restore_keeps_ids_ascending() {
    let mut state = reference_data();
    let info = axum_template::UserInfo::new("old", "digest");
    let info = axum_template::UserInfo { id: 7, ..info };
    state.restore_user(info, &vec![2, 3], &vec![1, 2], 9).unwrap();
    let user = state.get_user_by_id(7).unwrap();
    let roles: Vec<i32> = user.roles.iter().map(|r| r.id).collect();
    assert_eq!(roles, vec![2, 3]);
    let permissions: Vec<i32> = user.permissions.iter().map(|p| p.id).collect();
    assert_eq!(permissions, vec![1, 2]);
    assert_eq!(state.next_user_id, 8);
    let low = axum_template::UserInfo { id: 7, ..axum_template::UserInfo::new("low", "d") };
    assert!(matches!(state.restore_user(low, &vec![], &vec![], 9), Err(AppError::DatabaseError(_))));
    let dup = axum_template::UserInfo { id: 8, ..axum_template::UserInfo::new("old", "d") };
    assert!(matches!(state.restore_user(dup, &vec![], &vec![], 9), Err(AppError::UserExisted(_))));
    let next = state.insert_user("new", "digest".to_string(), 10).unwrap();
    assert_eq!(next.user_info.id, 8);
}

#[test]
fn own_row_update() {
    let mut state = test_state();
    let user = state.update_user_info(3, Some("bobby".to_string()), Some("fresh".to_string()), 77).unwrap();
    assert_eq!(user.user_info.username, "bobby");
    assert_eq!(user.user_info.password, "");
    assert_eq!(user.user_info.created_at, 1);
    assert_eq!(user.user_info.updated_at, 77);
    let stored = state.get_user_by_id(3).unwrap();
    assert_eq!(stored.user_info.password, "fresh");
    let user = state.update_user_info(3, None, None, 78).unwrap();
    assert_eq!(user.user_info.username, "bobby");
    assert_eq!(state.get_user_by_id(3).unwrap().user_info.password, "fresh");
    let same = state.update_user_info(3, Some("bobby".to_string()), None, 79);
    assert!(same.is_ok());
    match state.update_user_info(3, Some("alice".to_string()), None, 80) {
        Err(e) => assert_eq!(e, AppError::DatabaseError("username is taken by another user".to_string())),
        Ok(_) => panic!("alice is the name of user 2"),
    }
    assert_eq!(state.get_user_by_id(3).unwrap().user_info.updated_at, 79);
    assert!(matches!(state.update_user_info(99, None, None, 81), Err(AppError::NotFound(_))));
}

#[test]
fn error_texts() {
    assert_eq!(AppError::user_id_not_found(5), AppError::NotFound("User with id 5 not found".to_string()));
    assert_eq!(AppError::user_not_found(5), AppError::NotFound("User: 5 not found".to_string()));
    assert_eq!(AppError::username_not_found("al"), AppError::NotFound("User: al not found".to_string()));
    assert_eq!(AppError::username_taken("al"), AppError::UserExisted("User: al already exists".to_string()));
    assert_eq!(
        AppError::permission_refused(3, 12),
        AppError::BadRequest("Permission: 3 is not valid for user: 12".to_string())
    );
}
