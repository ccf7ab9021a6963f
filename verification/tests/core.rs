use axum_template::bearer::{bearer_token, HeaderRejection};
use axum_template::links::{find_link, items_of_user, link, link_all, unlink, unlink_all};
use axum_template::reconcile::{contains_id, difference, find_outside, plan_change};
use axum_template::store::granted_by;
use axum_template::{
    AppError, AppState, DatabaseStatus, IsWho, Membership, PaginationParams, Permission,
    PermissionIn, PermissionName, Role, RoleIn, RoleName, RolePermission, TokenRequest,
    TokenResponse, User, UserInfo, VecExtensions,
};

#[test]
fn role_names_round_trip() {
    for role in [RoleName::Admin, RoleName::Moderator, RoleName::User] {
        assert_eq!(RoleName::from_str(role.as_str()), Some(role));
        let text: &str = role.as_ref();
        assert_eq!(text, role.as_str());
    }
    let text: &str = RoleName::Moderator.as_ref();
    assert_eq!(text, "Moderator");
    assert_eq!(RoleName::from_str("Admin"), Some(RoleName::Admin));
    assert_eq!(RoleName::from_str("Moderator"), Some(RoleName::Moderator));
    assert_eq!(RoleName::from_str("User"), Some(RoleName::User));
    assert_eq!(RoleName::from_str("admin"), None);
    assert_eq!(RoleName::from_str(""), None);
}

#[test]
fn permission_names_round_trip() {
    let all = [
        (PermissionName::Read, "READ"),
        (PermissionName::Write, "WRITE"),
        (PermissionName::Delete, "DELETE"),
        (PermissionName::ManagePermissions, "MANAGE_PERMISSIONS"),
        (PermissionName::ManageUsers, "MANAGE_USERS"),
        (PermissionName::ManageRoles, "MANAGE_ROLES"),
        (PermissionName::ViewReports, "VIEW_REPORTS"),
        (PermissionName::EditSettings, "EDIT_SETTINGS"),
        (PermissionName::UpdateUserInfo, "UPDATE_USER_INFO"),
        (PermissionName::UpdateUserRoles, "UPDATE_USER_ROLES"),
        (PermissionName::UpdateUserPermissions, "UPDATE_USER_PERMISSIONS"),
    ];
    for (permission, text) in all {
        assert_eq!(permission.as_str(), text);
        let shown: &str = permission.as_ref();
        assert_eq!(shown, text);
        assert_eq!(PermissionName::from_str(text), Some(permission));
    }
    assert_eq!(PermissionName::from_str("read"), None);
    assert_eq!(PermissionName::from_str("MANAGE"), None);
}

#[test]
fn lists_of_records() {
    let roles = vec![Role::new(3, "Admin"), Role::new(9, "Guest"), Role::new(1, "User")];
    assert_eq!(roles.extract_ids(), vec![3, 9, 1]);
    assert_eq!(roles.extract_names(), vec!["Admin", "Guest", "User"]);
    assert!(roles.contains_name(RoleName::Admin));
    assert!(roles.contains_name(RoleName::User));
    assert!(!roles.contains_name(RoleName::Moderator));
    let permissions = vec![Permission::new(2, "WRITE")];
    assert_eq!(permissions.extract_ids(), vec![2]);
    assert!(permissions.contains_name(PermissionName::Write));
    assert!(!permissions.contains_name(PermissionName::Read));
    let asked = vec![RoleIn { id: 2, name: "Moderator".to_string() }];
    assert_eq!(asked.extract_ids(), vec![2]);
    assert_eq!(asked.extract_names(), vec!["Moderator"]);
    assert!(asked.contains_name(RoleName::Moderator));
    let asked = vec![
        PermissionIn { id: 1, name: "READ".to_string() },
        PermissionIn { id: 3, name: "DELETE".to_string() },
    ];
    assert_eq!(asked.extract_ids(), vec![1, 3]);
    assert!(asked.contains_name(PermissionName::Delete));
    assert!(!asked.contains_name(PermissionName::Write));
    let none: Vec<Role> = Vec::new();
    assert_eq!(none.extract_ids(), Vec::<i32>::new());
    assert!(!none.contains_name(RoleName::User));
}

#[test]
fn differences_of_id_lists() {
    assert_eq!(difference(&vec![1, 2, 3, 2], &vec![2]), vec![1, 3]);
    assert_eq!(difference(&vec![4, 4, 5, 4], &vec![]), vec![4, 5]);
    assert_eq!(difference(&vec![], &vec![1]), Vec::<i32>::new());
    assert_eq!(difference(&vec![1, 2], &vec![2, 1, 1]), Vec::<i32>::new());
    assert!(contains_id(&vec![1, 2], 2));
    assert!(!contains_id(&vec![1, 2], 3));
    let change = plan_change(&vec![1, 2, 3], &vec![3, 4, 4, 5]);
    assert_eq!(change.to_delete, vec![1, 2]);
    assert_eq!(change.to_insert, vec![4, 5]);
    assert!(!change.is_empty());
    assert!(plan_change(&vec![3, 1], &vec![1, 3, 3]).is_empty());
    assert_eq!(find_outside(&vec![1, 5, 2, 6], &vec![1, 2]), Some(5));
    assert_eq!(find_outside(&vec![1, 2, 1], &vec![2, 1]), None);
    assert_eq!(find_outside(&vec![], &vec![]), None);
}

#[test]
fn grants_of_roles() {
    let mapping = vec![
        RolePermission { role_id: 1, permission_id: 10 },
        RolePermission { role_id: 2, permission_id: 20 },
        RolePermission { role_id: 2, permission_id: 10 },
        RolePermission { role_id: 3, permission_id: 30 },
    ];
    assert_eq!(granted_by(&mapping, &vec![2]), vec![20, 10]);
    assert_eq!(granted_by(&mapping, &vec![1, 2]), vec![10, 20]);
    assert_eq!(granted_by(&mapping, &vec![]), Vec::<i32>::new());
    assert_eq!(granted_by(&mapping, &vec![4]), Vec::<i32>::new());
}

#[test]
fn membership_rows() {
    let mut rows: Vec<Membership> = Vec::new();
    link(&mut rows, 1, 5, 100);
    link(&mut rows, 2, 5, 101);
    link(&mut rows, 1, 6, 102);
    assert_eq!(items_of_user(&rows, 1), vec![5, 6]);
    assert_eq!(find_link(&rows, 2, 5), Some(1));
    assert_eq!(find_link(&rows, 2, 6), None);
    link(&mut rows, 1, 5, 200);
    assert_eq!(rows.len(), 3);
    assert_eq!(rows[0], Membership { user_id: 1, item_id: 5, created_at: 100, updated_at: 200 });
    unlink(&mut rows, 1, 5);
    assert_eq!(items_of_user(&rows, 1), vec![6]);
    unlink(&mut rows, 1, 5);
    assert_eq!(rows.len(), 2);
    link_all(&mut rows, 3, &vec![7, 8, 7], 300);
    assert_eq!(items_of_user(&rows, 3), vec![7, 8]);
    unlink_all(&mut rows, 3, &vec![8, 9]);
    assert_eq!(items_of_user(&rows, 3), vec![7]);
    assert_eq!(items_of_user(&rows, 2), vec![5]);
}

#[test]
fn claims_decide_who_the_requester_is() {
    let state = AppState::new(Vec::new(), Vec::new(), Vec::new());
    let info = UserInfo { id: 4, ..UserInfo::new("mod", "digest") };
    let claims = User::new(info, vec![Role::new(2, "Moderator"), Role::new(1, "User")], vec![]);
    assert_eq!(state.get_role_by_claim(&claims, 4), Ok(IsWho::new(true, true, false)));
    assert_eq!(state.get_role_by_claim(&claims, 5), Ok(IsWho::new(false, true, false)));
    let info = UserInfo { id: 1, ..UserInfo::new("root", "digest") };
    let claims = User::new(info, vec![Role::new(3, "Admin")], vec![]);
    assert_eq!(state.get_role_by_claim(&claims, 4), Ok(IsWho::new(false, false, true)));
    let info = UserInfo { id: 9, ..UserInfo::new("plain", "digest") };
    let claims = User::new(info, vec![Role::new(1, "User"), Role::new(7, "admin")], vec![]);
    assert_eq!(state.get_role_by_claim(&claims, 4), Ok(IsWho::new(false, false, false)));
    assert!(IsWho::new(true, false, false).can_update());
    assert!(!IsWho::new(false, false, false).can_update());
}

#[test]
fn errors_render_and_map_to_status() {
    let cases = [
        (AppError::NotFound("x".to_string()), 404, "not found: x"),
        (AppError::Unauthorized("x".to_string()), 401, "unauthorized: x"),
        (AppError::Forbidden("x".to_string()), 403, "forbidden: x"),
        (AppError::BadRequest("x".to_string()), 400, "bad request: x"),
        (AppError::InternalServerError, 500, "internal server error"),
        (AppError::DatabaseError("x".to_string()), 500, "database error: x"),
        (AppError::ValidationError("x".to_string()), 422, "validation error: x"),
        (AppError::PasswordHashError("x".to_string()), 422, "password hash error: x"),
        (AppError::PasswordError("x".to_string()), 422, "password error: x"),
        (AppError::SqlxError("x".to_string()), 422, "sql error: x"),
        (AppError::JwtError("x".to_string()), 422, "jwt error: x"),
        (AppError::IOError("x".to_string()), 500, "io error: x"),
        (AppError::UserExisted("x".to_string()), 422, "user existed: x"),
    ];
    for (error, status, text) in cases {
        assert_eq!(error.status_code(), status);
        assert_eq!(error.message(), text);
    }
    let messages = vec!["too short".to_string(), "too long".to_string()];
    assert_eq!(
        AppError::from_validation(&messages),
        AppError::ValidationError("too short, too long".to_string())
    );
    assert_eq!(AppError::from_validation(&vec![]), AppError::ValidationError(String::new()));
}

#[test]
fn requests_and_answers() {
    let request = TokenRequest::new("alice", "123456");
    assert_eq!(request.username, "alice");
    assert_eq!(request.password, "123456");
    let answer = TokenResponse::new("abc");
    assert_eq!(answer.token, "abc");
    assert_eq!(answer.token_type, Some("Bearer".to_string()));
    let empty = TokenResponse::default();
    assert_eq!(empty.token, "");
    assert_eq!(empty.token_type, Some("Bearer".to_string()));
    let window = PaginationParams::default();
    assert_eq!((window.limit, window.offset), (10, 0));
    assert!(window.is_valid());
    assert!(PaginationParams { limit: 100, offset: 0 }.is_valid());
    assert!(!PaginationParams { limit: 101, offset: 0 }.is_valid());
    assert!(!PaginationParams { limit: 0, offset: 0 }.is_valid());
    assert!(!PaginationParams { limit: 1, offset: -1 }.is_valid());
}

#[test]
fn bearer_header() {
    assert_eq!(bearer_token(Some("Bearer abc.def")), Ok("abc.def".to_string()));
    assert_eq!(bearer_token(Some("Bearer ")), Ok(String::new()));
    assert_eq!(bearer_token(Some("bearer abc")), Err(HeaderRejection::InvalidFormat));
    assert_eq!(bearer_token(Some("Bearer")), Err(HeaderRejection::InvalidFormat));
    assert_eq!(bearer_token(Some("")), Err(HeaderRejection::InvalidFormat));
    assert_eq!(bearer_token(None), Err(HeaderRejection::Missing));
    assert_eq!(HeaderRejection::Missing.status_code(), 401);
    assert_eq!(HeaderRejection::Missing.message(), "Missing Authorization header");
    assert_eq!(HeaderRejection::InvalidFormat.message(), "Invalid Authorization header format");
}

#[test]
fn readiness_follows_the_probe() {
    let up = DatabaseStatus::from_probe(Some(12));
    assert_eq!(up.status, "healthy");
    assert_eq!(up.response_time_ms, Some(12));
    assert_eq!(up.readiness(), ("ready".to_string(), 200));
    let down = DatabaseStatus::from_probe(None);
    assert_eq!(down.status, "unhealthy");
    assert_eq!(down.response_time_ms, None);
    assert_eq!(down.readiness(), ("not_ready".to_string(), 503));
}
