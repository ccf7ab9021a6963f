//! Verified authorization core of a user-management service: the role and
//! permission model, the reconciliation of a user's materialized permissions
//! with their roles, and the decisions derived from verified claims.

pub mod text;
pub mod errors;
pub mod entity;
pub mod dto;
pub mod reconcile;
pub mod links;
pub mod credentials;
pub mod clock;
pub mod store;
pub mod reconciler;
pub mod users;
pub mod coverage;
pub mod health;
pub mod bearer;

pub use errors::AppError;
pub use entity::{Permission, PermissionName, Role, RoleName, UserInfo, VecExtensions};
pub use dto::{
    CreateUser, IsWho, PaginatedUsers, PaginationParams, PermissionIn, RoleIn, TokenRequest,
    TokenResponse, UpdateUser, UpdateUserOptions, User,
};
pub use credentials::{hash_password, verify_password};
pub use health::DatabaseStatus;
pub use links::Membership;
pub use store::{AppState, RolePermission};
