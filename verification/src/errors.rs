//! The failures that the service reports, and the status each one maps to.

use vstd::prelude::*;
use vstd::string::{to_string_from_display_ensures, StringExecFns};
use crate::text::prefixed;
use crate::text::owned;
use crate::text::{join, joined};

verus! {

/// A failure of the service. Each variant but `InternalServerError` carries
/// the context of the failure as text.
#[derive(Debug, PartialEq, Eq)]
pub enum AppError {
    NotFound(String),
    Unauthorized(String),
    Forbidden(String),
    BadRequest(String),
    InternalServerError,
    DatabaseError(String),
    ValidationError(String),
    PasswordHashError(String),
    PasswordError(String),
    SqlxError(String),
    JwtError(String),
    IOError(String),
    UserExisted(String),
}

impl AppError {
    /// The HTTP status that the boundary layer answers with.
    pub open spec fn status(self) -> u16 {
        match self {
            AppError::NotFound(_) => 404,
            AppError::Unauthorized(_) => 401,
            AppError::Forbidden(_) => 403,
            AppError::BadRequest(_) => 400,
            AppError::InternalServerError => 500,
            AppError::DatabaseError(_) => 500,
            AppError::IOError(_) => 500,
            AppError::ValidationError(_) => 422,
            AppError::PasswordHashError(_) => 422,
            AppError::SqlxError(_) => 422,
            AppError::JwtError(_) => 422,
            AppError::PasswordError(_) => 422,
            AppError::UserExisted(_) => 422,
        }
    }

    /// The fixed text that opens the rendering of each variant.
    pub open spec fn label(self) -> Seq<char> {
        match self {
            AppError::NotFound(_) => "not found: "@,
            AppError::Unauthorized(_) => "unauthorized: "@,
            AppError::Forbidden(_) => "forbidden: "@,
            AppError::BadRequest(_) => "bad request: "@,
            AppError::InternalServerError => "internal server error"@,
            AppError::DatabaseError(_) => "database error: "@,
            AppError::ValidationError(_) => "validation error: "@,
            AppError::PasswordHashError(_) => "password hash error: "@,
            AppError::PasswordError(_) => "password error: "@,
            AppError::SqlxError(_) => "sql error: "@,
            AppError::JwtError(_) => "jwt error: "@,
            AppError::IOError(_) => "io error: "@,
            AppError::UserExisted(_) => "user existed: "@,
        }
    }

    /// The context that the variant carries; empty for `InternalServerError`.
    pub open spec fn detail(self) -> Seq<char> {
        match self {
            AppError::NotFound(m) => m@,
            AppError::Unauthorized(m) => m@,
            AppError::Forbidden(m) => m@,
            AppError::BadRequest(m) => m@,
            AppError::InternalServerError => Seq::<char>::empty(),
            AppError::DatabaseError(m) => m@,
            AppError::ValidationError(m) => m@,
            AppError::PasswordHashError(m) => m@,
            AppError::PasswordError(m) => m@,
            AppError::SqlxError(m) => m@,
            AppError::JwtError(m) => m@,
            AppError::IOError(m) => m@,
            AppError::UserExisted(m) => m@,
        }
    }

    /// `NotFound` for a user id that an update or a deletion names.
    pub open spec fn missing_id(self, user_id: i32) -> bool {
        self is NotFound && exists|t: String| #[trigger]
            to_string_from_display_ensures::<i32>(&user_id, t) && self.detail() == "User with id "@
                + t@ + " not found"@
    }

    /// `NotFound` for a user id that a read names.
    pub open spec fn missing_user(self, user_id: i32) -> bool {
        self is NotFound && exists|t: String| #[trigger]
            to_string_from_display_ensures::<i32>(&user_id, t) && self.detail() == "User: "@ + t@
                + " not found"@
    }

    /// `NotFound` for a username.
    pub open spec fn missing_name(self, username: Seq<char>) -> bool {
        self is NotFound && self.detail() == "User: "@ + username + " not found"@
    }

    /// `UserExisted` for a username.
    pub open spec fn taken_name(self, username: Seq<char>) -> bool {
        self is UserExisted && self.detail() == "User: "@ + username + " already exists"@
    }

    /// `BadRequest` for a permission that the roles of the user do not admit.
    pub open spec fn refused_permission(self, permission_id: i32, user_id: i32) -> bool {
        self is BadRequest && exists|p: String, u: String|
            #![trigger to_string_from_display_ensures::<i32>(&permission_id, p), to_string_from_display_ensures::<i32>(&user_id, u)]
            to_string_from_display_ensures::<i32>(&permission_id, p)
                && to_string_from_display_ensures::<i32>(&user_id, u) && self.detail()
                == "Permission: "@ + p@ + " is not valid for user: "@ + u@
    }

    pub fn user_id_not_found(user_id: i32) -> (e: AppError)
        ensures
            e.missing_id(user_id),
    {
        let id_text = user_id.to_string();
        AppError::NotFound(prefixed("User with id ", id_text.as_str()).concat(" not found"))
    }

    pub fn user_not_found(user_id: i32) -> (e: AppError)
        ensures
            e.missing_user(user_id),
    {
        let id_text = user_id.to_string();
        AppError::NotFound(prefixed("User: ", id_text.as_str()).concat(" not found"))
    }

    pub fn username_not_found(username: &str) -> (e: AppError)
        ensures
            e.missing_name(username@),
    {
        AppError::NotFound(prefixed("User: ", username).concat(" not found"))
    }

    pub fn username_taken(username: &str) -> (e: AppError)
        ensures
            e.taken_name(username@),
    {
        AppError::UserExisted(prefixed("User: ", username).concat(" already exists"))
    }

    pub fn permission_refused(permission_id: i32, user_id: i32) -> (e: AppError)
        ensures
            e.refused_permission(permission_id, user_id),
    {
        let permission_text = permission_id.to_string();
        let user_text = user_id.to_string();
        AppError::BadRequest(
            prefixed("Permission: ", permission_text.as_str()).concat(
                " is not valid for user: ",
            ).concat(user_text.as_str()),
        )
    }

    /// The failure of a request whose fields broke the given rules: the
    /// messages of the rules joined by a comma and a blank.
    pub fn from_validation(messages: &Vec<String>) -> (e: AppError)
        ensures
            e matches AppError::ValidationError(text) && text@ == joined(messages@, ", "@),
    {
        AppError::ValidationError(join(messages, ", "))
    }

    pub fn status_code(&self) -> (code: u16)
        ensures
            code == self.status(),
    {
        match self {
            AppError::NotFound(_) => 404,
            AppError::Unauthorized(_) => 401,
            AppError::Forbidden(_) => 403,
            AppError::BadRequest(_) => 400,
            AppError::InternalServerError => 500,
            AppError::DatabaseError(_) => 500,
            AppError::IOError(_) => 500,
            _ => 422,
        }
    }

    /// The rendering of the error: its label followed by its detail.
    pub fn message(&self) -> (text: String)
        ensures
            text@ == self.label() + self.detail(),
    {
        match self {
            AppError::NotFound(m) => prefixed("not found: ", m.as_str()),
            AppError::Unauthorized(m) => prefixed("unauthorized: ", m.as_str()),
            AppError::Forbidden(m) => prefixed("forbidden: ", m.as_str()),
            AppError::BadRequest(m) => prefixed("bad request: ", m.as_str()),
            AppError::InternalServerError => {
                let text = owned("internal server error");
                assert(text@ =~= self.label() + self.detail());
                text
            },
            AppError::DatabaseError(m) => prefixed("database error: ", m.as_str()),
            AppError::ValidationError(m) => prefixed("validation error: ", m.as_str()),
            AppError::PasswordHashError(m) => prefixed("password hash error: ", m.as_str()),
            AppError::PasswordError(m) => prefixed("password error: ", m.as_str()),
            AppError::SqlxError(m) => prefixed("sql error: ", m.as_str()),
            AppError::JwtError(m) => prefixed("jwt error: ", m.as_str()),
            AppError::IOError(m) => prefixed("io error: ", m.as_str()),
            AppError::UserExisted(m) => prefixed("user existed: ", m.as_str()),
        }
    }
}

} // verus!
