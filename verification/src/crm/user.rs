//! Users, their roles and permissions, and the requests of a login.

use vstd::prelude::*;
use crate::text::text_equal;

verus! {

/// A user as the application stores it.
#[derive(Debug, Clone)]
pub struct User {
    pub id: i64,
    pub username: String,
    pub full_name: String,
    pub email: Option<String>,
    pub phone: Option<String>,
    pub role: String,
    pub avatar_path: Option<String>,
    pub status: String,
    pub created_at: String,
    pub updated_at: String,
    pub last_login_at: Option<String>,
}

/// What a caller supplies to create a user.
#[derive(Debug)]
pub struct CreateUserRequest {
    pub username: String,
    pub password: String,
    pub full_name: String,
    pub email: Option<String>,
    pub phone: Option<String>,
    pub role: String,
}

/// A partial update of a user; absent fields stay as they are.
#[derive(Debug)]
pub struct UpdateUserRequest {
    pub full_name: Option<String>,
    pub email: Option<String>,
    pub phone: Option<String>,
    pub avatar_path: Option<String>,
    pub status: Option<String>,
}

/// The credentials of a login.
#[derive(Debug)]
pub struct LoginRequest {
    pub username: String,
    pub password: String,
}

/// What a successful login returns.
#[derive(Debug)]
pub struct LoginResponse {
    pub user: UserInfo,
    pub token: String,
}

/// What the application tells of a user: everything but the state of the
/// account and its dates.
#[derive(Debug, Clone)]
pub struct UserInfo {
    pub id: i64,
    pub username: String,
    pub full_name: String,
    pub email: Option<String>,
    pub phone: Option<String>,
    pub role: String,
    pub avatar_path: Option<String>,
}

impl From<User> for UserInfo {
    /// The fields of `user` that a `UserInfo` has, unchanged.
    fn from(user: User) -> (info: UserInfo) {
        UserInfo {
            id: user.id,
            username: user.username,
            full_name: user.full_name,
            email: user.email,
            phone: user.phone,
            role: user.role,
            avatar_path: user.avatar_path,
        }
    }
}

impl vstd::std_specs::convert::FromSpecImpl<User> for UserInfo {
    open spec fn obeys_from_spec() -> bool {
        true
    }

    open spec fn from_spec(user: User) -> UserInfo {
        UserInfo {
            id: user.id,
            username: user.username,
            full_name: user.full_name,
            email: user.email,
            phone: user.phone,
            role: user.role,
            avatar_path: user.avatar_path,
        }
    }
}

/// The request to change a password.
#[derive(Debug)]
pub struct ChangePasswordRequest {
    pub old_password: String,
    pub new_password: String,
}

/// What a role may do in one module of the application.
#[derive(Debug, Clone)]
pub struct Permission {
    pub id: i64,
    pub role: String,
    pub module: String,
    pub can_view: bool,
    pub can_create: bool,
    pub can_update: bool,
    pub can_delete: bool,
}

/// The role of a user.
#[derive(Debug, Clone, Copy, PartialEq, Eq, Structural)]
pub enum UserRole {
    Admin,
    Manager,
    Sales,
    Warehouse,
    Employee,
}

/// The text that names a role.
pub open spec fn role_text(role: UserRole) -> Seq<char> {
    match role {
        UserRole::Admin => "admin"@,
        UserRole::Manager => "manager"@,
        UserRole::Sales => "sales"@,
        UserRole::Warehouse => "warehouse"@,
        UserRole::Employee => "employee"@,
    }
}

/// The role that a text names, if it names one.
pub open spec fn role_of_text(text: Seq<char>) -> Option<UserRole> {
    if text == "admin"@ {
        Some(UserRole::Admin)
    } else if text == "manager"@ {
        Some(UserRole::Manager)
    } else if text == "sales"@ {
        Some(UserRole::Sales)
    } else if text == "warehouse"@ {
        Some(UserRole::Warehouse)
    } else if text == "employee"@ {
        Some(UserRole::Employee)
    } else {
        None
    }
}

/// The text of a role names that role and no other.
pub proof fn lemma_role_round_trip(role: UserRole)
    ensures
        role_of_text(role_text(role)) == Some(role),
{
    reveal_strlit("admin");
    reveal_strlit("manager");
    reveal_strlit("sales");
    reveal_strlit("warehouse");
    reveal_strlit("employee");
    assert("admin"@.len() == 5);
    assert("manager"@.len() == 7);
    assert("sales"@.len() == 5);
    assert("warehouse"@.len() == 9);
    assert("employee"@.len() == 8);
    assert("admin"@[0] == 'a');
    assert("sales"@[0] == 's');
}

impl UserRole {
    /// The text that names this role.
    pub fn as_str(&self) -> (text: &str)
        ensures
            text@ == role_text(*self),
    {
        match self {
            UserRole::Admin => "admin",
            UserRole::Manager => "manager",
            UserRole::Sales => "sales",
            UserRole::Warehouse => "warehouse",
            UserRole::Employee => "employee",
        }
    }

    /// The role that `s` names, or `None` where it names none.
    pub fn from_str(s: &str) -> (role: Option<UserRole>)
        ensures
            role == role_of_text(s@),
    {
        if text_equal(s, "admin") {
            Some(UserRole::Admin)
        } else if text_equal(s, "manager") {
            Some(UserRole::Manager)
        } else if text_equal(s, "sales") {
            Some(UserRole::Sales)
        } else if text_equal(s, "warehouse") {
            Some(UserRole::Warehouse)
        } else if text_equal(s, "employee") {
            Some(UserRole::Employee)
        } else {
            None
        }
    }
}

} // verus!
