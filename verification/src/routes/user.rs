//! Login, logout, password change and API token pages: their checks and
//! outcomes.
use crate::domain::user::error::{AuthError, UserError};
use crate::domain::user::models::{UserInfo, UserToken};
use crate::routes::PageResult;
use crate::utils::text::{chars_of, str_eq, trim, trim_bounds};
use vstd::prelude::*;

verus! {

/// The user kept in the session after a successful login.
#[derive(Debug, Clone)]
pub struct SessionUser {
    pub username: String,
    pub role: String,
    pub is_admin: bool,
}

impl From<UserInfo> for SessionUser {
    fn from(value: UserInfo) -> (r: Self) {
        let is_admin = str_eq(value.role.as_str(), "admin");
        SessionUser { username: value.username, role: value.role, is_admin }
    }
}

impl vstd::std_specs::convert::FromSpecImpl<UserInfo> for SessionUser {
    open spec fn obeys_from_spec() -> bool {
        true
    }

    open spec fn from_spec(v: UserInfo) -> SessionUser {
        SessionUser { username: v.username, role: v.role, is_admin: v.role@ == "admin"@ }
    }
}

/// The caller of the token API.
#[derive(Debug, Clone)]
pub struct ApiUser {
    pub username: String,
    pub token: String,
}

impl From<UserToken> for ApiUser {
    fn from(value: UserToken) -> (r: Self) {
        ApiUser { username: value.username, token: value.token }
    }
}

impl vstd::std_specs::convert::FromSpecImpl<UserToken> for ApiUser {
    open spec fn obeys_from_spec() -> bool {
        true
    }

    open spec fn from_spec(v: UserToken) -> ApiUser {
        ApiUser { username: v.username, token: v.token }
    }
}

/// The problems found in a login form, as message keys.
#[derive(Debug, Clone)]
pub struct LoginErrors {
    pub username: Option<String>,
    pub password: Option<String>,
    pub general: Option<String>,
}

/// The login page: a one-time message, the form's problems and the name typed.
#[derive(Debug, Clone)]
pub struct LoginTemplate {
    pub flash_message: String,
    pub errors: LoginErrors,
    pub username: String,
}

/// The password change page with its message key.
#[derive(Debug, Clone)]
pub struct ChangePwdTemplate {
    pub msg: String,
}

/// The API token page: the issued token (or a message), the form's problems
/// and the name typed.
#[derive(Debug, Clone)]
pub struct TokenTemplate {
    pub flash_message: String,
    pub errors: LoginErrors,
    pub username: String,
}

/// A message key, when `cond` holds.
pub open spec fn key_if(cond: bool, key: Seq<char>) -> Option<Seq<char>> {
    if cond {
        Some(key)
    } else {
        None
    }
}

/// Whether `s` is blank once trimmed.
pub fn is_blank(s: &str) -> (r: bool)
    ensures
        r == (trim(s@).len() == 0),
{
    let cs = chars_of(s);
    let (a, b) = trim_bounds(cs.as_slice(), 0, cs.len());
    assert(cs@.subrange(0, cs@.len() as int) =~= cs@);
    a == b
}

/// The checks of the login and token forms: a user name that is not blank
/// and a password that is not empty.
pub fn login_form_errors(username: &str, password: &str) -> (r: LoginErrors)
    ensures
        r.username.deep_view() == key_if(trim(username@).len() == 0, "username_required"@),
        r.password.deep_view() == key_if(password@.len() == 0, "password_required"@),
        r.general is None,
{
    let username_err = if is_blank(username) {
        Some(String::from_str("username_required"))
    } else {
        None
    };
    let password_err = if password.unicode_len() == 0 {
        Some(String::from_str("password_required"))
    } else {
        None
    };
    LoginErrors { username: username_err, password: password_err, general: None }
}

/// The form passed its checks.
pub open spec fn login_form_ok(errors: LoginErrors) -> bool {
    errors.username is None && errors.password is None
}

pub fn login_form_ok_exec(errors: &LoginErrors) -> (r: bool)
    ensures
        r == login_form_ok(*errors),
{
    errors.username.is_none() && errors.password.is_none()
}

/// What the login submission ends in: `auth` is the authentication result,
/// `None` when the form failed its checks and nobody was asked. A success
/// signs the user in and goes home; a failure shows the form again with the
/// general `invalid_credentials` problem.
pub fn login_outcome(
    username: String,
    errors: LoginErrors,
    auth: Option<Result<UserInfo, AuthError>>,
) -> (r: (PageResult<LoginTemplate>, Option<SessionUser>))
    ensures
        match auth {
            Some(Ok(u)) => {
                &&& r.0 matches PageResult::Redirect(p)
                &&& p@ == "/"@
                &&& r.1 == Some(
                    SessionUser {
                        username: u.username,
                        role: u.role,
                        is_admin: u.role@ == "admin"@,
                    },
                )
            },
            Some(Err(_)) => {
                &&& r.1 is None
                &&& r.0 matches PageResult::RenderTemplate(t)
                &&& t.flash_message@ == Seq::<char>::empty()
                &&& t.username == username
                &&& t.errors.username == errors.username
                &&& t.errors.password == errors.password
                &&& t.errors.general.deep_view() == Some("invalid_credentials"@)
            },
            None => {
                &&& r.1 is None
                &&& r.0 matches PageResult::RenderTemplate(t)
                &&& t.flash_message@ == Seq::<char>::empty()
                &&& t.username == username
                &&& t.errors == errors
            },
        },
{
    match auth {
        Some(Ok(u)) => {
            let user = SessionUser::from(u);
            (PageResult::Redirect(String::from_str("/")), Some(user))
        },
        Some(Err(_)) => {
            let errors = LoginErrors {
                username: errors.username,
                password: errors.password,
                general: Some(String::from_str("invalid_credentials")),
            };
            (
                PageResult::RenderTemplate(
                    LoginTemplate { flash_message: String::new(), errors, username },
                ),
                None,
            )
        },
        None => (
            PageResult::RenderTemplate(
                LoginTemplate { flash_message: String::new(), errors, username },
            ),
            None,
        ),
    }
}

/// The first problem of a password change form, as a message key, in the
/// order the checks run: the current password, the new one, its
/// confirmation, then whether the two new entries agree.
pub open spec fn changepwd_problem_spec(
    current: Seq<char>,
    new: Seq<char>,
    check: Seq<char>,
) -> Option<Seq<char>> {
    if current.len() == 0 {
        Some("current_password_required"@)
    } else if new.len() == 0 {
        Some("new_password_required"@)
    } else if check.len() == 0 {
        Some("confirm_password_required"@)
    } else if new != check {
        Some("password_mismatch"@)
    } else {
        None
    }
}

pub fn changepwd_problem(current: &str, new: &str, check: &str) -> (r: Option<String>)
    ensures
        r.deep_view() == changepwd_problem_spec(current@, new@, check@),
{
    if current.unicode_len() == 0 {
        Some(String::from_str("current_password_required"))
    } else if new.unicode_len() == 0 {
        Some(String::from_str("new_password_required"))
    } else if check.unicode_len() == 0 {
        Some(String::from_str("confirm_password_required"))
    } else if !str_eq(new, check) {
        Some(String::from_str("password_mismatch"))
    } else {
        None
    }
}

/// What a password change ends in, given the form's first problem, if any,
/// and otherwise the store's answer (`None` when it was not asked): a
/// successful change signs the user out and goes to the login page.
pub fn changepwd_outcome(problem: Option<String>, changed: Option<Result<(), UserError>>) -> (r:
    PageResult<ChangePwdTemplate>)
    ensures
        match problem {
            Some(key) => r == PageResult::RenderTemplate(ChangePwdTemplate { msg: key }),
            None => match changed {
                Some(Ok(())) => r matches PageResult::Redirect(p) && p@ == "/login"@,
                _ => r matches PageResult::RenderTemplate(t) && t.msg@
                    == "current_password_wrong"@,
            },
        },
{
    match problem {
        Some(key) => PageResult::RenderTemplate(ChangePwdTemplate { msg: key }),
        None => match changed {
            Some(Ok(())) => PageResult::Redirect(String::from_str("/login")),
            _ => PageResult::RenderTemplate(
                ChangePwdTemplate { msg: String::from_str("current_password_wrong") },
            ),
        },
    }
}

/// What the token request ends in: the issued token shown on the page, or
/// the form again with the general `invalid_permission` problem.
pub fn token_outcome(
    username: String,
    errors: LoginErrors,
    issued: Option<Result<UserToken, AuthError>>,
) -> (r: TokenTemplate)
    ensures
        r.username == username,
        r.errors.username == errors.username,
        r.errors.password == errors.password,
        match issued {
            Some(Ok(t)) => r.flash_message == t.token && r.errors.general == errors.general,
            Some(Err(_)) => r.flash_message@ == Seq::<char>::empty()
                && r.errors.general.deep_view() == Some("invalid_permission"@),
            None => r.flash_message@ == Seq::<char>::empty() && r.errors.general
                == errors.general,
        },
{
    match issued {
        Some(Ok(t)) => TokenTemplate { flash_message: t.token, errors, username },
        Some(Err(_)) => {
            let errors = LoginErrors {
                username: errors.username,
                password: errors.password,
                general: Some(String::from_str("invalid_permission")),
            };
            TokenTemplate { flash_message: String::new(), errors, username }
        },
        None => TokenTemplate { flash_message: String::new(), errors, username },
    }
}

/// A login or token page as first shown: the one-time message kept in the
/// session, no problems, no name.
pub fn login_page(flash_message: String) -> (r: LoginTemplate)
    ensures
        r.flash_message == flash_message,
        r.username@ == Seq::<char>::empty(),
        r.errors.username is None && r.errors.password is None && r.errors.general is None,
{
    LoginTemplate {
        flash_message,
        errors: LoginErrors { username: None, password: None, general: None },
        username: String::new(),
    }
}

/// A password change form passes only when every entry is given and the new
/// password and its confirmation are the very same text; entries that differ
/// in any character, letter case included, are a mismatch.
pub proof fn lemma_changepwd_needs_equal_entries(current: Seq<char>, new: Seq<char>, check: Seq<char>)
    ensures
        changepwd_problem_spec(current, new, check) is None ==> current.len() > 0 && new.len() > 0 && new == check,
        current.len() > 0 && new.len() > 0 && check.len() > 0 && new != check ==> changepwd_problem_spec(
            current,
            new,
            check,
        ) == Some("password_mismatch"@),
{
}

} // verus!
