//! Accounts and membership: what a registration, a profile change, an admin's
//! new user, a knowledge base and a personal token must look like, and who may
//! change whose role. The store lookups (the caller's role, the target's role,
//! how many owners a workspace has) are made by the caller and handed in.
use vstd::prelude::*;
use uuid::Uuid;
use crate::text::{chars_of, has_char, str_eq, trim_seq, trim_str, utf8_len, utf8_len_within};

verus! {

/// A member's role in a workspace or knowledge base, lowest first.
#[derive(Clone, Copy, Debug, PartialEq, Eq, Structural)]
pub enum Role {
    Viewer,
    Editor,
    Admin,
    Owner,
}

pub open spec fn rank(r: Role) -> int {
    match r {
        Role::Viewer => 0,
        Role::Editor => 1,
        Role::Admin => 2,
        Role::Owner => 3,
    }
}

impl Role {
    /// The role a name stands for: `owner`, `admin`, `editor` or `viewer`.
    pub fn parse(name: &str) -> (r: Option<Role>)
        ensures
            r == role_named(name@),
    {
        if str_eq(name, "owner") {
            Some(Role::Owner)
        } else if str_eq(name, "admin") {
            Some(Role::Admin)
        } else if str_eq(name, "editor") {
            Some(Role::Editor)
        } else if str_eq(name, "viewer") {
            Some(Role::Viewer)
        } else {
            None
        }
    }

    /// Whether this role is at least `min`.
    pub fn at_least(&self, min: Role) -> (r: bool)
        ensures
            r == (rank(*self) >= rank(min)),
    {
        let a: u8 = match self {
            Role::Viewer => 0,
            Role::Editor => 1,
            Role::Admin => 2,
            Role::Owner => 3,
        };
        let b: u8 = match min {
            Role::Viewer => 0,
            Role::Editor => 1,
            Role::Admin => 2,
            Role::Owner => 3,
        };
        a >= b
    }
}

pub open spec fn role_named(name: Seq<char>) -> Option<Role> {
    if name == "owner"@ {
        Some(Role::Owner)
    } else if name == "admin"@ {
        Some(Role::Admin)
    } else if name == "editor"@ {
        Some(Role::Editor)
    } else if name == "viewer"@ {
        Some(Role::Viewer)
    } else {
        None
    }
}

/// Why an account or membership request is turned down.
#[derive(Clone, Copy, Debug, PartialEq, Eq, Structural)]
pub enum Refusal {
    BadEmail,
    PasswordTooShort,
    BadDisplayName,
    WrongPassword,
    BadRole,
    BadMemberRole,
    Forbidden,
    NotFound,
    LastOwnerDemote,
    LastOwnerRemove,
    BadKbName,
    BadKbKind,
}

pub open spec fn refusal_code(r: Refusal) -> Seq<char> {
    match r {
        Refusal::BadEmail => "bad_email"@,
        Refusal::PasswordTooShort => "password_too_short"@,
        Refusal::BadDisplayName => "bad_display_name"@,
        Refusal::WrongPassword => "wrong_password"@,
        Refusal::BadRole => "bad_role"@,
        Refusal::BadMemberRole => "bad_role"@,
        Refusal::Forbidden => "forbidden"@,
        Refusal::NotFound => "not_found"@,
        Refusal::LastOwnerDemote => "last_owner_demote"@,
        Refusal::LastOwnerRemove => "last_owner_remove"@,
        Refusal::BadKbName => "bad_name"@,
        Refusal::BadKbKind => "bad_kind"@,
    }
}

pub open spec fn refusal_message(r: Refusal) -> Seq<char> {
    match r {
        Refusal::BadEmail => "Invalid email address"@,
        Refusal::PasswordTooShort => "Password must be at least 8 characters"@,
        Refusal::BadDisplayName => "Display name must be 1-64 characters"@,
        Refusal::WrongPassword => "Current password is incorrect"@,
        Refusal::BadRole => "role must be admin, editor or viewer"@,
        Refusal::BadMemberRole => "Role must be one of owner/admin/editor/viewer"@,
        Refusal::Forbidden => "Forbidden"@,
        Refusal::NotFound => "Not found"@,
        Refusal::LastOwnerDemote => "Cannot demote the last owner"@,
        Refusal::LastOwnerRemove => "Cannot remove the last owner"@,
        Refusal::BadKbName => "Name must be 1-64 characters"@,
        Refusal::BadKbKind => "kind must be 'knowledge' or 'memory'"@,
    }
}

impl Refusal {
    /// The code a client looks the wording up by.
    pub fn code(&self) -> (c: &'static str)
        ensures
            c@ == refusal_code(*self),
    {
        match self {
            Refusal::BadEmail => "bad_email",
            Refusal::PasswordTooShort => "password_too_short",
            Refusal::BadDisplayName => "bad_display_name",
            Refusal::WrongPassword => "wrong_password",
            Refusal::BadRole => "bad_role",
            Refusal::BadMemberRole => "bad_role",
            Refusal::Forbidden => "forbidden",
            Refusal::NotFound => "not_found",
            Refusal::LastOwnerDemote => "last_owner_demote",
            Refusal::LastOwnerRemove => "last_owner_remove",
            Refusal::BadKbName => "bad_name",
            Refusal::BadKbKind => "bad_kind",
        }
    }

    /// The English sentence kept for logs and for clients that do not localise.
    pub fn message(&self) -> (m: &'static str)
        ensures
            m@ == refusal_message(*self),
    {
        match self {
            Refusal::BadEmail => "Invalid email address",
            Refusal::PasswordTooShort => "Password must be at least 8 characters",
            Refusal::BadDisplayName => "Display name must be 1-64 characters",
            Refusal::WrongPassword => "Current password is incorrect",
            Refusal::BadRole => "role must be admin, editor or viewer",
            Refusal::BadMemberRole => "Role must be one of owner/admin/editor/viewer",
            Refusal::Forbidden => "Forbidden",
            Refusal::NotFound => "Not found",
            Refusal::LastOwnerDemote => "Cannot demote the last owner",
            Refusal::LastOwnerRemove => "Cannot remove the last owner",
            Refusal::BadKbName => "Name must be 1-64 characters",
            Refusal::BadKbKind => "kind must be 'knowledge' or 'memory'",
        }
    }
}

// ---------------------------------------------------------------------------
// Registration and profile
// ---------------------------------------------------------------------------

pub struct RegisterReq {
    pub email: String,
    pub password: String,
    pub display_name: String,
    pub org_name: Option<String>,
}

pub struct LoginReq {
    pub email: String,
    pub password: String,
}

pub struct UpdateMeReq {
    pub display_name: String,
}

pub struct ChangePasswordReq {
    pub current_password: String,
    pub new_password: String,
}

/// An email address has an `@` and at most 254 bytes.
pub open spec fn email_ok(email: Seq<char>) -> bool {
    email.contains('@') && utf8_len(email) <= 254
}

/// A password has at least eight characters.
pub open spec fn password_ok(password: Seq<char>) -> bool {
    password.len() >= 8
}

/// A display name is not blank and has at most 64 characters.
pub open spec fn display_name_ok(name: Seq<char>) -> bool {
    trim_seq(name).len() > 0 && name.len() <= 64
}

fn check_email(email: &str) -> (r: bool)
    ensures
        r == email_ok(email@),
{
    has_char(email, '@') && utf8_len_within(email, 254)
}

fn check_display_name(name: &str) -> (r: bool)
    ensures
        r == display_name_ok(name@),
{
    let t = trim_str(name);
    t.unicode_len() > 0 && name.unicode_len() <= 64
}

/// What a registration must look like: the email first, then the password,
/// then the display name.
pub open spec fn register_verdict(
    email: Seq<char>,
    password: Seq<char>,
    display_name: Seq<char>,
) -> Result<(), Refusal> {
    if !email_ok(email) {
        Err(Refusal::BadEmail)
    } else if !password_ok(password) {
        Err(Refusal::PasswordTooShort)
    } else if !display_name_ok(display_name) {
        Err(Refusal::BadDisplayName)
    } else {
        Ok(())
    }
}

pub fn validate_register(req: &RegisterReq) -> (r: Result<(), Refusal>)
    ensures
        r == register_verdict(req.email@, req.password@, req.display_name@),
{
    if !check_email(req.email.as_str()) {
        return Err(Refusal::BadEmail);
    }
    if req.password.as_str().unicode_len() < 8 {
        return Err(Refusal::PasswordTooShort);
    }
    if !check_display_name(req.display_name.as_str()) {
        return Err(Refusal::BadDisplayName);
    }
    Ok(())
}

/// The organisation a registration names: its trimmed name, when there is one
/// that is not blank.
pub fn org_name(req: &RegisterReq) -> (r: Option<String>)
    ensures
        match &req.org_name {
            None => r is None,
            Some(n) => if trim_seq(n@).len() == 0 {
                r is None
            } else {
                r matches Some(o) && o@ == trim_seq(n@)
            },
        },
{
    match &req.org_name {
        None => None,
        Some(n) => {
            let t = trim_str(n.as_str());
            if t.unicode_len() == 0 {
                None
            } else {
                Some(t)
            }
        },
    }
}

/// A new display name: trimmed, then 1 to 64 characters.
pub fn new_display_name(req: &UpdateMeReq) -> (r: Result<String, Refusal>)
    ensures
        match r {
            Ok(n) => n@ == trim_seq(req.display_name@) && 0 < n@.len() <= 64,
            Err(e) => e == Refusal::BadDisplayName && !(0 < trim_seq(req.display_name@).len()
                <= 64),
        },
{
    let t = trim_str(req.display_name.as_str());
    let n = t.unicode_len();
    if n == 0 || n > 64 {
        return Err(Refusal::BadDisplayName);
    }
    Ok(t)
}

/// A password change: the current password must have been verified (by the
/// caller, against the stored hash), then the new one must be long enough.
pub fn password_change_verdict(req: &ChangePasswordReq, current_verified: bool) -> (r: Result<
    (),
    Refusal,
>)
    ensures
        !current_verified ==> r == Err::<(), Refusal>(Refusal::WrongPassword),
        current_verified && !password_ok(req.new_password@) ==> r == Err::<(), Refusal>(
            Refusal::PasswordTooShort,
        ),
        current_verified && password_ok(req.new_password@) ==> r is Ok,
{
    if !current_verified {
        return Err(Refusal::WrongPassword);
    }
    if req.new_password.as_str().unicode_len() < 8 {
        return Err(Refusal::PasswordTooShort);
    }
    Ok(())
}

// ---------------------------------------------------------------------------
// Users an admin creates
// ---------------------------------------------------------------------------

pub struct CreateUserReq {
    pub email: String,
    pub display_name: String,
    pub password: String,
    pub role: Option<String>,
}

/// What an admin's new user must look like, and the role it gets (`editor` when
/// none is named; the owner role cannot be given this way).
pub open spec fn create_user_verdict(
    email: Seq<char>,
    password: Seq<char>,
    display_name: Seq<char>,
    role: Option<Seq<char>>,
) -> Result<Role, Refusal> {
    if !email_ok(email) {
        Err(Refusal::BadEmail)
    } else if !password_ok(password) {
        Err(Refusal::PasswordTooShort)
    } else if !display_name_ok(display_name) {
        Err(Refusal::BadDisplayName)
    } else {
        let name = match role {
            Some(r) => r,
            None => "editor"@,
        };
        if name == "admin"@ {
            Ok(Role::Admin)
        } else if name == "editor"@ {
            Ok(Role::Editor)
        } else if name == "viewer"@ {
            Ok(Role::Viewer)
        } else {
            Err(Refusal::BadRole)
        }
    }
}

pub fn validate_create_user(req: &CreateUserReq) -> (r: Result<Role, Refusal>)
    ensures
        r == create_user_verdict(
            req.email@,
            req.password@,
            req.display_name@,
            match &req.role {
                Some(s) => Some(s@),
                None => None,
            },
        ),
{
    if !check_email(req.email.as_str()) {
        return Err(Refusal::BadEmail);
    }
    if req.password.as_str().unicode_len() < 8 {
        return Err(Refusal::PasswordTooShort);
    }
    if !check_display_name(req.display_name.as_str()) {
        return Err(Refusal::BadDisplayName);
    }
    let name: &str = match &req.role {
        Some(s) => s.as_str(),
        None => "editor",
    };
    if str_eq(name, "admin") {
        Ok(Role::Admin)
    } else if str_eq(name, "editor") {
        Ok(Role::Editor)
    } else if str_eq(name, "viewer") {
        Ok(Role::Viewer)
    } else {
        Err(Refusal::BadRole)
    }
}

// ---------------------------------------------------------------------------
// Workspace roles
// ---------------------------------------------------------------------------

pub struct SetRoleReq {
    pub role: String,
}

/// Whether a role change may happen. Whoever makes or unmakes an owner must be
/// an owner, and the last owner cannot be demoted. `caller` is the caller's
/// role (at least admin, checked before), `target` the member's current role,
/// `owners` how many owners the workspace has.
pub open spec fn set_role_verdict(new_role: Role, caller: Role, target: Option<Role>, owners: int) -> Result<
    (),
    Refusal,
> {
    let touches_owner = new_role == Role::Owner || target == Some(Role::Owner);
    if touches_owner && caller != Role::Owner {
        Err(Refusal::Forbidden)
    } else if target == Some(Role::Owner) && new_role != Role::Owner && owners <= 1 {
        Err(Refusal::LastOwnerDemote)
    } else {
        Ok(())
    }
}

pub fn decide_set_role(new_role: Role, caller: Role, target: Option<Role>, owners: i64) -> (r: Result<
    (),
    Refusal,
>)
    ensures
        r == set_role_verdict(new_role, caller, target, owners as int),
{
    let touches_owner = new_role == Role::Owner || target == Some(Role::Owner);
    if touches_owner && caller != Role::Owner {
        return Err(Refusal::Forbidden);
    }
    if target == Some(Role::Owner) && new_role != Role::Owner && owners <= 1 {
        return Err(Refusal::LastOwnerDemote);
    }
    Ok(())
}

/// The role a role change names.
pub fn requested_role(req: &SetRoleReq) -> (r: Result<Role, Refusal>)
    ensures
        match role_named(req.role@) {
            Some(x) => r == Ok::<Role, Refusal>(x),
            None => r == Err::<Role, Refusal>(Refusal::BadMemberRole),
        },
{
    match Role::parse(req.role.as_str()) {
        Some(x) => Ok(x),
        None => Err(Refusal::BadMemberRole),
    }
}

/// Whether a member may be removed: only an owner removes an owner, and the
/// last owner stays. `target` is `None` when the user is not a member.
pub open spec fn remove_verdict(caller: Role, target: Option<Role>, owners: int) -> Result<
    (),
    Refusal,
> {
    match target {
        None => Err(Refusal::NotFound),
        Some(t) => if t == Role::Owner && caller != Role::Owner {
            Err(Refusal::Forbidden)
        } else if t == Role::Owner && owners <= 1 {
            Err(Refusal::LastOwnerRemove)
        } else {
            Ok(())
        },
    }
}

pub fn decide_remove(caller: Role, target: Option<Role>, owners: i64) -> (r: Result<(), Refusal>)
    ensures
        r == remove_verdict(caller, target, owners as int),
{
    match target {
        None => Err(Refusal::NotFound),
        Some(t) => {
            if t == Role::Owner && caller != Role::Owner {
                Err(Refusal::Forbidden)
            } else if t == Role::Owner && owners <= 1 {
                Err(Refusal::LastOwnerRemove)
            } else {
                Ok(())
            }
        },
    }
}

/// A workspace never loses its last owner: while it has at most one, its owner
/// can be neither demoted nor removed, whoever asks.
pub proof fn law_last_owner_stays(caller: Role, new_role: Role, owners: int)
    requires
        owners <= 1,
        new_role != Role::Owner,
    ensures
        set_role_verdict(new_role, caller, Some(Role::Owner), owners) is Err,
        remove_verdict(caller, Some(Role::Owner), owners) is Err,
{
}

/// Removing a member who is not an owner is always allowed, whoever asks
/// (the route has already required an admin) and however many owners there
/// are; removing an owner takes an owner, and leaves at least one behind.
pub proof fn law_only_owners_are_guarded(caller: Role, target: Role, owners: int)
    ensures
        target != Role::Owner ==> remove_verdict(caller, Some(target), owners) == Ok::<(), Refusal>(()),
        remove_verdict(caller, Some(Role::Owner), owners) is Ok <==> caller == Role::Owner && owners >= 2,
{
}

/// Only an owner makes an owner or changes an owner's role.
pub proof fn law_only_owners_touch_owners(
    new_role: Role,
    caller: Role,
    target: Option<Role>,
    owners: int,
)
    requires
        caller != Role::Owner,
        new_role == Role::Owner || target == Some(Role::Owner),
    ensures
        set_role_verdict(new_role, caller, target, owners) == Err::<(), Refusal>(
            Refusal::Forbidden,
        ),
        target == Some(Role::Owner) ==> remove_verdict(caller, target, owners) == Err::<
            (),
            Refusal,
        >(Refusal::Forbidden),
{
}

// ---------------------------------------------------------------------------
// Knowledge bases
// ---------------------------------------------------------------------------

pub struct CreateKbReq {
    pub name: String,
    pub kind: Option<String>,
    pub description: Option<String>,
    pub visibility: Option<String>,
}

pub struct UpdateKbReq {
    pub name: Option<String>,
    pub description: Option<String>,
    pub visibility: Option<String>,
}

pub struct SetMemberReq {
    pub role: String,
}

/// A new knowledge base: its name trimmed to 1-64 characters, its kind
/// `knowledge` (the default) or `memory`.
pub open spec fn kb_verdict(name: Seq<char>, kind: Option<Seq<char>>) -> Result<
    (Seq<char>, Seq<char>),
    Refusal,
> {
    let n = trim_seq(name);
    let k = match kind {
        Some(k) => k,
        None => "knowledge"@,
    };
    if n.len() == 0 || n.len() > 64 {
        Err(Refusal::BadKbName)
    } else if k != "knowledge"@ && k != "memory"@ {
        Err(Refusal::BadKbKind)
    } else {
        Ok((n, k))
    }
}

/// The name and kind a new knowledge base gets.
pub fn validate_new_kb(req: &CreateKbReq) -> (r: Result<(String, String), Refusal>)
    ensures
        match r {
            Ok((n, k)) => kb_verdict(
                req.name@,
                match &req.kind {
                    Some(k) => Some(k@),
                    None => None,
                },
            ) == Ok::<(Seq<char>, Seq<char>), Refusal>((n@, k@)),
            Err(e) => kb_verdict(
                req.name@,
                match &req.kind {
                    Some(k) => Some(k@),
                    None => None,
                },
            ) == Err::<(Seq<char>, Seq<char>), Refusal>(e),
        },
{
    let n = trim_str(req.name.as_str());
    let len = n.unicode_len();
    if len == 0 || len > 64 {
        return Err(Refusal::BadKbName);
    }
    let kind: &str = match &req.kind {
        Some(k) => k.as_str(),
        None => "knowledge",
    };
    if !str_eq(kind, "knowledge") && !str_eq(kind, "memory") {
        return Err(Refusal::BadKbKind);
    }
    let k = crate::text::string_of(&chars_of(kind));
    Ok((n, k))
}

/// Who may create a knowledge base in a workspace: a site admin, or an admin
/// (or owner) of the workspace.
pub fn may_create_kb(is_site_admin: bool, workspace_role: Role) -> (r: bool)
    ensures
        r == (is_site_admin || rank(workspace_role) >= rank(Role::Admin)),
{
    is_site_admin || workspace_role.at_least(Role::Admin)
}

// ---------------------------------------------------------------------------
// Personal tokens
// ---------------------------------------------------------------------------

pub struct IssueReq {
    pub name: String,
    pub scope: String,
    pub kb_ids: Option<Vec<Uuid>>,
    pub expires_in_days: i64,
}

/// The scope a token gets when none is asked for.
pub fn default_scope() -> (s: String)
    ensures
        s@ == "read"@,
{
    crate::text::string_of(&chars_of("read"))
}

/// How long a token lives when nothing is asked for: ninety days.
pub fn default_days() -> (d: i64)
    ensures
        d == 90,
{
    90
}

impl IssueReq {
    /// For how many days the token lives; `None` (no expiry) when the request
    /// asks for zero days or fewer.
    pub fn lifetime_days(&self) -> (r: Option<i64>)
        ensures
            self.expires_in_days > 0 ==> r == Some(self.expires_in_days),
            self.expires_in_days <= 0 ==> r is None,
    {
        if self.expires_in_days > 0 {
            Some(self.expires_in_days)
        } else {
            None
        }
    }
}

} // verus!
