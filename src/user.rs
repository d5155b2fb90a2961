//! Accounts, credentials, translated resources and the settings exchanged
//! with administrators.
use vstd::prelude::*;
use crate::country::Country;
use crate::policy::{PasswordRequirements, UsernameRequirements};

verus! {

/// A user account. Times are Unix seconds.
#[derive(Clone, Debug, PartialEq)]
pub struct UserData {
    pub id: i32,
    pub name: String,
    pub role: RoleData,
    pub confirmed: bool,
    pub created_at: i64,
    pub deleted_at: Option<i64>,
}

/// A user's role.
#[derive(Clone, Copy, Debug, PartialEq, Eq, Structural)]
pub enum RoleData {
    User,
    Admin,
}

impl RoleData {
    /// The role's name: "User" or "Admin".
    pub fn name(&self) -> (r: &'static str)
        ensures
            *self == RoleData::User ==> r@ == "User"@,
            *self == RoleData::Admin ==> r@ == "Admin"@,
    {
        match self {
            RoleData::User => "User",
            RoleData::Admin => "Admin",
        }
    }
}

/// A name and password, as a user submits them.
#[derive(Clone, Debug, PartialEq)]
pub struct Credentials {
    pub name: String,
    pub password: String,
}

/// A translation pair under a key.
#[derive(Clone, Debug, PartialEq)]
pub struct ResourceData {
    pub key: String,
    pub en: Option<String>,
    pub pl: Option<String>,
}

impl ResourceData {
    /// The resource with `value` on the side of `lang` and nothing on the other.
    pub fn new_from_lang(key: String, lang: &Country, value: String) -> (r: ResourceData)
        ensures
            r.key == key,
            *lang == Country::UnitedKingdom ==> r.en == Some(value) && r.pl is None,
            *lang == Country::Poland ==> r.pl == Some(value) && r.en is None,
    {
        match lang {
            Country::UnitedKingdom => ResourceData { key, en: Some(value), pl: None },
            Country::Poland => ResourceData { key, en: None, pl: Some(value) },
        }
    }
}

/// The account policies as an administrator edits them; every field may be
/// absent.
#[derive(Clone, Debug, PartialEq)]
pub struct UserSettingsDto {
    pub name_min_length: Option<i32>,
    pub name_max_length: Option<i32>,
    pub name_special_characters: Option<String>,
    pub password_min_length: Option<i32>,
    pub password_needed_checks: Option<i32>,
    pub password_check_numbers: Option<bool>,
    pub password_check_uppercase: Option<bool>,
    pub password_check_lowercase: Option<bool>,
    pub password_check_special_characters: Option<bool>,
}

/// Every field of the settings is present.
pub open spec fn settings_complete(s: UserSettingsDto) -> bool {
    &&& s.name_min_length is Some
    &&& s.name_max_length is Some
    &&& s.name_special_characters is Some
    &&& s.password_min_length is Some
    &&& s.password_needed_checks is Some
    &&& s.password_check_numbers is Some
    &&& s.password_check_uppercase is Some
    &&& s.password_check_lowercase is Some
    &&& s.password_check_special_characters is Some
}

impl Default for UserSettingsDto {
    fn default() -> (r: UserSettingsDto)
        ensures
            r.name_min_length is None && r.name_max_length is None && r.name_special_characters is None,
            r.password_min_length is None && r.password_needed_checks is None,
            r.password_check_numbers is None && r.password_check_uppercase is None,
            r.password_check_lowercase is None && r.password_check_special_characters is None,
    {
        UserSettingsDto {
            name_min_length: None,
            name_max_length: None,
            name_special_characters: None,
            password_min_length: None,
            password_needed_checks: None,
            password_check_numbers: None,
            password_check_uppercase: None,
            password_check_lowercase: None,
            password_check_special_characters: None,
        }
    }
}

impl UserSettingsDto {
    /// The settings of two policies, every field present.
    pub fn from_requirements(username: UsernameRequirements, password: PasswordRequirements) -> (r: UserSettingsDto)
        ensures
            r.name_min_length == Some(username.min_length),
            r.name_max_length == Some(username.max_length),
            r.name_special_characters == Some(username.special_chars),
            r.password_min_length == Some(password.min_length),
            r.password_needed_checks == Some(password.passes_required),
            r.password_check_numbers == Some(password.numbers),
            r.password_check_uppercase == Some(password.uppercase),
            r.password_check_lowercase == Some(password.lowercase),
            r.password_check_special_characters == Some(password.special),
    {
        UserSettingsDto {
            name_min_length: Some(username.min_length),
            name_max_length: Some(username.max_length),
            name_special_characters: Some(username.special_chars),
            password_min_length: Some(password.min_length),
            password_needed_checks: Some(password.passes_required),
            password_check_numbers: Some(password.numbers),
            password_check_uppercase: Some(password.uppercase),
            password_check_lowercase: Some(password.lowercase),
            password_check_special_characters: Some(password.special),
        }
    }

    /// The two policies, when every field is present; `Err(())` otherwise.
    pub fn into_requirements(self) -> (r: Result<(UsernameRequirements, PasswordRequirements), ()>)
        ensures
            settings_complete(self) <==> r is Ok,
            r matches Ok((u, p)) ==> {
                &&& self.name_min_length == Some(u.min_length)
                &&& self.name_max_length == Some(u.max_length)
                &&& self.name_special_characters == Some(u.special_chars)
                &&& self.password_min_length == Some(p.min_length)
                &&& self.password_needed_checks == Some(p.passes_required)
                &&& self.password_check_numbers == Some(p.numbers)
                &&& self.password_check_uppercase == Some(p.uppercase)
                &&& self.password_check_lowercase == Some(p.lowercase)
                &&& self.password_check_special_characters == Some(p.special)
            },
    {
        let name_min = match self.name_min_length { Some(v) => v, None => { return Err(()); } };
        let name_max = match self.name_max_length { Some(v) => v, None => { return Err(()); } };
        let special_chars = match self.name_special_characters { Some(v) => v, None => { return Err(()); } };
        let pass_min = match self.password_min_length { Some(v) => v, None => { return Err(()); } };
        let needed = match self.password_needed_checks { Some(v) => v, None => { return Err(()); } };
        let numbers = match self.password_check_numbers { Some(v) => v, None => { return Err(()); } };
        let uppercase = match self.password_check_uppercase { Some(v) => v, None => { return Err(()); } };
        let lowercase = match self.password_check_lowercase { Some(v) => v, None => { return Err(()); } };
        let special = match self.password_check_special_characters { Some(v) => v, None => { return Err(()); } };
        Ok((
            UsernameRequirements { min_length: name_min, max_length: name_max, special_chars },
            PasswordRequirements { min_length: pass_min, passes_required: needed, numbers, uppercase, lowercase, special },
        ))
    }
}

/// The response envelope: a status word and the payload.
pub struct ApiResponse<'a, T> {
    pub status: &'a str,
    pub data: T,
}

impl<'a, T> ApiResponse<'a, T> {
    /// A successful response.
    pub fn ok(data: T) -> (r: ApiResponse<'a, T>)
        ensures
            r.status@ == "success"@,
            r.data == data,
    {
        ApiResponse { status: "success", data }
    }

    /// A failed response.
    pub fn err(data: T) -> (r: ApiResponse<'a, T>)
        ensures
            r.status@ == "error"@,
            r.data == data,
    {
        ApiResponse { status: "error", data }
    }
}

} // verus!
