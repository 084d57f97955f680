//! The user's cooking profile: languages and countries to choose from, the
//! appliances and cookware the user owns, the global search preferences,
//! and the request bodies that change them.
use vstd::prelude::*;
use crate::error::{field_error, validation_result, AppError};

verus! {

/// A language the user can choose.
pub struct LanguageRow {
    pub id: i32,
    pub code: String,
    pub name: String,
}

/// A country the user can choose.
pub struct CountryRow {
    pub id: i32,
    pub code: String,
    pub name: String,
}

/// A kitchen appliance of a user.
pub struct ApplianceRow {
    pub id: i32,
    pub name: String,
    pub description: Option<String>,
    pub user_id: i32,
}

/// A piece of cookware of a user.
pub struct CookwareRow {
    pub id: i32,
    pub name: String,
    pub description: Option<String>,
    pub user_id: i32,
}

/// The body that sets the user's global search preferences.
pub struct GlobalPreferencesDto {
    pub preference: Option<String>,
    pub country_of_residence_id: Option<i32>,
    pub language_id: Option<i32>,
}

/// The global search preferences, with the country and language spelled out.
pub struct GlobalPreferencesResponse {
    pub preference: Option<String>,
    pub country: Option<CountryRow>,
    pub language: Option<LanguageRow>,
}

impl CountryRow {
    /// The country of a joined query row, present only when all three of
    /// its columns are.
    pub fn from_columns(id: Option<i32>, code: Option<String>, name: Option<String>) -> (r: Option<
        CountryRow,
    >)
        ensures
            match (id, code, name) {
                (Some(i), Some(c), Some(n)) => r == Some(CountryRow { id: i, code: c, name: n }),
                _ => r is None,
            },
    {
        match (id, code, name) {
            (Some(id), Some(code), Some(name)) => Some(CountryRow { id, code, name }),
            _ => None,
        }
    }
}

impl LanguageRow {
    /// The language of a joined query row, present only when all three of
    /// its columns are.
    pub fn from_columns(id: Option<i32>, code: Option<String>, name: Option<String>) -> (r: Option<
        LanguageRow,
    >)
        ensures
            match (id, code, name) {
                (Some(i), Some(c), Some(n)) => r == Some(LanguageRow { id: i, code: c, name: n }),
                _ => r is None,
            },
    {
        match (id, code, name) {
            (Some(id), Some(code), Some(name)) => Some(LanguageRow { id, code, name }),
            _ => None,
        }
    }
}

/// The check every name-and-description body makes: the name must not be
/// empty.
pub open spec fn name_is_valid(name: Seq<char>) -> bool {
    name.len() > 0
}

/// The error for an empty name.
pub open spec fn empty_name_error(e: AppError) -> bool {
    e matches AppError::UnprocessableEntity(m) && m@ == field_error("name"@, "name must not be empty"@)
}

/// Checks a name-and-description body.
fn validate_name(name: &String) -> (r: Result<(), AppError>)
    ensures
        name_is_valid(name@) ==> r is Ok,
        !name_is_valid(name@) ==> (r matches Err(e) && empty_name_error(e)),
{
    proof {
        reveal_strlit("name");
    }
    let checks: Vec<(bool, &str, &str)> = vec![(!name.as_str().is_empty(), "name", "name must not be empty")];
    let r = validation_result(&checks);
    proof {
        if !name_is_valid(name@) {
            let v = crate::error::checks_view(checks@);
            assert(v.drop_last() =~= Seq::empty());
            assert(crate::error::field_errors(v.drop_last()) == Seq::<char>::empty());
            assert(v.last() == (false, "name"@, "name must not be empty"@));
        }
    }
    r
}

/// The body that adds an appliance.
pub struct CreateApplianceDto {
    pub name: String,
    pub description: Option<String>,
}

/// The body that changes an appliance.
pub struct UpdateApplianceDto {
    pub name: String,
    pub description: Option<String>,
}

/// The body that adds a piece of cookware.
pub struct CreateCookwareDto {
    pub name: String,
    pub description: Option<String>,
}

/// The body that changes a piece of cookware.
pub struct UpdateCookwareDto {
    pub name: String,
    pub description: Option<String>,
}

impl CreateApplianceDto {
    /// The name must not be empty.
    pub fn validate(&self) -> (r: Result<(), AppError>)
        ensures
            name_is_valid(self.name@) ==> r is Ok,
            !name_is_valid(self.name@) ==> (r matches Err(e) && empty_name_error(e)),
    {
        validate_name(&self.name)
    }
}

impl UpdateApplianceDto {
    /// The name must not be empty.
    pub fn validate(&self) -> (r: Result<(), AppError>)
        ensures
            name_is_valid(self.name@) ==> r is Ok,
            !name_is_valid(self.name@) ==> (r matches Err(e) && empty_name_error(e)),
    {
        validate_name(&self.name)
    }
}

impl CreateCookwareDto {
    /// The name must not be empty.
    pub fn validate(&self) -> (r: Result<(), AppError>)
        ensures
            name_is_valid(self.name@) ==> r is Ok,
            !name_is_valid(self.name@) ==> (r matches Err(e) && empty_name_error(e)),
    {
        validate_name(&self.name)
    }
}

impl UpdateCookwareDto {
    /// The name must not be empty.
    pub fn validate(&self) -> (r: Result<(), AppError>)
        ensures
            name_is_valid(self.name@) ==> r is Ok,
            !name_is_valid(self.name@) ==> (r matches Err(e) && empty_name_error(e)),
    {
        validate_name(&self.name)
    }
}

impl GlobalPreferencesDto {
    /// The preferences body has no field checks: it is always valid.
    pub fn validate(&self) -> (r: Result<(), AppError>)
        ensures
            r is Ok,
    {
        Ok(())
    }
}

} // verus!
