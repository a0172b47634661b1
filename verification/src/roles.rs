use vstd::prelude::*;
use vstd::string::StringExecFns;

verus! {

/// The text returned whenever a caller lacks the required role.
pub const FORBIDDEN_MESSAGE: &'static str = "Forbidden";

/// The text that prefixes a failure to learn the caller's role.
pub const ROLE_LOOKUP_FAILURE_PREFIX: &'static str = "Error while getting a user's role: ";

/// The text of a failed role name lookup.
pub const VARIANT_NOT_FOUND_MESSAGE: &'static str = "Matching variant not found";

/// The text of an unknown numeric role identifier.
pub const INVALID_ROLE_ID_MESSAGE: &'static str = "Invalid role id";

/// An error carrying a human readable message.
#[derive(Debug)]
pub struct CustomError {
    pub message: String,
}

impl CustomError {
    /// Builds an error whose message is `source`.
    pub fn from_message(source: &str) -> (e: CustomError)
        ensures
            e.message@ == source@,
    {
        CustomError { message: source.to_string() }
    }

    /// The display form of the error: `Custom Error: ` then the message.
    pub fn to_display_string(&self) -> (s: String)
        ensures
            s@ == "Custom Error: "@ + self.message@,
    {
        let mut s = "Custom Error: ".to_string();
        s.append(self.message.as_str());
        s
    }
}

/// The roles a user of the services may hold.
#[derive(PartialEq, Eq, Structural, Clone, Copy, Debug)]
pub enum Role {
    Master,
    Admin,
    User,
}

/// Numeric identifier of a role as stored in the users table.
pub open spec fn role_id_of(r: Role) -> i32 {
    match r {
        Role::Master => 1,
        Role::Admin => 2,
        Role::User => 3,
    }
}

/// The role a stored identifier denotes, if any.
pub open spec fn role_of_id(id: i32) -> Option<Role> {
    if id == 1 {
        Some(Role::Master)
    } else if id == 2 {
        Some(Role::Admin)
    } else if id == 3 {
        Some(Role::User)
    } else {
        None
    }
}

/// The name of a role in screaming snake case, as it travels in tokens.
pub open spec fn role_name(r: Role) -> Seq<char> {
    match r {
        Role::Master => "MASTER"@,
        Role::Admin => "ADMIN"@,
        Role::User => "USER"@,
    }
}

/// The role a name denotes; the match is exact and case sensitive.
pub open spec fn role_of_name(s: Seq<char>) -> Option<Role> {
    if s == "MASTER"@ {
        Some(Role::Master)
    } else if s == "ADMIN"@ {
        Some(Role::Admin)
    } else if s == "USER"@ {
        Some(Role::User)
    } else {
        None
    }
}

impl Role {
    pub fn to_i32(&self) -> (id: i32)
        ensures
            id == role_id_of(*self),
    {
        match self {
            Role::Master => 1,
            Role::Admin => 2,
            Role::User => 3,
        }
    }

    /// The role with the given stored identifier; any other identifier
    /// is refused with the message `Invalid role id`.
    pub fn from_i32(role_id: i32) -> (r: Result<Role, CustomError>)
        ensures
            match r {
                Ok(x) => role_of_id(role_id) == Some(x),
                Err(e) => role_of_id(role_id) is None && e.message@ == INVALID_ROLE_ID_MESSAGE@,
            },
    {
        match role_id {
            1 => Ok(Role::Master),
            2 => Ok(Role::Admin),
            3 => Ok(Role::User),
            _ => Err(CustomError::from_message(INVALID_ROLE_ID_MESSAGE)),
        }
    }

    /// The screaming snake case name of the role.
    pub fn to_string(&self) -> (s: String)
        ensures
            s@ == role_name(*self),
    {
        proof {
            reveal_strlit("MASTER");
            reveal_strlit("ADMIN");
            reveal_strlit("USER");
        }
        match self {
            Role::Master => "MASTER".to_string(),
            Role::Admin => "ADMIN".to_string(),
            Role::User => "USER".to_string(),
        }
    }

    /// Parses a role name; names that denote no role are refused with
    /// the message `Matching variant not found`.
    pub fn from_str(s: &str) -> (r: Result<Role, CustomError>)
        ensures
            match r {
                Ok(x) => role_of_name(s@) == Some(x),
                Err(e) => role_of_name(s@) is None && e.message@ == VARIANT_NOT_FOUND_MESSAGE@,
            },
    {
        let master = "MASTER";
        let admin = "ADMIN";
        let user = "USER";
        if crate::text::str_equal(s, master) {
            Ok(Role::Master)
        } else if crate::text::str_equal(s, admin) {
            Ok(Role::Admin)
        } else if crate::text::str_equal(s, user) {
            Ok(Role::User)
        } else {
            Err(CustomError::from_message(VARIANT_NOT_FOUND_MESSAGE))
        }
    }
}

/// Whether a caller whose role lookup gave `getting_role_result` may act
/// where `allowed_role` is required: only a caller holding exactly that
/// role passes; an unknown caller is forbidden; a failed lookup is
/// reported with its message.
pub open spec fn role_check_outcome(
    lookup: Result<Option<Role>, Seq<char>>,
    allowed: Role,
) -> Result<(), Seq<char>> {
    match lookup {
        Err(m) => Err(ROLE_LOOKUP_FAILURE_PREFIX@ + m),
        Ok(Some(role)) => if role == allowed {
            Ok(())
        } else {
            Err(FORBIDDEN_MESSAGE@)
        },
        Ok(None) => Err(FORBIDDEN_MESSAGE@),
    }
}

/// The role lookup outcome with each error replaced by its message.
pub open spec fn lookup_view(lookup: Result<Option<Role>, CustomError>) -> Result<
    Option<Role>,
    Seq<char>,
> {
    match lookup {
        Ok(r) => Ok(r),
        Err(e) => Err(e.message@),
    }
}

/// The outcome of a role check with each error replaced by its message.
pub open spec fn check_view(r: Result<(), CustomError>) -> Result<(), Seq<char>> {
    match r {
        Ok(u) => Ok(u),
        Err(e) => Err(e.message@),
    }
}

pub fn check_user_role_is_allowed(
    getting_role_result: &Result<Option<Role>, CustomError>,
    allowed_role: &Role,
) -> (r: Result<(), CustomError>)
    ensures
        check_view(r) == role_check_outcome(lookup_view(*getting_role_result), *allowed_role),
{
    let maybe_role = match getting_role_result {
        Ok(maybe_role) => maybe_role,
        Err(e) => {
            let mut message = ROLE_LOOKUP_FAILURE_PREFIX.to_string();
            message.append(e.message.as_str());
            return Err(CustomError { message });
        },
    };
    match maybe_role {
        Some(role) => {
            if *role == *allowed_role {
                Ok(())
            } else {
                Err(CustomError::from_message(FORBIDDEN_MESSAGE))
            }
        },
        None => Err(CustomError::from_message(FORBIDDEN_MESSAGE)),
    }
}

/// A role's stored identifier denotes that role again.
pub proof fn lemma_role_id_roundtrip(r: Role)
    ensures
        role_of_id(role_id_of(r)) == Some(r),
{
}

/// A stored identifier that denotes a role is that role's identifier.
pub proof fn lemma_role_id_unique(id: i32)
    ensures
        role_of_id(id) matches Some(r) ==> role_id_of(r) == id,
{
}

/// A role's name denotes that role again, and no two roles share a name.
pub proof fn lemma_role_name_roundtrip(r: Role)
    ensures
        role_of_name(role_name(r)) == Some(r),
{
    reveal_strlit("MASTER");
    reveal_strlit("ADMIN");
    reveal_strlit("USER");
    assert("MASTER"@.len() != "ADMIN"@.len());
    assert("MASTER"@.len() != "USER"@.len());
    assert("ADMIN"@.len() != "USER"@.len());
}

/// A name that denotes a role is that role's name.
pub proof fn lemma_role_name_unique(s: Seq<char>)
    ensures
        role_of_name(s) matches Some(r) ==> role_name(r) == s,
{
}

/// A role check passes exactly when the caller's role was found and is
/// the required one.
pub proof fn lemma_role_check_exact(lookup: Result<Option<Role>, Seq<char>>, allowed: Role)
    ensures
        role_check_outcome(lookup, allowed) is Ok <==> lookup == Ok::<Option<Role>, Seq<char>>(Some(allowed)),
{
}

} // verus!
