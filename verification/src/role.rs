//! The roles of the service's users.

use vstd::prelude::*;

verus! {

/// A user's role. Roles are stored and carried in tokens by their number.
#[derive(Debug, Copy, Clone, Eq, PartialEq, Structural)]
pub enum Role {
    /// Number 1.
    Admin,
    /// Number 2.
    Hr,
    /// Number 3.
    Employee,
    /// Number 4.
    System,
    /// Number 5.
    ApiUser,
}

impl Role {
    /// The number of a role.
    pub open spec fn spec_id(self) -> u8 {
        match self {
            Role::Admin => 1,
            Role::Hr => 2,
            Role::Employee => 3,
            Role::System => 4,
            Role::ApiUser => 5,
        }
    }

    /// The role with a given number, if there is one.
    pub open spec fn spec_from_id(id: u8) -> Option<Role> {
        if id == 1 {
            Some(Role::Admin)
        } else if id == 2 {
            Some(Role::Hr)
        } else if id == 3 {
            Some(Role::Employee)
        } else if id == 4 {
            Some(Role::System)
        } else if id == 5 {
            Some(Role::ApiUser)
        } else {
            None
        }
    }

    /// The role with a given number; `None` for a number that names none.
    pub fn from_id(id: u8) -> (role: Option<Self>)
        ensures
            role == Role::spec_from_id(id),
    {
        match id {
            1 => Some(Role::Admin),
            2 => Some(Role::Hr),
            3 => Some(Role::Employee),
            4 => Some(Role::System),
            5 => Some(Role::ApiUser),
            _ => None,
        }
    }

    /// The number of a role.
    pub fn id(&self) -> (id: u8)
        ensures
            id == self.spec_id(),
    {
        match self {
            Role::Admin => 1,
            Role::Hr => 2,
            Role::Employee => 3,
            Role::System => 4,
            Role::ApiUser => 5,
        }
    }
}

/// Numbers and roles correspond one to one: a role's number names that role,
/// and exactly the numbers 1 to 5 name a role.
pub proof fn lemma_role_numbers(role: Role, id: u8)
    ensures
        Role::spec_from_id(role.spec_id()) == Some(role),
        Role::spec_from_id(id).is_some() <==> 1 <= id <= 5,
        Role::spec_from_id(id) matches Some(r) ==> r.spec_id() == id,
{
}

} // verus!
