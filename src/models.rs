//! Payloads for creating and updating users and organizations.

use vstd::prelude::*;

verus! {

/// A user's id, a UUID as a 128-bit number.
#[derive(Clone, Copy, Debug, PartialEq, Eq, Structural)]
pub struct UserId(pub u128);

/// An organization's id, a UUID as a 128-bit number.
#[derive(Clone, Copy, Debug, PartialEq, Eq, Structural)]
pub struct OrganizationId(pub u128);

/// A role's id, a UUID as a 128-bit number.
#[derive(Clone, Copy, Debug, PartialEq, Eq, Structural)]
pub struct RoleId(pub u128);

/// The fields of a user that a create or an update sets.
pub struct UserCreatePayloadAndUpdatePayload {
    pub id: Option<UserId>,
    pub name: String,
    pub email: Option<String>,
    pub avatar_url: Option<String>,
}

impl UserCreatePayloadAndUpdatePayload {
    pub fn default_id() -> (r: Option<UserId>)
        ensures
            r is None,
    {
        None
    }

    pub fn default_name() -> (r: String)
        ensures
            r@ == Seq::<char>::empty(),
    {
        String::new()
    }

    pub fn default_email() -> (r: Option<String>)
        ensures
            r is None,
    {
        None
    }

    pub fn default_avatar_url() -> (r: Option<String>)
        ensures
            r is None,
    {
        None
    }
}

impl Default for UserCreatePayloadAndUpdatePayload {
    fn default() -> (r: Self)
        ensures
            r.id is None,
            r.name@ == Seq::<char>::empty(),
            r.email is None,
            r.avatar_url is None,
    {
        UserCreatePayloadAndUpdatePayload {
            id: Self::default_id(),
            name: Self::default_name(),
            email: Self::default_email(),
            avatar_url: Self::default_avatar_url(),
        }
    }
}

/// The fields of an organization that a create or an update sets.
pub struct OrganizationCreatePayloadAndUpdatePayload {
    pub id: Option<OrganizationId>,
    pub name: String,
    pub owner: Option<UserId>,
    pub default_role: Option<RoleId>,
}

impl OrganizationCreatePayloadAndUpdatePayload {
    pub fn default_id() -> (r: Option<OrganizationId>)
        ensures
            r is None,
    {
        None
    }

    pub fn default_name() -> (r: String)
        ensures
            r@ == Seq::<char>::empty(),
    {
        String::new()
    }

    pub fn default_owner() -> (r: Option<UserId>)
        ensures
            r is None,
    {
        None
    }

    pub fn default_default_role() -> (r: Option<RoleId>)
        ensures
            r is None,
    {
        None
    }
}

impl Default for OrganizationCreatePayloadAndUpdatePayload {
    fn default() -> (r: Self)
        ensures
            r.id is None,
            r.name@ == Seq::<char>::empty(),
            r.owner is None,
            r.default_role is None,
    {
        OrganizationCreatePayloadAndUpdatePayload {
            id: Self::default_id(),
            name: Self::default_name(),
            owner: Self::default_owner(),
            default_role: Self::default_default_role(),
        }
    }
}

} // verus!
