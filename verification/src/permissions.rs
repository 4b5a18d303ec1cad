//! Permissions of users on buckets, and the cache keys under which they are
//! kept.  A user id is the 128-bit value of its UUID.
use vstd::arithmetic::power2::pow2;
use vstd::prelude::*;
use vstd::string::*;

verus! {

/// The permissions that the service grants.
#[derive(Debug, Clone, Copy, PartialEq, Eq, Structural)]
pub enum Permissions {
    Put,
    Get,
    Delete,
    Read,
}

impl Permissions {
    pub open spec fn spec_from_text(value: Seq<char>) -> Permissions {
        if value == "Put"@ {
            Permissions::Put
        } else if value == "Get"@ {
            Permissions::Get
        } else if value == "Delete"@ {
            Permissions::Delete
        } else {
            Permissions::Read
        }
    }

    /// Reads a permission by name; an unknown name reads as `Read`.
    pub fn from_text(value: &str) -> (p: Permissions)
        ensures
            p == Self::spec_from_text(value@),
    {
        if crate::text::str_eq(value, "Put") {
            Permissions::Put
        } else if crate::text::str_eq(value, "Get") {
            Permissions::Get
        } else if crate::text::str_eq(value, "Delete") {
            Permissions::Delete
        } else {
            Permissions::Read
        }
    }
}

/// A permission of a user.
#[derive(Debug, Clone, Copy, PartialEq, Eq, Structural)]
pub enum PermissionsUser {
    Put,
    Get,
    Read,
    Delete,
}

impl PermissionsUser {
    /// The same permission.
    pub fn from_permissions(value: Permissions) -> (p: PermissionsUser)
        ensures
            value == Permissions::Put ==> p == PermissionsUser::Put,
            value == Permissions::Get ==> p == PermissionsUser::Get,
            value == Permissions::Delete ==> p == PermissionsUser::Delete,
            value == Permissions::Read ==> p == PermissionsUser::Read,
    {
        match value {
            Permissions::Put => PermissionsUser::Put,
            Permissions::Get => PermissionsUser::Get,
            Permissions::Delete => PermissionsUser::Delete,
            Permissions::Read => PermissionsUser::Read,
        }
    }

    pub open spec fn text(self) -> Seq<char> {
        match self {
            PermissionsUser::Put => "Put"@,
            PermissionsUser::Get => "Get"@,
            PermissionsUser::Delete => "Delete"@,
            PermissionsUser::Read => "Read"@,
        }
    }

    /// The text that `Display` shows: the name of the permission.
    pub fn message(&self) -> (s: &'static str)
        ensures
            s@ == self.text(),
    {
        match self {
            PermissionsUser::Put => "Put",
            PermissionsUser::Get => "Get",
            PermissionsUser::Delete => "Delete",
            PermissionsUser::Read => "Read",
        }
    }
}

/// A permission read back by its name is the same permission.
pub proof fn lemma_permission_names_round_trip(p: PermissionsUser)
    ensures
        PermissionsUser::from_permissions_spec(Permissions::spec_from_text(p.text())) == p,
{
    reveal_strlit("Put");
    reveal_strlit("Get");
    reveal_strlit("Delete");
    reveal_strlit("Read");
    assert("Get"@[0] != "Put"@[0]);
    assert("Delete"@.len() != "Put"@.len() && "Delete"@.len() != "Get"@.len());
    assert("Read"@.len() != "Put"@.len() && "Read"@.len() != "Get"@.len() && "Read"@.len()
        != "Delete"@.len());
}

impl PermissionsUser {
    pub open spec fn from_permissions_spec(value: Permissions) -> PermissionsUser {
        match value {
            Permissions::Put => PermissionsUser::Put,
            Permissions::Get => PermissionsUser::Get,
            Permissions::Delete => PermissionsUser::Delete,
            Permissions::Read => PermissionsUser::Read,
        }
    }
}

/// The lowercase hexadecimal digit of `d`.
pub open spec fn hex_digit(d: nat) -> char {
    if d < 10 {
        ((d + 48) as u8) as char
    } else {
        ((d + 87) as u8) as char
    }
}

/// The `k`-th hexadecimal digit of `id`, most significant first.
pub open spec fn nibble(id: u128, k: int) -> nat {
    ((id as nat) / pow2((4 * (31 - k)) as nat)) % 16
}

/// The hyphenated lowercase text of a UUID: 32 hexadecimal digits in
/// groups of 8, 4, 4, 4 and 12 separated by `-`.
pub open spec fn uuid_text(id: u128) -> Seq<char> {
    Seq::new(
        36,
        |i: int|
            if i == 8 || i == 13 || i == 18 || i == 23 {
                '-'
            } else {
                let k = if i < 8 {
                    i
                } else if i < 13 {
                    i - 1
                } else if i < 18 {
                    i - 2
                } else if i < 23 {
                    i - 3
                } else {
                    i - 4
                };
                hex_digit(nibble(id, k))
            },
    )
}

/// Calls `Uuid::from_u128(id).to_string()`, which writes the UUID in its
/// hyphenated lowercase form.
#[verifier::external_body]
fn uuid_string(id: u128) -> (s: String)
    ensures
        s@ == uuid_text(id),
{
    uuid::Uuid::from_u128(id).to_string()
}

/// The cache key of the permissions of `user` on `bucket`.
pub open spec fn permissions_key_text(user: u128, bucket: Seq<char>) -> Seq<char> {
    "user:"@ + uuid_text(user) + ":bucket:"@ + bucket
}

/// The cache key of the role of `user`.
pub open spec fn role_key_text(user: u128) -> Seq<char> {
    "user:"@ + uuid_text(user) + ":role"@
}

/// `user:<uuid>:bucket:<bucket>`.
pub fn permissions_key(user: u128, bucket: &str) -> (k: String)
    ensures
        k@ == permissions_key_text(user, bucket@),
{
    let id = uuid_string(user);
    "user:".to_owned().concat(id.as_str()).concat(":bucket:").concat(bucket)
}

/// `user:<uuid>:role`.
pub fn role_key(user: u128) -> (k: String)
    ensures
        k@ == role_key_text(user),
{
    let id = uuid_string(user);
    "user:".to_owned().concat(id.as_str()).concat(":role")
}

} // verus!
