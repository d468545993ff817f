//! The two roles a peer can take, and what a connecting peer supplies.

use vstd::prelude::*;
use vstd::string::StringExecFns;

verus! {

/// What a peer supplies when it connects: the identifier that joins a device
/// to its mobiles.
pub struct ConnectParams {
    pub id: String,
}

/// The role of a peer. A mobile is a `Master`, a device is a `Slave`.
#[derive(Clone, Copy, Debug, PartialEq, Eq, Structural)]
pub enum ClientType {
    Master,
    Slave,
}

impl ClientType {
    /// The role that messages from `self` are routed to.
    pub open spec fn spec_opposite(self) -> ClientType {
        match self {
            ClientType::Master => ClientType::Slave,
            ClientType::Slave => ClientType::Master,
        }
    }

    /// The role's printed name.
    pub open spec fn spec_name(self) -> Seq<char> {
        match self {
            ClientType::Master => "Master"@,
            ClientType::Slave => "Slave"@,
        }
    }

    /// The direction of a message sent by `self`, as it is printed.
    pub open spec fn spec_direction(self) -> Seq<char> {
        match self {
            ClientType::Master => "Master -> Slave"@,
            ClientType::Slave => "Slave -> Master"@,
        }
    }

    /// The path under which peers of this role connect.
    pub open spec fn spec_endpoint(self) -> Seq<char> {
        match self {
            ClientType::Master => "/pair"@,
            ClientType::Slave => "/register"@,
        }
    }

    #[verifier::when_used_as_spec(spec_opposite)]
    pub fn opposite(self) -> (r: ClientType)
        ensures
            r == self.spec_opposite(),
    {
        match self {
            ClientType::Master => ClientType::Slave,
            ClientType::Slave => ClientType::Master,
        }
    }

    pub fn name(&self) -> (r: String)
        ensures
            r@ == self.spec_name(),
    {
        match self {
            ClientType::Master => String::from_str("Master"),
            ClientType::Slave => String::from_str("Slave"),
        }
    }

    pub fn endpoint(&self) -> (r: &'static str)
        ensures
            r@ == self.spec_endpoint(),
    {
        match self {
            ClientType::Master => "/pair",
            ClientType::Slave => "/register",
        }
    }

    pub fn direction(&self) -> (r: &'static str)
        ensures
            r@ == self.spec_direction(),
    {
        match self {
            ClientType::Master => "Master -> Slave",
            ClientType::Slave => "Slave -> Master",
        }
    }
}

/// The opposite of the opposite role is the role itself, and never the role.
pub proof fn lemma_opposite_involution(role: ClientType)
    ensures
        role.opposite().opposite() == role,
        role.opposite() != role,
{
}

} // verus!
