use vstd::prelude::*;

use crate::error::ServeError;

verus! {

/// The only protocol version this engine speaks.
pub const FORK_00: u64 = 0xff0bad00;

/// The role an endpoint asks for in the handshake.
#[derive(Debug, Clone, Copy, PartialEq, Eq, Structural)]
pub enum Role {
    Publisher,
    Subscriber,
    Both,
    Any,
}

/// The role agreed on when the server offers `server` and the client asks for `client`.
pub open spec fn downgrade_spec(server: Role, client: Role) -> Option<Role> {
    match (server, client) {
        (Role::Publisher, Role::Subscriber) => None,
        (Role::Subscriber, Role::Publisher) => None,
        (Role::Any, Role::Any) => None,
        (Role::Publisher, _) => Some(Role::Publisher),
        (Role::Subscriber, _) => Some(Role::Subscriber),
        (Role::Both, c) => match c {
            Role::Any => Some(Role::Both),
            _ => Some(c),
        },
        (Role::Any, c) => Some(c),
    }
}

/// The value a role has as a handshake extension.
pub open spec fn role_code(r: Role) -> u64 {
    match r {
        Role::Publisher => 1,
        Role::Subscriber => 2,
        Role::Both => 3,
        Role::Any => 4,
    }
}

impl Default for Role {
    fn default() -> (r: Self)
        ensures
            r == Role::Any,
    {
        Role::Any
    }
}

impl Role {
    /// The effective role when `self` is the server's and `client` the client's.
    pub fn downgrade(self, client: Role) -> (r: Option<Role>)
        ensures
            r == downgrade_spec(self, client),
    {
        match (self, client) {
            (Role::Publisher, Role::Subscriber) => None,
            (Role::Subscriber, Role::Publisher) => None,
            (Role::Any, Role::Any) => None,
            (Role::Publisher, _) => Some(Role::Publisher),
            (Role::Subscriber, _) => Some(Role::Subscriber),
            (Role::Both, Role::Any) => Some(Role::Both),
            (Role::Both, c) => Some(c),
            (Role::Any, c) => Some(c),
        }
    }

    /// Whether the role publishes.
    pub fn is_publisher(self) -> (r: bool)
        ensures
            r == (self == Role::Publisher || self == Role::Both),
    {
        match self {
            Role::Publisher | Role::Both => true,
            _ => false,
        }
    }

    /// Whether the role subscribes.
    pub fn is_subscriber(self) -> (r: bool)
        ensures
            r == (self == Role::Subscriber || self == Role::Both),
    {
        match self {
            Role::Subscriber | Role::Both => true,
            _ => false,
        }
    }

    /// The extension value of the role.
    pub fn to_code(self) -> (r: u64)
        ensures
            r == role_code(self),
    {
        match self {
            Role::Publisher => 1,
            Role::Subscriber => 2,
            Role::Both => 3,
            Role::Any => 4,
        }
    }

    /// The role of an extension value, if it names one.
    pub fn from_code(code: u64) -> (r: Option<Role>)
        ensures
            r matches Some(role) ==> role_code(role) == code,
            r is None <==> !(1 <= code <= 4),
    {
        if code == 1 {
            Some(Role::Publisher)
        } else if code == 2 {
            Some(Role::Subscriber)
        } else if code == 3 {
            Some(Role::Both)
        } else if code == 4 {
            Some(Role::Any)
        } else {
            None
        }
    }
}

/// Each role survives being written as its extension value and read back.
pub proof fn lemma_role_code_injective(a: Role, b: Role)
    ensures
        role_code(a) == role_code(b) <==> a == b,
{
}

} // verus!

verus! {

/// The tag that opens the session's control stream.
pub const STREAM_SESSION: u64 = 0;

/// What a client offers in its first handshake message.
pub struct Client {
    /// The versions the client speaks.
    pub versions: Vec<u64>,
    /// The role the client asks for; none stands for `Any`.
    pub role: Option<Role>,
}

/// What the server answers once the handshake succeeds.
#[derive(Debug, Clone, Copy, PartialEq, Eq)]
pub struct ServerReply {
    pub version: u64,
    pub role: Role,
}

/// The role a client asks for, with `Any` standing in for none.
pub open spec fn client_role(c: Option<Role>) -> Role {
    match c {
        Some(r) => r,
        None => Role::Any,
    }
}

/// The outcome of a handshake: the stream tag must open a session, the client
/// must offer `FORK_00`, and the two roles must be compatible.
pub open spec fn handshake_spec(server: Role, kind: u64, versions: Seq<u64>, role: Option<Role>)
    -> Result<ServerReply, ServeError> {
    if kind != STREAM_SESSION {
        Err(ServeError::UnexpectedStream(kind))
    } else if !versions.contains(FORK_00) {
        Err(ServeError::Version(arbitrary(), FORK_00))
    } else {
        match downgrade_spec(server, client_role(role)) {
            Some(r) => Ok(ServerReply { version: FORK_00, role: r }),
            None => Err(ServeError::RoleIncompatible(client_role(role), server)),
        }
    }
}

/// Whether `r` is the outcome `handshake_spec` gives, with a version error
/// carrying the versions that the client offered.
pub open spec fn handshake_result(
    server: Role,
    kind: u64,
    versions: Seq<u64>,
    role: Option<Role>,
    r: Result<ServerReply, ServeError>,
) -> bool {
    match handshake_spec(server, kind, versions, role) {
        Err(ServeError::Version(_, _)) => r matches Err(ServeError::Version(v, w)) && v@ == versions && w == FORK_00,
        expected => r == expected,
    }
}

/// The accepting side of a session: it offers one role to every client.
#[derive(Debug, Clone, Copy, PartialEq, Eq)]
pub struct Server {
    pub role: Role,
}

impl Server {
    /// A server that offers `role`.
    pub fn new(role: Role) -> (r: Server)
        ensures
            r.role == role,
    {
        Server { role }
    }

    /// A server that only publishes.
    pub fn publisher() -> (r: Server)
        ensures
            r.role == Role::Publisher,
    {
        Server { role: Role::Publisher }
    }

    /// A server that only subscribes.
    pub fn subscriber() -> (r: Server)
        ensures
            r.role == Role::Subscriber,
    {
        Server { role: Role::Subscriber }
    }

    /// A server that both publishes and subscribes.
    pub fn both() -> (r: Server)
        ensures
            r.role == Role::Both,
    {
        Server { role: Role::Both }
    }

    /// A server that takes whatever role the client picks.
    pub fn any() -> (r: Server)
        ensures
            r.role == Role::Any,
    {
        Server { role: Role::Any }
    }

    /// Decides the handshake: `kind` is the tag that opened the control
    /// stream, `client` the client's offer.
    pub fn role(&self, kind: u64, client: Client) -> (r: Result<ServerReply, ServeError>)
        ensures
            handshake_result(self.role, kind, client.versions@, client.role, r),
    {
        if kind != STREAM_SESSION {
            return Err(ServeError::UnexpectedStream(kind));
        }
        if !contains_version(&client.versions, FORK_00) {
            return Err(ServeError::Version(client.versions, FORK_00));
        }
        let wanted = match client.role {
            Some(r) => r,
            None => Role::default(),
        };
        match self.role.downgrade(wanted) {
            Some(r) => Ok(ServerReply { version: FORK_00, role: r }),
            None => Err(ServeError::RoleIncompatible(wanted, self.role)),
        }
    }
}

/// Whether `versions` holds `v`.
pub fn contains_version(versions: &Vec<u64>, v: u64) -> (r: bool)
    ensures
        r == versions@.contains(v),
{
    let mut i: usize = 0;
    while i < versions.len()
        invariant
            0 <= i <= versions.len(),
            forall|j: int| 0 <= j < i ==> versions@[j] != v,
        decreases versions.len() - i,
    {
        if versions[i] == v {
            return true;
        }
        i = i + 1;
    }
    false
}

/// The downgrade table: each of the sixteen pairs of server and client roles
/// gives the role written in the matrix, and the four incompatible pairs give none.
pub proof fn lemma_downgrade_matrix()
    ensures
        downgrade_spec(Role::Publisher, Role::Publisher) == Some(Role::Publisher),
        downgrade_spec(Role::Publisher, Role::Subscriber) == None::<Role>,
        downgrade_spec(Role::Publisher, Role::Both) == Some(Role::Publisher),
        downgrade_spec(Role::Publisher, Role::Any) == Some(Role::Publisher),
        downgrade_spec(Role::Subscriber, Role::Publisher) == None::<Role>,
        downgrade_spec(Role::Subscriber, Role::Subscriber) == Some(Role::Subscriber),
        downgrade_spec(Role::Subscriber, Role::Both) == Some(Role::Subscriber),
        downgrade_spec(Role::Subscriber, Role::Any) == Some(Role::Subscriber),
        downgrade_spec(Role::Both, Role::Publisher) == Some(Role::Publisher),
        downgrade_spec(Role::Both, Role::Subscriber) == Some(Role::Subscriber),
        downgrade_spec(Role::Both, Role::Both) == Some(Role::Both),
        downgrade_spec(Role::Both, Role::Any) == Some(Role::Both),
        downgrade_spec(Role::Any, Role::Publisher) == Some(Role::Publisher),
        downgrade_spec(Role::Any, Role::Subscriber) == Some(Role::Subscriber),
        downgrade_spec(Role::Any, Role::Both) == Some(Role::Both),
        downgrade_spec(Role::Any, Role::Any) == None::<Role>,
{
}

/// A successful handshake never settles on `Any`, and the settled role is one
/// the server offered: publishing only where the server may publish and
/// subscribing only where it may subscribe.
pub proof fn lemma_downgrade_sound(server: Role, client: Role)
    ensures
        downgrade_spec(server, client) matches Some(r) ==> {
            &&& r != Role::Any
            &&& server == Role::Publisher ==> r == Role::Publisher
            &&& server == Role::Subscriber ==> r == Role::Subscriber
            &&& client == Role::Publisher ==> r == Role::Publisher
            &&& client == Role::Subscriber ==> r == Role::Subscriber
        },
{
}

} // verus!
