//! Port bindings and the rule that no two of a container's bindings collide.
use vstd::prelude::*;
use crate::text::{concat, decimal, port_text};

verus! {

/// The protocols a port binding covers.
#[derive(Debug, Clone, Copy, PartialEq, Eq, Structural)]
pub enum PortType {
    TcpUdp,
    Tcp,
    Udp,
}

/// A port number with the protocols it covers.
#[derive(Debug, Clone, Copy, PartialEq, Eq, Structural)]
pub struct Port {
    pub port: u16,
    pub port_type: PortType,
}

/// A binding of a host port to a container port.
#[derive(Debug, Clone, Copy, PartialEq, Eq, Structural)]
pub struct ContainerPortBinding {
    pub host_port: Port,
    pub container_port: Port,
}

pub open spec fn spec_covers_tcp(t: PortType) -> bool {
    t != PortType::Udp
}

pub open spec fn spec_covers_udp(t: PortType) -> bool {
    t != PortType::Tcp
}

/// Two protocol sets overlap: TCP, UDP and both overlap with themselves and with both.
pub open spec fn types_overlap(a: PortType, b: PortType) -> bool {
    (spec_covers_tcp(a) && spec_covers_tcp(b)) || (spec_covers_udp(a) && spec_covers_udp(b))
}

/// Two ports collide: same number and overlapping protocols.
pub open spec fn ports_collide(a: Port, b: Port) -> bool {
    a.port == b.port && types_overlap(a.port_type, b.port_type)
}

/// Two bindings collide on their host side or on their container side.
pub open spec fn bindings_collide(a: ContainerPortBinding, b: ContainerPortBinding) -> bool {
    ports_collide(a.host_port, b.host_port) || ports_collide(a.container_port, b.container_port)
}

/// No two distinct bindings of the sequence collide.
pub open spec fn no_collision(s: Seq<ContainerPortBinding>) -> bool {
    forall|i: int, j: int| 0 <= i < j < s.len() ==> !bindings_collide(#[trigger] s[i], #[trigger] s[j])
}

/// The suffix of a port's runtime form: none for both protocols.
pub open spec fn port_suffix(t: PortType) -> Seq<char> {
    match t {
        PortType::TcpUdp => seq![],
        PortType::Tcp => seq!['/', 't', 'c', 'p'],
        PortType::Udp => seq!['/', 'u', 'd', 'p'],
    }
}

impl PortType {
    /// Whether the two protocol sets overlap.
    pub fn collides_with(self, other: PortType) -> (r: bool)
        ensures
            r == types_overlap(self, other),
    {
        (self.covers_tcp() && other.covers_tcp()) || (self.covers_udp() && other.covers_udp())
    }

    /// Whether TCP is covered.
    pub fn covers_tcp(self) -> (r: bool)
        ensures
            r == spec_covers_tcp(self),
    {
        match self {
            PortType::TcpUdp | PortType::Tcp => true,
            PortType::Udp => false,
        }
    }

    /// Whether UDP is covered.
    pub fn covers_udp(self) -> (r: bool)
        ensures
            r == spec_covers_udp(self),
    {
        match self {
            PortType::TcpUdp | PortType::Udp => true,
            PortType::Tcp => false,
        }
    }
}

impl Port {
    /// Whether the two ports collide.
    pub fn collides_with(self, other: Port) -> (r: bool)
        ensures
            r == ports_collide(self, other),
    {
        self.port == other.port && self.port_type.collides_with(other.port_type)
    }

    /// The runtime form of the port: its number, then `/tcp` or `/udp` where only one
    /// protocol is covered.
    pub fn to_docker_port(self) -> (r: String)
        ensures
            r@ == decimal(self.port as nat) + port_suffix(self.port_type),
    {
        let n = port_text(self.port);
        let suffix = match self.port_type {
            PortType::TcpUdp => "",
            PortType::Tcp => "/tcp",
            PortType::Udp => "/udp",
        };
        proof {
            reveal_strlit("");
            reveal_strlit("/tcp");
            reveal_strlit("/udp");
        }
        let r = concat(n.as_str(), suffix);
        assert(suffix@ =~= port_suffix(self.port_type));
        r
    }
}

impl ContainerPortBinding {
    /// Whether the two bindings collide on either side.
    pub fn collides_with(&self, other: Self) -> (r: bool)
        ensures
            r == bindings_collide(*self, other),
    {
        self.host_port.collides_with(other.host_port) || self.container_port.collides_with(
            other.container_port,
        )
    }

    /// The first colliding pair of distinct bindings, in order of position.
    pub fn find_collision(bindings: &[Self]) -> (r: Option<(Self, Self)>)
        ensures
            r is None <==> no_collision(bindings@),
            r matches Some(p) ==> exists|i: int, j: int|
                0 <= i < j < bindings@.len() && p.0 == bindings@[i] && p.1 == bindings@[j]
                    && bindings_collide(bindings@[i], bindings@[j]),
    {
        let n = bindings.len();
        let mut i: usize = 0;
        while i < n
            invariant
                n == bindings@.len(),
                i <= n,
                forall|a: int, b: int|
                    0 <= a < i && a < b < n ==> !bindings_collide(
                        #[trigger] bindings@[a],
                        #[trigger] bindings@[b],
                    ),
            decreases n - i,
        {
            let mut j: usize = i + 1;
            while j < n
                invariant
                    n == bindings@.len(),
                    i < n,
                    i + 1 <= j <= n,
                    forall|b: int| i < b < j ==> !bindings_collide(bindings@[i as int], #[trigger] bindings@[b]),
                decreases n - j,
            {
                if bindings[i].collides_with(bindings[j]) {
                    return Some((bindings[i], bindings[j]));
                }
                j += 1;
            }
            i += 1;
        }
        None
    }
}

} // verus!
