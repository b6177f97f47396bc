//! Device and connection records exchanged with the configuration daemon.
use vstd::prelude::*;

verus! {

/// A reference to a connection profile: its name (`id`) and its `uuid`.
pub struct ConnectionItem {
    pub id: Option<String>,
    pub uuid: Option<String>,
}

/// One route of an address family.
pub struct Route {
    /// 4 or 6.
    pub family: i32,
    /// Destination network in CIDR notation.
    pub dest: String,
    pub next_hop: Option<String>,
    pub metric: i64,
}

/// The configuration of one address family on a device or a connection.
pub struct NetInfo {
    pub method: String,
    /// Addresses in CIDR notation.
    pub addresses: Vec<String>,
    pub gateway: Option<String>,
    pub dns: Vec<String>,
    pub routes: Vec<Route>,
}

/// A network device as the daemon reports it.
pub struct NetDevice {
    /// The interface name, e.g. `eth0`.
    pub name: String,
    /// The best connection of the device: the active one, else the latest
    /// one bound to its interface.
    pub connection: ConnectionItem,
    pub mac: String,
    /// The daemon's state of the device.
    pub state: String,
    /// The daemon's type of the device, e.g. `Ethernet`.
    pub device_type: String,
    pub is_virtual: bool,
    pub is_managed: bool,
    pub driver: Option<String>,
    /// The IPv4 configuration the device has now.
    pub ip4info: Option<NetInfo>,
    /// The IPv6 configuration the device has now.
    pub ip6info: Option<NetInfo>,
    /// A static IPv4 configuration to apply to a connection created for
    /// this device at startup; it comes from outside the daemon's listing.
    pub ip4_override: Option<NetInfo>,
    /// A static IPv6 configuration to apply to a connection created for
    /// this device at startup; it comes from outside the daemon's listing.
    pub ip6_override: Option<NetInfo>,
    /// The uuids of all connections available to the device.
    pub conn: Vec<String>,
    pub dev_path: Option<String>,
    pub id_path: Option<String>,
    pub net_link_modes: Vec<String>,
}

/// A connection profile.
pub struct Connection {
    pub name: String,
    pub uuid: String,
    pub interface: Option<String>,
    pub mac: Option<String>,
    pub ip4info: NetInfo,
    pub ip6info: NetInfo,
}

impl Connection {
    pub fn new(
        name: String,
        uuid: String,
        interface: Option<String>,
        mac: Option<String>,
        ip4info: NetInfo,
        ip6info: NetInfo,
    ) -> (r: Connection)
        ensures
            r == (Connection { name, uuid, interface, mac, ip4info, ip6info }),
    {
        Connection { name, uuid, interface, mac, ip4info, ip6info }
    }
}

/// A stored connection: the interface it is bound to, and the time it was
/// last used (0 where the daemon has none).
pub struct TimedConnection {
    pub interface: Option<String>,
    pub item: ConnectionItem,
    pub timestamp: u64,
}

/// Whether the daemon manages the device.
pub fn get_managed_status(device: &NetDevice) -> (r: bool)
    ensures
        r == device.is_managed,
{
    device.is_managed
}

/// The index of the most recently used of `connections`: the first of those
/// with the largest timestamp, or `None` when there is none.
pub open spec fn is_latest(connections: Seq<TimedConnection>, i: int) -> bool {
    &&& 0 <= i < connections.len()
    &&& forall|j: int| 0 <= j < connections.len() ==> connections[j].timestamp <= connections[i].timestamp
    &&& forall|j: int| 0 <= j < i ==> connections[j].timestamp < connections[i].timestamp
}

/// Picks the most recently used connection: the one with the largest
/// timestamp, the earliest of them on a tie.
pub fn get_latest_connection(connections: &Vec<TimedConnection>) -> (r: Option<usize>)
    ensures
        connections@.len() == 0 <==> r is None,
        r matches Some(i) ==> is_latest(connections@, i as int),
{
    if connections.len() == 0 {
        return None;
    }
    let mut best: usize = 0;
    let mut i: usize = 1;
    while i < connections.len()
        invariant
            0 < connections@.len(),
            1 <= i <= connections@.len(),
            best < i,
            forall|j: int| 0 <= j < i ==> connections@[j].timestamp <= connections@[best as int].timestamp,
            forall|j: int| 0 <= j < best ==> connections@[j].timestamp < connections@[best as int].timestamp,
        decreases connections@.len() - i,
    {
        if connections[i].timestamp > connections[best].timestamp {
            best = i;
        }
        i = i + 1;
    }
    Some(best)
}

/// The stored connections bound to the interface, in their order.
pub open spec fn bound_to(cs: Seq<TimedConnection>, interface: Seq<char>) -> Seq<TimedConnection>
    decreases cs.len(),
{
    if cs.len() == 0 {
        Seq::empty()
    } else if cs.last().interface matches Some(i) && i@ == interface {
        bound_to(cs.drop_last(), interface).push(cs.last())
    } else {
        bound_to(cs.drop_last(), interface)
    }
}

/// The connection a device is listed with: its active connection, else the
/// most recently used one bound to its interface, else none.
pub fn device_connection(active: Option<ConnectionItem>, connections: Vec<TimedConnection>, interface: &str) -> (r: ConnectionItem)
    ensures
        active matches Some(a) ==> r == a,
        active is None && bound_to(connections@, interface@).len() == 0 ==> r.id is None && r.uuid is None,
        active is None && bound_to(connections@, interface@).len() > 0 ==> exists|i: int|
            is_latest(bound_to(connections@, interface@), i) && r == #[trigger] bound_to(connections@, interface@)[i].item,
{
    if let Some(a) = active {
        return a;
    }
    let wanted = String::from_str(interface);
    let ghost all = connections@;
    let mut rest = connections;
    let mut mine: Vec<TimedConnection> = Vec::new();
    while rest.len() > 0
        invariant
            rest@.len() <= all.len(),
            rest@ == all.subrange(all.len() - rest@.len(), all.len() as int),
            mine@ == bound_to(all.subrange(0, all.len() - rest@.len()), interface@),
            wanted@ == interface@,
        decreases rest@.len(),
    {
        let ghost k = all.len() - rest@.len();
        let c = rest.remove(0);
        assert(all.subrange(0, k + 1).drop_last() =~= all.subrange(0, k));
        assert(all.subrange(0, k + 1).last() == c);
        assert(rest@ =~= all.subrange(k + 1, all.len() as int));
        let bound = match &c.interface {
            Some(i) => *i == wanted,
            None => false,
        };
        if bound {
            mine.push(c);
        }
    }
    assert(all.subrange(0, all.len() as int) =~= all);
    match get_latest_connection(&mine) {
        Some(i) => {
            let c = mine.remove(i);
            c.item
        },
        None => ConnectionItem { id: None, uuid: None },
    }
}

} // verus!
