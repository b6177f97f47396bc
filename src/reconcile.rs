//! The reconciler: converges the daemon's connections to the names the rules
//! give the devices. It is a state machine; its driver sends each command it
//! asks for over the bus and hands back the reply.
use vstd::prelude::*;
use crate::bus::{NetworkCommand, NetworkError, NetworkResponse, Reply};
use crate::model::{Connection, NetInfo};
use crate::rules::DesiredDevice;

verus! {

/// What a device needs before its managed flag is set.
pub enum Plan {
    /// Its connection must be renamed.
    Rename,
    /// It has no connection: one must be created.
    Create,
    /// Its connection already has the desired name.
    Keep,
}

/// The name of the device's current connection, the empty string where it
/// has none.
pub open spec fn current_name(d: DesiredDevice) -> Seq<char> {
    match d.device.connection.id {
        Some(n) => n@,
        None => Seq::empty(),
    }
}

pub open spec fn plan_of(d: DesiredDevice) -> Plan {
    match d.device.connection.uuid {
        Some(_) => if current_name(d) != d.con_name@ {
            Plan::Rename
        } else {
            Plan::Keep
        },
        None => Plan::Create,
    }
}

/// The device's connection exists and carries the desired name.
pub open spec fn converged(d: DesiredDevice) -> bool {
    d.device.connection.uuid is Some && current_name(d) == d.con_name@
}

/// Some device of `s` needs its connection renamed or created.
pub open spec fn changes(s: Seq<DesiredDevice>) -> bool {
    exists|j: int| 0 <= j < s.len() && plan_of(#[trigger] s[j]) != Plan::Keep
}

/// Where the reconciler stands.
#[derive(PartialEq, Eq, Structural)]
pub enum Stage {
    /// Before the next device.
    Next,
    Renaming,
    Creating,
    Fetching,
    Updating,
    Reactivating,
    Managing,
    NetworkingOff,
    NetworkingOn,
    Done,
}

/// What the driver is to do next.
pub enum Action {
    /// Send the command and hand its reply back.
    Send(NetworkCommand),
    /// The pass is over; whether networking was restarted.
    Finished(bool),
    /// The pass failed.
    Abort(NetworkError),
}

/// A command as the contracts speak of it, with texts as character
/// sequences.
pub enum Expected {
    Rename(Seq<char>, Seq<char>),
    Create(Seq<char>, Seq<char>),
    Fetch(Seq<char>),
    Reactivate(Seq<char>),
    Manage(Seq<char>, bool),
    Networking(bool),
}

pub open spec fn sends(a: Action, e: Expected) -> bool {
    match a {
        Action::Send(c) => match (c, e) {
            (NetworkCommand::RenameConnection(u, n), Expected::Rename(u2, n2)) => u@ == u2 && n@ == n2,
            (NetworkCommand::CreateWiredConnection(n, d), Expected::Create(n2, d2)) => n@ == n2 && d@ == d2,
            (NetworkCommand::GetConnection(u), Expected::Fetch(u2)) => u@ == u2,
            (NetworkCommand::Reactivate(u), Expected::Reactivate(u2)) => u@ == u2,
            (NetworkCommand::SetManage(n, m), Expected::Manage(n2, m2)) => n@ == n2 && m == m2,
            (NetworkCommand::SetNetworking(b), Expected::Networking(b2)) => b == b2,
            _ => false,
        },
        _ => false,
    }
}

/// The first command for a device: rename or create its connection, or,
/// where neither is needed, set its managed flag.
pub open spec fn entry_command(d: DesiredDevice) -> Expected {
    match plan_of(d) {
        Plan::Rename => Expected::Rename(d.device.connection.uuid.unwrap()@, d.con_name@),
        Plan::Create => Expected::Create(d.con_name@, d.device.name@),
        Plan::Keep => manage_command(d),
    }
}

/// The stage that follows the first command for a device.
pub open spec fn entry_stage(d: DesiredDevice) -> Stage {
    match plan_of(d) {
        Plan::Rename => Stage::Renaming,
        Plan::Create => Stage::Creating,
        Plan::Keep => Stage::Managing,
    }
}

pub open spec fn manage_command(d: DesiredDevice) -> Expected {
    Expected::Manage(d.device.name@, d.device.is_managed)
}

/// The device carries a static address configuration for a new connection.
pub open spec fn has_override(d: DesiredDevice) -> bool {
    d.device.ip4_override is Some || d.device.ip6_override is Some
}

/// The connection with the given address configurations in place of its
/// own.
pub open spec fn overlaid(c: Connection, ip4: Option<NetInfo>, ip6: Option<NetInfo>) -> Connection {
    Connection {
        ip4info: match ip4 {
            Some(i) => i,
            None => c.ip4info,
        },
        ip6info: match ip6 {
            Some(i) => i,
            None => c.ip6info,
        },
        ..c
    }
}

/// Puts the given address configurations in place of the connection's own.
pub fn overlay_connection(conn: Connection, ip4: Option<NetInfo>, ip6: Option<NetInfo>) -> (r: Connection)
    ensures
        r == overlaid(conn, ip4, ip6),
{
    let mut c = conn;
    match ip4 {
        Some(i) => {
            c.ip4info = i;
        },
        None => {},
    }
    match ip6 {
        Some(i) => {
            c.ip6info = i;
        },
        None => {},
    }
    c
}

/// The parts of a device that stay with the reconciler while it works on it.
pub open spec fn same_core(a: DesiredDevice, b: DesiredDevice) -> bool {
    &&& a.device.name == b.device.name
    &&& a.device.is_managed == b.device.is_managed
    &&& a.device.connection == b.device.connection
    &&& a.con_name == b.con_name
}

/// The state of one reconciliation pass over a list of desired devices.
pub struct Reconciler {
    rest: Vec<DesiredDevice>,
    current: Option<DesiredDevice>,
    stage: Stage,
    need_restart: bool,
    created: String,
    all: Ghost<Seq<DesiredDevice>>,
}

impl Reconciler {
    /// The devices of the pass, in the order they are worked on.
    pub closed spec fn devices(&self) -> Seq<DesiredDevice> {
        self.all@
    }

    /// How many devices have been begun.
    pub closed spec fn begun(&self) -> int {
        self.all@.len() - self.rest@.len()
    }

    pub closed spec fn stage(&self) -> Stage {
        self.stage
    }

    /// Whether a connection was renamed or created, so that networking must
    /// be restarted.
    pub closed spec fn need_restart(&self) -> bool {
        self.need_restart
    }

    /// The uuid of the connection created for the current device.
    pub closed spec fn created(&self) -> Seq<char> {
        self.created@
    }

    /// A command was sent and its reply is awaited.
    pub open spec fn awaits_reply(&self) -> bool {
        self.stage() != Stage::Done && self.stage() != Stage::Next
    }

    /// The action just returned closes the pass exactly when it is no
    /// command: after a command a reply is awaited, after the end of the
    /// pass or a failure the reconciler is done.
    pub open spec fn follows(&self, a: Action) -> bool {
        &&& a is Send <==> self.awaits_reply()
        &&& !(a is Send) ==> self.stage() == Stage::Done
    }

    /// The device being worked on.
    pub open spec fn device(&self) -> DesiredDevice {
        self.devices()[self.begun() - 1]
    }

    pub open spec fn on_device(&self) -> bool {
        match self.stage() {
            Stage::Renaming | Stage::Creating | Stage::Fetching | Stage::Updating
            | Stage::Reactivating | Stage::Managing => true,
            _ => false,
        }
    }

    pub closed spec fn wf(&self) -> bool {
        let n = self.all@.len();
        let done = self.begun();
        &&& self.rest@.len() <= n
        &&& self.rest@ == self.all@.subrange(done, n as int)
        &&& self.need_restart == changes(self.all@.subrange(0, done))
        &&& self.on_device() ==> (done >= 1 && (self.current matches Some(c) && same_core(c, self.device())))
        &&& (self.stage == Stage::Renaming || self.stage == Stage::Creating || self.stage == Stage::Fetching) ==>
            (self.current matches Some(c) && c.device.ip4_override == self.device().device.ip4_override
                && c.device.ip6_override == self.device().device.ip6_override)
        &&& self.stage == Stage::Renaming ==> plan_of(self.device()) == Plan::Rename
        &&& self.stage == Stage::Creating ==> plan_of(self.device()) == Plan::Create
        &&& (self.stage == Stage::NetworkingOff || self.stage == Stage::NetworkingOn) ==> done == n && self.need_restart
    }

    proof fn lemma_changes_push(s: Seq<DesiredDevice>, d: DesiredDevice)
        ensures
            changes(s.push(d)) == (changes(s) || plan_of(d) != Plan::Keep),
    {
        if changes(s) {
            let j = choose|j: int| 0 <= j < s.len() && plan_of(#[trigger] s[j]) != Plan::Keep;
            assert(s.push(d)[j] == s[j]);
        }
        if plan_of(d) != Plan::Keep {
            assert(s.push(d)[s.len() as int] == d);
        }
        if changes(s.push(d)) {
            let j = choose|j: int| 0 <= j < s.push(d).len() && plan_of(#[trigger] s.push(d)[j]) != Plan::Keep;
            if j < s.len() {
                assert(s.push(d)[j] == s[j]);
            }
        }
    }

    /// Begins the next device, or ends the device list.
    fn advance(&mut self) -> (a: Action)
        requires
            old(self).wf(),
            old(self).stage() == Stage::Next,
        ensures
            final(self).wf(),
            final(self).devices() == old(self).devices(),
            final(self).follows(a),
            old(self).begun() < old(self).devices().len() ==> {
                &&& final(self).begun() == old(self).begun() + 1
                &&& sends(a, entry_command(final(self).device()))
                &&& final(self).stage() == entry_stage(final(self).device())
            },
            old(self).begun() == old(self).devices().len() ==> {
                &&& final(self).begun() == old(self).begun()
                &&& old(self).need_restart() ==> sends(a, Expected::Networking(false))
                    && final(self).stage() == Stage::NetworkingOff
                &&& !old(self).need_restart() ==> a == Action::Finished(false) && final(self).stage() == Stage::Done
            },
    {
        if self.rest.len() == 0 {
            if self.need_restart {
                self.stage = Stage::NetworkingOff;
                return Action::Send(NetworkCommand::SetNetworking(false));
            } else {
                self.stage = Stage::Done;
                return Action::Finished(false);
            }
        }
        let ghost done = self.begun();
        let ghost n = self.all@.len();
        let d = self.rest.remove(0);
        proof {
            assert(d == self.all@[done]);
            assert(self.rest@ =~= self.all@.subrange(done + 1, n as int));
            assert(self.all@.subrange(0, done + 1) =~= self.all@.subrange(0, done).push(d));
            Self::lemma_changes_push(self.all@.subrange(0, done), d);
        }
        let a = match &d.device.connection.uuid {
            Some(u) => {
                let differs = match &d.device.connection.id {
                    Some(name) => !(*name == d.con_name),
                    None => d.con_name.unicode_len() != 0,
                };
                assert(differs == (current_name(d) != d.con_name@)) by {
                    if d.device.connection.id is None {
                        assert(d.con_name@.len() == 0 ==> d.con_name@ =~= Seq::<char>::empty());
                    }
                }
                if differs {
                    self.need_restart = true;
                    self.stage = Stage::Renaming;
                    Action::Send(NetworkCommand::RenameConnection(u.clone(), d.con_name.clone()))
                } else {
                    self.stage = Stage::Managing;
                    Action::Send(NetworkCommand::SetManage(d.device.name.clone(), d.device.is_managed))
                }
            },
            None => {
                self.need_restart = true;
                self.stage = Stage::Creating;
                Action::Send(NetworkCommand::CreateWiredConnection(d.con_name.clone(), d.device.name.clone()))
            },
        };
        self.current = Some(d);
        assert(self.begun() == done + 1);
        assert(self.device() == d);
        a
    }

    /// A pass over the desired devices, taken in their order, and its first
    /// action.
    pub fn start(devices: Vec<DesiredDevice>) -> (r: (Reconciler, Action))
        ensures
            r.0.wf(),
            r.0.devices() == devices@,
            r.0.follows(r.1),
            devices@.len() == 0 ==> r.1 == Action::Finished(false) && r.0.stage() == Stage::Done,
            devices@.len() > 0 ==> r.0.begun() == 1 && sends(r.1, entry_command(devices@[0]))
                && r.0.stage() == entry_stage(devices@[0]),
    {
        let ghost all = devices@;
        let mut r = Reconciler {
            rest: devices,
            current: None,
            stage: Stage::Next,
            need_restart: false,
            created: String::new(),
            all: Ghost(all),
        };
        assert(r.rest@ =~= all.subrange(0, all.len() as int));
        assert(!changes(all.subrange(0, 0)));
        let a = r.advance();
        (r, a)
    }

    fn manage(&mut self) -> (a: Action)
        requires
            old(self).wf(),
            old(self).on_device(),
        ensures
            final(self).wf(),
            final(self).devices() == old(self).devices(),
            final(self).begun() == old(self).begun(),
            final(self).stage() == Stage::Managing,
            final(self).follows(a),
            sends(a, manage_command(old(self).device())),
    {
        self.stage = Stage::Managing;
        match &self.current {
            Some(c) => Action::Send(NetworkCommand::SetManage(c.device.name.clone(), c.device.is_managed)),
            None => {
                assert(false);
                Action::Finished(false)
            },
        }
    }

    fn fail(&mut self, e: NetworkError) -> (a: Action)
        requires
            old(self).wf(),
        ensures
            final(self).wf(),
            final(self).devices() == old(self).devices(),
            final(self).stage() == Stage::Done,
            final(self).begun() == old(self).begun(),
            final(self).follows(a),
            a == Action::Abort(e),
    {
        self.stage = Stage::Done;
        Action::Abort(e)
    }

    /// The stage is one whose failure ends the pass.
    pub open spec fn fails_on_error(stage: Stage) -> bool {
        match stage {
            Stage::Reactivating | Stage::NetworkingOff => false,
            _ => true,
        }
    }

    /// Takes the reply to the last command sent, and returns the next
    /// action. A failed rename, creation, fetch, update, managed-flag change
    /// or restart of networking ends the pass with that error; a failed
    /// reactivation or stop of networking is passed over.
    pub fn resume(&mut self, reply: Reply) -> (a: Action)
        requires
            old(self).wf(),
            old(self).awaits_reply(),
        ensures
            final(self).wf(),
            final(self).devices() == old(self).devices(),
            final(self).follows(a),
            Self::fails_on_error(old(self).stage()) && reply is Err ==> final(self).stage() == Stage::Done
                && (reply matches Err(e) && a == Action::Abort(e)),
            old(self).stage() == Stage::Renaming && reply is Ok ==> final(self).stage() == Stage::Managing
                && sends(a, manage_command(old(self).device())),
            old(self).stage() == Stage::Creating && reply is Ok ==> (match reply {
                Ok(NetworkResponse::Uuid(u)) => if has_override(old(self).device()) {
                    final(self).stage() == Stage::Fetching && final(self).created() == u@
                        && sends(a, Expected::Fetch(u@))
                } else {
                    final(self).stage() == Stage::Managing && sends(a, manage_command(old(self).device()))
                },
                _ => final(self).stage() == Stage::Done && a == Action::Abort(NetworkError::UnexpectedResponse),
            }),
            old(self).stage() == Stage::Fetching && reply is Ok ==> (match reply {
                Ok(NetworkResponse::Connection(c)) => final(self).stage() == Stage::Updating
                    && a == Action::Send(NetworkCommand::UpdateConnection(
                        overlaid(c, old(self).device().device.ip4_override, old(self).device().device.ip6_override))),
                _ => final(self).stage() == Stage::Done && a == Action::Abort(NetworkError::UnexpectedResponse),
            }),
            old(self).stage() == Stage::Updating && reply is Ok ==> final(self).stage() == Stage::Reactivating
                && sends(a, Expected::Reactivate(old(self).created())),
            old(self).stage() == Stage::Reactivating ==> final(self).stage() == Stage::Managing
                && sends(a, manage_command(old(self).device())),
            old(self).stage() == Stage::Managing && reply is Ok ==> {
                &&& old(self).begun() < old(self).devices().len() ==> {
                    &&& final(self).begun() == old(self).begun() + 1
                    &&& sends(a, entry_command(final(self).device()))
                    &&& final(self).stage() == entry_stage(final(self).device())
                }
                &&& old(self).begun() == old(self).devices().len() && old(self).need_restart() ==>
                    final(self).stage() == Stage::NetworkingOff && sends(a, Expected::Networking(false))
                &&& old(self).begun() == old(self).devices().len() && !old(self).need_restart() ==>
                    final(self).stage() == Stage::Done && a == Action::Finished(false)
            },
            old(self).stage() == Stage::NetworkingOff ==> final(self).stage() == Stage::NetworkingOn
                && sends(a, Expected::Networking(true)),
            old(self).stage() == Stage::NetworkingOn && reply is Ok ==> final(self).stage() == Stage::Done
                && a == Action::Finished(true),
            old(self).stage() != Stage::Managing ==> final(self).begun() == old(self).begun(),
    {
        match self.stage {
            Stage::Renaming => match reply {
                Err(e) => self.fail(e),
                Ok(_) => self.manage(),
            },
            Stage::Creating => match reply {
                Err(e) => self.fail(e),
                Ok(NetworkResponse::Uuid(u)) => {
                    let wants_override = match &self.current {
                        Some(c) => c.device.ip4_override.is_some() || c.device.ip6_override.is_some(),
                        None => false,
                    };
                    if wants_override {
                        self.stage = Stage::Fetching;
                        let fetch = NetworkCommand::GetConnection(u.clone());
                        self.created = u;
                        Action::Send(fetch)
                    } else {
                        self.manage()
                    }
                },
                Ok(_) => self.fail(NetworkError::UnexpectedResponse),
            },
            Stage::Fetching => match reply {
                Err(e) => self.fail(e),
                Ok(NetworkResponse::Connection(c)) => {
                    let cur = self.current.take();
                    match cur {
                        Some(mut d) => {
                            let ip4 = d.device.ip4_override.take();
                            let ip6 = d.device.ip6_override.take();
                            self.current = Some(d);
                            self.stage = Stage::Updating;
                            Action::Send(NetworkCommand::UpdateConnection(overlay_connection(c, ip4, ip6)))
                        },
                        None => {
                            assert(false);
                            self.fail(NetworkError::UnexpectedResponse)
                        },
                    }
                },
                Ok(_) => self.fail(NetworkError::UnexpectedResponse),
            },
            Stage::Updating => match reply {
                Err(e) => self.fail(e),
                Ok(_) => {
                    self.stage = Stage::Reactivating;
                    Action::Send(NetworkCommand::Reactivate(self.created.clone()))
                },
            },
            Stage::Reactivating => self.manage(),
            Stage::Managing => match reply {
                Err(e) => self.fail(e),
                Ok(_) => {
                    self.current = None;
                    self.stage = Stage::Next;
                    self.advance()
                },
            },
            Stage::NetworkingOff => {
                self.stage = Stage::NetworkingOn;
                Action::Send(NetworkCommand::SetNetworking(true))
            },
            Stage::NetworkingOn => match reply {
                Err(e) => self.fail(e),
                Ok(_) => {
                    self.stage = Stage::Done;
                    Action::Finished(true)
                },
            },
            _ => {
                assert(false);
                Action::Finished(self.need_restart)
            },
        }
    }

    /// Whether a reply is awaited, so that `resume` may be called.
    pub fn awaiting_reply(&self) -> (r: bool)
        ensures
            r == self.awaits_reply(),
    {
        match self.stage {
            Stage::Done | Stage::Next => false,
            _ => true,
        }
    }

    /// The restart flag records exactly whether some device begun so far
    /// needed its connection renamed or created.
    pub proof fn lemma_restart_flag(&self)
        requires
            self.wf(),
        ensures
            0 <= self.begun() <= self.devices().len(),
            self.need_restart() == changes(self.devices().subrange(0, self.begun())),
            (self.stage() == Stage::Renaming || self.stage() == Stage::Creating) ==> self.begun() >= 1
                && plan_of(self.device()) != Plan::Keep,
    {
    }
}

/// Running the reconciler a second time over an unchanged device list and
/// an unchanged script does nothing new: after the first pass each device's
/// connection exists and carries its desired name, so the second pass plans
/// no rename and no creation for any device, its first command for each
/// device sets the managed flag, and it never needs a restart of networking.
pub proof fn lemma_second_pass_is_quiet(devices: Seq<DesiredDevice>)
    requires
        forall|i: int| 0 <= i < devices.len() ==> converged(#[trigger] devices[i]),
    ensures
        forall|i: int| 0 <= i < devices.len() ==> plan_of(#[trigger] devices[i]) == Plan::Keep
            && entry_command(devices[i]) == manage_command(devices[i]),
        forall|k: int| 0 <= k <= devices.len() ==> !changes(#[trigger] devices.subrange(0, k)),
{
    assert forall|k: int| 0 <= k <= devices.len() implies !changes(#[trigger] devices.subrange(0, k)) by {
        assert forall|j: int| 0 <= j < k implies plan_of(#[trigger] devices.subrange(0, k)[j]) == Plan::Keep by {
            assert(devices.subrange(0, k)[j] == devices[j]);
            assert(converged(devices[j]));
        }
    }
}

/// A reconciler over converged devices never renames or creates a
/// connection and never restarts networking, whatever stage it is in.
pub proof fn lemma_quiet_reconciler(r: Reconciler)
    requires
        r.wf(),
        forall|i: int| 0 <= i < r.devices().len() ==> converged(#[trigger] r.devices()[i]),
    ensures
        !r.need_restart(),
        r.stage() != Stage::Renaming,
        r.stage() != Stage::Creating,
        r.stage() != Stage::NetworkingOff,
        r.stage() != Stage::NetworkingOn,
{
    r.lemma_restart_flag();
    lemma_second_pass_is_quiet(r.devices());
    if r.stage() == Stage::Renaming || r.stage() == Stage::Creating {
        assert(plan_of(r.devices()[r.begun() - 1]) == Plan::Keep);
    }
}

} // verus!
