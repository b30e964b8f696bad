//! The coordinator's state and decisions: the devices, the connection
//! profiles, which profile is active where, and the connectivity verdict.
//! Requests that need nothing but this state are answered here; the rest
//! are handed back to the daemon, which does the outside work and reports
//! the results through the methods below.

use crate::connection::{ActiveConnection, ActiveConnectionState, ConnectionProfile};
use crate::connectivity::ConnectivityState;
use crate::device::{DeviceState, DeviceType, HotplugEvent, NetworkDevice};
use crate::errors::{join3, NetworkError};
use crate::ipc::messages::{Event, Request, Response};
use crate::manager::events::EventBus;
use crate::manager::state::{overall_state, overall_state_spec};
use crate::text::str_eq;
use std::sync::mpsc::{Receiver, Sender};
use vstd::prelude::*;

verus! {

#[derive(Debug, Clone, Copy, PartialEq, Eq, Structural)]
pub enum TickKind {
    Connectivity,
    WifiScan,
    LeaseCheck,
    DeviceRefresh,
}

/// What the manager's command loop receives.
pub enum Command {
    Request(Request, Sender<Response>),
    RegisterEventClient(Sender<(u64, Receiver<Event>)>),
    UnregisterEventClient(u64),
    Hotplug(HotplugEvent),
    Tick(TickKind),
    Shutdown,
}

/// What handling a request comes to next: the answer, or a piece of
/// outside work whose result is handed back with the same request.
pub enum Outcome {
    /// Answer with this.
    Reply(Response),
    /// Outside work this state does not decide; its answer is the reply.
    Perform(Request),
    /// Write this profile's file.
    SaveProfile(ConnectionProfile),
    /// Store `value` as secret `key` of `owner`.
    StoreSecret { owner: String, key: &'static str, value: String },
    /// Bring down the profile with this id (its answer is not the reply).
    Deactivate(String),
    /// Delete the file of the profile with this id.
    DeleteProfile(String),
    /// Delete the secrets of this owner (whatever comes of it).
    DeleteSecrets(String),
    /// Forget `ssid` in wpa_supplicant on `device`, delete the secrets and
    /// the file of profile `owner` (whatever comes of each).
    ForgetNetwork { device: String, ssid: String, owner: String },
    /// Activate the profile with this id; its answer is the reply.
    Activate(String),
}

/// The result of the outside work a request's last `Outcome` asked for.
pub enum RequestDone {
    /// The request has just come in.
    Started,
    /// Writing a profile's file gave this.
    ProfileSaved(Result<(), NetworkError>),
    /// Storing a secret gave this.
    SecretStored(Result<(), NetworkError>),
    /// The profile was brought down.
    Deactivated,
    /// Deleting a profile's file gave this.
    ProfileDeleted(Result<(), NetworkError>),
    /// The secrets were deleted.
    SecretsDeleted,
    /// The outside clean-up of forgetting a network was done.
    Cleaned,
}

pub struct NetworkManager {
    pub devices: Vec<NetworkDevice>,
    pub connections: Vec<ConnectionProfile>,
    /// Device name and the connection active on it.
    pub active: Vec<(String, ActiveConnection)>,
    pub connectivity: ConnectivityState,
    pub events: EventBus,
}

/// `cs` without the profiles whose id is `id`.
pub open spec fn without_profile(cs: Seq<ConnectionProfile>, id: Seq<char>) -> Seq<ConnectionProfile> {
    cs.filter(|p: ConnectionProfile| p.id@ != id)
}

/// `b` is `a` with nothing changed.
pub open spec fn untouched(a: NetworkManager, b: NetworkManager) -> bool {
    &&& b.devices@ == a.devices@
    &&& b.connections@ == a.connections@
    &&& b.active@ == a.active@
    &&& b.connectivity == a.connectivity
    &&& b.events == a.events
}

/// `b` is `a` with the profile list `cs` and nothing else changed.
pub open spec fn with_connections(a: NetworkManager, b: NetworkManager, cs: Seq<ConnectionProfile>) -> bool {
    &&& b.devices@ == a.devices@
    &&& b.connections@ == cs
    &&& b.active@ == a.active@
    &&& b.connectivity == a.connectivity
    &&& b.events == a.events
}

/// Whether profile `id` is active on some device of `a`.
pub open spec fn is_active_profile(a: NetworkManager, id: Seq<char>) -> bool {
    exists|i: int| 0 <= i < a.active.len() && a.active@[i].1.profile_id@ == id
}

/// A step of `AddConnection { profile }` from `a` to `b` with outcome `o`:
/// write the file first; once written, take the profile in (replacing any
/// profile with its id) and answer `Success`; if writing failed, answer
/// with the error and change nothing.
pub open spec fn add_connection_step(
    a: NetworkManager,
    b: NetworkManager,
    profile: ConnectionProfile,
    done: RequestDone,
    o: Outcome,
) -> bool {
    match done {
        RequestDone::ProfileSaved(Ok(_)) => (o matches Outcome::Reply(Response::Success)) && with_connections(
            a,
            b,
            without_profile(a.connections@, profile.id@).push(profile),
        ),
        RequestDone::ProfileSaved(Err(e)) => (o matches Outcome::Reply(Response::Error(m)) && m@
            == e.message_view()) && untouched(a, b),
        _ => (o matches Outcome::SaveProfile(p) && p == profile) && untouched(a, b),
    }
}

/// A step of `ConnectWifi { device, ssid, security, passphrase }`: store
/// the passphrase (if any) as secret `psk` of `wifi-<ssid>`; then write the
/// profile `wifi-<ssid>`; then take it in and activate it. A failure of
/// either outside step is the answer, and nothing changes.
pub open spec fn connect_wifi_req_step(
    a: NetworkManager,
    b: NetworkManager,
    device: Seq<char>,
    ssid: Seq<char>,
    security: crate::wifi::security::SecurityType,
    passphrase: Option<String>,
    done: RequestDone,
    o: Outcome,
) -> bool {
    match done {
        RequestDone::SecretStored(Err(e)) => (o matches Outcome::Reply(Response::Error(m)) && m@
            == e.message_view()) && untouched(a, b),
        RequestDone::ProfileSaved(Err(e)) => (o matches Outcome::Reply(Response::Error(m)) && m@
            == e.message_view()) && untouched(a, b),
        RequestDone::ProfileSaved(Ok(_)) => (o matches Outcome::Activate(id) && id@ == "wifi-"@ + ssid) && (exists|
            p: ConnectionProfile,
        |
            profile_view(p) == wifi_connect_profile_view(device, ssid, security) && #[trigger] without_profile(
                a.connections@,
                p.id@,
            ).push(p) == b.connections@) && b.devices@ == a.devices@ && b.active@ == a.active@
            && b.connectivity == a.connectivity && b.events == a.events,
        RequestDone::SecretStored(Ok(_)) => (o matches Outcome::SaveProfile(p) && profile_view(p)
            == wifi_connect_profile_view(device, ssid, security)) && untouched(a, b),
        _ => match passphrase {
            Some(pass) => (o matches Outcome::StoreSecret { owner, key, value } && owner@ == "wifi-"@ + ssid
                && key@ == "psk"@ && value@ == pass@) && untouched(a, b),
            None => (o matches Outcome::SaveProfile(p) && profile_view(p) == wifi_connect_profile_view(
                device,
                ssid,
                security,
            )) && untouched(a, b),
        },
    }
}

/// A step of `DeleteConnection { id }`: bring the profile down if it is
/// active; delete its file; once deleted, drop the profile and delete its
/// secrets, then answer `Success`; if deleting the file failed, answer
/// with the error and change nothing.
pub open spec fn delete_connection_step(
    a: NetworkManager,
    b: NetworkManager,
    id: Seq<char>,
    done: RequestDone,
    o: Outcome,
) -> bool {
    match done {
        RequestDone::ProfileDeleted(Ok(_)) => (o matches Outcome::DeleteSecrets(x) && x@ == id) && with_connections(
            a,
            b,
            without_profile(a.connections@, id),
        ),
        RequestDone::ProfileDeleted(Err(e)) => (o matches Outcome::Reply(Response::Error(m)) && m@
            == e.message_view()) && untouched(a, b),
        RequestDone::SecretsDeleted => (o matches Outcome::Reply(Response::Success)) && untouched(a, b),
        RequestDone::Deactivated => (o matches Outcome::DeleteProfile(x) && x@ == id) && untouched(a, b),
        _ => (if is_active_profile(a, id) {
            o matches Outcome::Deactivate(x) && x@ == id
        } else {
            o matches Outcome::DeleteProfile(x) && x@ == id
        }) && untouched(a, b),
    }
}

/// A step of `ForgetWifi { device, ssid }`: clean up outside (forget the
/// network, delete the secrets and the file of `wifi-<ssid>`), then drop
/// that profile and answer `Success`.
pub open spec fn forget_wifi_step(
    a: NetworkManager,
    b: NetworkManager,
    device: Seq<char>,
    ssid: Seq<char>,
    done: RequestDone,
    o: Outcome,
) -> bool {
    match done {
        RequestDone::Cleaned => (o matches Outcome::Reply(Response::Success)) && with_connections(
            a,
            b,
            without_profile(a.connections@, "wifi-"@ + ssid),
        ),
        _ => (o matches Outcome::ForgetNetwork { device: d, ssid: s, owner } && d@ == device && s@ == ssid
            && owner@ == "wifi-"@ + ssid) && untouched(a, b),
    }
}

/// `active` without the entry for device `name`.
pub open spec fn without_device(active: Seq<(String, ActiveConnection)>, name: Seq<char>) -> Seq<(String, ActiveConnection)> {
    active.filter(|a: (String, ActiveConnection)| a.0@ != name)
}

pub open spec fn opt_str(o: Option<String>) -> Option<Seq<char>> {
    match o {
        Some(s) => Some(s@),
        None => None,
    }
}

/// Everything a device entry says.
pub open spec fn device_view(d: NetworkDevice) -> (Seq<char>, DeviceType, DeviceState, bool, Option<Seq<char>>) {
    (d.name@, d.device_type, d.state, d.carrier, opt_str(d.active_connection))
}

/// Everything a profile says.
pub open spec fn profile_view(p: ConnectionProfile) -> (
    Seq<char>,
    DeviceType,
    Option<Seq<char>>,
    bool,
    i32,
    Option<(Seq<char>, crate::wifi::security::SecurityType)>,
) {
    (p.id@, p.device_type, opt_str(p.interface_name), p.autoconnect, p.autoconnect_priority, match p.wifi {
        Some(w) => Some((w.ssid@, w.security)),
        None => None,
    })
}

pub open spec fn device_views(v: Seq<NetworkDevice>) -> Seq<(Seq<char>, DeviceType, DeviceState, bool, Option<Seq<char>>)> {
    v.map_values(|d: NetworkDevice| device_view(d))
}

pub open spec fn profile_views(v: Seq<ConnectionProfile>) -> Seq<
    (Seq<char>, DeviceType, Option<Seq<char>>, bool, i32, Option<(Seq<char>, crate::wifi::security::SecurityType)>),
> {
    v.map_values(|p: ConnectionProfile| profile_view(p))
}

/// The first device named `name`.
pub open spec fn device_index(ds: Seq<NetworkDevice>, name: Seq<char>) -> Option<int> {
    if exists|i: int| 0 <= i < ds.len() && #[trigger] ds[i].name@ == name {
        Some(choose|i: int| 0 <= i < ds.len() && #[trigger] ds[i].name@ == name && forall|j: int| 0 <= j < i ==> ds[j].name@ != name)
    } else {
        None
    }
}

/// The first profile with id `id`.
pub open spec fn profile_index(ps: Seq<ConnectionProfile>, id: Seq<char>) -> Option<int> {
    if exists|i: int| 0 <= i < ps.len() && #[trigger] ps[i].id@ == id {
        Some(choose|i: int| 0 <= i < ps.len() && #[trigger] ps[i].id@ == id && forall|j: int| 0 <= j < i ==> ps[j].id@ != id)
    } else {
        None
    }
}

/// A device that can take `profile`: of its type, with nothing active,
/// and the one it names if it is pinned to an interface.
pub open spec fn fits(d: NetworkDevice, p: ConnectionProfile) -> bool {
    &&& d.device_type == p.device_type
    &&& d.active_connection is None
    &&& match p.interface_name {
        Some(n) => n@ == d.name@,
        None => true,
    }
}

fn find_device(ds: &Vec<NetworkDevice>, name: &str) -> (r: Option<usize>)
    ensures
        match device_index(ds@, name@) {
            Some(i) => r == Some(i as usize),
            None => r is None,
        },
        r matches Some(i) ==> i < ds.len() && device_index(ds@, name@) == Some(i as int),
{
    let mut i: usize = 0;
    while i < ds.len()
        invariant
            i <= ds.len(),
            forall|j: int| 0 <= j < i ==> ds@[j].name@ != name@,
        decreases ds.len() - i,
    {
        if str_eq(ds[i].name.as_str(), name) {
            proof {
                let k = choose|k: int| 0 <= k < ds.len() && #[trigger] ds@[k].name@ == name@ && forall|j: int| 0 <= j < k ==> ds@[j].name@ != name@;
                assert(ds@[i as int].name@ == name@);
                if k < i {
                    assert(ds@[k].name@ != name@);
                }
                if i < k {
                    assert(ds@[i as int].name@ != name@);
                }
            }
            return Some(i);
        }
        i += 1;
    }
    None
}

fn find_profile(ps: &Vec<ConnectionProfile>, id: &str) -> (r: Option<usize>)
    ensures
        match profile_index(ps@, id@) {
            Some(i) => r == Some(i as usize),
            None => r is None,
        },
        r matches Some(i) ==> i < ps.len() && profile_index(ps@, id@) == Some(i as int),
{
    let mut i: usize = 0;
    while i < ps.len()
        invariant
            i <= ps.len(),
            forall|j: int| 0 <= j < i ==> ps@[j].id@ != id@,
        decreases ps.len() - i,
    {
        if str_eq(ps[i].id.as_str(), id) {
            proof {
                let k = choose|k: int| 0 <= k < ps.len() && #[trigger] ps@[k].id@ == id@ && forall|j: int| 0 <= j < k ==> ps@[j].id@ != id@;
                assert(ps@[i as int].id@ == id@);
                if k < i {
                    assert(ps@[k].id@ != id@);
                }
                if i < k {
                    assert(ps@[i as int].id@ != id@);
                }
            }
            return Some(i);
        }
        i += 1;
    }
    None
}

impl NetworkManager {
    /// A manager over the devices found and the profiles loaded at
    /// start-up, with nothing active and connectivity unknown.
    pub fn new(devices: Vec<NetworkDevice>, connections: Vec<ConnectionProfile>) -> (m: NetworkManager)
        ensures
            m.devices@ == devices@,
            m.connections@ == connections@,
            m.active@.len() == 0,
            m.connectivity == ConnectivityState::Unknown,
    {
        NetworkManager {
            devices,
            connections,
            active: Vec::new(),
            connectivity: ConnectivityState::Unknown,
            events: EventBus::new(),
        }
    }

    /// One step of answering `req`, given what the outside work asked for
    /// by the previous step gave (`Started` for a new request). The state
    /// queries are answered at once. `AddConnection` writes the profile's
    /// file, then takes it in. `ConnectWifi` stores the passphrase, writes
    /// the profile's file and activates it, stopping at the first failure.
    /// `DeleteConnection` brings the profile down if it is active, deletes
    /// its file and then its secrets. `ForgetWifi` cleans up outside and
    /// drops the profile. Anything else is outside work.
    pub fn handle_request(&mut self, req: Request, done: RequestDone) -> (o: Outcome)
        ensures
            req matches Request::GetState ==> (o matches Outcome::Reply(Response::State(s))
                && s == overall_state_spec(old(self).devices@, old(self).connectivity)),
            req matches Request::ListDevices ==> (o matches Outcome::Reply(Response::Devices(v))
                && device_views(v@) == device_views(old(self).devices@)),
            req matches Request::GetDevice { name } ==> match device_index(old(self).devices@, name@) {
                Some(i) => (o matches Outcome::Reply(Response::Device(d)) && device_view(d) == device_view(old(self).devices@[i])),
                None => (o matches Outcome::Reply(Response::Error(m)) && m@ == "no such device '"@ + name@ + "'"@),
            },
            req matches Request::ListConnections ==> (o matches Outcome::Reply(Response::Connections(v))
                && profile_views(v@) == profile_views(old(self).connections@)),
            req matches Request::GetConnection { id } ==> match profile_index(old(self).connections@, id@) {
                Some(i) => (o matches Outcome::Reply(Response::Connection(p)) && profile_view(p) == profile_view(old(self).connections@[i])),
                None => (o matches Outcome::Reply(Response::Error(m)) && m@ == "no such connection '"@ + id@ + "'"@),
            },
            req matches Request::GetConnectivity ==> (o matches Outcome::Reply(Response::Connectivity(c))
                && c == old(self).connectivity),
            (req is GetState || req is ListDevices || req is GetDevice || req is ListConnections
                || req is GetConnection || req is GetConnectivity) ==> untouched(*old(self), *final(self)),
            req matches Request::AddConnection { profile } ==> add_connection_step(*old(self), *final(self), profile, done, o),
            req matches Request::ConnectWifi { device, ssid, security, passphrase } ==> connect_wifi_req_step(
                *old(self),
                *final(self),
                device@,
                ssid@,
                security,
                passphrase,
                done,
                o,
            ),
            req matches Request::DeleteConnection { id } ==> delete_connection_step(*old(self), *final(self), id@, done, o),
            req matches Request::ForgetWifi { device, ssid } ==> forget_wifi_step(*old(self), *final(self), device@, ssid@, done, o),
            !(req is GetState || req is ListDevices || req is GetDevice || req is ListConnections
                || req is GetConnection || req is GetConnectivity || req is AddConnection || req is ConnectWifi
                || req is DeleteConnection || req is ForgetWifi) ==> (o matches Outcome::Perform(r2) && r2 == req)
                && untouched(*old(self), *final(self)),
    {
        match req {
            Request::GetState => Outcome::Reply(Response::State(overall_state(self.devices.as_slice(), self.connectivity))),
            Request::ListDevices => Outcome::Reply(Response::Devices(clone_devices(&self.devices))),
            Request::GetDevice { name } => match find_device(&self.devices, name.as_str()) {
                Some(i) => Outcome::Reply(Response::Device(clone_device(&self.devices[i]))),
                None => Outcome::Reply(Response::Error(join3("no such device '", name.as_str(), "'"))),
            },
            Request::ListConnections => Outcome::Reply(Response::Connections(clone_profiles(&self.connections))),
            Request::GetConnection { id } => match find_profile(&self.connections, id.as_str()) {
                Some(i) => Outcome::Reply(Response::Connection(clone_profile(&self.connections[i]))),
                None => Outcome::Reply(Response::Error(join3("no such connection '", id.as_str(), "'"))),
            },
            Request::GetConnectivity => Outcome::Reply(Response::Connectivity(self.connectivity)),
            Request::AddConnection { profile } => match done {
                RequestDone::ProfileSaved(r) => Outcome::Reply(self.connection_added(profile, r)),
                _ => Outcome::SaveProfile(profile),
            },
            Request::ConnectWifi { device, ssid, security, passphrase } => {
                let wd = match done {
                    RequestDone::SecretStored(r) => WifiConnectDone::SecretStored(r),
                    RequestDone::ProfileSaved(r) => WifiConnectDone::ProfileSaved(r),
                    _ => WifiConnectDone::Started,
                };
                let pass: Option<&str> = match &passphrase {
                    Some(p) => Some(p.as_str()),
                    None => None,
                };
                match self.connect_wifi_step(device.as_str(), ssid.as_str(), security, pass, wd) {
                    WifiConnectAction::StoreSecret { owner, key, value } => Outcome::StoreSecret { owner, key, value },
                    WifiConnectAction::SaveProfile(p) => Outcome::SaveProfile(p),
                    WifiConnectAction::Activate(id) => Outcome::Activate(id),
                    WifiConnectAction::Reply(r) => Outcome::Reply(r),
                }
            },
            Request::DeleteConnection { id } => match done {
                RequestDone::ProfileDeleted(r) => {
                    let ok = r.is_ok();
                    let resp = self.connection_deleted(id.as_str(), r);
                    if ok {
                        Outcome::DeleteSecrets(id)
                    } else {
                        Outcome::Reply(resp)
                    }
                },
                RequestDone::SecretsDeleted => Outcome::Reply(Response::Success),
                RequestDone::Deactivated => Outcome::DeleteProfile(id),
                _ => match self.device_of_active(id.as_str()) {
                    Some(_) => Outcome::Deactivate(id),
                    None => Outcome::DeleteProfile(id),
                },
            },
            Request::ForgetWifi { device, ssid } => match done {
                RequestDone::Cleaned => Outcome::Reply(self.wifi_forgotten(ssid.as_str())),
                _ => {
                    let owner = wifi_profile_id(ssid.as_str());
                    Outcome::ForgetNetwork { device, ssid, owner }
                },
            },
            other => Outcome::Perform(other),
        }
    }

    /// Takes in a saved profile: it replaces any profile with its id.
    pub fn upsert_connection(&mut self, profile: ConnectionProfile)
        ensures
            final(self).connections@ == without_profile(old(self).connections@, profile.id@).push(profile),
            final(self).devices@ == old(self).devices@,
            final(self).active@ == old(self).active@,
            final(self).connectivity == old(self).connectivity,
            final(self).events == old(self).events,
    {
        let id = profile.id.clone();
        self.remove_connection(id.as_str());
        self.connections.push(profile);
    }

    /// Drops every profile with id `id`.
    pub fn remove_connection(&mut self, id: &str)
        ensures
            final(self).connections@ == without_profile(old(self).connections@, id@),
            final(self).devices@ == old(self).devices@,
            final(self).active@ == old(self).active@,
            final(self).connectivity == old(self).connectivity,
            final(self).events == old(self).events,
    {
        let mut all = Vec::new();
        std::mem::swap(&mut all, &mut self.connections);
        let ghost orig = all@;
        let n = all.len();
        let mut rest = crate::collections::reversed(all);
        let mut kept: Vec<ConnectionProfile> = Vec::new();
        let mut i: usize = 0;
        while i < n
            invariant
                i <= n == orig.len(),
                rest.len() == n - i,
                forall|k: int| 0 <= k < n - i ==> #[trigger] rest@[k] == orig[n - 1 - k],
                kept@ == without_profile(orig.subrange(0, i as int), id@),
            decreases n - i,
        {
            let p = rest.pop().unwrap();
            proof {
                reveal(Seq::filter);
                assert(orig.subrange(0, i + 1).drop_last() =~= orig.subrange(0, i as int));
            }
            if !str_eq(p.id.as_str(), id) {
                kept.push(p);
            }
            i += 1;
        }
        assert(orig.subrange(0, n as int) =~= orig);
        self.connections = kept;
    }

    /// The device that `profile` would be activated on: the first device
    /// that fits it.
    pub fn find_device_for_profile(&self, profile: &ConnectionProfile) -> (r: Option<String>)
        ensures
            match r {
                Some(n) => exists|i: int| 0 <= i < self.devices.len() && fits(self.devices@[i], *profile)
                    && self.devices@[i].name@ == n@ && forall|j: int| 0 <= j < i ==> !fits(#[trigger] self.devices@[j], *profile),
                None => forall|i: int| 0 <= i < self.devices.len() ==> !fits(#[trigger] self.devices@[i], *profile),
            },
    {
        let mut i: usize = 0;
        while i < self.devices.len()
            invariant
                i <= self.devices.len(),
                forall|j: int| 0 <= j < i ==> !fits(#[trigger] self.devices@[j], *profile),
            decreases self.devices.len() - i,
        {
            let d = &self.devices[i];
            let pinned_ok = match &profile.interface_name {
                Some(n) => str_eq(n.as_str(), d.name.as_str()),
                None => true,
            };
            if d.device_type == profile.device_type && d.active_connection.is_none() && pinned_ok {
                return Some(d.name.clone());
            }
            i += 1;
        }
        None
    }

    /// Records a new connectivity verdict; true when it changed (which is
    /// when clients get told).
    pub fn set_connectivity(&mut self, c: ConnectivityState) -> (changed: bool)
        ensures
            changed == (c != old(self).connectivity),
            final(self).connectivity == c,
            final(self).devices@ == old(self).devices@,
            final(self).connections@ == old(self).connections@,
            final(self).active@ == old(self).active@,
            final(self).events == old(self).events,
    {
        let changed = c != self.connectivity;
        self.connectivity = c;
        changed
    }

    /// Whether autoconnect should look for a profile for `device_name`: a
    /// known, managed device with nothing active, disconnected or
    /// unavailable, and with carrier.
    pub fn autoconnect_eligible(&self, device_name: &str) -> (b: bool)
        ensures
            b == match device_index(self.devices@, device_name@) {
                Some(i) => {
                    let d = self.devices@[i];
                    d.state != DeviceState::Unmanaged && d.active_connection is None && (d.state
                        == DeviceState::Disconnected || d.state == DeviceState::Unavailable) && d.carrier
                },
                None => false,
            },
    {
        match find_device(&self.devices, device_name) {
            None => false,
            Some(i) => {
                let d = &self.devices[i];
                d.state != DeviceState::Unmanaged && d.active_connection.is_none() && (d.state
                    == DeviceState::Disconnected || d.state == DeviceState::Unavailable) && d.carrier
            },
        }
    }

    /// The devices a periodic Wi-Fi scan retries autoconnect on: managed
    /// Wi-Fi devices, in order.
    pub fn wifi_scan_targets(&self) -> (names: Vec<String>)
        ensures
            names@.map_values(|s: String| s@) == self.devices@.filter(
                |d: NetworkDevice| d.device_type == DeviceType::WiFi && d.state != DeviceState::Unmanaged,
            ).map_values(|d: NetworkDevice| d.name@),
    {
        let mut names: Vec<String> = Vec::new();
        let mut i: usize = 0;
        while i < self.devices.len()
            invariant
                i <= self.devices.len(),
                names@.map_values(|s: String| s@) == self.devices@.subrange(0, i as int).filter(
                    |d: NetworkDevice| d.device_type == DeviceType::WiFi && d.state != DeviceState::Unmanaged,
                ).map_values(|d: NetworkDevice| d.name@),
            decreases self.devices.len() - i,
        {
            let ghost before = names@.map_values(|s: String| s@);
            proof {
                reveal(Seq::filter);
                assert(self.devices@.subrange(0, i + 1).drop_last() =~= self.devices@.subrange(0, i as int));
            }
            let d = &self.devices[i];
            if d.device_type == DeviceType::WiFi && d.state != DeviceState::Unmanaged {
                names.push(d.name.clone());
                proof {
                    let f = self.devices@.subrange(0, i as int).filter(
                        |d: NetworkDevice| d.device_type == DeviceType::WiFi && d.state != DeviceState::Unmanaged,
                    );
                    assert(names@.map_values(|s: String| s@) =~= before.push(d.name@));
                    assert(f.push(*d).map_values(|d: NetworkDevice| d.name@) =~= f.map_values(|d: NetworkDevice| d.name@).push(d.name@));
                }
            }
            i += 1;
        }
        assert(self.devices@.subrange(0, self.devices.len() as int) =~= self.devices@);
        names
    }

    /// The devices whose connection is fully activated: those whose DHCP
    /// lease the periodic lease check looks at.
    pub fn lease_check_targets(&self) -> (names: Vec<String>)
        ensures
            names@.map_values(|s: String| s@) == self.active@.filter(
                |a: (String, ActiveConnection)| a.1.state == ActiveConnectionState::Activated,
            ).map_values(|a: (String, ActiveConnection)| a.0@),
    {
        let mut names: Vec<String> = Vec::new();
        let mut i: usize = 0;
        while i < self.active.len()
            invariant
                i <= self.active.len(),
                names@.map_values(|s: String| s@) == self.active@.subrange(0, i as int).filter(
                    |a: (String, ActiveConnection)| a.1.state == ActiveConnectionState::Activated,
                ).map_values(|a: (String, ActiveConnection)| a.0@),
            decreases self.active.len() - i,
        {
            let ghost before = names@.map_values(|s: String| s@);
            proof {
                reveal(Seq::filter);
                assert(self.active@.subrange(0, i + 1).drop_last() =~= self.active@.subrange(0, i as int));
            }
            let a = &self.active[i];
            if a.1.state == ActiveConnectionState::Activated {
                names.push(a.0.clone());
                proof {
                    let f = self.active@.subrange(0, i as int).filter(
                        |a: (String, ActiveConnection)| a.1.state == ActiveConnectionState::Activated,
                    );
                    assert(names@.map_values(|s: String| s@) =~= before.push(a.0@));
                    assert(f.push(*a).map_values(|a: (String, ActiveConnection)| a.0@) =~= f.map_values(|a: (String, ActiveConnection)| a.0@).push(a.0@));
                }
            }
            i += 1;
        }
        assert(self.active@.subrange(0, self.active.len() as int) =~= self.active@);
        names
    }

    /// The device on which profile `profile_id` is active, if it is.
    pub fn device_of_active(&self, profile_id: &str) -> (r: Option<String>)
        ensures
            match r {
                Some(n) => exists|i: int| 0 <= i < self.active.len() && self.active@[i].1.profile_id@ == profile_id@
                    && self.active@[i].0@ == n@,
                None => forall|i: int| 0 <= i < self.active.len() ==> self.active@[i].1.profile_id@ != profile_id@,
            },
    {
        let mut i: usize = 0;
        while i < self.active.len()
            invariant
                i <= self.active.len(),
                forall|j: int| 0 <= j < i ==> self.active@[j].1.profile_id@ != profile_id@,
            decreases self.active.len() - i,
        {
            if str_eq(self.active[i].1.profile_id.as_str(), profile_id) {
                return Some(self.active[i].0.clone());
            }
            i += 1;
        }
        None
    }

    /// Records that `active` came up on `device`, replacing whatever was
    /// recorded for that device.
    pub fn record_activation(&mut self, device: String, active: ActiveConnection)
        ensures
            final(self).active@ == without_device(old(self).active@, device@).push(
                (device, active),
            ),
            final(self).devices@ == old(self).devices@,
            final(self).connections@ == old(self).connections@,
            final(self).connectivity == old(self).connectivity,
            final(self).events == old(self).events,
    {
        self.forget_active(device.as_str());
        self.active.push((device, active));
    }

    /// Forgets what was active on `device`.
    pub fn forget_active(&mut self, device: &str)
        ensures
            final(self).active@ == without_device(old(self).active@, device@),
            final(self).devices@ == old(self).devices@,
            final(self).connections@ == old(self).connections@,
            final(self).connectivity == old(self).connectivity,
            final(self).events == old(self).events,
    {
        let mut all = Vec::new();
        std::mem::swap(&mut all, &mut self.active);
        let ghost orig = all@;
        let n = all.len();
        let mut rest = crate::collections::reversed(all);
        let mut kept: Vec<(String, ActiveConnection)> = Vec::new();
        let mut i: usize = 0;
        while i < n
            invariant
                i <= n == orig.len(),
                rest.len() == n - i,
                forall|k: int| 0 <= k < n - i ==> #[trigger] rest@[k] == orig[n - 1 - k],
                kept@ == without_device(orig.subrange(0, i as int), device@),
            decreases n - i,
        {
            let a = rest.pop().unwrap();
            proof {
                reveal(Seq::filter);
                assert(orig.subrange(0, i + 1).drop_last() =~= orig.subrange(0, i as int));
            }
            if !str_eq(a.0.as_str(), device) {
                kept.push(a);
            }
            i += 1;
        }
        assert(orig.subrange(0, n as int) =~= orig);
        self.active = kept;
    }
}

/// The id of the profile `ConnectWifi` creates for `ssid`.
pub fn wifi_profile_id(ssid: &str) -> (id: String)
    ensures
        id@ == "wifi-"@ + ssid@,
{
    crate::errors::join2("wifi-", ssid)
}

fn clone_device(d: &NetworkDevice) -> (c: NetworkDevice)
    ensures
        device_view(c) == device_view(*d),
{
    NetworkDevice {
        name: d.name.clone(),
        device_type: d.device_type,
        state: d.state,
        carrier: d.carrier,
        active_connection: match &d.active_connection {
            Some(a) => Some(a.clone()),
            None => None,
        },
    }
}

fn clone_devices(v: &Vec<NetworkDevice>) -> (c: Vec<NetworkDevice>)
    ensures
        device_views(c@) == device_views(v@),
{
    let mut c: Vec<NetworkDevice> = Vec::new();
    let mut i: usize = 0;
    while i < v.len()
        invariant
            i <= v.len(),
            c.len() == i,
            forall|k: int| 0 <= k < i ==> device_view(#[trigger] c@[k]) == device_view(v@[k]),
        decreases v.len() - i,
    {
        c.push(clone_device(&v[i]));
        i += 1;
    }
    assert forall|k: int| 0 <= k < v.len() implies #[trigger] device_views(c@)[k] == device_views(v@)[k] by {
        assert(device_view(c@[k]) == device_view(v@[k]));
    }
    assert(device_views(c@) =~= device_views(v@));
    c
}

fn clone_profile(p: &ConnectionProfile) -> (c: ConnectionProfile)
    ensures
        profile_view(c) == profile_view(*p),
{
    ConnectionProfile {
        id: p.id.clone(),
        device_type: p.device_type,
        interface_name: match &p.interface_name {
            Some(n) => Some(n.clone()),
            None => None,
        },
        autoconnect: p.autoconnect,
        autoconnect_priority: p.autoconnect_priority,
        wifi: match &p.wifi {
            Some(w) => Some(crate::connection::WifiSettings { ssid: w.ssid.clone(), security: w.security }),
            None => None,
        },
    }
}

fn clone_profiles(v: &Vec<ConnectionProfile>) -> (c: Vec<ConnectionProfile>)
    ensures
        profile_views(c@) == profile_views(v@),
{
    let mut c: Vec<ConnectionProfile> = Vec::new();
    let mut i: usize = 0;
    while i < v.len()
        invariant
            i <= v.len(),
            c.len() == i,
            forall|k: int| 0 <= k < i ==> profile_view(#[trigger] c@[k]) == profile_view(v@[k]),
        decreases v.len() - i,
    {
        c.push(clone_profile(&v[i]));
        i += 1;
    }
    assert forall|k: int| 0 <= k < v.len() implies #[trigger] profile_views(c@)[k] == profile_views(v@)[k] by {
        assert(profile_view(c@[k]) == profile_view(v@[k]));
    }
    assert(profile_views(c@) =~= profile_views(v@));
    c
}

} // verus!

verus! {

/// `p` may be brought up automatically on `d`: autoconnect is on, it is
/// for `d`'s kind of device and not pinned to another interface, and a
/// Wi-Fi profile's network is among those in range.
pub open spec fn autoconnect_candidate(p: ConnectionProfile, d: NetworkDevice, visible: Seq<Seq<char>>) -> bool {
    &&& p.autoconnect
    &&& p.device_type == d.device_type
    &&& match p.interface_name {
        Some(n) => n@ == d.name@,
        None => true,
    }
    &&& d.device_type == DeviceType::WiFi ==> (p.wifi matches Some(w) && visible.contains(w.ssid@))
}

/// The state and active connection a device listed in a refresh ends up
/// with: those the manager already recorded for that name, if any.
pub open spec fn refreshed(found: NetworkDevice, known: Seq<NetworkDevice>) -> (DeviceState, Option<Seq<char>>) {
    match device_index(known, found.name@) {
        Some(i) => (known[i].state, opt_str(known[i].active_connection)),
        None => (found.state, opt_str(found.active_connection)),
    }
}

/// `new` is the listing `found`, one for one, with what was `known` kept.
pub open spec fn is_refresh(new: Seq<NetworkDevice>, found: Seq<NetworkDevice>, known: Seq<NetworkDevice>) -> bool {
    &&& new.len() == found.len()
    &&& forall|i: int|
        0 <= i < found.len() ==> {
            let d = #[trigger] new[i];
            &&& d.name@ == found[i].name@
            &&& d.device_type == found[i].device_type
            &&& d.carrier == found[i].carrier
            &&& (d.state, opt_str(d.active_connection)) == refreshed(found[i], known)
        }
}

impl NetworkManager {
    /// Index in `order` of the profile to bring up on `device`: the first
    /// candidate.
    pub fn autoconnect_choice(order: &Vec<ConnectionProfile>, device: &NetworkDevice, visible: &Vec<String>) -> (r:
        Option<usize>)
        ensures
            match r {
                Some(i) => i < order.len() && autoconnect_candidate(order@[i as int], *device, visible@.map_values(|s: String| s@))
                    && forall|j: int| 0 <= j < i ==> !autoconnect_candidate(#[trigger] order@[j], *device, visible@.map_values(|s: String| s@)),
                None => forall|j: int| 0 <= j < order.len() ==> !autoconnect_candidate(#[trigger] order@[j], *device, visible@.map_values(|s: String| s@)),
            },
    {
        let ghost vis = visible@.map_values(|s: String| s@);
        let mut i: usize = 0;
        while i < order.len()
            invariant
                i <= order.len(),
                vis == visible@.map_values(|s: String| s@),
                forall|j: int| 0 <= j < i ==> !autoconnect_candidate(#[trigger] order@[j], *device, vis),
            decreases order.len() - i,
        {
            let p = &order[i];
            let pinned_ok = match &p.interface_name {
                Some(n) => str_eq(n.as_str(), device.name.as_str()),
                None => true,
            };
            let visible_ok = if device.device_type == DeviceType::WiFi {
                match &p.wifi {
                    Some(w) => {
                        let mut found = false;
                        let mut k: usize = 0;
                        while k < visible.len()
                            invariant
                                k <= visible.len(),
                                vis == visible@.map_values(|s: String| s@),
                                found == exists|m: int| 0 <= m < k && vis[m] == w.ssid@,
                            decreases visible.len() - k,
                        {
                            let eq = str_eq(visible[k].as_str(), w.ssid.as_str());
                            proof {
                                assert(vis[k as int] == visible@[k as int]@);
                                if !eq && !found {
                                    assert forall|m: int| 0 <= m < k + 1 implies vis[m] != w.ssid@ by {
                                        if m < k {
                                            assert(!(0 <= m < k && vis[m] == w.ssid@));
                                        }
                                    }
                                }
                            }
                            if eq {
                                found = true;
                            }
                            k += 1;
                        }
                        proof {
                            if found {
                                let m = choose|m: int| 0 <= m < k && vis[m] == w.ssid@;
                                assert(vis.contains(w.ssid@));
                            } else {
                                assert(!vis.contains(w.ssid@));
                            }
                        }
                        found
                    },
                    None => false,
                }
            } else {
                true
            };
            if p.autoconnect && p.device_type == device.device_type && pinned_ok && visible_ok {
                return Some(i);
            }
            i += 1;
        }
        None
    }

    /// Records a device's new state.
    pub fn set_device_state(&mut self, name: &str, state: DeviceState)
        ensures
            final(self).devices.len() == old(self).devices.len(),
            forall|i: int|
                0 <= i < old(self).devices.len() ==> {
                    let (d, e) = (#[trigger] final(self).devices@[i], old(self).devices@[i]);
                    &&& d.name == e.name
                    &&& d.device_type == e.device_type
                    &&& d.carrier == e.carrier
                    &&& d.active_connection == e.active_connection
                    &&& d.state == if e.name@ == name@ { state } else { e.state }
                },
            final(self).connections@ == old(self).connections@,
            final(self).active@ == old(self).active@,
            final(self).connectivity == old(self).connectivity,
            final(self).events == old(self).events,
    {
        let n = self.devices.len();
        let mut i: usize = 0;
        while i < n
            invariant
                n == self.devices.len() == old(self).devices.len(),
                i <= n,
                self.connections@ == old(self).connections@,
                self.active@ == old(self).active@,
                self.connectivity == old(self).connectivity,
                self.events == old(self).events,
                forall|k: int|
                    0 <= k < n ==> {
                        let (d, e) = (#[trigger] self.devices@[k], old(self).devices@[k]);
                        &&& d.name == e.name
                        &&& d.device_type == e.device_type
                        &&& d.carrier == e.carrier
                        &&& d.active_connection == e.active_connection
                        &&& d.state == if k < i && e.name@ == name@ { state } else { e.state }
                    },
            decreases n - i,
        {
            if str_eq(self.devices[i].name.as_str(), name) {
                let mut d = self.devices.remove(i);
                d.state = state;
                self.devices.insert(i, d);
            }
            i += 1;
        }
    }

    /// Records a device's new state and the profile now active on it (or
    /// that nothing is).
    pub fn set_device_connection(&mut self, name: &str, state: DeviceState, connection: Option<String>)
        ensures
            final(self).devices.len() == old(self).devices.len(),
            forall|i: int|
                0 <= i < old(self).devices.len() ==> {
                    let (d, e) = (#[trigger] final(self).devices@[i], old(self).devices@[i]);
                    &&& d.name == e.name
                    &&& d.device_type == e.device_type
                    &&& d.carrier == e.carrier
                    &&& opt_str(d.active_connection) == if e.name@ == name@ {
                        opt_str(connection)
                    } else {
                        opt_str(e.active_connection)
                    }
                    &&& d.state == if e.name@ == name@ { state } else { e.state }
                },
            final(self).connections@ == old(self).connections@,
            final(self).active@ == old(self).active@,
            final(self).connectivity == old(self).connectivity,
            final(self).events == old(self).events,
    {
        let n = self.devices.len();
        let mut i: usize = 0;
        while i < n
            invariant
                n == self.devices.len() == old(self).devices.len(),
                i <= n,
                self.connections@ == old(self).connections@,
                self.active@ == old(self).active@,
                self.connectivity == old(self).connectivity,
                self.events == old(self).events,
                forall|k: int|
                    0 <= k < n ==> {
                        let (d, e) = (#[trigger] self.devices@[k], old(self).devices@[k]);
                        &&& d.name == e.name
                        &&& d.device_type == e.device_type
                        &&& d.carrier == e.carrier
                        &&& opt_str(d.active_connection) == if k < i && e.name@ == name@ {
                            opt_str(connection)
                        } else {
                            opt_str(e.active_connection)
                        }
                        &&& d.state == if k < i && e.name@ == name@ { state } else { e.state }
                    },
            decreases n - i,
        {
            if str_eq(self.devices[i].name.as_str(), name) {
                let mut d = self.devices.remove(i);
                d.state = state;
                d.active_connection = match &connection {
                    Some(c) => Some(c.clone()),
                    None => None,
                };
                self.devices.insert(i, d);
            }
            i += 1;
        }
    }

    /// Drops the device named `name`.
    pub fn remove_device(&mut self, name: &str)
        ensures
            final(self).devices@ == old(self).devices@.filter(|d: NetworkDevice| d.name@ != name@),
            final(self).connections@ == old(self).connections@,
            final(self).active@ == old(self).active@,
            final(self).connectivity == old(self).connectivity,
            final(self).events == old(self).events,
    {
        let mut all = Vec::new();
        std::mem::swap(&mut all, &mut self.devices);
        let ghost orig = all@;
        let n = all.len();
        let mut rest = crate::collections::reversed(all);
        let mut kept: Vec<NetworkDevice> = Vec::new();
        let mut i: usize = 0;
        while i < n
            invariant
                i <= n == orig.len(),
                rest.len() == n - i,
                forall|k: int| 0 <= k < n - i ==> #[trigger] rest@[k] == orig[n - 1 - k],
                kept@ == orig.subrange(0, i as int).filter(|d: NetworkDevice| d.name@ != name@),
            decreases n - i,
        {
            let d = rest.pop().unwrap();
            proof {
                reveal(Seq::filter);
                assert(orig.subrange(0, i + 1).drop_last() =~= orig.subrange(0, i as int));
            }
            if !str_eq(d.name.as_str(), name) {
                kept.push(d);
            }
            i += 1;
        }
        assert(orig.subrange(0, n as int) =~= orig);
        self.devices = kept;
    }

    /// Replaces the device list with a fresh listing, keeping what the
    /// manager knows of devices it already had.
    pub fn refresh_devices(&mut self, found: Vec<NetworkDevice>)
        ensures
            is_refresh(final(self).devices@, found@, old(self).devices@),
            final(self).connections@ == old(self).connections@,
            final(self).active@ == old(self).active@,
            final(self).connectivity == old(self).connectivity,
            final(self).events == old(self).events,
    {
        let mut out: Vec<NetworkDevice> = Vec::new();
        let mut i: usize = 0;
        while i < found.len()
            invariant
                i <= found.len(),
                out.len() == i,
                self.devices@ == old(self).devices@,
                self.connections@ == old(self).connections@,
                self.active@ == old(self).active@,
                self.connectivity == old(self).connectivity,
                forall|k: int|
                    0 <= k < i ==> {
                        let d = #[trigger] out@[k];
                        &&& d.name@ == found@[k].name@
                        &&& d.device_type == found@[k].device_type
                        &&& d.carrier == found@[k].carrier
                        &&& (d.state, opt_str(d.active_connection)) == refreshed(found@[k], old(self).devices@)
                    },
            decreases found.len() - i,
        {
            let f = &found[i];
            let (state, active) = match find_device(&self.devices, f.name.as_str()) {
                Some(j) => (self.devices[j].state, match &self.devices[j].active_connection {
                    Some(a) => Some(a.clone()),
                    None => None,
                }),
                None => (f.state, match &f.active_connection {
                    Some(a) => Some(a.clone()),
                    None => None,
                }),
            };
            out.push(NetworkDevice {
                name: f.name.clone(),
                device_type: f.device_type,
                state,
                carrier: f.carrier,
                active_connection: active,
            });
            i += 1;
        }
        self.devices = out;
    }
}

} // verus!

verus! {

/// `b` is `a` after clients were told the state of device `n` (when the
/// devices `ds` have it) and then the overall state.
pub open spec fn device_announced(
    a: EventBus,
    b: EventBus,
    ds: Seq<NetworkDevice>,
    c: ConnectivityState,
    n: String,
) -> bool {
    match device_index(ds, n@) {
        Some(i) => EventBus::broadcasted2(
            a,
            b,
            Event::DeviceStateChanged { device: n, state: ds[i].state },
            Event::StateChanged(overall_state_spec(ds, c)),
        ),
        None => EventBus::broadcasted(a, b, Event::StateChanged(overall_state_spec(ds, c))),
    }
}

/// The manager's bookkeeping is unchanged.
pub open spec fn unchanged(a: NetworkManager, b: NetworkManager) -> bool {
    &&& b.devices@ == a.devices@
    &&& b.connections@ == a.connections@
    &&& b.active@ == a.active@
    &&& b.connectivity == a.connectivity
}

impl NetworkManager {
    /// Tells every client the overall state.
    pub fn broadcast_state(&mut self)
        ensures
            unchanged(*old(self), *final(self)),
            EventBus::broadcasted(
                old(self).events,
                final(self).events,
                Event::StateChanged(overall_state_spec(old(self).devices@, old(self).connectivity)),
            ),
    {
        let s = overall_state(self.devices.as_slice(), self.connectivity);
        self.events.broadcast(Event::StateChanged(s));
    }

    /// Takes in a change to the set of links. `found` is the device listing
    /// taken after the change (not consulted for a removal). The result is
    /// the device to try autoconnect on, if any. Clients are told of the
    /// device and of the overall state.
    pub fn handle_hotplug(&mut self, ev: HotplugEvent, found: Vec<NetworkDevice>) -> (retry: Option<String>)
        ensures
            final(self).connections@ == old(self).connections@,
            final(self).connectivity == old(self).connectivity,
            ev matches HotplugEvent::LinkAdded(n) ==> is_refresh(final(self).devices@, found@, old(self).devices@)
                && final(self).active@ == old(self).active@ && (retry matches Some(x) && x@ == n@),
            ev matches HotplugEvent::LinkRemoved(n) ==> final(self).devices@ == old(self).devices@.filter(
                |d: NetworkDevice| d.name@ != n@,
            ) && final(self).active@ == without_device(old(self).active@, n@)
                && retry is None,
            (ev is LinkChanged || ev is AddressChanged) ==> is_refresh(final(self).devices@, found@, old(self).devices@)
                && final(self).active@ == old(self).active@ && retry is None,
            ev matches HotplugEvent::LinkAdded(n) ==> match device_index(final(self).devices@, n@) {
                Some(i) => exists|d: NetworkDevice|
                    device_view(d) == device_view(final(self).devices@[i]) && #[trigger] EventBus::broadcasted2(
                        old(self).events,
                        final(self).events,
                        Event::DeviceAdded(d),
                        Event::StateChanged(overall_state_spec(final(self).devices@, final(self).connectivity)),
                    ),
                None => EventBus::broadcasted(
                    old(self).events,
                    final(self).events,
                    Event::StateChanged(overall_state_spec(final(self).devices@, final(self).connectivity)),
                ),
            },
            ev matches HotplugEvent::LinkRemoved(n) ==> EventBus::broadcasted2(
                old(self).events,
                final(self).events,
                Event::DeviceRemoved(n),
                Event::StateChanged(overall_state_spec(final(self).devices@, final(self).connectivity)),
            ),
            ev matches HotplugEvent::LinkChanged(n) ==> device_announced(
                old(self).events,
                final(self).events,
                final(self).devices@,
                final(self).connectivity,
                n,
            ),
            ev matches HotplugEvent::AddressChanged(n) ==> device_announced(
                old(self).events,
                final(self).events,
                final(self).devices@,
                final(self).connectivity,
                n,
            ),
    {
        match ev {
            HotplugEvent::LinkAdded(name) => {
                self.refresh_devices(found);
                if let Some(i) = find_device(&self.devices, name.as_str()) {
                    let d = clone_device(&self.devices[i]);
                    let ghost gd = d;
                    let ghost b0 = self.events;
                    self.events.broadcast(Event::DeviceAdded(d));
                    let ghost b1 = self.events;
                    self.broadcast_state();
                    assert(EventBus::broadcasted(b0, b1, Event::DeviceAdded(gd)));
                    assert(EventBus::broadcasted2(
                        b0,
                        self.events,
                        Event::DeviceAdded(gd),
                        Event::StateChanged(overall_state_spec(self.devices@, self.connectivity)),
                    ));
                } else {
                    self.broadcast_state();
                }
                Some(name)
            },
            HotplugEvent::LinkRemoved(name) => {
                self.forget_active(name.as_str());
                self.remove_device(name.as_str());
                let ghost n = name;
                let ghost b0 = self.events;
                self.events.broadcast(Event::DeviceRemoved(name));
                let ghost b1 = self.events;
                self.broadcast_state();
                assert(EventBus::broadcasted(b0, b1, Event::DeviceRemoved(n)));
                None
            },
            HotplugEvent::LinkChanged(name) => {
                self.refresh_devices(found);
                self.announce_device_state(name);
                None
            },
            HotplugEvent::AddressChanged(name) => {
                self.refresh_devices(found);
                self.announce_device_state(name);
                None
            },
        }
    }

    /// Tells every client the state of device `name`, if it is known, then
    /// the overall state.
    fn announce_device_state(&mut self, name: String)
        ensures
            unchanged(*old(self), *final(self)),
            device_announced(old(self).events, final(self).events, old(self).devices@, old(self).connectivity, name),
    {
        if let Some(i) = find_device(&self.devices, name.as_str()) {
            let state = self.devices[i].state;
            let ghost n = name;
            self.events.broadcast(Event::DeviceStateChanged { device: name, state });
            let ghost mid = self.events;
            self.broadcast_state();
            assert(EventBus::broadcasted(
                old(self).events,
                mid,
                Event::DeviceStateChanged { device: n, state: old(self).devices@[i as int].state },
            ));
        } else {
            self.broadcast_state();
        }
    }

    /// Takes in the result of a connectivity check (`None` when the check
    /// itself failed, which counts as `Unknown`); clients are told when the
    /// verdict changed, and the result says whether it did.
    pub fn connectivity_checked(&mut self, result: Option<ConnectivityState>) -> (changed: bool)
        ensures
            final(self).connectivity == match result {
                Some(c) => c,
                None => ConnectivityState::Unknown,
            },
            changed == (final(self).connectivity != old(self).connectivity),
            final(self).devices@ == old(self).devices@,
            final(self).connections@ == old(self).connections@,
            final(self).active@ == old(self).active@,
            changed ==> EventBus::broadcasted2(
                old(self).events,
                final(self).events,
                Event::ConnectivityChanged(final(self).connectivity),
                Event::StateChanged(overall_state_spec(final(self).devices@, final(self).connectivity)),
            ),
            !changed ==> final(self).events == old(self).events,
    {
        let c = match result {
            Some(c) => c,
            None => ConnectivityState::Unknown,
        };
        if c != self.connectivity {
            self.connectivity = c;
            self.events.broadcast(Event::ConnectivityChanged(c));
            let ghost mid = self.events;
            self.broadcast_state();
            assert(EventBus::broadcasted(old(self).events, mid, Event::ConnectivityChanged(c)));
            true
        } else {
            false
        }
    }

    /// Where profile `profile_id` is to be activated: its index and the
    /// first device that fits it; otherwise the error to answer with.
    pub fn activation_target(&self, profile_id: &str) -> (r: Result<(usize, String), Response>)
        ensures
            match profile_index(self.connections@, profile_id@) {
                None => (r matches Err(Response::Error(m)) && m@ == "no such connection profile '"@ + profile_id@
                    + "'"@),
                Some(i) => {
                    let p = self.connections@[i];
                    match r {
                        Ok((k, n)) => k == i && exists|j: int|
                            0 <= j < self.devices.len() && fits(self.devices@[j], p) && self.devices@[j].name@ == n@
                                && forall|jj: int| 0 <= jj < j ==> !fits(#[trigger] self.devices@[jj], p),
                        Err(resp) => (forall|j: int| 0 <= j < self.devices.len() ==> !fits(#[trigger] self.devices@[j], p))
                            && (resp matches Response::Error(m) && m@ == "no available "@ + crate::device::device_type_name(
                            p.device_type) + " device for '"@ + profile_id@ + "'"@),
                    }
                },
            },
    {
        match find_profile(&self.connections, profile_id) {
            None => Err(Response::Error(join3("no such connection profile '", profile_id, "'"))),
            Some(i) => match self.find_device_for_profile(&self.connections[i]) {
                Some(n) => Ok((i, n)),
                None => {
                    let mut m = String::from_str("no available ");
                    m.append(self.connections[i].device_type.name());
                    m.append(" device for '");
                    m.append(profile_id);
                    m.append("'");
                    Err(Response::Error(m))
                },
            },
        }
    }

    /// Bookkeeping once a profile came up on `device`, which is now in
    /// `state`: the device's state, what is active on it, and telling
    /// clients.
    pub fn activation_succeeded(&mut self, device: String, active: ActiveConnection, state: DeviceState)
        ensures
            final(self).devices.len() == old(self).devices.len(),
            forall|i: int|
                0 <= i < old(self).devices.len() ==> device_view(#[trigger] final(self).devices@[i]) == {
                    let e = old(self).devices@[i];
                    if e.name@ == device@ {
                        (e.name@, e.device_type, state, e.carrier, Some(active.profile_id@))
                    } else {
                        device_view(e)
                    }
                },
            final(self).active@ == without_device(old(self).active@, device@).push(
                (device, active),
            ),
            final(self).connections@ == old(self).connections@,
            final(self).connectivity == old(self).connectivity,
            EventBus::broadcasted3(
                old(self).events,
                final(self).events,
                Event::DeviceStateChanged { device: device, state: state },
                Event::ConnectionActivated(active.profile_id),
                Event::StateChanged(overall_state_spec(final(self).devices@, final(self).connectivity)),
            ),
    {
        let profile_id = active.profile_id.clone();
        self.set_device_connection(device.as_str(), state, Some(active.profile_id.clone()));
        let name = device.clone();
        let ghost pid = active.profile_id;
        self.record_activation(device, active);
        let ghost b0 = self.events;
        self.events.broadcast(Event::DeviceStateChanged { device: name, state });
        let ghost b1 = self.events;
        self.events.broadcast(Event::ConnectionActivated(profile_id));
        let ghost b2 = self.events;
        self.broadcast_state();
        assert(EventBus::broadcasted(b1, b2, Event::ConnectionActivated(pid)));
        assert(EventBus::broadcasted2(
            b1,
            self.events,
            Event::ConnectionActivated(pid),
            Event::StateChanged(overall_state_spec(self.devices@, self.connectivity)),
        ));
        assert(EventBus::broadcasted(b0, b1, Event::DeviceStateChanged { device: name, state: state }));
    }

    /// Bookkeeping once bringing a profile up on `device` failed: the
    /// device is marked failed, and the answer carries the error.
    pub fn activation_failed(&mut self, device: &str, err: &NetworkError) -> (r: Response)
        ensures
            r matches Response::Error(m) && m@ == "activation failed: "@ + err.message_view(),
            final(self).devices.len() == old(self).devices.len(),
            forall|i: int|
                0 <= i < old(self).devices.len() ==> device_view(#[trigger] final(self).devices@[i]) == {
                    let e = old(self).devices@[i];
                    (e.name@, e.device_type, if e.name@ == device@ { DeviceState::Failed } else { e.state }, e.carrier, opt_str(
                        e.active_connection,
                    ))
                },
            final(self).active@ == old(self).active@,
            final(self).connections@ == old(self).connections@,
            final(self).connectivity == old(self).connectivity,
            final(self).events == old(self).events,
    {
        self.set_device_state(device, DeviceState::Failed);
        let msg = err.message();
        Response::Error(crate::errors::join2("activation failed: ", msg.as_str()))
    }

    /// Takes the active profile `profile_id` off its device, giving the
    /// device to bring down; the error to answer with when the profile is
    /// not active, or its device is gone (the entry is dropped either way).
    pub fn deactivation_target(&mut self, profile_id: &str) -> (r: Result<String, Response>)
        ensures
            final(self).devices@ == old(self).devices@,
            final(self).connections@ == old(self).connections@,
            final(self).connectivity == old(self).connectivity,
            (forall|i: int| 0 <= i < old(self).active.len() ==> old(self).active@[i].1.profile_id@ != profile_id@) ==> (
            r matches Err(Response::Error(m)) && m@ == "connection '"@ + profile_id@ + "' is not active"@)
                && final(self).active@ == old(self).active@,
            (exists|i: int| 0 <= i < old(self).active.len() && old(self).active@[i].1.profile_id@ == profile_id@)
                ==> exists|i: int|
                0 <= i < old(self).active.len() && old(self).active@[i].1.profile_id@ == profile_id@ && {
                    let n = old(self).active@[i].0@;
                    &&& final(self).active@ == without_device(old(self).active@, n)
                    &&& device_index(old(self).devices@, n) is Some ==> (r matches Ok(x) && x@ == n)
                    &&& device_index(old(self).devices@, n) is None ==> (r matches Err(Response::Error(m)) && m@
                        == "device '"@ + n + "' disappeared"@)
                },
    {
        match self.device_of_active(profile_id) {
            None => Err(Response::Error(join3("connection '", profile_id, "' is not active"))),
            Some(n) => {
                let ghost w = choose|i: int|
                    0 <= i < self.active.len() && self.active@[i].1.profile_id@ == profile_id@ && self.active@[i].0@
                        == n@;
                self.forget_active(n.as_str());
                let r = match find_device(&self.devices, n.as_str()) {
                    Some(_) => Ok(n),
                    None => Err(Response::Error(join3("device '", n.as_str(), "' disappeared"))),
                };
                assert(old(self).active@[w].0@ == n@);
                r
            },
        }
    }

    /// The answer once bringing down the device of `profile_id` finished;
    /// clients are told on success.
    pub fn deactivation_finished(&mut self, profile_id: &str, result: Result<(), NetworkError>) -> (r: Response)
        ensures
            result is Ok ==> r is Success,
            result matches Err(e) ==> (r matches Response::Error(m) && m@ == "deactivation failed: "@
                + e.message_view()),
            unchanged(*old(self), *final(self)),
            result is Ok ==> exists|s: String|
                s@ == profile_id@ && #[trigger] EventBus::broadcasted2(
                    old(self).events,
                    final(self).events,
                    Event::ConnectionDeactivated(s),
                    Event::StateChanged(overall_state_spec(old(self).devices@, old(self).connectivity)),
                ),
            result is Err ==> final(self).events == old(self).events,
    {
        match result {
            Ok(()) => {
                let s = String::from_str(profile_id);
                let ghost gs = s;
                self.events.broadcast(Event::ConnectionDeactivated(s));
                let ghost mid = self.events;
                self.broadcast_state();
                assert(EventBus::broadcasted(old(self).events, mid, Event::ConnectionDeactivated(gs)));
                assert(EventBus::broadcasted2(
                    old(self).events,
                    self.events,
                    Event::ConnectionDeactivated(gs),
                    Event::StateChanged(overall_state_spec(old(self).devices@, old(self).connectivity)),
                ));
                Response::Success
            },
            Err(e) => {
                let msg = e.message();
                Response::Error(crate::errors::join2("deactivation failed: ", msg.as_str()))
            },
        }
    }
}

} // verus!

verus! {

/// Saving a profile replaces any profile with its id: afterwards a lookup
/// by that id finds exactly the profile saved, and removing the id leaves
/// no profile under it.
pub proof fn lemma_saved_profile_is_found(cs: Seq<ConnectionProfile>, p: ConnectionProfile)
    ensures
        profile_index(without_profile(cs, p.id@).push(p), p.id@) == Some(without_profile(cs, p.id@).len() as int),
        without_profile(cs, p.id@).push(p).last() == p,
        profile_index(without_profile(cs, p.id@), p.id@) is None,
{
    let w = without_profile(cs, p.id@);
    let s = w.push(p);
    assert forall|j: int| 0 <= j < w.len() implies w[j].id@ != p.id@ by {
        cs.filter_lemma(|q: ConnectionProfile| q.id@ != p.id@);
        assert((|q: ConnectionProfile| q.id@ != p.id@)(w[j]));
    }
    assert(s[w.len() as int].id@ == p.id@);
    let k = choose|i: int| 0 <= i < s.len() && #[trigger] s[i].id@ == p.id@ && forall|j: int| 0 <= j < i ==> s[j].id@ != p.id@;
    if k < w.len() {
        assert(s[k] == w[k]);
    }
    assert forall|i: int| 0 <= i < w.len() implies #[trigger] w[i].id@ != p.id@ by {}
}

} // verus!

verus! {

/// What `ConnectWifi` stores for `ssid` on `device`: the profile
/// `wifi-<ssid>`, pinned to the device, autoconnecting at default priority.
pub open spec fn wifi_connect_profile_view(device: Seq<char>, ssid: Seq<char>, security: crate::wifi::security::SecurityType) -> (
    Seq<char>,
    DeviceType,
    Option<Seq<char>>,
    bool,
    i32,
    Option<(Seq<char>, crate::wifi::security::SecurityType)>,
) {
    ("wifi-"@ + ssid, DeviceType::WiFi, Some(device), true, 0i32, Some((ssid, security)))
}

/// The next piece of outside work in answering `ConnectWifi`.
pub enum WifiConnectAction {
    /// Store the passphrase as secret `key` of `owner`.
    StoreSecret { owner: String, key: &'static str, value: String },
    /// Write this profile's file.
    SaveProfile(ConnectionProfile),
    /// Activate the profile with this id; its answer is the reply.
    Activate(String),
    /// Answer with this.
    Reply(Response),
}

/// What the last piece of outside work gave.
pub enum WifiConnectDone {
    /// Nothing was done yet.
    Started,
    /// The result of storing the secret.
    SecretStored(Result<(), NetworkError>),
    /// The result of writing the profile file.
    ProfileSaved(Result<(), NetworkError>),
}

fn wifi_connect_profile(device: &str, ssid: &str, security: crate::wifi::security::SecurityType) -> (p: ConnectionProfile)
    ensures
        profile_view(p) == wifi_connect_profile_view(device@, ssid@, security),
{
    let mut p = ConnectionProfile::new_wifi(wifi_profile_id(ssid), String::from_str(ssid), security);
    p.interface_name = Some(String::from_str(device));
    p
}

impl NetworkManager {
    /// Answer to `AddConnection` once writing the profile's file was tried:
    /// on success the profile replaces any profile with its id.
    pub fn connection_added(&mut self, profile: ConnectionProfile, saved: Result<(), NetworkError>) -> (r: Response)
        ensures
            saved is Ok ==> r is Success && final(self).connections@ == without_profile(
                old(self).connections@,
                profile.id@,
            ).push(profile),
            saved matches Err(e) ==> (r matches Response::Error(m) && m@ == e.message_view())
                && final(self).connections@ == old(self).connections@,
            final(self).devices@ == old(self).devices@,
            final(self).active@ == old(self).active@,
            final(self).connectivity == old(self).connectivity,
            final(self).events == old(self).events,
    {
        match saved {
            Ok(()) => {
                self.upsert_connection(profile);
                Response::Success
            },
            Err(e) => Response::Error(e.message()),
        }
    }

    /// Answer to `DeleteConnection` once deleting the profile's file was
    /// tried (after bringing the profile down if it was active): on
    /// success every profile with that id is dropped.
    pub fn connection_deleted(&mut self, id: &str, deleted: Result<(), NetworkError>) -> (r: Response)
        ensures
            deleted is Ok ==> r is Success && final(self).connections@ == without_profile(old(self).connections@, id@),
            deleted matches Err(e) ==> (r matches Response::Error(m) && m@ == e.message_view())
                && final(self).connections@ == old(self).connections@,
            final(self).devices@ == old(self).devices@,
            final(self).active@ == old(self).active@,
            final(self).connectivity == old(self).connectivity,
            final(self).events == old(self).events,
    {
        match deleted {
            Ok(()) => {
                self.remove_connection(id);
                Response::Success
            },
            Err(e) => Response::Error(e.message()),
        }
    }

    /// Answer to `ForgetWifi`: the profile `wifi-<ssid>` is dropped,
    /// whatever the outside clean-up gave.
    pub fn wifi_forgotten(&mut self, ssid: &str) -> (r: Response)
        ensures
            r is Success,
            final(self).connections@ == without_profile(old(self).connections@, "wifi-"@ + ssid@),
            final(self).devices@ == old(self).devices@,
            final(self).active@ == old(self).active@,
            final(self).connectivity == old(self).connectivity,
            final(self).events == old(self).events,
    {
        let id = wifi_profile_id(ssid);
        self.remove_connection(id.as_str());
        Response::Success
    }

    /// One step of answering `ConnectWifi { device, ssid, security,
    /// passphrase }`: store the passphrase (if any) as the profile's `psk`
    /// secret, stopping on failure; then write the profile's file, stopping
    /// on failure; then take the profile in and activate it.
    pub fn connect_wifi_step(
        &mut self,
        device: &str,
        ssid: &str,
        security: crate::wifi::security::SecurityType,
        passphrase: Option<&str>,
        done: WifiConnectDone,
    ) -> (a: WifiConnectAction)
        ensures
            final(self).devices@ == old(self).devices@,
            final(self).active@ == old(self).active@,
            final(self).connectivity == old(self).connectivity,
            final(self).events == old(self).events,
            !(done matches WifiConnectDone::ProfileSaved(Ok(_))) ==> final(self).connections@ == old(
                self,
            ).connections@,
            (done is Started && passphrase is Some) ==> (a matches WifiConnectAction::StoreSecret { owner, key, value }
                && owner@ == "wifi-"@ + ssid@ && key@ == "psk"@ && value@ == passphrase->0@),
            ((done is Started && passphrase is None) || done matches WifiConnectDone::SecretStored(Ok(_))) ==> (
            a matches WifiConnectAction::SaveProfile(p) && profile_view(p) == wifi_connect_profile_view(
                device@,
                ssid@,
                security,
            )),
            done matches WifiConnectDone::SecretStored(Err(e)) ==> (a matches WifiConnectAction::Reply(
                Response::Error(m),
            ) && m@ == e.message_view()),
            done matches WifiConnectDone::ProfileSaved(Err(e)) ==> (a matches WifiConnectAction::Reply(
                Response::Error(m),
            ) && m@ == e.message_view()),
            done matches WifiConnectDone::ProfileSaved(Ok(_)) ==> (a matches WifiConnectAction::Activate(id)
                && id@ == "wifi-"@ + ssid@) && exists|p: ConnectionProfile|
                profile_view(p) == wifi_connect_profile_view(device@, ssid@, security)
                    && #[trigger] without_profile(old(self).connections@, p.id@).push(p) == final(self).connections@,
    {
        match done {
            WifiConnectDone::Started => match passphrase {
                Some(pass) => WifiConnectAction::StoreSecret {
                    owner: wifi_profile_id(ssid),
                    key: "psk",
                    value: String::from_str(pass),
                },
                None => WifiConnectAction::SaveProfile(wifi_connect_profile(device, ssid, security)),
            },
            WifiConnectDone::SecretStored(Ok(())) => WifiConnectAction::SaveProfile(
                wifi_connect_profile(device, ssid, security),
            ),
            WifiConnectDone::SecretStored(Err(e)) => WifiConnectAction::Reply(Response::Error(e.message())),
            WifiConnectDone::ProfileSaved(Err(e)) => WifiConnectAction::Reply(Response::Error(e.message())),
            WifiConnectDone::ProfileSaved(Ok(())) => {
                let p = wifi_connect_profile(device, ssid, security);
                let ghost gp = p;
                self.upsert_connection(p);
                assert(without_profile(old(self).connections@, gp.id@).push(gp) == self.connections@);
                WifiConnectAction::Activate(wifi_profile_id(ssid))
            },
        }
    }
}

} // verus!
