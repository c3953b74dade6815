//! The charger half of a desktop application: what it is asked, what it
//! reports, and the decisions between the two.
//!
//! One supervisor owns the scan results, the token store and the set of live
//! chargers. Each connected charger polls on its own. The radio work and the
//! waiting belong to whoever runs the loop; the decisions are here, as
//! functions from state and event to next state and action.

use vstd::prelude::*;
use vstd::string::*;

use crate::ble::{isdt_name_spec, Discovered};
use crate::client::{poll_cycle, stop_request, ClientError};
use crate::link::LinkError;
use crate::request::Request;
use crate::response::{
    Electrical, HardwareInfo, InnerResistance, Response, Temperature, WorkState,
};
use crate::text::string_of;
use crate::tokens::{generate, lookup, ClientId, Store};
use crate::types::{BatteryKind, LinkType, TaskType};

verus! {

/// How long each scan listens for, in milliseconds.
pub const SCAN_TIME_MS: u64 = 4000;

/// How long to wait before a dropped charger is retried, in milliseconds.
pub const RECONNECT_DELAY_MS: u64 = 3000;

/// Something the window would like done.
#[derive(Debug, Clone)]
pub enum Command {
    /// Look for chargers in range.
    Scan,
    /// Bind to a charger, then connect to it.
    ///
    /// The charger must be in binding mode. A fresh identifier is generated
    /// unless one is already stored for it.
    Bind(String),
    /// Connect to a charger this host already has an identifier for.
    Connect(String),
    /// Drop a charger and stop polling it.
    Disconnect(String),
    /// Ask one charger to do something.
    Task(String, TaskCommand),
}

/// Something one charger should do.
#[derive(Debug, Clone, Copy, PartialEq, Eq)]
pub enum TaskCommand {
    /// Start a task on channel zero.
    Start {
        /// Charge, discharge or storage.
        task: TaskType,
        /// The pack's chemistry.
        battery: BatteryKind,
        /// Cells in series.
        cells: u8,
        /// Working current, in milliamps.
        current_ma: u32,
        /// Per-cell target voltage, in millivolts.
        volt_mv: u16,
    },
    /// Stop whatever channel zero is doing.
    Stop,
}

/// Something the backend has to say.
#[derive(Debug, Clone)]
pub enum Update {
    /// A scan started or finished.
    Scanning(bool),
    /// What the last scan turned up.
    Found(Vec<Found>),
    /// A charger's connection state changed.
    Status(String, Status),
    /// A fresh reading from one charger.
    Reading(String, Box<Reading>),
    /// Something worth saying about one charger.
    Notice(String, String),
    /// Something worth saying that belongs to no charger.
    Message(String),
}

/// Where one charger's connection stands.
#[derive(Debug, Clone)]
pub enum Status {
    /// Working on it.
    Connecting,
    /// Up, and this is what answered.
    Connected {
        /// The charger's own name and versions.
        info: Box<HardwareInfo>,
        /// The name it advertises, which the user chose.
        label: String,
    },
    /// Gone. The backend keeps trying.
    Lost(String),
    /// Dropped on purpose, and not being retried.
    Closed,
}

/// A charger seen while scanning.
#[derive(Debug, Clone, PartialEq, Eq)]
pub struct Found {
    /// Platform identifier.
    pub id: String,
    /// The name the owner gave it, or the advertised name if unparsable.
    pub name: String,
    /// The model, such as `CM1620`. Empty when the name did not parse.
    pub model: String,
    /// Whether the charger will accept a new binding.
    ///
    /// `None` when the advertised name did not carry the ISDT structure, which
    /// happens when the name arrives truncated. Binding is still worth
    /// offering then: the charger refuses harmlessly if it is not waiting.
    pub binding_mode: Option<bool>,
    /// Signal strength from the last advertisement.
    pub rssi: Option<i16>,
    /// True when this host already has an identifier for it.
    pub known: bool,
    /// True when it is already connected.
    pub connected: bool,
}

/// The most recent value of each thing the window shows for one charger.
///
/// Readings arrive one packet at a time, so this accumulates rather than being
/// replaced wholesale, and a charger that never answers one query still leaves
/// the rest usable.
#[derive(Debug, Clone, PartialEq)]
pub struct Reading {
    /// Voltages and currents.
    pub electrical: Option<Electrical>,
    /// Task state and progress.
    pub work: Option<WorkState>,
    /// Charger and probe temperatures.
    pub temperature: Option<Temperature>,
    /// Per-cell internal resistance.
    pub resistance: Option<InnerResistance>,
}

impl Default for Reading {
    fn default() -> (r: Reading)
        ensures
            r.electrical is None,
            r.work is None,
            r.temperature is None,
            r.resistance is None,
    {
        Reading { electrical: None, work: None, temperature: None, resistance: None }
    }
}

/// Files a response into the accumulated reading: each kind of reading
/// replaces the last one of its kind, and every other response leaves the
/// reading as it was.
pub fn absorb(reading: &mut Reading, response: Response)
    ensures
        response matches Response::Electrical(e) ==> *final(reading) == (Reading {
            electrical: Some(e),
            ..*old(reading)
        }),
        response matches Response::WorkState(w) ==> *final(reading) == (Reading {
            work: Some(*w),
            ..*old(reading)
        }),
        response matches Response::Temperature(t) ==> *final(reading) == (Reading {
            temperature: Some(t),
            ..*old(reading)
        }),
        response matches Response::InnerResistance(r) ==> *final(reading) == (Reading {
            resistance: Some(r),
            ..*old(reading)
        }),
        !(response is Electrical || response is WorkState || response is Temperature
            || response is InnerResistance) ==> *final(reading) == *old(reading),
{
    match response {
        Response::Electrical(e) => reading.electrical = Some(e),
        Response::WorkState(w) => reading.work = Some(*w),
        Response::Temperature(t) => reading.temperature = Some(t),
        Response::InnerResistance(r) => reading.resistance = Some(r),
        _ => {},
    }
}

/// True when an error means the link is gone rather than one lost frame.
pub fn is_fatal(error: &ClientError) -> (r: bool)
    ensures
        r == (error matches ClientError::Link(l) && (l is Closed || l is Transport)),
{
    match error {
        ClientError::Link(LinkError::Closed) => true,
        ClientError::Link(LinkError::Transport(_)) => true,
        _ => false,
    }
}

/// The rotation a charger is polled with: the app's rotation for channel
/// zero, minus the limits query, which is static.
pub open spec fn charger_cycle() -> Seq<Request> {
    poll_cycle(0).remove(3)
}

/// The rotation a charger is polled with: the app's rotation for channel
/// zero without the limits query.
pub fn charger_poll_cycle() -> (r: Vec<Request>)
    ensures
        r@ == charger_cycle(),
        forall|i: int| 0 <= i < r@.len() ==> crate::request::command_word_of(#[trigger] r@[i])
            != 0xE2,
{
    let mut cycle = crate::client::default_poll_cycle(0);
    cycle.remove(3);
    assert(cycle@ == charger_cycle());
    cycle
}

/// The request a task command sends. The vendor application sends a serial
/// link on every chemistry, and a stop is the usual placeholder task.
pub fn task_request(command: TaskCommand) -> (r: Request)
    ensures
        command matches TaskCommand::Start { task, battery, cells, current_ma, volt_mv } ==> r == (
        Request::SetTask {
            channel: 0,
            task,
            battery,
            link: LinkType::SerialOnly,
            work_current_ma: current_ma,
            cell_count: cells,
            full_charged_volt_mv: volt_mv,
        }),
        command is Stop ==> r == stop_request_spec(0),
{
    match command {
        TaskCommand::Start { task, battery, cells, current_ma, volt_mv } => Request::SetTask {
            channel: 0,
            task,
            battery,
            link: LinkType::SerialOnly,
            work_current_ma: current_ma,
            cell_count: cells,
            full_charged_volt_mv: volt_mv,
        },
        TaskCommand::Stop => stop_request(0),
    }
}

/// The request that stops channel `channel`, as [`stop_request`] builds it.
pub open spec fn stop_request_spec(channel: u8) -> Request {
    Request::SetTask {
        channel,
        task: TaskType::Stop,
        battery: BatteryKind::LiHv,
        link: LinkType::SerialOnly,
        work_current_ma: 0,
        cell_count: 0,
        full_charged_volt_mv: 0,
    }
}

/// The per-cell voltage a task aims for when none is given: the storage
/// voltage for storage, the discharge floor for a discharge, and the full
/// charge voltage otherwise. Some chemistries have none for some tasks.
pub open spec fn task_voltage_spec(task: TaskType, battery: BatteryKind) -> Option<u16> {
    match task {
        TaskType::Storage => crate::types::battery_store_cell_mv(battery),
        TaskType::Discharge => crate::types::battery_discharge_cell_mv(battery),
        _ => crate::types::battery_max_cell_mv(battery),
    }
}

/// The per-cell voltage a task aims for when none is given.
pub fn task_voltage(task: TaskType, battery: BatteryKind) -> (r: Option<u16>)
    ensures
        r == task_voltage_spec(task, battery),
{
    match task {
        TaskType::Storage => battery.store_cell_mv(),
        TaskType::Discharge => battery.discharge_cell_mv(),
        _ => battery.max_cell_mv(),
    }
}

/// The default per-cell voltage of each task, chemistry by chemistry: a
/// discharge stops at the chemistry's discharge cutoff, a storage run aims
/// for its storage voltage, and a charge for its full voltage. Where a
/// chemistry has all three, the discharge cutoff lies below the storage
/// voltage, which lies below the full voltage.
pub proof fn law_task_voltage_defaults(k: BatteryKind)
    ensures
        task_voltage_spec(TaskType::Discharge, k) == crate::types::battery_discharge_cell_mv(k),
        task_voltage_spec(TaskType::Storage, k) == crate::types::battery_store_cell_mv(k),
        task_voltage_spec(TaskType::Charge, k) == crate::types::battery_max_cell_mv(k),
        task_voltage_spec(TaskType::Discharge, k) == match k {
            BatteryKind::LiHv => Some(3400u16),
            BatteryKind::LiPo => Some(3300u16),
            BatteryKind::LiIon => Some(3200u16),
            BatteryKind::LiFe => Some(2900u16),
            BatteryKind::Pb => Some(1800u16),
            BatteryKind::NiMhCd => Some(900u16),
            _ => None,
        },
        task_voltage_spec(TaskType::Storage, k) == match k {
            BatteryKind::LiHv => Some(3850u16),
            BatteryKind::LiPo => Some(3800u16),
            BatteryKind::LiIon => Some(3700u16),
            BatteryKind::LiFe => Some(3300u16),
            _ => None,
        },
        task_voltage_spec(TaskType::Charge, k) == match k {
            BatteryKind::LiHv => Some(4350u16),
            BatteryKind::LiPo => Some(4200u16),
            BatteryKind::LiIon => Some(4100u16),
            BatteryKind::LiFe => Some(3650u16),
            BatteryKind::Pb => Some(2400u16),
            BatteryKind::ULiHv => Some(4450u16),
            _ => None,
        },
        task_voltage_spec(TaskType::Discharge, k) is Some && task_voltage_spec(TaskType::Storage, k) is Some
            ==> task_voltage_spec(TaskType::Discharge, k)->0 < task_voltage_spec(TaskType::Storage, k)->0,
        task_voltage_spec(TaskType::Storage, k) is Some && task_voltage_spec(TaskType::Charge, k) is Some
            ==> task_voltage_spec(TaskType::Storage, k)->0 < task_voltage_spec(TaskType::Charge, k)->0,
        task_voltage_spec(TaskType::Discharge, k) is Some && task_voltage_spec(TaskType::Charge, k) is Some
            ==> task_voltage_spec(TaskType::Discharge, k)->0 < task_voltage_spec(TaskType::Charge, k)->0,
{
}

/// What a task is called while it runs.
pub open spec fn verb_spec(task: TaskType) -> Seq<char> {
    match task {
        TaskType::Charge => "charging"@,
        TaskType::Discharge => "discharging"@,
        TaskType::Storage => "storing"@,
        TaskType::Stop => "stopping"@,
    }
}

/// What a task is called while it runs.
pub fn verb(task: TaskType) -> (r: &'static str)
    ensures
        r@ == verb_spec(task),
{
    match task {
        TaskType::Charge => "charging",
        TaskType::Discharge => "discharging",
        TaskType::Storage => "storing",
        TaskType::Stop => "stopping",
    }
}

/// The name a charger is shown under: the owner's name from its advertised
/// ISDT structure when that is not empty, otherwise its label.
pub open spec fn display_name_spec(id: Seq<char>, name: Option<Seq<char>>) -> Seq<char> {
    match name {
        Some(n) => match isdt_name_spec(n) {
            Some(f) => if f.2.len() > 0 {
                f.2
            } else {
                n
            },
            None => n,
        },
        None => id,
    }
}

/// The name a charger is shown under, as [`display_name_spec`] describes.
pub fn display_name(device: &Discovered) -> (r: String)
    ensures
        r@ == display_name_spec(device.id@, crate::ble::opt_string(device.name)),
{
    match device.isdt_name() {
        Some(parsed) => {
            if parsed.name.as_str().unicode_len() > 0 {
                parsed.name
            } else {
                device.label()
            }
        },
        None => device.label(),
    }
}

/// The scan entry for a charger.
pub open spec fn found_spec(device: Discovered, known: bool, connected: bool, f: Found) -> bool {
    let parsed = match device.name {
        Some(n) => isdt_name_spec(n@),
        None => None,
    };
    &&& f.id@ == device.id@
    &&& f.name@ == display_name_spec(device.id@, crate::ble::opt_string(device.name))
    &&& f.model@ == match parsed {
        Some(p) => p.1,
        None => Seq::<char>::empty(),
    }
    &&& f.binding_mode == match parsed {
        Some(p) => Some(p.0),
        None => None::<bool>,
    }
    &&& f.rssi == device.rssi
    &&& f.known == known
    &&& f.connected == connected
}

/// The scan entry for a charger.
pub fn found_entry(device: &Discovered, known: bool, connected: bool) -> (r: Found)
    ensures
        found_spec(*device, known, connected, r),
{
    let parsed = device.isdt_name();
    let name = display_name(device);
    let (model, binding_mode) = match parsed {
        Some(p) => (p.model, Some(p.binding_mode)),
        None => (String::new(), None),
    };
    Found { id: device.id.clone(), name, model, binding_mode, rssi: device.rssi, known, connected }
}

/// What the supervisor should do next.
#[derive(Debug, Clone)]
pub enum Action {
    /// Tell the window something.
    Report(Update),
    /// Announce a scan and run one.
    Scan,
    /// Bind this charger with this identifier, then connect to it.
    Bind(Discovered, ClientId),
    /// Connect to this charger with this identifier.
    Connect(Discovered, ClientId),
    /// Stop the charger's task, if it has one, and report it closed.
    Close(String),
    /// Hand a command to a live charger's task.
    Forward(String, TaskCommand),
    /// Nothing to do.
    Ignore,
}

/// The message for a charger that has left the scan results.
pub open spec fn gone_message() -> Seq<char> {
    "that charger is no longer in the scan results; scan again"@
}

/// The notice for a charger with no stored identifier.
pub open spec fn unbound_notice() -> Seq<char> {
    "no identifier stored for this charger; bind it first"@
}

/// Whether `i` is the first position in `seen` of a charger with identifier `id`.
pub open spec fn first_seen(seen: Seq<Discovered>, id: Seq<char>, i: int) -> bool {
    &&& 0 <= i < seen.len()
    &&& seen[i].id@ == id
    &&& forall|j: int| 0 <= j < i ==> #[trigger] seen[j].id@ != id
}

/// The first position in `seen` of a charger with identifier `id`.
pub open spec fn seen_index(seen: Seq<Discovered>, id: Seq<char>) -> Option<int> {
    if exists|i: int| first_seen(seen, id, i) {
        Some(choose|i: int| first_seen(seen, id, i))
    } else {
        None
    }
}

/// Whether `id` is among `ids`.
pub open spec fn listed(ids: Seq<String>, id: Seq<char>) -> bool {
    exists|i: int| 0 <= i < ids.len() && #[trigger] ids[i]@ == id
}

/// The state the supervisor keeps: what the last scan saw, which chargers
/// are live, and the token store.
pub struct Supervisor {
    /// Scan results are kept so a charger can be connected without rescanning.
    pub seen: Vec<Discovered>,
    /// The chargers with a task of their own.
    pub live: Vec<String>,
    /// The identifiers this host has bound with.
    pub store: Store,
}

fn find_seen(seen: &Vec<Discovered>, id: &str) -> (r: Option<usize>)
    ensures
        r matches Some(i) ==> seen_index(seen@, id@) == Some(i as int) && i < seen@.len(),
        r is None ==> seen_index(seen@, id@) is None,
{
    let mut i: usize = 0;
    while i < seen.len()
        invariant
            i <= seen@.len(),
            forall|j: int| 0 <= j < i ==> #[trigger] seen@[j].id@ != id@,
        decreases seen.len() - i,
    {
        if string_eq(&seen[i].id, id) {
            proof {
                assert(first_seen(seen@, id@, i as int));
                let c = choose|c: int| first_seen(seen@, id@, c);
                if c < i {
                    assert(seen@[c].id@ != id@);
                } else if c > i {
                    assert(seen@[i as int].id@ != id@);
                }
            }
            return Some(i);
        }
        i = i + 1;
    }
    None
}

fn string_eq(a: &String, b: &str) -> (r: bool)
    ensures
        r == (a@ == b@),
{
    let other = string_of(b);
    *a == other
}

fn find_live(live: &Vec<String>, id: &str) -> (r: Option<usize>)
    ensures
        r matches Some(i) ==> i < live@.len() && live@[i as int]@ == id@,
        r is None ==> !listed(live@, id@),
{
    let mut i: usize = 0;
    while i < live.len()
        invariant
            i <= live@.len(),
            forall|j: int| 0 <= j < i ==> #[trigger] live@[j]@ != id@,
        decreases live.len() - i,
    {
        if string_eq(&live[i], id) {
            return Some(i);
        }
        i = i + 1;
    }
    None
}

impl Supervisor {
    /// A supervisor with nothing seen and nothing live.
    pub fn new(store: Store) -> (r: Supervisor)
        ensures
            r.seen@ == Seq::<Discovered>::empty(),
            r.live@ == Seq::<String>::empty(),
            r.store@ == store@,
    {
        Supervisor { seen: Vec::new(), live: Vec::new(), store }
    }

    /// Decides what a command from the window leads to.
    ///
    /// Binding reuses a stored identifier when there is one, so rebinding a
    /// charger this host already knows does not orphan the old one; otherwise
    /// a fresh one is generated. Connecting needs a stored identifier. A
    /// command for a charger that is not live is dropped.
    pub fn command(&mut self, command: Command) -> (r: Action)
        ensures
            final(self).seen@ == old(self).seen@,
            final(self).store@ == old(self).store@,
            final(self).live@ == old(self).live@,
            command is Scan ==> r is Scan,
            command matches Command::Bind(id) ==> match seen_index(old(self).seen@, id@) {
                None => r matches Action::Report(Update::Message(m)) && m@ == gone_message(),
                Some(i) => r matches Action::Bind(d, c) && d == old(self).seen@[i] && (match lookup(
                    old(self).store.listing(),
                    id@,
                ) {
                    Some(t) => c@ == t,
                    None => c[6] & 0xF0u8 == 0x40u8 && c[8] & 0xC0u8 == 0x80u8,
                }),
            },
            command matches Command::Connect(id) ==> match seen_index(old(self).seen@, id@) {
                None => r matches Action::Report(Update::Message(m)) && m@ == gone_message(),
                Some(i) => match lookup(old(self).store.listing(), id@) {
                    None => r matches Action::Report(Update::Notice(n, m)) && n@ == id@ && m@
                        == unbound_notice(),
                    Some(t) => r matches Action::Connect(d, c) && d == old(self).seen@[i] && c@
                        == t,
                },
            },
            command matches Command::Disconnect(id) ==> r matches Action::Close(c) && c@ == id@,
            command matches Command::Task(id, task) ==> if listed(old(self).live@, id@) {
                r matches Action::Forward(c, t) && c@ == id@ && t == task
            } else {
                r is Ignore
            },
    {
        match command {
            Command::Scan => Action::Scan,
            Command::Bind(id) => match find_seen(&self.seen, id.as_str()) {
                None => Action::Report(
                    Update::Message(
                        string_of("that charger is no longer in the scan results; scan again"),
                    ),
                ),
                Some(i) => {
                    let client_id = match self.store.get(id.as_str()) {
                        Some(c) => c,
                        None => generate(),
                    };
                    Action::Bind(self.seen[i].duplicate(), client_id)
                },
            },
            Command::Connect(id) => match find_seen(&self.seen, id.as_str()) {
                None => Action::Report(
                    Update::Message(
                        string_of("that charger is no longer in the scan results; scan again"),
                    ),
                ),
                Some(i) => match self.store.get(id.as_str()) {
                    None => Action::Report(
                        Update::Notice(
                            id,
                            string_of("no identifier stored for this charger; bind it first"),
                        ),
                    ),
                    Some(c) => Action::Connect(self.seen[i].duplicate(), c),
                },
            },
            Command::Disconnect(id) => Action::Close(id),
            Command::Task(id, task) => match find_live(&self.live, id.as_str()) {
                Some(_) => Action::Forward(id, task),
                None => Action::Ignore,
            },
        }
    }
}

impl Supervisor {
    /// Takes a scan's results: they replace what was seen, and each becomes an
    /// entry for the window, marked known when the store has an identifier
    /// for it and connected when it is live.
    pub fn scanned(&mut self, found: Vec<Discovered>) -> (r: Vec<Found>)
        ensures
            final(self).seen@ == found@,
            final(self).live@ == old(self).live@,
            final(self).store@ == old(self).store@,
            r@.len() == found@.len(),
            forall|i: int|
                0 <= i < found@.len() ==> found_spec(
                    found@[i],
                    lookup(old(self).store.listing(), found@[i].id@) is Some,
                    listed(old(self).live@, found@[i].id@),
                    #[trigger] r@[i],
                ),
    {
        let mut list: Vec<Found> = Vec::new();
        let mut i: usize = 0;
        while i < found.len()
            invariant
                i <= found@.len(),
                list@.len() == i,
                self.live@ == old(self).live@,
                self.store@ == old(self).store@,
                self.store.listing() == old(self).store.listing(),
                forall|j: int|
                    0 <= j < i ==> found_spec(
                        found@[j],
                        lookup(old(self).store.listing(), found@[j].id@) is Some,
                        listed(old(self).live@, found@[j].id@),
                        #[trigger] list@[j],
                    ),
            decreases found.len() - i,
        {
            let device = &found[i];
            let known = self.store.get(device.id.as_str()).is_some();
            let connected = find_live(&self.live, device.id.as_str()).is_some();
            list.push(found_entry(device, known, connected));
            i = i + 1;
        }
        self.seen = found;
        list
    }

    /// Records the identifier a charger accepted.
    pub fn bound(&mut self, id: &str, client_id: ClientId)
        ensures
            final(self).store@ == old(self).store@.insert(id@, client_id@),
            final(self).seen@ == old(self).seen@,
            final(self).live@ == old(self).live@,
    {
        self.store.set(id, client_id);
    }

    /// Records that a charger now has a task of its own, replacing any
    /// earlier one for it.
    pub fn went_live(&mut self, id: String)
        ensures
            listed(final(self).live@, id@),
            forall|other: Seq<char>|
                other != id@ ==> listed(final(self).live@, other) == listed(old(self).live@, other),
            final(self).seen@ == old(self).seen@,
            final(self).store@ == old(self).store@,
    {
        match find_live(&self.live, id.as_str()) {
            Some(_) => {},
            None => {
                let ghost before = self.live@;
                let ghost key = id@;
                self.live.push(id);
                proof {
                    assert(self.live@[before.len() as int]@ == key);
                    assert forall|other: Seq<char>| other != key implies listed(self.live@, other)
                        == listed(before, other) by {
                        if listed(self.live@, other) {
                            let j = choose|j: int| 0 <= j < self.live@.len() && #[trigger] self.live@[j]@ == other;
                            assert(before[j] == self.live@[j]);
                        }
                        if listed(before, other) {
                            let j = choose|j: int| 0 <= j < before.len() && #[trigger] before[j]@ == other;
                            assert(before[j] == self.live@[j]);
                        }
                    }
                }
            },
        }
    }

    /// Records that a charger's task is gone: it was closed, or it stopped
    /// taking commands. Every other live charger stays, in order.
    pub fn gone(&mut self, id: &str)
        ensures
            final(self).live@ == old(self).live@.filter(|s: String| s@ != id@),
            final(self).seen@ == old(self).seen@,
            final(self).store@ == old(self).store@,
    {
        let ghost f = |s: String| s@ != id@;
        let mut kept: Vec<String> = Vec::new();
        let mut i: usize = 0;
        while i < self.live.len()
            invariant
                i <= self.live@.len(),
                self.live@ == old(self).live@,
                f == (|s: String| s@ != id@),
                kept@ == self.live@.take(i as int).filter(f),
            decreases self.live.len() - i,
        {
            let keep = !string_eq(&self.live[i], id);
            if keep {
                kept.push(self.live[i].clone());
            }
            proof {
                let t = self.live@.take(i + 1);
                assert(t.drop_last() == self.live@.take(i as int));
                assert(t.last() == self.live@[i as int]);
                reveal_with_fuel(Seq::filter, 1);
            }
            i = i + 1;
        }
        assert(self.live@.take(self.live@.len() as int) == self.live@);
        self.live = kept;
    }
}

/// What one charger's polling has got to: the rotation, the next place in
/// it, and the reading built up so far.
pub struct Poller {
    /// The rotation, as [`charger_poll_cycle`] gives it.
    pub cycle: Vec<Request>,
    /// The position of the next request in the rotation.
    pub next: usize,
    /// The reading built up so far.
    pub reading: Reading,
}

/// What a failed exchange means for a charger's polling.
#[derive(Debug, Clone, Copy, PartialEq, Eq, Structural)]
pub enum PollStep {
    /// Keep polling: a charger that does not implement a packet stays quiet.
    Continue,
    /// The link is gone; report it lost and reconnect.
    Lost,
}

impl Poller {
    /// Polling from the start of the rotation with nothing read yet.
    pub fn new() -> (r: Poller)
        ensures
            r.cycle@ == charger_cycle(),
            r.next == 0,
            r.reading.electrical is None && r.reading.work is None && r.reading.temperature is None
                && r.reading.resistance is None,
    {
        Poller {
            cycle: charger_poll_cycle(),
            next: 0,
            reading: Reading { electrical: None, work: None, temperature: None, resistance: None },
        }
    }

    /// The position in the rotation of the request to send now; the
    /// rotation moves on by one.
    pub fn take_turn(&mut self) -> (r: usize)
        requires
            old(self).cycle@.len() > 0,
            old(self).next < old(self).cycle@.len(),
        ensures
            r == old(self).next,
            final(self).next == if old(self).next + 1 < old(self).cycle@.len() {
                old(self).next + 1
            } else {
                0
            },
            final(self).cycle@ == old(self).cycle@,
            final(self).reading == old(self).reading,
    {
        let r = self.next;
        let n = self.cycle.len();
        self.next = if r + 1 < n {
            r + 1
        } else {
            0
        };
        r
    }

    /// Files a reply into the reading, and says whether a full pass of the
    /// rotation has just ended, which is when the window is sent a snapshot
    /// so it redraws at a readable rate rather than per packet.
    pub fn on_reply(&mut self, response: Response) -> (snapshot: bool)
        ensures
            snapshot == (old(self).next == 0),
            final(self).next == old(self).next,
            final(self).cycle@ == old(self).cycle@,
            response matches Response::Electrical(e) ==> final(self).reading == (Reading {
                electrical: Some(e),
                ..old(self).reading
            }),
            response matches Response::WorkState(w) ==> final(self).reading == (Reading {
                work: Some(*w),
                ..old(self).reading
            }),
            response matches Response::Temperature(t) ==> final(self).reading == (Reading {
                temperature: Some(t),
                ..old(self).reading
            }),
            response matches Response::InnerResistance(r) ==> final(self).reading == (Reading {
                resistance: Some(r),
                ..old(self).reading
            }),
            !(response is Electrical || response is WorkState || response is Temperature
                || response is InnerResistance) ==> final(self).reading == old(self).reading,
    {
        absorb(&mut self.reading, response);
        self.next == 0
    }

    /// What a failed exchange means.
    pub fn on_error(error: &ClientError) -> (r: PollStep)
        ensures
            r == (if error matches ClientError::Link(l) && (l is Closed || l is Transport) {
                PollStep::Lost
            } else {
                PollStep::Continue
            }),
    {
        if is_fatal(error) {
            PollStep::Lost
        } else {
            PollStep::Continue
        }
    }
}

} // verus!
