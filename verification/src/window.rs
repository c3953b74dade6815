//! What a desktop window keeps about the chargers it follows, and how each
//! update from the charger half changes it.
//!
//! Drawing is the toolkit's business; this is the state the drawing reads,
//! and the rules for changing it.

use vstd::prelude::*;
use vstd::string::*;

use crate::response::{trim_ascii_spec, HardwareInfo};
use crate::session::{Command, Found, Reading, Status, TaskCommand, Update};
use crate::text::{decimal, push_char, push_decimal, push_str, string_of};
use crate::types::{charger_state_running, BatteryKind, TaskType};

verus! {

/// One charger the window is following.
#[derive(Debug, Clone)]
pub struct DeviceView {
    /// Platform identifier.
    pub id: String,
    /// The name shown on its tab.
    pub label: String,
    /// Its identifier and firmware version, once it has answered.
    pub firmware: String,
    /// Where its connection stands.
    pub status: Status,
    /// The latest values it reported.
    pub reading: Reading,
    /// The last thing worth saying about it.
    pub notice: Option<String>,
    /// The chemistry the controls will start a task with.
    pub battery: BatteryKind,
    /// The cell count the controls will start a task with.
    pub cells: u8,
    /// The current the controls will start a task with, in milliamps.
    pub current_ma: u32,
}

/// Whether a device's task settings are the ones a new device starts with.
pub open spec fn default_settings(d: DeviceView) -> bool {
    d.battery == BatteryKind::LiPo && d.cells == 4 && d.current_ma == 1000
}

/// Whether a device's reading is empty.
pub open spec fn empty_reading(r: Reading) -> bool {
    r.electrical is None && r.work is None && r.temperature is None && r.resistance is None
}

/// Whether `d` is what the window holds for a charger it has just met.
pub open spec fn fresh_device(d: DeviceView, id: Seq<char>) -> bool {
    &&& d.id@ == id
    &&& d.label@ == "Charger"@
    &&& d.firmware@ == Seq::<char>::empty()
    &&& d.status is Connecting
    &&& empty_reading(d.reading)
    &&& d.notice is None
    &&& default_settings(d)
}

impl DeviceView {
    /// A charger the window has just heard of.
    pub fn new(id: String) -> (r: DeviceView)
        ensures
            fresh_device(r, id@),
            r.id == id,
    {
        DeviceView {
            id,
            label: string_of("Charger"),
            firmware: String::new(),
            status: Status::Connecting,
            reading: Reading { electrical: None, work: None, temperature: None, resistance: None },
            notice: None,
            battery: BatteryKind::LiPo,
            cells: 4,
            current_ma: 1000,
        }
    }

    /// True while the charger reports a task moving energy.
    pub fn running(&self) -> (r: bool)
        ensures
            r == (self.reading.work matches Some(w) && charger_state_running(w.state)),
    {
        match &self.reading.work {
            Some(w) => w.state.is_running(),
            None => false,
        }
    }

    /// True while the charger is connected.
    pub fn connected(&self) -> (r: bool)
        ensures
            r == (self.status is Connected),
    {
        match &self.status {
            Status::Connected { .. } => true,
            _ => false,
        }
    }
}

/// The line a connected charger's firmware is described with: its
/// identifier, then `firmware` and the four version numbers.
pub open spec fn firmware_line(info: HardwareInfo) -> Seq<char> {
    let v = info.firmware_version;
    trim_ascii_spec(info.device_id@) + " firmware "@ + decimal(v[0] as nat) + seq!['.'] + decimal(
        v[1] as nat,
    ) + seq!['.'] + decimal(v[2] as nat) + seq!['.'] + decimal(v[3] as nat)
}

/// The line a connected charger's firmware is described with.
pub fn firmware_text(info: &HardwareInfo) -> (r: String)
    ensures
        r@ == firmware_line(*info),
{
    let v = info.firmware_version;
    let mut s = info.device_id_string();
    push_str(&mut s, " firmware ");
    push_decimal(&mut s, v[0] as u64);
    push_char(&mut s, '.');
    push_decimal(&mut s, v[1] as u64);
    push_char(&mut s, '.');
    push_decimal(&mut s, v[2] as u64);
    push_char(&mut s, '.');
    push_decimal(&mut s, v[3] as u64);
    s
}

/// Whether `i` is the first position of a device with identifier `id`.
pub open spec fn first_device(devices: Seq<DeviceView>, id: Seq<char>, i: int) -> bool {
    &&& 0 <= i < devices.len()
    &&& devices[i].id@ == id
    &&& forall|j: int| 0 <= j < i ==> #[trigger] devices[j].id@ != id
}

/// The first position of a device with identifier `id`.
pub open spec fn device_pos(devices: Seq<DeviceView>, id: Seq<char>) -> Option<int> {
    if exists|i: int| first_device(devices, id, i) {
        Some(choose|i: int| first_device(devices, id, i))
    } else {
        None
    }
}

/// How the device list changes when the device with identifier `id` is
/// changed as `changed` describes, from what it was (or nothing, for a
/// charger not met before, which is added at the end).
pub open spec fn devices_after(
    before: Seq<DeviceView>,
    after: Seq<DeviceView>,
    id: Seq<char>,
    changed: spec_fn(Option<DeviceView>, DeviceView) -> bool,
) -> bool {
    match device_pos(before, id) {
        Some(i) => {
            &&& after.len() == before.len()
            &&& forall|j: int| 0 <= j < before.len() && j != i ==> #[trigger] after[j] == before[j]
            &&& after[i].id == before[i].id
            &&& changed(Some(before[i]), after[i])
        },
        None => {
            &&& after.len() == before.len() + 1
            &&& forall|j: int| 0 <= j < before.len() ==> #[trigger] after[j] == before[j]
            &&& after[before.len() as int].id@ == id
            &&& changed(None, after[before.len() as int])
        },
    }
}

/// Whether `after` keeps everything of `before` but the fields an update sets:
/// a device not met before starts as [`fresh_device`] does.
pub open spec fn keeps_label(before: Option<DeviceView>, after: DeviceView) -> bool {
    match before {
        Some(d) => after.label == d.label && after.firmware == d.firmware,
        None => after.label@ == "Charger"@ && after.firmware@ == Seq::<char>::empty(),
    }
}

/// Whether `after` keeps the status of `before`.
pub open spec fn keeps_status(before: Option<DeviceView>, after: DeviceView) -> bool {
    match before {
        Some(d) => after.status == d.status,
        None => after.status is Connecting,
    }
}

/// Whether `after` keeps the reading of `before`.
pub open spec fn keeps_reading(before: Option<DeviceView>, after: DeviceView) -> bool {
    match before {
        Some(d) => after.reading == d.reading,
        None => empty_reading(after.reading),
    }
}

/// Whether `after` keeps the notice of `before`.
pub open spec fn keeps_notice(before: Option<DeviceView>, after: DeviceView) -> bool {
    match before {
        Some(d) => after.notice == d.notice,
        None => after.notice is None,
    }
}

/// Whether `after` keeps the task settings of `before`.
pub open spec fn keeps_settings(before: Option<DeviceView>, after: DeviceView) -> bool {
    match before {
        Some(d) => after.battery == d.battery && after.cells == d.cells && after.current_ma
            == d.current_ma,
        None => default_settings(after),
    }
}

/// A status update for one device: the status is replaced, and a connection
/// also brings the advertised label and the firmware line.
pub open spec fn status_applied(s: Status, before: Option<DeviceView>, after: DeviceView) -> bool {
    &&& after.status == s
    &&& keeps_reading(before, after)
    &&& keeps_notice(before, after)
    &&& keeps_settings(before, after)
    &&& match s {
        Status::Connected { info, label } => after.label@ == label@ && after.firmware@
            == firmware_line(*info),
        _ => keeps_label(before, after),
    }
}

/// A reading for one device: it replaces the last one, and when it shows a
/// task running the controls follow what is actually running.
pub open spec fn reading_applied(r: Reading, before: Option<DeviceView>, after: DeviceView) -> bool {
    &&& after.reading == r
    &&& keeps_label(before, after)
    &&& keeps_status(before, after)
    &&& keeps_notice(before, after)
    &&& match r.work {
        Some(w) => if charger_state_running(w.state) {
            after.battery == w.battery_type && after.cells == w.cell_count && after.current_ma
                == w.work_current_ma
        } else {
            keeps_settings(before, after)
        },
        None => keeps_settings(before, after),
    }
}

/// A notice for one device.
pub open spec fn notice_applied(text: Seq<char>, before: Option<DeviceView>, after: DeviceView) -> bool {
    &&& after.notice matches Some(n) && n@ == text
    &&& keeps_label(before, after)
    &&& keeps_status(before, after)
    &&& keeps_reading(before, after)
    &&& keeps_settings(before, after)
}

/// Everything the window draws, apart from the toolkit's own handles.
pub struct WindowState {
    /// The chargers being followed, in the order they were met.
    pub devices: Vec<DeviceView>,
    /// The tab in the foreground.
    pub selected: usize,
    /// Chargers the last scan turned up.
    pub found: Vec<Found>,
    /// Whether a scan is running.
    pub scanning: bool,
    /// Whether the discovery panel is open.
    pub discovering: bool,
    /// The last message that belongs to no charger.
    pub message: Option<String>,
}

fn string_eq(a: &String, b: &String) -> (r: bool)
    ensures
        r == (a@ == b@),
{
    *a == *b
}

impl WindowState {
    /// Whether the foreground tab is a charger the window follows, or the
    /// first position when it follows none.
    pub open spec fn selection_valid(self) -> bool {
        self.selected == 0 || self.selected < self.devices@.len()
    }

    /// A window with nothing followed, opening on the discovery panel, since
    /// with nothing connected there is nothing else to show.
    pub fn new() -> (r: WindowState)
        ensures
            r.devices@.len() == 0,
            r.selected == 0,
            r.found@.len() == 0,
            !r.scanning,
            r.discovering,
            r.message is None,
            r.selection_valid(),
    {
        WindowState {
            devices: Vec::new(),
            selected: 0,
            found: Vec::new(),
            scanning: false,
            discovering: true,
            message: None,
        }
    }

    /// The position of the device with identifier `id`, adding a fresh one
    /// at the end when the window has not met it.
    fn device_index(&mut self, id: &String) -> (r: usize)
        ensures
            final(self).selected == old(self).selected,
            final(self).found == old(self).found,
            final(self).scanning == old(self).scanning,
            final(self).discovering == old(self).discovering,
            final(self).message == old(self).message,
            r < final(self).devices@.len(),
            final(self).devices@[r as int].id@ == id@,
            match device_pos(old(self).devices@, id@) {
                Some(i) => r == i && final(self).devices@ == old(self).devices@,
                None => r == old(self).devices@.len() && final(self).devices@ == old(self).devices@.push(final(self).devices@[r as int]) && fresh_device(
                    final(self).devices@[r as int],
                    id@,
                ),
            },
    {
        let mut i: usize = 0;
        while i < self.devices.len()
            invariant
                i <= self.devices@.len(),
                forall|j: int| 0 <= j < i ==> #[trigger] self.devices@[j].id@ != id@,
            decreases self.devices.len() - i,
        {
            if string_eq(&self.devices[i].id, id) {
                proof {
                    assert(first_device(self.devices@, id@, i as int));
                    let c = choose|c: int| first_device(self.devices@, id@, c);
                    if c < i {
                        assert(self.devices@[c].id@ != id@);
                    } else if c > i {
                        assert(self.devices@[i as int].id@ != id@);
                    }
                }
                return i;
            }
            i = i + 1;
        }
        self.devices.push(DeviceView::new(id.clone()));
        i
    }
}

/// Whether `a` is a device list the window ends up with after `before`'s
/// devices with identifier `id` are dropped.
pub open spec fn without(before: Seq<DeviceView>, id: Seq<char>) -> Seq<DeviceView> {
    before.filter(|d: DeviceView| d.id@ != id)
}

impl WindowState {
    /// Applies one update from the charger half.
    ///
    /// A closed charger is dropped, the selection stays in range, and with
    /// nothing left the discovery panel opens. Any other status, reading or
    /// notice goes to the charger it names, which is added if the window has
    /// not met it; the first charger to arrive gets the foreground and the
    /// discovery panel steps out of the way.
    pub fn apply(&mut self, update: Update)
        ensures
            old(self).selection_valid() ==> final(self).selection_valid(),
            update matches Update::Scanning(a) ==> final(self).scanning == a
                && final(self).devices@ == old(self).devices@ && final(self).selected == old(
                self).selected && final(self).found@ == old(self).found@ && final(
                self).discovering == old(self).discovering && final(self).message == old(
                self).message,
            update matches Update::Found(f) ==> final(self).found@ == f@ && final(self).devices@
                == old(self).devices@ && final(self).selected == old(self).selected && final(
                self).scanning == old(self).scanning && final(self).discovering == old(
                self).discovering && final(self).message == old(self).message,
            update matches Update::Message(t) ==> (final(self).message matches Some(m) && m@
                == t@) && final(self).devices@ == old(self).devices@ && final(self).selected
                == old(self).selected && final(self).found@ == old(self).found@ && final(
                self).scanning == old(self).scanning && final(self).discovering == old(
                self).discovering,
            update matches Update::Status(id, Status::Closed) ==> {
                let left = without(old(self).devices@, id@);
                &&& final(self).devices@ == left
                &&& final(self).selected == if left.len() == 0 {
                    0
                } else if old(self).selected < left.len() - 1 {
                    old(self).selected as int
                } else {
                    left.len() - 1
                }
                &&& final(self).discovering == (old(self).discovering || left.len() == 0)
                &&& final(self).found@ == old(self).found@
                &&& final(self).scanning == old(self).scanning
                &&& final(self).message == old(self).message
            },
            update matches Update::Status(id, s) ==> s is Closed || {
                &&& devices_after(
                    old(self).devices@,
                    final(self).devices@,
                    id@,
                    |b: Option<DeviceView>, a: DeviceView| status_applied(s, b, a),
                )
                &&& old(self).devices@.len() == 0 ==> final(self).selected == 0 && !final(
                    self).discovering
                &&& old(self).devices@.len() > 0 ==> final(self).selected == old(self).selected
                    && final(self).discovering == old(self).discovering
                &&& final(self).found@ == old(self).found@
                &&& final(self).scanning == old(self).scanning
                &&& final(self).message == old(self).message
            },
            update matches Update::Reading(id, r) ==> {
                &&& devices_after(
                    old(self).devices@,
                    final(self).devices@,
                    id@,
                    |b: Option<DeviceView>, a: DeviceView| reading_applied(*r, b, a),
                )
                &&& final(self).selected == old(self).selected
                &&& final(self).discovering == old(self).discovering
                &&& final(self).found@ == old(self).found@
                &&& final(self).scanning == old(self).scanning
                &&& final(self).message == old(self).message
            },
            update matches Update::Notice(id, t) ==> {
                &&& devices_after(
                    old(self).devices@,
                    final(self).devices@,
                    id@,
                    |b: Option<DeviceView>, a: DeviceView| notice_applied(t@, b, a),
                )
                &&& final(self).selected == old(self).selected
                &&& final(self).discovering == old(self).discovering
                &&& final(self).found@ == old(self).found@
                &&& final(self).scanning == old(self).scanning
                &&& final(self).message == old(self).message
            },
    {
        match update {
            Update::Scanning(active) => {
                self.scanning = active;
            },
            Update::Found(found) => {
                self.found = found;
            },
            Update::Message(text) => {
                self.message = Some(text);
            },
            Update::Status(id, status) => {
                let closed = match &status {
                    Status::Closed => true,
                    _ => false,
                };
                if closed {
                    self.close(&id);
                    return;
                }
                let first = self.devices.len() == 0;
                let i = self.device_index(&id);
                let ghost mid = self.devices@;
                let mut d = self.devices.remove(i);
                match &status {
                    Status::Connected { info, label } => {
                        d.label = label.clone();
                        d.firmware = firmware_text(info);
                    },
                    _ => {},
                }
                d.status = status;
                self.devices.insert(i, d);
                assert(self.devices@ == mid.update(i as int, self.devices@[i as int]));
                if first {
                    self.selected = 0;
                    self.discovering = false;
                }
            },
            Update::Reading(id, reading) => {
                let i = self.device_index(&id);
                let ghost mid = self.devices@;
                let mut d = self.devices.remove(i);
                match &reading.work {
                    Some(w) => {
                        if w.state.is_running() {
                            d.battery = w.battery_type;
                            d.cells = w.cell_count;
                            d.current_ma = w.work_current_ma;
                        }
                    },
                    None => {},
                }
                d.reading = *reading;
                self.devices.insert(i, d);
                assert(self.devices@ == mid.update(i as int, self.devices@[i as int]));
            },
            Update::Notice(id, text) => {
                let i = self.device_index(&id);
                let ghost mid = self.devices@;
                let mut d = self.devices.remove(i);
                d.notice = Some(text);
                self.devices.insert(i, d);
                assert(self.devices@ == mid.update(i as int, self.devices@[i as int]));
            },
        }
    }

    /// Drops every device with identifier `id`, keeps the selection in range,
    /// and opens discovery when nothing is left.
    fn close(&mut self, id: &String)
        ensures
            final(self).devices@ == without(old(self).devices@, id@),
            final(self).selected == if without(old(self).devices@, id@).len() == 0 {
                0
            } else if old(self).selected < without(old(self).devices@, id@).len() - 1 {
                old(self).selected as int
            } else {
                without(old(self).devices@, id@).len() - 1
            },
            final(self).discovering == (old(self).discovering || without(
                old(self).devices@,
                id@,
            ).len() == 0),
            final(self).found == old(self).found,
            final(self).scanning == old(self).scanning,
            final(self).message == old(self).message,
    {
        let ghost f = |d: DeviceView| d.id@ != id@;
        let mut kept: Vec<DeviceView> = Vec::new();
        let mut rest: Vec<DeviceView> = Vec::new();
        std::mem::swap(&mut rest, &mut self.devices);
        let ghost before = rest@;
        let ghost mut i: int = 0;
        while rest.len() > 0
            invariant
                0 <= i <= before.len(),
                rest@ == before.skip(i),
                f == (|d: DeviceView| d.id@ != id@),
                kept@ == before.take(i).filter(f),
            decreases rest.len(),
        {
            let d = rest.remove(0);
            let keep = !string_eq(&d.id, id);
            proof {
                let t = before.take(i + 1);
                assert(t.drop_last() == before.take(i));
                assert(t.last() == before[i]);
                assert(d == before[i]);
                reveal_with_fuel(Seq::filter, 1);
                assert(rest@ == before.skip(i + 1));
                i = i + 1;
            }
            if keep {
                kept.push(d);
            }
        }
        assert(before.take(before.len() as int) == before);
        self.devices = kept;
        let n = self.devices.len();
        let last = if n == 0 {
            0
        } else {
            n - 1
        };
        if self.selected > last {
            self.selected = last;
        }
        if n == 0 {
            self.discovering = true;
        }
    }
}

/// The notice for a chemistry with no target voltage for a task.
pub open spec fn no_voltage_notice(battery: BatteryKind) -> Seq<char> {
    crate::types::battery_label(battery) + " has no target voltage for that task"@
}

impl WindowState {
    /// What starting `task` on the foreground charger sends, with the
    /// settings its controls show and the chemistry's own target voltage.
    /// Without a foreground charger nothing happens; a chemistry with no
    /// target voltage for the task sends nothing and says so on the charger.
    pub fn start(&mut self, task: TaskType) -> (r: Option<Command>)
        ensures
            final(self).selected == old(self).selected,
            final(self).found == old(self).found,
            final(self).scanning == old(self).scanning,
            final(self).discovering == old(self).discovering,
            final(self).message == old(self).message,
            old(self).selected >= old(self).devices@.len() ==> r is None && final(self).devices@
                == old(self).devices@,
            old(self).selected < old(self).devices@.len() ==> {
                let i = old(self).selected as int;
                let d = old(self).devices@[i];
                match crate::session::task_voltage_spec(task, d.battery) {
                    Some(v) => final(self).devices@ == old(self).devices@ && (r matches Some(
                        Command::Task(id, c),
                    ) && id@ == d.id@ && c == (TaskCommand::Start {
                        task,
                        battery: d.battery,
                        cells: d.cells,
                        current_ma: d.current_ma,
                        volt_mv: v,
                    })),
                    None => r is None && final(self).devices@.len() == old(self).devices@.len()
                        && (forall|j: int|
                        0 <= j < old(self).devices@.len() && j != i ==> #[trigger] final(self).devices@[j] == old(self).devices@[j]) && final(self).devices@[i]
                        == (DeviceView { notice: final(self).devices@[i].notice, ..d }) && (final(self).devices@[i].notice matches Some(n) && n@ == no_voltage_notice(d.battery)),
                }
            },
    {
        if self.selected >= self.devices.len() {
            return None;
        }
        let i = self.selected;
        let battery = self.devices[i].battery;
        match crate::session::task_voltage(task, battery) {
            Some(volt_mv) => {
                let d = &self.devices[i];
                Some(
                    Command::Task(
                        d.id.clone(),
                        TaskCommand::Start {
                            task,
                            battery,
                            cells: d.cells,
                            current_ma: d.current_ma,
                            volt_mv,
                        },
                    ),
                )
            },
            None => {
                let ghost before = self.devices@;
                let mut d = self.devices.remove(i);
                let mut text = battery.label();
                push_str(&mut text, " has no target voltage for that task");
                d.notice = Some(text);
                self.devices.insert(i, d);
                assert(self.devices@ == before.update(i as int, self.devices@[i as int]));
                None
            },
        }
    }
}

// ---- what the window shows ----------------------------------------------------------------

/// The currents the window offers, in milliamps.
pub const CURRENTS: [u32; 8] = [100, 250, 500, 1000, 1500, 2000, 3000, 5000];

/// The chemistries the window offers, matching the vendor application's picker.
pub const CHEMISTRIES: [BatteryKind; 4] = [
    BatteryKind::LiHv,
    BatteryKind::LiPo,
    BatteryKind::LiFe,
    BatteryKind::ULiHv,
];

/// The badge a scan entry carries: connected first, then waiting to bind,
/// then known to this host, then whether its name could be read at all.
pub open spec fn badge_spec(f: Found) -> Seq<char> {
    if f.connected {
        "connected"@
    } else if f.binding_mode == Some(true) {
        "waiting to bind"@
    } else if f.known {
        "known"@
    } else if f.binding_mode is None {
        "name unreadable"@
    } else {
        "not bound"@
    }
}

/// The badge a scan entry carries.
pub fn badge(f: &Found) -> (r: &'static str)
    ensures
        r@ == badge_spec(*f),
{
    if f.connected {
        "connected"
    } else if f.binding_mode == Some(true) {
        "waiting to bind"
    } else if f.known {
        "known"
    } else if f.binding_mode.is_none() {
        "name unreadable"
    } else {
        "not bound"
    }
}

/// Whether a scan entry offers binding: unless it is connected or its name
/// says it is not waiting. A charger whose name did not parse might still be
/// waiting, and one that is not refuses harmlessly.
pub fn offers_bind(f: &Found) -> (r: bool)
    ensures
        r == (f.binding_mode != Some(false) && !f.connected),
{
    f.binding_mode != Some(false) && !f.connected
}

/// Whether a scan entry offers connecting: known to this host and not
/// connected already.
pub fn offers_connect(f: &Found) -> (r: bool)
    ensures
        r == (f.known && !f.connected),
{
    f.known && !f.connected
}

/// The second line of a scan entry: the signal, after the model when there
/// is one.
pub open spec fn found_detail_spec(f: Found) -> Seq<char> {
    let signal = match f.rssi {
        Some(r) => crate::cli::rssi_text_spec(Some(r)) + " dBm"@,
        None => "-"@,
    };
    if f.model@.len() == 0 {
        signal
    } else {
        f.model@ + " · "@ + signal
    }
}

/// The second line of a scan entry.
pub fn found_detail(f: &Found) -> (r: String)
    ensures
        r@ == found_detail_spec(*f),
{
    let mut signal = String::new();
    match f.rssi {
        Some(r) => {
            let t = crate::cli::rssi_text(Some(r));
            push_str(&mut signal, t.as_str());
            push_str(&mut signal, " dBm");
        },
        None => push_str(&mut signal, "-"),
    }
    if f.model.as_str().unicode_len() == 0 {
        signal
    } else {
        let mut s = f.model.clone();
        push_str(&mut s, " · ");
        push_str(&mut s, signal.as_str());
        s
    }
}

/// The line under a charger's name: its firmware when connected, otherwise
/// how its connection stands.
pub open spec fn subtitle_spec(d: DeviceView) -> Seq<char> {
    match d.status {
        Status::Connected { .. } => d.firmware@,
        Status::Connecting => "connecting"@,
        Status::Lost(why) => why@,
        Status::Closed => "disconnected"@,
    }
}

/// The line under a charger's name.
pub fn subtitle(d: &DeviceView) -> (r: String)
    ensures
        r@ == subtitle_spec(*d),
{
    match &d.status {
        Status::Connected { .. } => d.firmware.clone(),
        Status::Connecting => string_of("connecting"),
        Status::Lost(why) => why.clone(),
        Status::Closed => string_of("disconnected"),
    }
}

/// How the task controls stand for a charger.
#[derive(Debug, Clone, Copy, PartialEq, Eq)]
pub struct Controls {
    /// Whether charge, storage and discharge can be started.
    pub start: bool,
    /// Whether the running task can be stopped.
    pub stop: bool,
    /// Whether the chemistry, cell and current choices are locked, since the
    /// charger owns the settings while a task runs.
    pub locked: bool,
}

/// How the task controls stand for a device.
pub open spec fn controls_spec(d: DeviceView) -> Controls {
    let running = d.reading.work matches Some(w) && charger_state_running(w.state);
    Controls { start: (d.status is Connected) && !running, stop: (d.status is Connected) && running, locked: running }
}

/// How the task controls stand: a task starts only on a connected charger
/// that is not running one, and stops only on one that is.
pub fn controls(d: &DeviceView) -> (r: Controls)
    ensures
        r == controls_spec(*d),
        r.start == ((d.status is Connected) && !(d.reading.work matches Some(w)
            && charger_state_running(w.state))),
        r.stop == ((d.status is Connected) && (d.reading.work matches Some(w)
            && charger_state_running(w.state))),
        r.locked == (d.reading.work matches Some(w) && charger_state_running(w.state)),
{
    let running = d.running();
    let live = d.connected();
    Controls { start: live && !running, stop: live && running, locked: running }
}

/// The colour class of a charger's tab dot.
#[derive(Debug, Clone, Copy, PartialEq, Eq, Structural)]
pub enum Dot {
    /// Connected with a task running.
    Running,
    /// Connected and idle.
    Idle,
    /// Connecting.
    Connecting,
    /// Lost or closed.
    Down,
}

/// The colour class of a charger's tab dot.
pub fn tab_dot(d: &DeviceView) -> (r: Dot)
    ensures
        (d.status is Connected) && (d.reading.work matches Some(w) && charger_state_running(
            w.state,
        )) ==> r == Dot::Running,
        (d.status is Connected) && !(d.reading.work matches Some(w) && charger_state_running(
            w.state,
        )) ==> r == Dot::Idle,
        d.status is Connecting ==> r == Dot::Connecting,
        (d.status is Lost || d.status is Closed) ==> r == Dot::Down,
{
    match &d.status {
        Status::Connected { .. } => if d.running() {
            Dot::Running
        } else {
            Dot::Idle
        },
        Status::Connecting => Dot::Connecting,
        _ => Dot::Down,
    }
}

/// What the state row shows for a charger.
#[derive(Debug, Clone)]
pub struct StateLine {
    /// The task state, standby before anything is known.
    pub state: crate::types::ChargerState,
    /// Progress, at most a hundred.
    pub percent: u8,
    /// Elapsed time as `hh:mm:ss`, or dashes before anything is known.
    pub elapsed: String,
    /// The faults the charger reports, when there are any.
    pub faults: Option<String>,
}

/// What the state row shows for a charger.
pub fn state_line(d: &DeviceView) -> (r: StateLine)
    ensures
        match d.reading.work {
            None => r.state == crate::types::ChargerState::Standby && r.percent == 0
                && r.elapsed@ == "--:--:--"@ && r.faults is None,
            Some(w) => {
                &&& r.state == w.state
                &&& r.percent == (if w.capacity_percent < 100 {
                    w.capacity_percent
                } else {
                    100
                })
                &&& r.elapsed@ == crate::cli::elapsed_text((w.work_period_ms / 1000) as nat)
                &&& match w.errors {
                    Some(f) => if f.0 == 0 {
                        r.faults is None
                    } else {
                        r.faults matches Some(t) && t@ == crate::types::error_flags_text(f.0)
                    },
                    None => r.faults is None,
                }
            },
        },
{
    match &d.reading.work {
        None => StateLine {
            state: crate::types::ChargerState::Standby,
            percent: 0,
            elapsed: string_of("--:--:--"),
            faults: None,
        },
        Some(w) => {
            let percent = if w.capacity_percent < 100 {
                w.capacity_percent
            } else {
                100
            };
            let elapsed = crate::cli::format_elapsed((w.work_period_ms / 1000) as u64);
            let faults = match w.errors {
                Some(f) => if f.is_clear() {
                    None
                } else {
                    Some(f.to_string())
                },
                None => None,
            };
            StateLine { state: w.state, percent, elapsed, faults }
        },
    }
}

/// The heading of the cells panel.
pub open spec fn cells_heading_spec(n: nat) -> Seq<char> {
    if n == 0 {
        "No cells detected"@
    } else {
        decimal(n) + " cells"@
    }
}

/// The heading of the cells panel for `n` shown cells.
pub fn cells_heading(n: usize) -> (r: String)
    ensures
        r@ == cells_heading_spec(n as nat),
{
    if n == 0 {
        string_of("No cells detected")
    } else {
        let mut s = String::new();
        push_decimal(&mut s, n as u64);
        push_str(&mut s, " cells");
        s
    }
}

/// The status of the discovery panel: scanning, or how many were found.
pub open spec fn discovery_status_spec(scanning: bool, found: nat) -> Seq<char> {
    if scanning {
        "scanning"@
    } else {
        decimal(found) + " found"@
    }
}

/// The status of the discovery panel.
pub fn discovery_status(scanning: bool, found: usize) -> (r: String)
    ensures
        r@ == discovery_status_spec(scanning, found as nat),
{
    if scanning {
        string_of("scanning")
    } else {
        let mut s = String::new();
        push_decimal(&mut s, found as u64);
        push_str(&mut s, " found");
        s
    }
}

/// The first field of a peripheral identifier, up to its first `-`, which
/// is enough to tell two chargers apart in a trace.
pub fn short(id: &str) -> (r: String)
    ensures
        r@ == id@.take(first_dash(id@)),
{
    let chars = crate::text::chars_of(id);
    let mut i: usize = 0;
    while i < chars.len() && chars[i] != '-'
        invariant
            i <= chars@.len(),
            chars@ == id@,
            first_dash(id@) == first_dash_from(id@, i as int),
        decreases chars.len() - i,
    {
        i = i + 1;
    }
    crate::text::string_from_chars(&chars, 0, i)
}

/// The position of the first `-` in `s`, or its length.
pub open spec fn first_dash(s: Seq<char>) -> int {
    first_dash_from(s, 0)
}

/// The position of the first `-` in `s` at or after `i`, or its length.
pub open spec fn first_dash_from(s: Seq<char>, i: int) -> int
    decreases s.len() - i,
{
    if i < 0 || i >= s.len() || s[i] == '-' {
        i
    } else {
        first_dash_from(s, i + 1)
    }
}

/// On a connected charger whose latest work state carries code `code`, the
/// window offers Stop exactly while the charger moves energy (codes 1 to 8
/// and 10) and offers Start exactly otherwise; the settings are locked
/// exactly while Stop is offered.
pub proof fn law_controls_follow_work_state(d: DeviceView, code: u8)
    requires
        d.status is Connected,
        d.reading.work matches Some(w) && w.state == crate::types::charger_state_from_code(code),
    ensures
        controls_spec(d).stop == (1 <= code <= 8 || code == 10),
        controls_spec(d).start == !(1 <= code <= 8 || code == 10),
        controls_spec(d).locked == controls_spec(d).stop,
{
}

} // verus!
