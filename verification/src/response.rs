//! Everything a charger can say back.
//!
//! Each variant of [`Response`] mirrors one packet parser of the app. Field
//! layouts, widths and signedness follow those parsers exactly. Replies
//! carry the request's command word plus one; a charger also sends telemetry
//! unprompted once polling has started, so the notification stream is a feed
//! rather than a strict request and reply exchange.

use vstd::prelude::*;

use crate::types::{
    battery_from_code, channel_state_from_code, charger_state_code, charger_state_from_code,
    link_from_code, power_type_from_code, BatteryKind, ChannelState, ChargerState, ErrorFlags,
    LinkType, PowerType, MAX_INNER_RESISTANCE,
};

verus! {

/// The answer to an identify request.
///
/// The app reads this as a region byte plus an eight byte part number. A
/// CM1620 sends twelve bytes that do not fit that reading: bytes 2 to 5 are a
/// millisecond counter since the link came up, and the last six look like the
/// device address. The payload is therefore kept whole.
#[derive(Debug, Clone, PartialEq)]
pub struct Identity {
    /// The first byte after the command word, which the app calls the region
    /// code; a CM1620 always sends 4.
    pub region: u8,
    /// Everything after the region byte, exactly as sent.
    pub payload: Vec<u8>,
}

/// A block of logged chart samples.
#[derive(Debug, Clone, PartialEq)]
pub struct LineChart {
    /// The channel this frame describes, counted from zero.
    pub channel: u8,
    /// Sample pairs. The app plots the first element of each pair against the
    /// second without naming either.
    pub samples: Vec<[u16; 2]>,
}

/// Link state.
#[derive(Debug, Clone, Copy, PartialEq, Eq)]
pub struct BleMode {
    /// The charger's Bluetooth mode byte.
    pub ble_mode: u8,
    /// The charger's pairing mode byte.
    pub pair_mode: u8,
    /// How long the current link has been up, in the charger's own units.
    pub linking_period: u32,
}

/// BattGo pack identity.
#[derive(Debug, Clone, PartialEq)]
pub struct BattgoInfo {
    /// The channel this frame describes, counted from zero.
    pub channel: u8,
    /// 0 when no pack is linked on this channel.
    pub link_state: u8,
    /// Eight byte device identifier, as sent.
    pub device_id: [u8; 8],
    /// Ten byte sub-device identifier, as sent.
    pub sub_device_id: [u8; 10],
    /// Sub-board hardware revision.
    pub sub_hardware_version: u8,
    /// Main board hardware revision.
    pub main_hardware_version: u8,
    /// Sub-board firmware revision.
    pub sub_software_version: u8,
    /// Main board firmware revision.
    pub main_software_version: u8,
    /// Which seat of a multi-bay charger the pack sits in.
    pub work_seat_id: u8,
    /// Identifier of the host bound to the pack.
    pub client_id: u16,
    /// The pack's serial number.
    pub battery_id: u32,
    /// Manufacturing timestamp in the pack's own encoding.
    pub manufactured: u32,
}

/// BattGo manufacturer profile.
#[derive(Debug, Clone, PartialEq)]
pub struct BattgoOem {
    /// The channel this frame describes, counted from zero.
    pub channel: u8,
    /// Zero when nothing is linked on this channel.
    pub link_state: u8,
    /// Sixteen byte brand string, as sent.
    pub brand: [u8; 16],
    /// Chemistry code as the pack reports it.
    pub battery_type: u8,
    /// Cells the pack reports in series.
    pub cell_count: u8,
    /// Per-cell overdischarge threshold, in millivolts.
    pub over_discharge_mv: u16,
    /// Per-cell warning threshold, in millivolts.
    pub warning_mv: u16,
    /// Per-cell storage voltage, in millivolts.
    pub store_mv: u16,
    /// Per-cell fully charged voltage, in millivolts.
    pub full_charged_mv: u16,
    /// Rated capacity, in milliamp hours.
    pub capacity_mah: u32,
    /// Rated charge rate, as a multiple of capacity.
    pub charge_c: u16,
    /// Rated discharge rate, as a multiple of capacity.
    pub discharge_c: u16,
    /// Lower end of the operating temperature window, in degrees Celsius.
    pub use_temp_min_c: i8,
    /// Upper end of the operating temperature window, in degrees Celsius.
    pub use_temp_max_c: i8,
    /// Lower end of the storage temperature window, in degrees Celsius.
    pub store_temp_min_c: i8,
    /// Upper end of the storage temperature window, in degrees Celsius.
    pub store_temp_max_c: i8,
    /// Whether the pack self-discharges to storage voltage on its own.
    pub auto_storage: bool,
}

/// BattGo live state.
#[derive(Debug, Clone, PartialEq)]
pub struct BattgoRealState {
    /// The channel this frame describes, counted from zero.
    pub channel: u8,
    /// Zero when nothing is linked on this channel.
    pub link_state: u8,
    /// Per-cell voltages in millivolts, as many as the pack reports.
    pub cell_mv: Vec<u16>,
    /// Pack temperature in degrees Celsius.
    pub temperature_c: i8,
    /// Lifetime discharge current, in milliamps.
    pub discharging_current_ma: u32,
    /// Lifetime charge current, in milliamps.
    pub charging_current_ma: u32,
    /// Charge and discharge cycles the pack has logged.
    pub cycle_count: u16,
    /// Faults the pack has logged.
    pub fault_count: u16,
    /// Overtemperature events the pack has logged.
    pub over_temperature_count: u16,
    /// Overvoltage events the pack has logged.
    pub over_voltage_count: u16,
    /// Undervoltage events the pack has logged.
    pub under_voltage_count: u16,
    /// Firmware restarts the pack has logged.
    pub firmware_crash_count: u8,
}

/// Charge settings stored in a BattGo pack.
#[derive(Debug, Clone, Copy, PartialEq, Eq)]
pub struct BattgoParameters {
    /// The channel this frame describes, counted from zero.
    pub channel: u8,
    /// Preferred charge current, in milliamps.
    pub charging_current_ma: u32,
    /// Per-cell storage voltage, in millivolts.
    pub store_mv: u16,
    /// Per-cell fully charged voltage, in millivolts.
    pub full_charged_mv: u16,
    /// Days of rest before the pack drops itself to storage voltage.
    pub self_discharging_days: u8,
}

/// A raw sampling frame.
#[derive(Debug, Clone, Copy, PartialEq, Eq)]
pub struct SampleData {
    /// Per-cell voltages in millivolts.
    pub cell_mv: [u16; 8],
    /// Input voltage in millivolts.
    pub input_mv: u16,
    /// Output voltage in millivolts.
    pub output_mv: u16,
    /// Output current in milliamps.
    pub output_ma: u16,
}

/// Power supply identity and live output. Voltages are in tenths of a volt;
/// the currents are never shown by the app, so they are left raw.
#[derive(Debug, Clone, Copy, PartialEq, Eq)]
pub struct SmartPowerInfo {
    /// True when the supply is a plain one with nothing to report.
    pub common_power: bool,
    /// What kind of supply is attached.
    pub power_type: PowerType,
    /// Rated output power, in watts.
    pub max_power_w: u16,
    /// Mains input voltage, in volts.
    pub input_ac_v: u16,
    /// Supply temperature, in degrees Celsius.
    pub temperature_c: i8,
    /// Warning bits, which the app never decodes.
    pub warning_flags: u8,
    /// Fault bits, which the app never decodes.
    pub error_flags: u8,
    /// Lower end of the output voltage window, in tenths of a volt.
    pub min_output_dv: u16,
    /// Upper end of the output voltage window, in tenths of a volt.
    pub max_output_dv: u16,
    /// Lower end of the output current window, in the supply's own units.
    pub min_output_current_raw: u16,
    /// Upper end of the output current window, in the supply's own units.
    pub max_output_current_raw: u16,
    /// Present output voltage, in tenths of a volt.
    pub output_dv: u16,
    /// Present output current, in the supply's own units.
    pub output_current_raw: u16,
}

/// The supply's configured working point.
#[derive(Debug, Clone, Copy, PartialEq, Eq)]
pub struct SmartPowerParameters {
    /// True when the supply is a plain one with nothing to report.
    pub common_power: bool,
    /// What kind of supply is attached.
    pub power_type: PowerType,
    /// How long the supply has been working, in seconds.
    pub working_seconds: u32,
    /// Configured output current, in the supply's own units.
    pub working_current_raw: u16,
    /// Configured output voltage, in tenths of a volt.
    pub working_voltage_dv: u16,
}

/// The button-press profile.
#[derive(Debug, Clone, Copy, PartialEq, Eq)]
pub struct OneKeyLaunch {
    /// Whether the profile runs on a button press.
    pub enabled: bool,
    /// Chemistry code, on the scale [`BatteryKind`] writes.
    pub battery_type: u8,
    /// Cells in series.
    pub cell_count: u8,
    /// Per-cell target voltage, in millivolts.
    pub full_charged_mv: u16,
    /// Charge current, in milliamps.
    pub work_current_ma: u32,
}

/// Device identity and versions.
#[derive(Debug, Clone, PartialEq)]
pub struct HardwareInfo {
    /// Eight byte device identifier, usually printable ASCII such as `CM1620`.
    pub device_id: [u8; 8],
    /// Hardware version as major, minor, patch, board layout.
    pub hardware_version: [u8; 4],
    /// Bootloader version as major, minor, patch, build.
    pub bootloader_version: [u8; 4],
    /// Firmware version as major, minor, patch, build.
    pub firmware_version: [u8; 4],
    /// Ten byte display name. Absent on firmware that stops the frame early.
    pub device_name: Option<[u8; 10]>,
    /// Eight byte part number. Absent on firmware that stops the frame early.
    pub part_number: Option<[u8; 8]>,
}

/// Power and current ceilings.
#[derive(Debug, Clone, Copy, PartialEq, Eq)]
pub struct LimitParameters {
    /// Input power ceiling, in milliwatts.
    pub max_input_power_mw: u32,
    /// Output power ceiling, in milliwatts.
    pub max_output_power_mw: u32,
    /// Input current value, in milliamps. The app uses it as a floor.
    pub max_input_current_ma: u32,
    /// Output current ceiling, in milliamps.
    pub max_output_current_ma: u32,
}

/// Live voltages and currents. Short frames carry 16 bit voltages and eight
/// cells; long frames carry 32 bit voltages and sixteen.
#[derive(Debug, Clone, PartialEq)]
pub struct Electrical {
    /// The channel this frame describes, counted from zero.
    pub channel: u8,
    /// Input voltage, in millivolts.
    pub input_mv: u32,
    /// Input current, in milliamps.
    pub input_ma: u32,
    /// Output voltage, in millivolts.
    pub output_mv: u32,
    /// Charge or discharge current, in milliamps.
    pub current_ma: u32,
    /// Per-cell voltages in millivolts: eight on short frames, sixteen on long.
    pub cell_mv: Vec<u16>,
}

/// Task state and progress.
#[derive(Debug, Clone, Copy, PartialEq, Eq)]
pub struct WorkState {
    /// The channel this frame describes, counted from zero.
    pub channel: u8,
    /// What the channel is doing right now.
    pub state: ChargerState,
    /// Progress toward the task's target, in percent.
    pub capacity_percent: u8,
    /// Charge moved so far, in milliamp hours.
    pub capacity_done_mah: u32,
    /// Energy moved so far, in milliwatt hours.
    pub energy_done_mwh: u32,
    /// Elapsed task time, in milliseconds.
    pub work_period_ms: u32,
    /// The chemistry the charger is working to.
    pub battery_type: BatteryKind,
    /// Cells the charger has detected in series.
    pub cell_count: u8,
    /// Which leads the charger sees connected.
    pub link_type: u8,
    /// Per-cell target voltage, in millivolts.
    pub full_charged_mv: u16,
    /// Configured task current, in milliamps.
    pub work_current_ma: u32,
    /// Batteries in the whole job.
    pub batteries_total: u16,
    /// Which battery of that job is in progress.
    pub batteries_done: u16,
    /// Input undervoltage cutoff, in millivolts.
    pub min_input_mv: u16,
    /// Output power ceiling, in milliwatts.
    pub max_output_power_mw: u32,
    /// Fault mask, absent on firmware whose frame stops before it.
    pub errors: Option<ErrorFlags>,
}

/// Temperatures and fan duty.
#[derive(Debug, Clone, Copy, PartialEq, Eq)]
pub struct Temperature {
    /// The channel this frame describes, counted from zero.
    pub channel: u8,
    /// Charger internal temperature, in degrees Celsius. Signed.
    pub device_c: i8,
    /// Battery temperature from the external probe, in degrees Celsius. Signed.
    pub battery_c: i8,
    /// Fan setting, whose scale the app does not establish.
    pub fan_raw: u8,
}

/// Per-cell internal resistance, in tenths of a milliohm.
#[derive(Debug, Clone, Copy, PartialEq, Eq)]
pub struct InnerResistance {
    /// The channel this frame describes, counted from zero.
    pub channel: u8,
    /// Raw readings, in tenths of a milliohm.
    pub raw: [u16; 8],
}

/// A decoded frame from the charger.
#[derive(Debug, Clone, PartialEq)]
pub enum Response {
    /// Answer to an identify request.
    Identity(Identity),
    /// A block of logged chart samples for one channel.
    LineChart(LineChart),
    /// Bluetooth mode, pairing mode and how long the link has been up.
    BleMode(BleMode),
    /// Answer to a bind request.
    Bind {
        /// True when the charger accepted the binding.
        bound: bool,
    },
    /// Identity of the BattGo pack on a channel.
    BattgoInfo(BattgoInfo),
    /// Manufacturer profile of the BattGo pack on a channel.
    BattgoOem(BattgoOem),
    /// Live state of the BattGo pack on a channel.
    BattgoRealState(BattgoRealState),
    /// Answer to a BattGo settings write.
    BattgoWriteAck {
        /// The channel this concerns, counted from zero.
        channel: u8,
        /// The charger's status byte. Zero means success.
        state: u8,
    },
    /// Charge settings stored in the BattGo pack on a channel.
    BattgoParameters(BattgoParameters),
    /// A raw sampling frame.
    SampleData(SampleData),
    /// Identity, ratings and live output of the attached power supply.
    SmartPowerInfo(SmartPowerInfo),
    /// Answer to a supply setting write. 0xFFFF means the charger refused.
    SmartPowerSettingAck {
        /// Which parameter was written.
        setting: u8,
        /// The value the charger echoed back.
        value: u16,
    },
    /// The power supply's configured working point.
    SmartPowerParameters(SmartPowerParameters),
    /// Answer to a rename.
    NameAck {
        /// The charger's status byte. Zero means success.
        state: u8,
    },
    /// Answer to a limits write.
    LimitParametersAck {
        /// The charger's status byte. Zero means success.
        state: u8,
    },
    /// Answer to a one-key launch write.
    OneKeyLaunchAck {
        /// The charger's status byte. Zero means success.
        state: u8,
    },
    /// The profile the charger runs when its button is pressed.
    OneKeyLaunch(OneKeyLaunch),
    /// Answer to an eight-cell calibration.
    Calibrate8Ack {
        /// The channel this concerns, counted from zero.
        channel: u8,
        /// The charger's status byte. Zero means success.
        state: u8,
    },
    /// Answer to a six-cell calibration.
    Calibrate6Ack {
        /// The channel this concerns, counted from zero.
        channel: u8,
        /// The charger's status byte. Zero means success.
        state: u8,
    },
    /// Device identifier, versions, display name and part number.
    HardwareInfo(Box<HardwareInfo>),
    /// The input and output power and current ceilings.
    LimitParameters(LimitParameters),
    /// Live voltages and currents for one channel.
    Electrical(Electrical),
    /// Task state and progress for one channel.
    WorkState(Box<WorkState>),
    /// Temperatures and fan duty for one channel.
    Temperature(Temperature),
    /// Answer to a task set. `error_code` is 0 when the charger accepted it.
    TaskAck {
        /// The channel this concerns, counted from zero.
        channel: u8,
        /// Zero when the charger accepted the task.
        error_code: u8,
    },
    /// Answer to entering the bootloader.
    BootloaderAck {
        /// The charger's status byte. Zero means success.
        state: u8,
    },
    /// Answer to a firmware erase.
    EraseAck {
        /// Which processor the bootloader addressed.
        cpu: u8,
        /// The charger's status byte. Zero means success.
        result: u8,
    },
    /// Answer to a firmware block write.
    WriteAck {
        /// Which processor the bootloader addressed.
        cpu: u8,
        /// Flash address the block begins at.
        start_address: u32,
        /// The charger's status byte. Zero means success.
        state: u8,
    },
    /// Answer to a firmware checksum.
    ChecksumAck {
        /// Which processor the bootloader addressed.
        cpu: u8,
        /// The charger's status byte. Zero means success.
        state: u8,
    },
    /// Measured per-cell internal resistance for one channel.
    InnerResistance(InnerResistance),
    /// Answer to a reboot. The charger restarts immediately and the link drops.
    RebootAck,
    /// A frame this library does not model, kept verbatim.
    Unknown {
        /// The command word the frame arrived under.
        command: u8,
        /// The payload bytes, exactly as received.
        data: Vec<u8>,
    },
}

// ---- the layouts, as mathematics ---------------------------------------------------

/// The little-endian 16 bit value at offset `i`.
pub open spec fn u16_at(b: Seq<u8>, i: int) -> u16 {
    (b[i] + 256 * b[i + 1]) as u16
}

/// The little-endian 32 bit value at offset `i`.
pub open spec fn u32_at(b: Seq<u8>, i: int) -> u32 {
    (b[i] + 256 * b[i + 1] + 65536 * b[i + 2] + 16777216 * b[i + 3]) as u32
}

/// True when the `k`-th 16 bit value of `vals` sits at `b[i + 2k]`, for every
/// element.
pub open spec fn u16s_at(vals: Seq<u16>, b: Seq<u8>, i: int) -> bool {
    forall|k: int| 0 <= k < vals.len() ==> #[trigger] vals[k] == u16_at(b, i + 2 * k)
}

/// True when the electrical frame body is the wide, sixteen cell form.
pub open spec fn electrical_wide(body: Seq<u8>) -> bool {
    body.len() + 1 >= 35
}

/// How many cells a BattGo state frame announces.
pub open spec fn battgo_cells(body: Seq<u8>) -> int {
    body[2] as int
}

/// True when `parse_body` finds everything it needs in `body`.
pub open spec fn body_fits(cmd: u8, body: Seq<u8>) -> bool {
    let n = body.len();
    if cmd == 0x01 || cmd == 0x0E || cmd == 0x19 || cmd == 0xC1 || cmd == 0xD1 || cmd == 0xD3
        || cmd == 0xF1 {
        n >= 1
    } else if cmd == 0x47 || cmd == 0xDD || cmd == 0xDF || cmd == 0xEB || cmd == 0xF3 || cmd
        == 0xF7 {
        n >= 2
    } else if cmd == 0x13 {
        n >= 6
    } else if cmd == 0x41 {
        n >= 35
    } else if cmd == 0x43 {
        n >= 41
    } else if cmd == 0x45 {
        n >= 3 && n >= 23 + 2 * battgo_cells(body)
    } else if cmd == 0x49 {
        n >= 10
    } else if cmd == 0xB1 {
        n >= 22
    } else if cmd == 0xBB {
        n >= 21
    } else if cmd == 0xBD {
        n >= 3
    } else if cmd == 0xBF {
        n >= 10
    } else if cmd == 0xD5 {
        n >= 9
    } else if cmd == 0xE1 {
        n >= 20
    } else if cmd == 0xE3 {
        n >= 16
    } else if cmd == 0xE5 {
        if electrical_wide(body) {
            n >= 49
        } else {
            n >= 29
        }
    } else if cmd == 0xE7 {
        n >= 34
    } else if cmd == 0xE9 {
        n >= 4
    } else if cmd == 0xF5 {
        n >= 6
    } else if cmd == 0xFB {
        n >= 17
    } else {
        cmd == 0xFD
    }
}

/// The little-endian 32 bit value at offset `i`, or a 16 bit one widened.
pub open spec fn volt_at(b: Seq<u8>, i: int, wide: bool) -> u32 {
    if wide {
        u32_at(b, i)
    } else {
        u16_at(b, i) as u32
    }
}

/// What `r` must be for a frame with command word `cmd` and body `b` that
/// fits its layout.
pub open spec fn parsed(cmd: u8, b: Seq<u8>, r: Response) -> bool {
    if cmd == 0x01 {
        r matches Response::Identity(v) && v.region == b[0] && v.payload@ == b.skip(1)
    } else if cmd == 0x0E {
        r matches Response::LineChart(v) && v.channel == b[0] && v.samples@.len() == (b.len() - 1)
            / 4 && forall|k: int|
            0 <= k < v.samples@.len() ==> (#[trigger] v.samples@[k])@ == seq![
                u16_at(b, 1 + 4 * k),
                u16_at(b, 3 + 4 * k),
            ]
    } else if cmd == 0x13 {
        r == Response::BleMode(
            BleMode { ble_mode: b[0], pair_mode: b[1], linking_period: u32_at(b, 2) },
        )
    } else if cmd == 0x19 {
        r == Response::Bind { bound: b[0] == 0 }
    } else if cmd == 0x41 {
        r matches Response::BattgoInfo(v) && v.channel == b[0] && v.link_state == b[1]
            && v.device_id@ == b.subrange(2, 10) && v.sub_device_id@ == b.subrange(10, 20)
            && v.sub_hardware_version == b[20] && v.main_hardware_version == b[21]
            && v.sub_software_version == b[22] && v.main_software_version == b[23]
            && v.work_seat_id == b[24] && v.client_id == u16_at(b, 25) && v.battery_id == u32_at(
            b,
            27,
        ) && v.manufactured == u32_at(b, 31)
    } else if cmd == 0x43 {
        r matches Response::BattgoOem(v) && v.channel == b[0] && v.link_state == b[1] && v.brand@
            == b.subrange(2, 18) && v.battery_type == b[18] && v.cell_count == b[19]
            && v.over_discharge_mv == u16_at(b, 20) && v.warning_mv == u16_at(b, 22) && v.store_mv
            == u16_at(b, 24) && v.full_charged_mv == u16_at(b, 26) && v.capacity_mah == u32_at(
            b,
            28,
        ) && v.charge_c == u16_at(b, 32) && v.discharge_c == u16_at(b, 34) && v.use_temp_min_c
            == b[36] as i8 && v.use_temp_max_c == b[37] as i8 && v.store_temp_min_c == b[38] as i8
            && v.store_temp_max_c == b[39] as i8 && v.auto_storage == (b[40] != 0)
    } else if cmd == 0x45 {
        let c = battgo_cells(b);
        let t = 3 + 2 * c;
        r matches Response::BattgoRealState(v) && v.channel == b[0] && v.link_state == b[1]
            && v.cell_mv@.len() == c && u16s_at(v.cell_mv@, b, 3) && v.temperature_c == b[t] as i8
            && v.discharging_current_ma == u32_at(b, t + 1) && v.charging_current_ma == u32_at(
            b,
            t + 5,
        ) && v.cycle_count == u16_at(b, t + 9) && v.fault_count == u16_at(b, t + 11)
            && v.over_temperature_count == u16_at(b, t + 13) && v.over_voltage_count == u16_at(
            b,
            t + 15,
        ) && v.under_voltage_count == u16_at(b, t + 17) && v.firmware_crash_count == b[t + 19]
    } else if cmd == 0x47 {
        r == Response::BattgoWriteAck { channel: b[0], state: b[1] }
    } else if cmd == 0x49 {
        r == Response::BattgoParameters(
            BattgoParameters {
                channel: b[0],
                charging_current_ma: u32_at(b, 1),
                store_mv: u16_at(b, 5),
                full_charged_mv: u16_at(b, 7),
                self_discharging_days: b[9],
            },
        )
    } else if cmd == 0xB1 {
        r matches Response::SampleData(v) && u16s_at(v.cell_mv@, b, 0) && v.input_mv == u16_at(
            b,
            16,
        ) && v.output_mv == u16_at(b, 18) && v.output_ma == u16_at(b, 20)
    } else if cmd == 0xBB {
        r == Response::SmartPowerInfo(
            SmartPowerInfo {
                common_power: b[0] == 0,
                power_type: power_type_from_code(b[1]),
                max_power_w: u16_at(b, 2),
                input_ac_v: u16_at(b, 4),
                temperature_c: b[6] as i8,
                warning_flags: b[7],
                error_flags: b[8],
                min_output_dv: u16_at(b, 9),
                max_output_dv: u16_at(b, 11),
                min_output_current_raw: u16_at(b, 13),
                max_output_current_raw: u16_at(b, 15),
                output_dv: u16_at(b, 17),
                output_current_raw: u16_at(b, 19),
            },
        )
    } else if cmd == 0xBD {
        r == Response::SmartPowerSettingAck { setting: b[0], value: u16_at(b, 1) }
    } else if cmd == 0xBF {
        r == Response::SmartPowerParameters(
            SmartPowerParameters {
                common_power: b[0] == 0,
                power_type: power_type_from_code(b[1]),
                working_seconds: u32_at(b, 2),
                working_current_raw: u16_at(b, 6),
                working_voltage_dv: u16_at(b, 8),
            },
        )
    } else if cmd == 0xC1 {
        r == Response::NameAck { state: b[0] }
    } else if cmd == 0xD1 {
        r == Response::LimitParametersAck { state: b[0] }
    } else if cmd == 0xD3 {
        r == Response::OneKeyLaunchAck { state: b[0] }
    } else if cmd == 0xD5 {
        r == Response::OneKeyLaunch(
            OneKeyLaunch {
                enabled: b[0] != 0,
                battery_type: b[1],
                cell_count: b[2],
                full_charged_mv: u16_at(b, 3),
                work_current_ma: u32_at(b, 5),
            },
        )
    } else if cmd == 0xDD {
        r == Response::Calibrate8Ack { channel: b[0], state: b[1] }
    } else if cmd == 0xDF {
        r == Response::Calibrate6Ack { channel: b[0], state: b[1] }
    } else if cmd == 0xE1 {
        r matches Response::HardwareInfo(v) && v.device_id@ == b.subrange(0, 8)
            && v.hardware_version@ == b.subrange(8, 12) && v.bootloader_version@ == b.subrange(
            12,
            16,
        ) && v.firmware_version@ == b.subrange(16, 20) && (b.len() >= 30 <==> v.device_name is Some)
            && (v.device_name matches Some(nm) ==> nm@ == b.subrange(20, 30)) && (b.len() >= 38
            <==> v.part_number is Some) && (v.part_number matches Some(p) ==> p@ == b.subrange(
            30,
            38,
        ))
    } else if cmd == 0xE3 {
        r == Response::LimitParameters(
            LimitParameters {
                max_input_power_mw: u32_at(b, 0),
                max_output_power_mw: u32_at(b, 4),
                max_input_current_ma: u32_at(b, 8),
                max_output_current_ma: u32_at(b, 12),
            },
        )
    } else if cmd == 0xE5 {
        let w = electrical_wide(b);
        let cells_at = if w {
            17
        } else {
            13
        };
        r matches Response::Electrical(v) && v.channel == b[0] && v.input_mv == volt_at(b, 1, w)
            && v.input_ma == u32_at(b, if w {
            5
        } else {
            3
        }) && v.output_mv == volt_at(b, if w {
            9
        } else {
            7
        }, w) && v.current_ma == u32_at(b, if w {
            13
        } else {
            9
        }) && v.cell_mv@.len() == (if w {
            16int
        } else {
            8int
        }) && u16s_at(v.cell_mv@, b, cells_at)
    } else if cmd == 0xE7 {
        r matches Response::WorkState(v) && v.channel == b[0] && v.state
            == charger_state_from_code(b[1]) && v.capacity_percent == b[2] && v.capacity_done_mah
            == u32_at(b, 3) && v.energy_done_mwh == u32_at(b, 7) && v.work_period_ms == u32_at(
            b,
            11,
        ) && v.battery_type == battery_from_code(b[15]) && v.cell_count == b[16] && v.link_type
            == b[17] && v.full_charged_mv == u16_at(b, 18) && v.work_current_ma == u32_at(b, 20)
            && v.batteries_total == u16_at(b, 24) && v.batteries_done == u16_at(b, 26)
            && v.min_input_mv == u16_at(b, 28) && v.max_output_power_mw == u32_at(b, 30)
            && v.errors == (if b.len() >= 36 {
            Some(ErrorFlags(u16_at(b, 34)))
        } else {
            None
        })
    } else if cmd == 0xE9 {
        r == Response::Temperature(
            Temperature {
                channel: b[0],
                device_c: b[1] as i8,
                battery_c: b[2] as i8,
                fan_raw: b[3],
            },
        )
    } else if cmd == 0xEB {
        r == Response::TaskAck { channel: b[0], error_code: b[1] }
    } else if cmd == 0xF1 {
        r == Response::BootloaderAck { state: b[0] }
    } else if cmd == 0xF3 {
        r == Response::EraseAck { cpu: b[0], result: b[1] }
    } else if cmd == 0xF5 {
        r == Response::WriteAck { cpu: b[0], start_address: u32_at(b, 1), state: b[5] }
    } else if cmd == 0xF7 {
        r == Response::ChecksumAck { cpu: b[0], state: b[1] }
    } else if cmd == 0xFB {
        r matches Response::InnerResistance(v) && v.channel == b[0] && u16s_at(v.raw@, b, 1)
    } else {
        r == Response::RebootAck
    }
}

/// What [`Response::parse`] gives for a frame `DATA` field: nothing for an
/// empty one; the modelled packet when the command word is known and the
/// body holds its layout; otherwise the bytes, verbatim.
pub open spec fn parse_result(data: Seq<u8>, r: Option<Response>) -> bool {
    if data.len() == 0 {
        r is None
    } else {
        let cmd = data[0];
        let body = data.skip(1);
        r matches Some(v) && if body_fits(cmd, body) {
            parsed(cmd, body, v)
        } else {
            v matches Response::Unknown { command, data: d } && command == cmd && d@ == body
        }
    }
}

/// The command word a response arrived under.
pub open spec fn response_word(r: Response) -> u8 {
    match r {
        Response::Identity(_) => 0x01,
        Response::LineChart(_) => 0x0E,
        Response::BleMode(_) => 0x13,
        Response::Bind { .. } => 0x19,
        Response::BattgoInfo(_) => 0x41,
        Response::BattgoOem(_) => 0x43,
        Response::BattgoRealState(_) => 0x45,
        Response::BattgoWriteAck { .. } => 0x47,
        Response::BattgoParameters(_) => 0x49,
        Response::SampleData(_) => 0xB1,
        Response::SmartPowerInfo(_) => 0xBB,
        Response::SmartPowerSettingAck { .. } => 0xBD,
        Response::SmartPowerParameters(_) => 0xBF,
        Response::NameAck { .. } => 0xC1,
        Response::LimitParametersAck { .. } => 0xD1,
        Response::OneKeyLaunchAck { .. } => 0xD3,
        Response::OneKeyLaunch(_) => 0xD5,
        Response::Calibrate8Ack { .. } => 0xDD,
        Response::Calibrate6Ack { .. } => 0xDF,
        Response::HardwareInfo(_) => 0xE1,
        Response::LimitParameters(_) => 0xE3,
        Response::Electrical(_) => 0xE5,
        Response::WorkState(_) => 0xE7,
        Response::Temperature(_) => 0xE9,
        Response::TaskAck { .. } => 0xEB,
        Response::BootloaderAck { .. } => 0xF1,
        Response::EraseAck { .. } => 0xF3,
        Response::WriteAck { .. } => 0xF5,
        Response::ChecksumAck { .. } => 0xF7,
        Response::InnerResistance(_) => 0xFB,
        Response::RebootAck => 0xFD,
        Response::Unknown { command, .. } => command,
    }
}

/// The channel a response describes, for the packets that name one.
pub open spec fn response_channel(r: Response) -> Option<u8> {
    match r {
        Response::Electrical(e) => Some(e.channel),
        Response::WorkState(w) => Some(w.channel),
        Response::Temperature(t) => Some(t.channel),
        Response::InnerResistance(ir) => Some(ir.channel),
        Response::TaskAck { channel, .. } => Some(channel),
        Response::LineChart(c) => Some(c.channel),
        Response::BattgoInfo(b) => Some(b.channel),
        Response::BattgoOem(b) => Some(b.channel),
        Response::BattgoRealState(b) => Some(b.channel),
        Response::BattgoParameters(b) => Some(b.channel),
        Response::BattgoWriteAck { channel, .. } => Some(channel),
        Response::Calibrate6Ack { channel, .. } => Some(channel),
        Response::Calibrate8Ack { channel, .. } => Some(channel),
        _ => None,
    }
}

// ---- the cursor -----------------------------------------------------------------------

/// Little-endian cursor that yields `None` instead of panicking at the end of
/// the buffer, so a truncated frame degrades rather than crashes.
pub struct Reader<'a> {
    bytes: &'a [u8],
    pos: usize,
}

impl<'a> Reader<'a> {
    /// The bytes being read.
    pub closed spec fn data(&self) -> Seq<u8> {
        self.bytes@
    }

    /// How far the cursor has read.
    pub closed spec fn at(&self) -> int {
        self.pos as int
    }

    /// The cursor never passes the end of its bytes.
    #[verifier::type_invariant]
    spec fn within(&self) -> bool {
        self.pos <= self.bytes@.len()
    }

    /// A cursor at the start of `bytes`.
    pub fn new(bytes: &'a [u8]) -> (r: Self)
        ensures
            r.data() == bytes@,
            r.at() == 0,
            r.at() <= r.data().len(),
    {
        Self { bytes, pos: 0 }
    }

    /// Bytes left to read.
    pub fn remaining(&self) -> (r: usize)
        ensures
            r == self.data().len() - self.at(),
    {
        proof {
            use_type_invariant(self);
        }
        self.bytes.len().saturating_sub(self.pos)
    }

    /// The next `n` bytes, or `None` with the cursor unmoved when fewer remain.
    pub fn take(&mut self, n: usize) -> (r: Option<&'a [u8]>)
        ensures
            final(self).data() == old(self).data(),
            final(self).at() <= final(self).data().len(),
            old(self).at() + n <= old(self).data().len() ==> (r matches Some(s) && s@
                == old(self).data().subrange(old(self).at(), old(self).at() + n) && final(self).at()
                == old(self).at() + n),
            old(self).at() + n > old(self).data().len() ==> (r is None && final(self).at() == old(
                self,
            ).at()),
    {
        proof {
            use_type_invariant(&*self);
        }
        let len = self.bytes.len();
        let end = match self.pos.checked_add(n) {
            Some(end) => end,
            None => return None,
        };
        if end > len {
            return None;
        }
        let slice = &self.bytes[self.pos..end];
        self.pos = end;
        Some(slice)
    }

    /// The next byte.
    pub fn u8(&mut self) -> (r: Option<u8>)
        ensures
            final(self).data() == old(self).data(),
            final(self).at() <= final(self).data().len(),
            old(self).at() + 1 <= old(self).data().len() ==> (r == Some(
                old(self).data()[old(self).at()],
            ) && final(self).at() == old(self).at() + 1),
            old(self).at() + 1 > old(self).data().len() ==> (r is None && final(self).at() == old(
                self,
            ).at()),
    {
        let s = self.take(1)?;
        Some(s[0])
    }

    /// The next byte, read as signed.
    pub fn i8(&mut self) -> (r: Option<i8>)
        ensures
            final(self).data() == old(self).data(),
            final(self).at() <= final(self).data().len(),
            old(self).at() + 1 <= old(self).data().len() ==> (r == Some(
                old(self).data()[old(self).at()] as i8,
            ) && final(self).at() == old(self).at() + 1),
            old(self).at() + 1 > old(self).data().len() ==> (r is None && final(self).at() == old(
                self,
            ).at()),
    {
        let b = self.u8()?;
        Some(b as i8)
    }

    /// The next two bytes, little endian.
    pub fn u16(&mut self) -> (r: Option<u16>)
        ensures
            final(self).data() == old(self).data(),
            final(self).at() <= final(self).data().len(),
            old(self).at() + 2 <= old(self).data().len() ==> (r == Some(
                u16_at(old(self).data(), old(self).at()),
            ) && final(self).at() == old(self).at() + 2),
            old(self).at() + 2 > old(self).data().len() ==> (r is None && final(self).at() == old(
                self,
            ).at()),
    {
        let s = self.take(2)?;
        Some(s[0] as u16 + (s[1] as u16) * 256)
    }

    /// The next four bytes, little endian.
    pub fn u32(&mut self) -> (r: Option<u32>)
        ensures
            final(self).data() == old(self).data(),
            final(self).at() <= final(self).data().len(),
            old(self).at() + 4 <= old(self).data().len() ==> (r == Some(
                u32_at(old(self).data(), old(self).at()),
            ) && final(self).at() == old(self).at() + 4),
            old(self).at() + 4 > old(self).data().len() ==> (r is None && final(self).at() == old(
                self,
            ).at()),
    {
        let s = self.take(4)?;
        Some(
            s[0] as u32 + (s[1] as u32) * 256 + (s[2] as u32) * 65536 + (s[3] as u32) * 16777216,
        )
    }

    /// The next `N` bytes, as an array.
    pub fn array<const N: usize>(&mut self) -> (r: Option<[u8; N]>)
        ensures
            final(self).data() == old(self).data(),
            final(self).at() <= final(self).data().len(),
            old(self).at() + N <= old(self).data().len() ==> (r matches Some(a) && a@ == old(
                self,
            ).data().subrange(old(self).at(), old(self).at() + N) && final(self).at() == old(
                self,
            ).at() + N),
            old(self).at() + N > old(self).data().len() ==> (r is None && final(self).at() == old(
                self,
            ).at()),
    {
        let s = self.take(N)?;
        let mut a = [0u8; N];
        let mut i: usize = 0;
        while i < N
            invariant
                i <= N,
                s@.len() == N,
                a@.len() == N,
                forall|j: int| 0 <= j < i ==> a@[j] == s@[j],
            decreases N - i,
        {
            a[i] = s[i];
            i = i + 1;
        }
        assert(a@ == s@);
        Some(a)
    }
}

// ---- parsing ----------------------------------------------------------------------------

impl Response {
    /// Decodes a frame `DATA` field.
    ///
    /// An empty slice yields `None`. A command word the library does not model,
    /// or a frame too short for its layout, yields [`Response::Unknown`] so the
    /// bytes survive for inspection.
    pub fn parse(data: &[u8]) -> (r: Option<Self>)
        ensures
            parse_result(data@, r),
    {
        if data.len() == 0 {
            return None;
        }
        let command = data[0];
        let body = &data[1..data.len()];
        assert(body@ == data@.skip(1));
        match Self::parse_body(command, body) {
            Some(r) => Some(r),
            None => {
                let mut copy: Vec<u8> = Vec::new();
                let mut i: usize = 0;
                while i < body.len()
                    invariant
                        i <= body@.len(),
                        copy@ == body@.take(i as int),
                    decreases body@.len() - i,
                {
                    copy.push(body[i]);
                    assert(body@.take(i + 1) == body@.take(i as int).push(body@[i as int]));
                    i = i + 1;
                }
                assert(body@.take(body@.len() as int) == body@);
                Some(Response::Unknown { command, data: copy })
            },
        }
    }

    /// Decodes the body of a frame whose command word is `command`, or
    /// `None` when the word is not modelled or the body is too short.
    pub fn parse_body(command: u8, body: &[u8]) -> (r: Option<Self>)
        ensures
            r is Some <==> body_fits(command, body@),
            r matches Some(v) ==> parsed(command, body@, v),
    {
        let b = Ghost(body@);
        let mut r = Reader::new(body);
        match command {
            0x01 => {
                let region = r.u8()?;
                let mut payload: Vec<u8> = Vec::new();
                let mut i: usize = 1;
                while i < body.len()
                    invariant
                        1 <= i <= body@.len(),
                        payload@ == body@.subrange(1, i as int),
                    decreases body@.len() - i,
                {
                    payload.push(body[i]);
                    assert(body@.subrange(1, i + 1) == body@.subrange(1, i as int).push(
                        body@[i as int],
                    ));
                    i = i + 1;
                }
                assert(body@.subrange(1, body@.len() as int) == body@.skip(1));
                Some(Response::Identity(Identity { region, payload }))
            },
            0x0E => {
                let channel = r.u8()?;
                let mut samples: Vec<[u16; 2]> = Vec::new();
                while r.remaining() >= 4
                    invariant
                        r.data() == body@,
                        1 <= r.at() <= body@.len(),
                        r.at() == 1 + 4 * samples@.len(),
                        forall|k: int|
                            0 <= k < samples@.len() ==> (#[trigger] samples@[k])@ == seq![
                                u16_at(body@, 1 + 4 * k),
                                u16_at(body@, 3 + 4 * k),
                            ],
                    decreases body@.len() - r.at(),
                {
                    let first = r.u16().unwrap();
                    let second = r.u16().unwrap();
                    let pair = [first, second];
                    assert(pair@ == seq![first, second]);
                    samples.push(pair);
                }
                assert(samples@.len() == (body@.len() - 1) / 4);
                Some(Response::LineChart(LineChart { channel, samples }))
            },
            0x13 => {
                let ble_mode = r.u8()?;
                let pair_mode = r.u8()?;
                let linking_period = r.u32()?;
                Some(Response::BleMode(BleMode { ble_mode, pair_mode, linking_period }))
            },
            0x19 => {
                let state = r.u8()?;
                Some(Response::Bind { bound: state == 0 })
            },
            0x41 => {
                let channel = r.u8()?;
                let link_state = r.u8()?;
                let device_id = r.array::<8>()?;
                let sub_device_id = r.array::<10>()?;
                let sub_hardware_version = r.u8()?;
                let main_hardware_version = r.u8()?;
                let sub_software_version = r.u8()?;
                let main_software_version = r.u8()?;
                let work_seat_id = r.u8()?;
                let client_id = r.u16()?;
                let battery_id = r.u32()?;
                let manufactured = r.u32()?;
                Some(
                    Response::BattgoInfo(
                        BattgoInfo {
                            channel,
                            link_state,
                            device_id,
                            sub_device_id,
                            sub_hardware_version,
                            main_hardware_version,
                            sub_software_version,
                            main_software_version,
                            work_seat_id,
                            client_id,
                            battery_id,
                            manufactured,
                        },
                    ),
                )
            },
            0x43 => {
                let channel = r.u8()?;
                let link_state = r.u8()?;
                let brand = r.array::<16>()?;
                let battery_type = r.u8()?;
                let cell_count = r.u8()?;
                let over_discharge_mv = r.u16()?;
                let warning_mv = r.u16()?;
                let store_mv = r.u16()?;
                let full_charged_mv = r.u16()?;
                let capacity_mah = r.u32()?;
                let charge_c = r.u16()?;
                let discharge_c = r.u16()?;
                let use_temp_min_c = r.i8()?;
                let use_temp_max_c = r.i8()?;
                let store_temp_min_c = r.i8()?;
                let store_temp_max_c = r.i8()?;
                let auto_storage = r.u8()? != 0;
                Some(
                    Response::BattgoOem(
                        BattgoOem {
                            channel,
                            link_state,
                            brand,
                            battery_type,
                            cell_count,
                            over_discharge_mv,
                            warning_mv,
                            store_mv,
                            full_charged_mv,
                            capacity_mah,
                            charge_c,
                            discharge_c,
                            use_temp_min_c,
                            use_temp_max_c,
                            store_temp_min_c,
                            store_temp_max_c,
                            auto_storage,
                        },
                    ),
                )
            },
            0x45 => Self::parse_battgo_state(body),
            0x47 => {
                let channel = r.u8()?;
                let state = r.u8()?;
                Some(Response::BattgoWriteAck { channel, state })
            },
            0x49 => {
                let channel = r.u8()?;
                let charging_current_ma = r.u32()?;
                let store_mv = r.u16()?;
                let full_charged_mv = r.u16()?;
                let self_discharging_days = r.u8()?;
                Some(
                    Response::BattgoParameters(
                        BattgoParameters {
                            channel,
                            charging_current_ma,
                            store_mv,
                            full_charged_mv,
                            self_discharging_days,
                        },
                    ),
                )
            },
            0xB1 => {
                let cell_mv = Self::read_u16s::<8>(&mut r)?;
                let input_mv = r.u16()?;
                let output_mv = r.u16()?;
                let output_ma = r.u16()?;
                Some(Response::SampleData(SampleData { cell_mv, input_mv, output_mv, output_ma }))
            },
            0xBB => {
                let common = r.u8()?;
                let power = r.u8()?;
                let max_power_w = r.u16()?;
                let input_ac_v = r.u16()?;
                let temperature_c = r.i8()?;
                let warning_flags = r.u8()?;
                let error_flags = r.u8()?;
                let min_output_dv = r.u16()?;
                let max_output_dv = r.u16()?;
                let min_output_current_raw = r.u16()?;
                let max_output_current_raw = r.u16()?;
                let output_dv = r.u16()?;
                let output_current_raw = r.u16()?;
                Some(
                    Response::SmartPowerInfo(
                        SmartPowerInfo {
                            common_power: common == 0,
                            power_type: PowerType::from_code(power),
                            max_power_w,
                            input_ac_v,
                            temperature_c,
                            warning_flags,
                            error_flags,
                            min_output_dv,
                            max_output_dv,
                            min_output_current_raw,
                            max_output_current_raw,
                            output_dv,
                            output_current_raw,
                        },
                    ),
                )
            },
            0xBD => {
                let setting = r.u8()?;
                let value = r.u16()?;
                Some(Response::SmartPowerSettingAck { setting, value })
            },
            0xBF => {
                let common = r.u8()?;
                let power = r.u8()?;
                let working_seconds = r.u32()?;
                let working_current_raw = r.u16()?;
                let working_voltage_dv = r.u16()?;
                Some(
                    Response::SmartPowerParameters(
                        SmartPowerParameters {
                            common_power: common == 0,
                            power_type: PowerType::from_code(power),
                            working_seconds,
                            working_current_raw,
                            working_voltage_dv,
                        },
                    ),
                )
            },
            0xC1 => {
                let state = r.u8()?;
                Some(Response::NameAck { state })
            },
            0xD1 => {
                let state = r.u8()?;
                Some(Response::LimitParametersAck { state })
            },
            0xD3 => {
                let state = r.u8()?;
                Some(Response::OneKeyLaunchAck { state })
            },
            0xD5 => {
                let enabled = r.u8()? != 0;
                let battery_type = r.u8()?;
                let cell_count = r.u8()?;
                let full_charged_mv = r.u16()?;
                let work_current_ma = r.u32()?;
                Some(
                    Response::OneKeyLaunch(
                        OneKeyLaunch {
                            enabled,
                            battery_type,
                            cell_count,
                            full_charged_mv,
                            work_current_ma,
                        },
                    ),
                )
            },
            0xDD => {
                let channel = r.u8()?;
                let state = r.u8()?;
                Some(Response::Calibrate8Ack { channel, state })
            },
            0xDF => {
                let channel = r.u8()?;
                let state = r.u8()?;
                Some(Response::Calibrate6Ack { channel, state })
            },
            0xE1 => {
                let device_id = r.array::<8>()?;
                let hardware_version = r.array::<4>()?;
                let bootloader_version = r.array::<4>()?;
                let firmware_version = r.array::<4>()?;
                // Older firmware ends the frame here.
                let device_name = r.array::<10>();
                let part_number = match device_name {
                    Some(_) => r.array::<8>(),
                    None => None,
                };
                Some(
                    Response::HardwareInfo(
                        Box::new(
                            HardwareInfo {
                                device_id,
                                hardware_version,
                                bootloader_version,
                                firmware_version,
                                device_name,
                                part_number,
                            },
                        ),
                    ),
                )
            },
            0xE3 => {
                let max_input_power_mw = r.u32()?;
                let max_output_power_mw = r.u32()?;
                let max_input_current_ma = r.u32()?;
                let max_output_current_ma = r.u32()?;
                Some(
                    Response::LimitParameters(
                        LimitParameters {
                            max_input_power_mw,
                            max_output_power_mw,
                            max_input_current_ma,
                            max_output_current_ma,
                        },
                    ),
                )
            },
            0xE5 => Self::parse_electrical(body),
            0xE7 => {
                let channel = r.u8()?;
                let state = r.u8()?;
                let capacity_percent = r.u8()?;
                let capacity_done_mah = r.u32()?;
                let energy_done_mwh = r.u32()?;
                let work_period_ms = r.u32()?;
                let battery = r.u8()?;
                let cell_count = r.u8()?;
                let link_type = r.u8()?;
                let full_charged_mv = r.u16()?;
                let work_current_ma = r.u32()?;
                let batteries_total = r.u16()?;
                let batteries_done = r.u16()?;
                let min_input_mv = r.u16()?;
                let max_output_power_mw = r.u32()?;
                // Older firmware ends the frame before the fault mask.
                let errors = match r.u16() {
                    Some(mask) => Some(ErrorFlags(mask)),
                    None => None,
                };
                Some(
                    Response::WorkState(
                        Box::new(
                            WorkState {
                                channel,
                                state: ChargerState::from_code(state),
                                capacity_percent,
                                capacity_done_mah,
                                energy_done_mwh,
                                work_period_ms,
                                battery_type: BatteryKind::from_code(battery),
                                cell_count,
                                link_type,
                                full_charged_mv,
                                work_current_ma,
                                batteries_total,
                                batteries_done,
                                min_input_mv,
                                max_output_power_mw,
                                errors,
                            },
                        ),
                    ),
                )
            },
            0xE9 => {
                let channel = r.u8()?;
                let device_c = r.i8()?;
                let battery_c = r.i8()?;
                let fan_raw = r.u8()?;
                Some(Response::Temperature(Temperature { channel, device_c, battery_c, fan_raw }))
            },
            0xEB => {
                let channel = r.u8()?;
                let error_code = r.u8()?;
                Some(Response::TaskAck { channel, error_code })
            },
            0xF1 => {
                let state = r.u8()?;
                Some(Response::BootloaderAck { state })
            },
            0xF3 => {
                let cpu = r.u8()?;
                let result = r.u8()?;
                Some(Response::EraseAck { cpu, result })
            },
            0xF5 => {
                let cpu = r.u8()?;
                let start_address = r.u32()?;
                let state = r.u8()?;
                Some(Response::WriteAck { cpu, start_address, state })
            },
            0xF7 => {
                let cpu = r.u8()?;
                let state = r.u8()?;
                Some(Response::ChecksumAck { cpu, state })
            },
            0xFB => {
                let channel = r.u8()?;
                let raw = Self::read_u16s::<8>(&mut r)?;
                Some(Response::InnerResistance(InnerResistance { channel, raw }))
            },
            0xFD => Some(Response::RebootAck),
            _ => None,
        }
    }

    /// `N` consecutive 16 bit values.
    fn read_u16s<const N: usize>(r: &mut Reader) -> (out: Option<[u16; N]>)
        ensures
            final(r).data() == old(r).data(),
            final(r).at() <= final(r).data().len(),
            old(r).at() + 2 * N <= old(r).data().len() ==> (out matches Some(a) && u16s_at(
                a@,
                old(r).data(),
                old(r).at(),
            ) && a@.len() == N && final(r).at() == old(r).at() + 2 * N),
            old(r).at() + 2 * N > old(r).data().len() ==> out is None,
    {
        proof {
            use_type_invariant(&*r);
        }
        let mut a = [0u16; N];
        let mut i: usize = 0;
        let ghost start = r.at();
        while i < N
            invariant
                i <= N,
                a@.len() == N,
                r.data() == old(r).data(),
                start == old(r).at(),
                r.at() == start + 2 * i,
                r.at() <= r.data().len(),
                forall|k: int| 0 <= k < i ==> #[trigger] a@[k] == u16_at(r.data(), start + 2 * k),
            decreases N - i,
        {
            let v = r.u16()?;
            a[i] = v;
            i = i + 1;
        }
        Some(a)
    }

    /// `n` consecutive 16 bit values.
    fn read_u16_vec(r: &mut Reader, n: usize) -> (out: Option<Vec<u16>>)
        ensures
            final(r).data() == old(r).data(),
            final(r).at() <= final(r).data().len(),
            old(r).at() + 2 * n <= old(r).data().len() ==> (out matches Some(v) && u16s_at(
                v@,
                old(r).data(),
                old(r).at(),
            ) && v@.len() == n && final(r).at() == old(r).at() + 2 * n),
            old(r).at() + 2 * n > old(r).data().len() ==> out is None,
    {
        proof {
            use_type_invariant(&*r);
        }
        let mut v: Vec<u16> = Vec::new();
        let mut i: usize = 0;
        let ghost start = r.at();
        while i < n
            invariant
                i <= n,
                v@.len() == i,
                r.data() == old(r).data(),
                start == old(r).at(),
                r.at() == start + 2 * i,
                r.at() <= r.data().len(),
                forall|k: int| 0 <= k < i ==> #[trigger] v@[k] == u16_at(r.data(), start + 2 * k),
            decreases n - i,
        {
            let x = r.u16()?;
            v.push(x);
            i = i + 1;
        }
        Some(v)
    }

    fn parse_battgo_state(body: &[u8]) -> (r: Option<Self>)
        ensures
            r is Some <==> body_fits(0x45, body@),
            r matches Some(v) ==> parsed(0x45, body@, v),
    {
        let mut r = Reader::new(body);
        let channel = r.u8()?;
        let link_state = r.u8()?;
        let cells = r.u8()?;
        let cell_mv = Self::read_u16_vec(&mut r, cells as usize)?;
        let temperature_c = r.i8()?;
        let discharging_current_ma = r.u32()?;
        let charging_current_ma = r.u32()?;
        let cycle_count = r.u16()?;
        let fault_count = r.u16()?;
        let over_temperature_count = r.u16()?;
        let over_voltage_count = r.u16()?;
        let under_voltage_count = r.u16()?;
        let firmware_crash_count = r.u8()?;
        Some(
            Response::BattgoRealState(
                BattgoRealState {
                    channel,
                    link_state,
                    cell_mv,
                    temperature_c,
                    discharging_current_ma,
                    charging_current_ma,
                    cycle_count,
                    fault_count,
                    over_temperature_count,
                    over_voltage_count,
                    under_voltage_count,
                    firmware_crash_count,
                },
            ),
        )
    }

    // The app switches layout on the frame length, counting the command
    // word: 35 bytes and up is the wide, sixteen cell form.
    fn parse_electrical(body: &[u8]) -> (r: Option<Self>)
        ensures
            r is Some <==> body_fits(0xE5, body@),
            r matches Some(v) ==> parsed(0xE5, body@, v),
    {
        let wide = body.len() >= 34;
        let mut r = Reader::new(body);
        let channel = r.u8()?;
        let input_mv = if wide {
            r.u32()?
        } else {
            r.u16()? as u32
        };
        let input_ma = r.u32()?;
        let output_mv = if wide {
            r.u32()?
        } else {
            r.u16()? as u32
        };
        let current_ma = r.u32()?;
        let cells: usize = if wide {
            16
        } else {
            8
        };
        let cell_mv = Self::read_u16_vec(&mut r, cells)?;
        Some(
            Response::Electrical(
                Electrical { channel, input_mv, input_ma, output_mv, current_ma, cell_mv },
            ),
        )
    }

    /// The command word this response arrived under.
    pub fn command_word(&self) -> (r: u8)
        ensures
            r == response_word(*self),
    {
        match self {
            Response::Identity(_) => 0x01,
            Response::LineChart(_) => 0x0E,
            Response::BleMode(_) => 0x13,
            Response::Bind { .. } => 0x19,
            Response::BattgoInfo(_) => 0x41,
            Response::BattgoOem(_) => 0x43,
            Response::BattgoRealState(_) => 0x45,
            Response::BattgoWriteAck { .. } => 0x47,
            Response::BattgoParameters(_) => 0x49,
            Response::SampleData(_) => 0xB1,
            Response::SmartPowerInfo(_) => 0xBB,
            Response::SmartPowerSettingAck { .. } => 0xBD,
            Response::SmartPowerParameters(_) => 0xBF,
            Response::NameAck { .. } => 0xC1,
            Response::LimitParametersAck { .. } => 0xD1,
            Response::OneKeyLaunchAck { .. } => 0xD3,
            Response::OneKeyLaunch(_) => 0xD5,
            Response::Calibrate8Ack { .. } => 0xDD,
            Response::Calibrate6Ack { .. } => 0xDF,
            Response::HardwareInfo(_) => 0xE1,
            Response::LimitParameters(_) => 0xE3,
            Response::Electrical(_) => 0xE5,
            Response::WorkState(_) => 0xE7,
            Response::Temperature(_) => 0xE9,
            Response::TaskAck { .. } => 0xEB,
            Response::BootloaderAck { .. } => 0xF1,
            Response::EraseAck { .. } => 0xF3,
            Response::WriteAck { .. } => 0xF5,
            Response::ChecksumAck { .. } => 0xF7,
            Response::InnerResistance(_) => 0xFB,
            Response::RebootAck => 0xFD,
            Response::Unknown { command, .. } => *command,
        }
    }

    /// The channel this response describes, for frames that name one.
    pub fn channel(&self) -> (r: Option<u8>)
        ensures
            r == response_channel(*self),
    {
        match self {
            Response::Electrical(e) => Some(e.channel),
            Response::WorkState(w) => Some(w.channel),
            Response::Temperature(t) => Some(t.channel),
            Response::InnerResistance(ir) => Some(ir.channel),
            Response::TaskAck { channel, .. } => Some(*channel),
            Response::LineChart(c) => Some(c.channel),
            Response::BattgoInfo(b) => Some(b.channel),
            Response::BattgoOem(b) => Some(b.channel),
            Response::BattgoRealState(b) => Some(b.channel),
            Response::BattgoParameters(b) => Some(b.channel),
            Response::BattgoWriteAck { channel, .. } => Some(*channel),
            Response::Calibrate6Ack { channel, .. } => Some(*channel),
            Response::Calibrate8Ack { channel, .. } => Some(*channel),
            _ => None,
        }
    }
}

// ---- accessors ----------------------------------------------------------------------

/// The index of the first zero byte of `b`, or its length.
pub open spec fn nul_index(b: Seq<u8>) -> nat
    decreases b.len(),
{
    if b.len() == 0 {
        0
    } else if b[0] == 0 {
        0
    } else {
        1 + nul_index(b.drop_first())
    }
}

/// How `String::from_utf8_lossy` decodes `b`: as UTF-8, with each invalid
/// sequence replaced by U+FFFD.
pub uninterp spec fn utf8_lossy(b: Seq<u8>) -> Seq<char>;

/// Decodes bytes as UTF-8, replacing invalid sequences.
///
/// Calls `String::from_utf8_lossy`. Its result is named by [`utf8_lossy`];
/// the contract adds what the standard library documents for valid input:
/// the string is the bytes decoded. Where the replacement characters go for
/// invalid input is left unsaid.
#[verifier::external_body]
fn lossy_string(b: &[u8]) -> (r: String)
    ensures
        r@ == utf8_lossy(b@),
        vstd::utf8::valid_utf8(b@) ==> r@ == vstd::utf8::decode_utf8(b@),
{
    String::from_utf8_lossy(b).into_owned()
}

/// A byte string up to its first NUL, as printable text with surrounding
/// whitespace removed.
pub open spec fn trim_ascii_spec(b: Seq<u8>) -> Seq<char> {
    crate::text::trim(utf8_lossy(before_nul(b)))
}

/// The bytes before the first NUL, or all of them where there is none.
pub open spec fn before_nul(b: Seq<u8>) -> Seq<u8> {
    b.take(nul_index(b) as int)
}

/// The text a valid UTF-8 byte string spells, surrounding whitespace removed.
pub open spec fn trimmed_text(b: Seq<u8>) -> Seq<char> {
    crate::text::trim(vstd::utf8::decode_utf8(b))
}

fn find_nul(b: &[u8]) -> (r: usize)
    ensures
        r == nul_index(b@),
{
    let mut i: usize = 0;
    assert(b@.skip(0) == b@);
    while i < b.len() && b[i] != 0
        invariant
            i <= b@.len(),
            nul_index(b@) == i + nul_index(b@.skip(i as int)),
        decreases b@.len() - i,
    {
        assert(b@.skip(i as int).drop_first() == b@.skip(i + 1));
        assert(b@.skip(i as int)[0] == b@[i as int]);
        i = i + 1;
    }
    proof {
        if i < b.len() {
            assert(b@.skip(i as int)[0] == b@[i as int]);
        }
    }
    i
}

/// Reads a byte string up to its first NUL, as printable text.
pub fn trim_ascii(bytes: &[u8]) -> (r: String)
    ensures
        r@ == trim_ascii_spec(bytes@),
        vstd::utf8::valid_utf8(before_nul(bytes@)) ==> r@ == trimmed_text(before_nul(bytes@)),
{
    let end = find_nul(bytes);
    proof {
        lemma_nul_index_bound(bytes@);
    }
    let text = lossy_string(&bytes[0..end]);
    assert(bytes@.subrange(0, end as int) == bytes@.take(end as int));
    let chars = crate::text::chars_of(text.as_str());
    crate::text::trimmed(&chars)
}

proof fn lemma_nul_index_bound(b: Seq<u8>)
    ensures
        nul_index(b) <= b.len(),
    decreases b.len(),
{
    if b.len() > 0 && b[0] != 0 {
        lemma_nul_index_bound(b.drop_first());
    }
}

impl Identity {
    /// The part number as the app reads it: the first eight payload bytes.
    /// On a CM1620 these are not a part number.
    pub fn part_number(&self) -> (r: Option<[u8; 8]>)
        ensures
            self.payload@.len() >= 8 <==> r is Some,
            r matches Some(a) ==> a@ == self.payload@.take(8),
    {
        if self.payload.len() < 8 {
            return None;
        }
        let mut r = Reader::new(self.payload.as_slice());
        let a = r.array::<8>();
        assert(self.payload@.subrange(0, 8) == self.payload@.take(8));
        a
    }

    /// Milliseconds since the link came up, as a CM1620 reports them in bytes
    /// 2 to 5 of the payload. A charger that has not been bound drops the
    /// link once this passes roughly five thousand.
    pub fn link_period_ms(&self) -> (r: Option<u32>)
        ensures
            self.payload@.len() >= 5 <==> r is Some,
            r matches Some(v) ==> v == u32_at(self.payload@, 1),
    {
        if self.payload.len() < 5 {
            return None;
        }
        let mut r = Reader::new(self.payload.as_slice());
        let _ = r.u8();
        r.u32()
    }

    /// The last six payload bytes, which on a CM1620 hold the device address.
    pub fn device_address(&self) -> (r: Option<[u8; 6]>)
        ensures
            self.payload@.len() >= 6 <==> r is Some,
            r matches Some(a) ==> a@ == self.payload@.skip(self.payload@.len() - 6),
    {
        let len = self.payload.len();
        let start = match len.checked_sub(6) {
            Some(s) => s,
            None => return None,
        };
        let mut r = Reader::new(self.payload.as_slice());
        let _ = r.take(start);
        let a = r.array::<6>();
        assert(self.payload@.subrange(start as int, start + 6) == self.payload@.skip(
            self.payload@.len() - 6,
        ));
        a
    }
}

impl HardwareInfo {
    /// The device identifier as text, with trailing padding removed.
    pub fn device_id_string(&self) -> (r: String)
        ensures
            r@ == trim_ascii_spec(self.device_id@),
            vstd::utf8::valid_utf8(before_nul(self.device_id@)) ==> r@ == trimmed_text(
                before_nul(self.device_id@),
            ),
    {
        trim_ascii(self.device_id.as_slice())
    }

    /// The display name as text, with trailing padding removed.
    pub fn device_name_string(&self) -> (r: Option<String>)
        ensures
            self.device_name is Some <==> r is Some,
            r matches Some(t) ==> t@ == trim_ascii_spec(self.device_name->0@),
            r matches Some(t) ==> (vstd::utf8::valid_utf8(before_nul(self.device_name->0@)) ==> t@
                == trimmed_text(before_nul(self.device_name->0@))),
    {
        match &self.device_name {
            Some(n) => Some(trim_ascii(n.as_slice())),
            None => None,
        }
    }

    /// The part number as text, with trailing padding removed.
    pub fn part_number_string(&self) -> (r: Option<String>)
        ensures
            self.part_number is Some <==> r is Some,
            r matches Some(t) ==> t@ == trim_ascii_spec(self.part_number->0@),
            r matches Some(t) ==> (vstd::utf8::valid_utf8(before_nul(self.part_number->0@)) ==> t@
                == trimmed_text(before_nul(self.part_number->0@))),
    {
        match &self.part_number {
            Some(p) => Some(trim_ascii(p.as_slice())),
            None => None,
        }
    }
}

/// How many of `cells` are above zero.
pub open spec fn count_nonzero(cells: Seq<u16>) -> nat
    decreases cells.len(),
{
    if cells.len() == 0 {
        0
    } else {
        count_nonzero(cells.drop_last()) + if cells.last() > 0 {
            1nat
        } else {
            0nat
        }
    }
}

/// A reading in tenths of a milliohm, or `None` where it lies above the
/// ceiling past which the charger means "no measurement".
pub open spec fn measured_spec(raw: u16) -> Option<u16> {
    if raw <= 10 * MAX_INNER_RESISTANCE {
        Some(raw)
    } else {
        None
    }
}

/// One cell's reading, or `None` where the charger has no measurement.
pub fn measured(raw: u16) -> (r: Option<u16>)
    ensures
        r == measured_spec(raw),
{
    if raw <= 10 * MAX_INNER_RESISTANCE {
        Some(raw)
    } else {
        None
    }
}

impl InnerResistance {
    /// Each cell's reading in tenths of a milliohm, or `None` where the
    /// charger has no measurement: anything above
    /// [`MAX_INNER_RESISTANCE`] milliohms.
    pub fn cells_tenths(&self) -> (r: [Option<u16>; 8])
        ensures
            r@.len() == 8,
            forall|i: int| 0 <= i < 8 ==> r@[i] == measured_spec(#[trigger] self.raw@[i]),
    {
        let out = [
            measured(self.raw[0]),
            measured(self.raw[1]),
            measured(self.raw[2]),
            measured(self.raw[3]),
            measured(self.raw[4]),
            measured(self.raw[5]),
            measured(self.raw[6]),
            measured(self.raw[7]),
        ];
        assert(out@ =~= self.raw@.map_values(|v: u16| measured_spec(v)));
        out
    }
}

impl Electrical {
    /// Input power in milliwatts, computed from the reported input readings.
    pub fn input_power_mw(&self) -> (r: u64)
        ensures
            r == self.input_mv as int * self.input_ma as int / 1000,
    {
        assert(self.input_mv as int * self.input_ma as int <= 0xFFFF_FFFF * 0xFFFF_FFFF) by (
        nonlinear_arith);
        let p = (self.input_mv as u64) * (self.input_ma as u64);
        p / 1000
    }

    /// Output power in milliwatts, computed from the reported output readings.
    pub fn output_power_mw(&self) -> (r: u64)
        ensures
            r == self.output_mv as int * self.current_ma as int / 1000,
    {
        assert(self.output_mv as int * self.current_ma as int <= 0xFFFF_FFFF * 0xFFFF_FFFF) by (
        nonlinear_arith);
        let p = (self.output_mv as u64) * (self.current_ma as u64);
        p / 1000
    }

    /// The cells reporting a non-zero voltage, which is how many the charger
    /// can actually see through the balance connector.
    pub fn connected_cells(&self) -> (r: usize)
        ensures
            r == count_nonzero(self.cell_mv@),
    {
        let mut count: usize = 0;
        let mut i: usize = 0;
        while i < self.cell_mv.len()
            invariant
                i <= self.cell_mv@.len(),
                count == count_nonzero(self.cell_mv@.take(i as int)),
                count <= i,
            decreases self.cell_mv@.len() - i,
        {
            assert(self.cell_mv@.take(i + 1).drop_last() == self.cell_mv@.take(i as int));
            if self.cell_mv[i] > 0 {
                count = count + 1;
            }
            i = i + 1;
        }
        assert(self.cell_mv@.take(self.cell_mv@.len() as int) == self.cell_mv@);
        count
    }
}

/// The duration `Duration::from_millis(ms)` gives: `ms` milliseconds.
pub uninterp spec fn millis_duration(ms: u64) -> std::time::Duration;

/// A `Duration` of `ms` milliseconds.
///
/// Calls `Duration::from_millis`, which depends on its argument alone.
/// `Duration` is opaque here, so its value is named, not described.
#[verifier::external_body]
fn duration_from_millis(ms: u64) -> (r: std::time::Duration)
    ensures
        r == millis_duration(ms),
{
    std::time::Duration::from_millis(ms)
}

impl WorkState {
    /// Elapsed task time as a duration.
    pub fn elapsed(&self) -> (r: std::time::Duration)
        ensures
            r == millis_duration(self.work_period_ms as u64),
    {
        duration_from_millis(self.work_period_ms as u64)
    }

    /// Which leads the charger sees connected, when the code is one it names.
    pub fn link(&self) -> (r: Option<LinkType>)
        ensures
            r == link_from_code(self.link_type),
    {
        LinkType::from_code(self.link_type)
    }

    /// The same work-state byte read on the scale ISDT's cell-slot chargers
    /// use, for a device that does not follow the charger table.
    pub fn slot_state(&self) -> (r: ChannelState)
        ensures
            r == channel_state_from_code(charger_state_code(self.state)),
    {
        ChannelState::from_code(self.state_code())
    }

    /// The raw work-state byte.
    pub fn state_code(&self) -> (r: u8)
        ensures
            r == charger_state_code(self.state),
    {
        match self.state {
            ChargerState::Standby => 0,
            ChargerState::Activating => 1,
            ChargerState::CurrentRise => 2,
            ChargerState::ConstantCurrent => 3,
            ChargerState::ConstantVoltage => 4,
            ChargerState::ConstantVoltageBalance => 5,
            ChargerState::TrickleBalance => 6,
            ChargerState::StorageCharging => 7,
            ChargerState::StorageDischarging => 8,
            ChargerState::Stored => 9,
            ChargerState::Discharging => 10,
            ChargerState::Discharged => 11,
            ChargerState::Unknown(code) => code,
        }
    }

    /// True when the charger reported at least one fault.
    pub fn has_error(&self) -> (r: bool)
        ensures
            r == (self.errors matches Some(f) && f.0 != 0),
    {
        match self.errors {
            Some(flags) => !flags.is_clear(),
            None => false,
        }
    }
}

// ---- laws ----------------------------------------------------------------------------

/// Every response reports the command word it arrived under.
pub proof fn law_parse_reports_command_word(data: Seq<u8>, v: Response)
    requires
        parse_result(data, Some(v)),
    ensures
        data.len() > 0,
        response_word(v) == data[0],
{
}

/// A response to a per-channel query names the channel its first byte
/// carries.
pub proof fn law_parse_reports_channel(data: Seq<u8>, v: Response)
    requires
        parse_result(data, Some(v)),
        data.len() > 1,
        body_fits(data[0], data.skip(1)),
        data[0] == 0xE5 || data[0] == 0xE7 || data[0] == 0xE9 || data[0] == 0xFB || data[0]
            == 0xEB || data[0] == 0x0E || data[0] == 0x41 || data[0] == 0x43 || data[0] == 0x45
            || data[0] == 0x49 || data[0] == 0x47 || data[0] == 0xDF || data[0] == 0xDD,
    ensures
        response_channel(v) == Some(data[1]),
{
}

/// Parsing never refuses a non-empty frame: what it does not model it keeps.
pub proof fn law_parse_total(data: Seq<u8>, r: Option<Response>)
    requires
        parse_result(data, r),
    ensures
        r is Some <==> data.len() > 0,
{
}

/// The little-endian 32 bit number in the four bytes of `d` from `i` on.
pub open spec fn le_u32(d: Seq<u8>, i: int) -> int {
    d[i] + 256 * d[i + 1] + 65536 * d[i + 2] + 16777216 * d[i + 3]
}

/// A limits reply (command word `0xE3`) with a full body carries four
/// little-endian 32 bit ceilings, in the app's order: input power, output
/// power, input current, output current.
pub proof fn law_limits_layout(data: Seq<u8>, v: Response)
    requires
        data.len() >= 17,
        data[0] == 0xE3,
        parse_result(data, Some(v)),
    ensures
        v matches Response::LimitParameters(p) && p.max_input_power_mw == le_u32(data, 1)
            && p.max_output_power_mw == le_u32(data, 5) && p.max_input_current_ma == le_u32(
            data,
            9,
        ) && p.max_output_current_ma == le_u32(data, 13),
{
    let b = data.skip(1);
    assert(b.len() >= 16);
    assert(body_fits(0xE3, b));
    assert(parsed(0xE3, b, v));
    assert forall|i: int| 0 <= i < 16 implies b[i] == data[i + 1] by {}
}

/// The little-endian 16 bit number in the two bytes of `d` from `i` on.
pub open spec fn le_u16(d: Seq<u8>, i: int) -> int {
    d[i] + 256 * d[i + 1]
}

proof fn lemma_body_u16(data: Seq<u8>, i: int)
    requires
        0 <= i,
        i + 3 <= data.len(),
    ensures
        u16_at(data.skip(1), i) == le_u16(data, i + 1),
{
    let b = data.skip(1);
    assert(b[i] == data[i + 1] && b[i + 1] == data[i + 2]);
}

proof fn lemma_body_u32(data: Seq<u8>, i: int)
    requires
        0 <= i,
        i + 5 <= data.len(),
    ensures
        u32_at(data.skip(1), i) == le_u32(data, i + 1),
{
    let b = data.skip(1);
    assert(b[i] == data[i + 1] && b[i + 1] == data[i + 2] && b[i + 2] == data[i + 3] && b[i + 3]
        == data[i + 4]);
}

/// A work-state reply (`0xE7`) with a full body reads, byte by byte: the
/// channel, the state code, the capacity percentage, the capacity done, the
/// energy done and the elapsed time as little-endian 32 bit numbers, the
/// chemistry code, the cell count, the link byte, the per-cell target as a
/// 16 bit number, the current as a 32 bit number, the batteries to do and
/// done, the input floor as 16 bit numbers, the output power ceiling as a
/// 32 bit number and, where two more bytes follow, the fault mask.
pub proof fn law_work_state_layout(data: Seq<u8>, v: Response)
    requires
        data.len() >= 35,
        data[0] == 0xE7,
        parse_result(data, Some(v)),
    ensures
        v matches Response::WorkState(w) && w.channel == data[1] && w.state
            == charger_state_from_code(data[2]) && w.capacity_percent == data[3]
            && w.capacity_done_mah == le_u32(data, 4) && w.energy_done_mwh == le_u32(data, 8)
            && w.work_period_ms == le_u32(data, 12) && w.battery_type == battery_from_code(
            data[16],
        ) && w.cell_count == data[17] && w.link_type == data[18] && w.full_charged_mv == le_u16(
            data,
            19,
        ) && w.work_current_ma == le_u32(data, 21) && w.batteries_total == le_u16(data, 25)
            && w.batteries_done == le_u16(data, 27) && w.min_input_mv == le_u16(data, 29)
            && w.max_output_power_mw == le_u32(data, 31) && (w.errors is Some <==> data.len()
            >= 37) && (w.errors matches Some(f) ==> f.0 == le_u16(data, 35)),
{
    let b = data.skip(1);
    assert(body_fits(0xE7, b));
    assert(parsed(0xE7, b, v));
    lemma_body_u32(data, 3);
    lemma_body_u32(data, 7);
    lemma_body_u32(data, 11);
    lemma_body_u16(data, 18);
    lemma_body_u32(data, 20);
    lemma_body_u16(data, 24);
    lemma_body_u16(data, 26);
    lemma_body_u16(data, 28);
    lemma_body_u32(data, 30);
    if data.len() >= 37 {
        lemma_body_u16(data, 34);
    }
    assert(b[0] == data[1] && b[1] == data[2] && b[2] == data[3] && b[15] == data[16] && b[16]
        == data[17] && b[17] == data[18]);
}

/// A temperature reply (`0xE9`) reads the channel, the charger's and the
/// battery's temperatures as signed bytes, and the fan byte, in that order.
pub proof fn law_temperature_layout(data: Seq<u8>, v: Response)
    requires
        data.len() >= 5,
        data[0] == 0xE9,
        parse_result(data, Some(v)),
    ensures
        v == Response::Temperature(
            Temperature {
                channel: data[1],
                device_c: data[2] as i8,
                battery_c: data[3] as i8,
                fan_raw: data[4],
            },
        ),
{
    let b = data.skip(1);
    assert(body_fits(0xE9, b));
    assert(b[0] == data[1] && b[1] == data[2] && b[2] == data[3] && b[3] == data[4]);
}

/// A short electrical reply (`0xE5`, thirty to thirty-four bytes) reads the
/// channel, the input voltage as a 16 bit number, the input current as a 32
/// bit number, the output voltage as a 16 bit number, the output current as
/// a 32 bit number and eight cell voltages as 16 bit numbers, all little
/// endian.
pub proof fn law_electrical_narrow_layout(data: Seq<u8>, v: Response)
    requires
        30 <= data.len() < 35,
        data[0] == 0xE5,
        parse_result(data, Some(v)),
    ensures
        v matches Response::Electrical(e) && e.channel == data[1] && e.input_mv == le_u16(data, 2)
            && e.input_ma == le_u32(data, 4) && e.output_mv == le_u16(data, 8) && e.current_ma
            == le_u32(data, 10) && e.cell_mv@.len() == 8 && forall|k: int|
            0 <= k < 8 ==> #[trigger] e.cell_mv@[k] == le_u16(data, 14 + 2 * k),
{
    let b = data.skip(1);
    assert(!electrical_wide(b));
    assert(body_fits(0xE5, b));
    assert(parsed(0xE5, b, v));
    lemma_body_u16(data, 1);
    lemma_body_u32(data, 3);
    lemma_body_u16(data, 7);
    lemma_body_u32(data, 9);
    assert(b[0] == data[1]);
    if let Response::Electrical(e) = v {
        assert forall|k: int| 0 <= k < 8 implies #[trigger] e.cell_mv@[k] == le_u16(
            data,
            14 + 2 * k,
        ) by {
            lemma_body_u16(data, 13 + 2 * k);
        }
    }
}

/// A long electrical reply (`0xE5`, fifty bytes or more) reads the channel,
/// the input voltage, input current, output voltage and output current as
/// 32 bit numbers and sixteen cell voltages as 16 bit numbers, all little
/// endian.
pub proof fn law_electrical_wide_layout(data: Seq<u8>, v: Response)
    requires
        data.len() >= 50,
        data[0] == 0xE5,
        parse_result(data, Some(v)),
    ensures
        v matches Response::Electrical(e) && e.channel == data[1] && e.input_mv == le_u32(data, 2)
            && e.input_ma == le_u32(data, 6) && e.output_mv == le_u32(data, 10) && e.current_ma
            == le_u32(data, 14) && e.cell_mv@.len() == 16 && forall|k: int|
            0 <= k < 16 ==> #[trigger] e.cell_mv@[k] == le_u16(data, 18 + 2 * k),
{
    let b = data.skip(1);
    assert(electrical_wide(b));
    assert(body_fits(0xE5, b));
    assert(parsed(0xE5, b, v));
    lemma_body_u32(data, 1);
    lemma_body_u32(data, 5);
    lemma_body_u32(data, 9);
    lemma_body_u32(data, 13);
    assert(b[0] == data[1]);
    if let Response::Electrical(e) = v {
        assert forall|k: int| 0 <= k < 16 implies #[trigger] e.cell_mv@[k] == le_u16(
            data,
            18 + 2 * k,
        ) by {
            lemma_body_u16(data, 17 + 2 * k);
        }
    }
}

/// A one-key-launch reply (`0xD5`) reads the enabled flag (any non-zero
/// byte), the chemistry code, the cell count, the per-cell target as a 16
/// bit number and the current as a 32 bit number, little endian.
pub proof fn law_one_key_launch_layout(data: Seq<u8>, v: Response)
    requires
        data.len() >= 10,
        data[0] == 0xD5,
        parse_result(data, Some(v)),
    ensures
        v matches Response::OneKeyLaunch(o) && o.enabled == (data[1] != 0) && o.battery_type
            == data[2] && o.cell_count == data[3] && o.full_charged_mv == le_u16(data, 4)
            && o.work_current_ma == le_u32(data, 6),
{
    let b = data.skip(1);
    assert(body_fits(0xD5, b));
    lemma_body_u16(data, 3);
    lemma_body_u32(data, 5);
    assert(b[0] == data[1] && b[1] == data[2] && b[2] == data[3]);
}

/// A pack parameter reply (`0x49`) reads the channel, the charge current as
/// a 32 bit number, the storage and full voltages as 16 bit numbers in that
/// order, and the self-discharge days, little endian.
pub proof fn law_battgo_parameters_layout(data: Seq<u8>, v: Response)
    requires
        data.len() >= 11,
        data[0] == 0x49,
        parse_result(data, Some(v)),
    ensures
        v matches Response::BattgoParameters(p) && p.channel == data[1] && p.charging_current_ma
            == le_u32(data, 2) && p.store_mv == le_u16(data, 6) && p.full_charged_mv == le_u16(
            data,
            8,
        ) && p.self_discharging_days == data[10],
{
    let b = data.skip(1);
    assert(body_fits(0x49, b));
    lemma_body_u32(data, 1);
    lemma_body_u16(data, 5);
    lemma_body_u16(data, 7);
    assert(b[0] == data[1] && b[9] == data[10]);
}

/// A resistance reply (`0xFB`) reads the channel and eight readings as
/// little-endian 16 bit numbers, cell 1 first.
pub proof fn law_inner_resistance_layout(data: Seq<u8>, v: Response)
    requires
        data.len() >= 18,
        data[0] == 0xFB,
        parse_result(data, Some(v)),
    ensures
        v matches Response::InnerResistance(r) && r.channel == data[1] && forall|k: int|
            0 <= k < 8 ==> #[trigger] r.raw@[k] == le_u16(data, 2 + 2 * k),
{
    let b = data.skip(1);
    assert(body_fits(0xFB, b));
    assert(parsed(0xFB, b, v));
    assert(b[0] == data[1]);
    if let Response::InnerResistance(r) = v {
        assert forall|k: int| 0 <= k < 8 implies #[trigger] r.raw@[k] == le_u16(data, 2 + 2 * k) by {
            lemma_body_u16(data, 1 + 2 * k);
        }
    }
}

} // verus!
