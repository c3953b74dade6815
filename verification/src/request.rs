//! Every command and query the ISDT Android app can send to a charger.
//!
//! [`Request::data`] produces the frame `DATA` field, which
//! [`crate::frame::encode`] then wraps and stuffs.

use vstd::prelude::*;
use vstd::string::*;

use crate::frame::{frame_bytes, FrameError, ADDR_TO_DEVICE, MAX_DATA_LEN};
use crate::types::{
    battery_code, calibration_code, link_code, task_code, BatteryKind, CalibrationMode, LinkType,
    TaskType,
};

verus! {

/// Number of firmware bytes carried by a single [`Request::WriteApp`].
pub const WRITE_APP_BLOCK: usize = 128;

/// The magic word guarding smart-power setting writes.
pub const SMART_POWER_SAFE_WORD: u16 = 0xA5C3;

/// The magic byte guarding [`Request::EnterBootloader`].
pub const BOOTLOADER_MAGIC: u8 = 0xAC;

/// The magic byte guarding [`Request::Reboot`].
pub const REBOOT_MAGIC: u8 = 0xCA;

/// A command or query addressed to the charger.
#[derive(Debug, Clone, PartialEq, Eq)]
pub enum Request {
    /// Asks the charger to identify itself.
    Identify,
    /// Binds this host to the charger using a 16 byte client identifier.
    Bind {
        /// Sixteen byte host identifier the charger stores.
        client_id: [u8; 16],
    },
    /// Renames the charger. The name is padded to 16 bytes with zeroes.
    SetName {
        /// The new name. Anything past sixteen bytes is dropped.
        name: String,
    },
    /// Reads identifier, versions, display name and part number.
    HardwareInfo,
    /// Reads the live voltages and currents of one channel.
    Electrical {
        /// The channel this concerns, counted from zero.
        channel: u8,
    },
    /// Reads the task state and progress of one channel.
    WorkState {
        /// The channel this concerns, counted from zero.
        channel: u8,
    },
    /// Reads the temperatures of one channel.
    Temperature {
        /// The channel this concerns, counted from zero.
        channel: u8,
    },
    /// Reads the per-cell internal resistance of one channel.
    InnerResistance {
        /// The channel this concerns, counted from zero.
        channel: u8,
    },
    /// Starts, changes or stops the task running on one channel.
    SetTask {
        /// The channel this concerns, counted from zero.
        channel: u8,
        /// What the channel should do.
        task: TaskType,
        /// The pack's chemistry.
        battery: BatteryKind,
        /// Which leads are connected.
        link: LinkType,
        /// Charge or discharge current, in milliamps.
        work_current_ma: u32,
        /// Cells in series.
        cell_count: u8,
        /// Per-cell target voltage, in millivolts.
        full_charged_volt_mv: u16,
    },
    /// Reads the input and output power and current ceilings.
    LimitParameters,
    /// Writes the input power ceiling and the input undervoltage cutoff.
    SetLimitParameters {
        /// Input undervoltage cutoff, in millivolts.
        min_input_volt_mv: u16,
        /// Input power ceiling, in milliwatts.
        max_input_power_mw: u32,
    },
    /// Reads the profile the charger runs when its button is pressed.
    OneKeyLaunch,
    /// Writes the profile the charger runs when its button is pressed.
    SetOneKeyLaunch {
        /// Whether the profile runs on a button press.
        enabled: bool,
        /// The pack's chemistry.
        battery: BatteryKind,
        /// Cells in series.
        cell_count: u8,
        /// Per-cell target voltage, in millivolts.
        full_charged_volt_mv: u16,
        /// Charge or discharge current, in milliamps.
        work_current_ma: u32,
    },
    /// Reads the identity, ratings and live output of the attached supply.
    SmartPowerInfo,
    /// Reads the supply's configured working point.
    SmartPowerParameters,
    /// Writes one supply setting, passed through verbatim.
    SetSmartPower {
        /// Which parameter to write.
        setting: u8,
        /// The new value.
        value: u16,
    },
    /// Reads the identity of the BattGo battery on one channel.
    BattgoInfo {
        /// The channel this concerns, counted from zero.
        channel: u8,
    },
    /// Reads the manufacturer profile of the BattGo battery on one channel.
    BattgoOem {
        /// The channel this concerns, counted from zero.
        channel: u8,
    },
    /// Reads the live state of the BattGo battery on one channel.
    BattgoRealState {
        /// The channel this concerns, counted from zero.
        channel: u8,
    },
    /// Reads the charge settings stored in the BattGo battery on one channel.
    BattgoReadParameters {
        /// The channel this concerns, counted from zero.
        channel: u8,
    },
    /// Writes the charge settings stored in the BattGo battery on one channel.
    BattgoWriteParameters {
        /// The channel this concerns, counted from zero.
        channel: u8,
        /// Preferred charge current, in milliamps.
        charging_current_ma: u32,
        /// Per-cell storage voltage, in millivolts.
        store_volt_mv: u16,
        /// Per-cell target voltage, in millivolts.
        full_charged_volt_mv: u16,
        /// Days of rest before the pack drops to storage voltage.
        self_discharging_days: u8,
    },
    /// Calibrates a six-cell balance port, or restores its factory constants.
    Calibrate6 {
        /// The channel this concerns, counted from zero.
        channel: u8,
        /// Whether to store new constants or restore the factory set.
        mode: CalibrationMode,
        /// Reference cell voltages, in millivolts.
        cell_mv: [u16; 6],
        /// Reference input voltage, in millivolts.
        input_mv: u16,
        /// Reference output voltage, in millivolts.
        output_mv: u16,
    },
    /// Calibrates an eight-cell balance port, or restores its factory constants.
    Calibrate8 {
        /// The channel this concerns, counted from zero.
        channel: u8,
        /// Whether to store new constants or restore the factory set.
        mode: CalibrationMode,
        /// Reference cell voltages, in millivolts.
        cell_mv: [u16; 8],
        /// Reference input voltage, in millivolts.
        input_mv: u16,
        /// Reference output voltage, in millivolts.
        output_mv: u16,
    },
    /// Puts the charger into its bootloader.
    EnterBootloader,
    /// Erases a firmware region.
    EraseApp {
        /// Flash address the region begins at.
        start_address: u32,
        /// Length of the region, in bytes.
        size: u32,
    },
    /// Writes one [`WRITE_APP_BLOCK`] byte firmware block.
    WriteApp {
        /// Flash address the block begins at.
        start_address: u32,
        /// The block's bytes.
        data: Box<[u8; 128]>,
    },
    /// Verifies a written firmware region against a checksum.
    ChecksumApp {
        /// Flash address the region begins at.
        start_address: u32,
        /// Length of the region, in bytes.
        size: u32,
        /// Sum of every image byte, taken as a wrapping 32 bit total.
        checksum: u32,
    },
    /// Restarts the charger.
    Reboot,
    /// A command word and payload the library does not model; the first
    /// byte is the command word.
    Raw {
        /// The bytes, command word first.
        data: Vec<u8>,
    },
}

// ---- the encoding, as mathematics ------------------------------------------------

/// A 16 bit value, little endian.
pub open spec fn le16(v: u16) -> Seq<u8> {
    seq![(v % 256) as u8, (v / 256) as u8]
}

/// A 32 bit value, little endian.
pub open spec fn le32(v: u32) -> Seq<u8> {
    seq![(v % 256) as u8, ((v / 256) % 256) as u8, ((v / 65536) % 256) as u8, (v / 16777216) as u8]
}

/// A sequence of 16 bit values, each little endian, one after another.
pub open spec fn le16_all(vs: Seq<u16>) -> Seq<u8>
    decreases vs.len(),
{
    if vs.len() == 0 {
        Seq::empty()
    } else {
        le16_all(vs.drop_last()) + le16(vs.last())
    }
}

/// A name as the charger stores it: its UTF-8 bytes, cut at sixteen and
/// padded with zeroes to sixteen.
pub open spec fn name_field(bytes: Seq<u8>) -> Seq<u8> {
    let n = if bytes.len() < 16 {
        bytes.len()
    } else {
        16
    };
    bytes.take(n as int) + Seq::new((16 - n) as nat, |i: int| 0u8)
}

/// The command word a request carries.
pub open spec fn command_word_of(r: Request) -> u8 {
    match r {
        Request::Identify => 0x00,
        Request::Bind { .. } => 0x18,
        Request::BattgoInfo { .. } => 0x40,
        Request::BattgoOem { .. } => 0x42,
        Request::BattgoRealState { .. } => 0x44,
        Request::BattgoWriteParameters { .. } => 0x46,
        Request::BattgoReadParameters { .. } => 0x48,
        Request::SmartPowerInfo => 0xBA,
        Request::SetSmartPower { .. } => 0xBC,
        Request::SmartPowerParameters => 0xBE,
        Request::SetName { .. } => 0xC0,
        Request::SetLimitParameters { .. } => 0xD0,
        Request::SetOneKeyLaunch { .. } => 0xD2,
        Request::OneKeyLaunch => 0xD4,
        Request::Calibrate8 { .. } => 0xDC,
        Request::Calibrate6 { .. } => 0xDE,
        Request::HardwareInfo => 0xE0,
        Request::LimitParameters => 0xE2,
        Request::Electrical { .. } => 0xE4,
        Request::WorkState { .. } => 0xE6,
        Request::Temperature { .. } => 0xE8,
        Request::SetTask { .. } => 0xEA,
        Request::EnterBootloader => 0xF0,
        Request::EraseApp { .. } => 0xF2,
        Request::WriteApp { .. } => 0xF4,
        Request::ChecksumApp { .. } => 0xF6,
        Request::InnerResistance { .. } => 0xFA,
        Request::Reboot => 0xFC,
        Request::Raw { data } => if data@.len() > 0 {
            data@[0]
        } else {
            0
        },
    }
}

/// True for the requests that must not be sent twice.
pub open spec fn irreversible(r: Request) -> bool {
    r matches Request::EnterBootloader || r matches Request::EraseApp { .. }
        || r matches Request::WriteApp { .. } || r matches Request::ChecksumApp { .. }
        || r matches Request::Reboot || r matches Request::Raw { .. }
}

/// The command word of the reply a request draws, where that is one
/// predictable packet.
pub open spec fn reply_word_of(r: Request) -> Option<u8> {
    if r matches Request::Identify || r matches Request::Raw { .. } {
        None
    } else {
        Some(((command_word_of(r) + 1) % 256) as u8)
    }
}

/// Everything after the command word.
pub open spec fn arguments_of(r: Request) -> Seq<u8> {
    match r {
        Request::Electrical { channel } | Request::WorkState { channel } | Request::Temperature {
            channel,
        } | Request::InnerResistance { channel } | Request::BattgoInfo { channel }
        | Request::BattgoOem { channel } | Request::BattgoRealState { channel }
        | Request::BattgoReadParameters { channel } => seq![channel],
        Request::Bind { client_id } => client_id@,
        Request::SetName { name } => name_field(vstd::utf8::encode_utf8(name@)),
        Request::SetTask {
            channel,
            task,
            battery,
            link,
            work_current_ma,
            cell_count,
            full_charged_volt_mv,
        } => seq![channel, task_code(task), battery_code(battery), link_code(link)] + le32(
            work_current_ma,
        ) + seq![cell_count] + le16(full_charged_volt_mv),
        Request::SetLimitParameters { min_input_volt_mv, max_input_power_mw } => le16(
            min_input_volt_mv,
        ) + le32(max_input_power_mw),
        Request::SetOneKeyLaunch {
            enabled,
            battery,
            cell_count,
            full_charged_volt_mv,
            work_current_ma,
        } => seq![
            if enabled {
                1u8
            } else {
                0u8
            },
            battery_code(battery),
            cell_count,
        ] + le16(full_charged_volt_mv) + le32(work_current_ma),
        Request::SetSmartPower { setting, value } => le16(SMART_POWER_SAFE_WORD) + seq![setting]
            + le16(value),
        Request::BattgoWriteParameters {
            channel,
            charging_current_ma,
            store_volt_mv,
            full_charged_volt_mv,
            self_discharging_days,
        } => seq![channel] + le32(charging_current_ma) + le16(store_volt_mv) + le16(
            full_charged_volt_mv,
        ) + seq![self_discharging_days],
        Request::Calibrate6 { channel, mode, cell_mv, input_mv, output_mv } => seq![
            channel,
            calibration_code(mode),
        ] + le16_all(cell_mv@) + le16(input_mv) + le16(output_mv),
        Request::Calibrate8 { channel, mode, cell_mv, input_mv, output_mv } => seq![
            channel,
            calibration_code(mode),
        ] + le16_all(cell_mv@) + le16(input_mv) + le16(output_mv),
        Request::EnterBootloader => seq![BOOTLOADER_MAGIC],
        Request::EraseApp { start_address, size } => seq![0u8] + le32(start_address) + le32(size),
        Request::WriteApp { start_address, data } => seq![0u8] + le32(start_address) + data@,
        Request::ChecksumApp { start_address, size, checksum } => seq![0x35u8, 0u8] + le32(
            start_address,
        ) + le32(size) + le32(checksum),
        Request::Reboot => seq![REBOOT_MAGIC],
        _ => Seq::empty(),
    }
}

/// The frame `DATA` field of a request: the command word, then its
/// arguments. A raw request is its bytes, verbatim.
pub open spec fn data_of(r: Request) -> Seq<u8> {
    match r {
        Request::Raw { data } => data@,
        _ => seq![command_word_of(r)] + arguments_of(r),
    }
}

// ---- building the bytes -------------------------------------------------------------

fn push_le16(out: &mut Vec<u8>, v: u16)
    ensures
        final(out)@ == old(out)@ + le16(v),
{
    out.push((v % 256) as u8);
    out.push((v / 256) as u8);
}

fn push_le32(out: &mut Vec<u8>, v: u32)
    ensures
        final(out)@ == old(out)@ + le32(v),
{
    out.push((v % 256) as u8);
    out.push(((v / 256) % 256) as u8);
    out.push(((v / 65536) % 256) as u8);
    out.push((v / 16777216) as u8);
}

fn push_le16_all(out: &mut Vec<u8>, vs: &[u16])
    ensures
        final(out)@ == old(out)@ + le16_all(vs@),
{
    let ghost start = out@;
    let mut i: usize = 0;
    assert(vs@.take(0) == Seq::<u16>::empty());
    assert(start + Seq::<u8>::empty() == start);
    while i < vs.len()
        invariant
            i <= vs@.len(),
            out@ == start + le16_all(vs@.take(i as int)),
        decreases vs@.len() - i,
    {
        let v = vs[i];
        push_le16(out, v);
        assert(vs@.take(i + 1).drop_last() == vs@.take(i as int));
        assert(start + le16_all(vs@.take(i as int)) + le16(v) == start + (le16_all(
            vs@.take(i as int),
        ) + le16(v)));
        i = i + 1;
    }
    assert(vs@.take(vs@.len() as int) == vs@);
}

fn push_all(out: &mut Vec<u8>, bytes: &[u8])
    ensures
        final(out)@ == old(out)@ + bytes@,
{
    let ghost start = out@;
    let mut i: usize = 0;
    while i < bytes.len()
        invariant
            i <= bytes@.len(),
            out@ == start + bytes@.take(i as int),
        decreases bytes@.len() - i,
    {
        out.push(bytes[i]);
        assert(bytes@.take(i + 1) == bytes@.take(i as int).push(bytes@[i as int]));
        i = i + 1;
    }
    assert(bytes@.take(bytes@.len() as int) == bytes@);
}

fn push_name(out: &mut Vec<u8>, name: &String)
    ensures
        final(out)@ == old(out)@ + name_field(vstd::utf8::encode_utf8(name@)),
{
    let bytes = name.as_str().as_bytes();
    let n = if bytes.len() < 16 {
        bytes.len()
    } else {
        16
    };
    let ghost start = out@;
    let mut i: usize = 0;
    while i < 16
        invariant
            i <= 16,
            n <= 16,
            n <= bytes@.len(),
            n == (if bytes@.len() < 16 {
                bytes@.len()
            } else {
                16
            }),
            out@.len() == start.len() + i,
            forall|j: int| 0 <= j < start.len() ==> out@[j] == start[j],
            forall|j: int|
                0 <= j < i ==> #[trigger] out@[start.len() + j] == (if j < n {
                    bytes@[j]
                } else {
                    0u8
                }),
        decreases 16 - i,
    {
        if i < n {
            out.push(bytes[i]);
        } else {
            out.push(0u8);
        }
        i = i + 1;
    }
    let ghost f = name_field(bytes@);
    assert(f.len() == 16);
    assert forall|j: int| 0 <= j < 16 implies #[trigger] f[j] == (if j < n {
        bytes@[j]
    } else {
        0u8
    }) by {
        if j < n {
            assert(f[j] == bytes@.take(n as int)[j]);
        } else {
            assert(f[j] == Seq::new((16 - n) as nat, |i: int| 0u8)[j - n]);
        }
    }
    assert forall|j: int| 0 <= j < out@.len() implies #[trigger] out@[j] == (start + f)[j] by {
        if j >= start.len() {
            let k = j - start.len();
            assert(out@[start.len() + k] == f[k]);
        }
    }
    assert(out@ =~= start + f);
}

impl Request {
    /// The command word the charger dispatches on.
    pub fn command_word(&self) -> (r: u8)
        ensures
            r == command_word_of(*self),
    {
        match self {
            Request::Identify => 0x00,
            Request::Bind { .. } => 0x18,
            Request::BattgoInfo { .. } => 0x40,
            Request::BattgoOem { .. } => 0x42,
            Request::BattgoRealState { .. } => 0x44,
            Request::BattgoWriteParameters { .. } => 0x46,
            Request::BattgoReadParameters { .. } => 0x48,
            Request::SmartPowerInfo => 0xBA,
            Request::SetSmartPower { .. } => 0xBC,
            Request::SmartPowerParameters => 0xBE,
            Request::SetName { .. } => 0xC0,
            Request::SetLimitParameters { .. } => 0xD0,
            Request::SetOneKeyLaunch { .. } => 0xD2,
            Request::OneKeyLaunch => 0xD4,
            Request::Calibrate8 { .. } => 0xDC,
            Request::Calibrate6 { .. } => 0xDE,
            Request::HardwareInfo => 0xE0,
            Request::LimitParameters => 0xE2,
            Request::Electrical { .. } => 0xE4,
            Request::WorkState { .. } => 0xE6,
            Request::Temperature { .. } => 0xE8,
            Request::SetTask { .. } => 0xEA,
            Request::EnterBootloader => 0xF0,
            Request::EraseApp { .. } => 0xF2,
            Request::WriteApp { .. } => 0xF4,
            Request::ChecksumApp { .. } => 0xF6,
            Request::InnerResistance { .. } => 0xFA,
            Request::Reboot => 0xFC,
            Request::Raw { data } => if data.len() > 0 {
                data[0]
            } else {
                0
            },
        }
    }

    /// True when resending this request cannot do harm.
    ///
    /// Every query is safe to repeat, and so is every setter, because each
    /// writes an absolute value. Only the firmware operations and the reboot
    /// are excluded, along with [`Request::Raw`], whose meaning this library
    /// does not know.
    pub fn is_retryable(&self) -> (r: bool)
        ensures
            r == !irreversible(*self),
    {
        !matches!(
            self,
            Request::EnterBootloader | Request::EraseApp { .. } | Request::WriteApp { .. }
                | Request::ChecksumApp { .. } | Request::Reboot | Request::Raw { .. }
        )
    }

    /// The command word of the reply this request draws, when the reply is a
    /// single predictable packet: the request's own word plus one, except
    /// for [`Request::Identify`], which draws more than one kind of answer.
    pub fn reply_word(&self) -> (r: Option<u8>)
        ensures
            r == reply_word_of(*self),
    {
        match self {
            Request::Identify | Request::Raw { .. } => None,
            other => Some(other.command_word().wrapping_add(1)),
        }
    }

    /// Builds the frame `DATA` field: the command word followed by arguments.
    pub fn data(&self) -> (r: Vec<u8>)
        ensures
            r@ == data_of(*self),
    {
        let mut out: Vec<u8> = Vec::with_capacity(16);
        let word = self.command_word();
        match self {
            Request::Raw { data } => {
                push_all(&mut out, data.as_slice());
                return out;
            },
            _ => {},
        }
        out.push(word);
        let ghost head = out@;
        match self {
            Request::Identify | Request::HardwareInfo | Request::LimitParameters
            | Request::OneKeyLaunch | Request::SmartPowerInfo | Request::SmartPowerParameters => {
                assert(out@ == head + Seq::<u8>::empty());
            },
            Request::Electrical { channel }
            | Request::WorkState { channel }
            | Request::Temperature { channel }
            | Request::InnerResistance { channel }
            | Request::BattgoInfo { channel }
            | Request::BattgoOem { channel }
            | Request::BattgoRealState { channel }
            | Request::BattgoReadParameters { channel } => {
                out.push(*channel);
            },
            Request::Bind { client_id } => {
                push_all(&mut out, client_id.as_slice());
            },
            Request::SetName { name } => {
                push_name(&mut out, name);
            },
            Request::SetTask {
                channel,
                task,
                battery,
                link,
                work_current_ma,
                cell_count,
                full_charged_volt_mv,
            } => {
                out.push(*channel);
                out.push(task.code());
                out.push(battery.code());
                out.push(link.code());
                push_le32(&mut out, *work_current_ma);
                out.push(*cell_count);
                push_le16(&mut out, *full_charged_volt_mv);
            },
            Request::SetLimitParameters { min_input_volt_mv, max_input_power_mw } => {
                push_le16(&mut out, *min_input_volt_mv);
                push_le32(&mut out, *max_input_power_mw);
            },
            Request::SetOneKeyLaunch {
                enabled,
                battery,
                cell_count,
                full_charged_volt_mv,
                work_current_ma,
            } => {
                out.push(
                    if *enabled {
                        1u8
                    } else {
                        0u8
                    },
                );
                out.push(battery.code());
                out.push(*cell_count);
                push_le16(&mut out, *full_charged_volt_mv);
                push_le32(&mut out, *work_current_ma);
            },
            Request::SetSmartPower { setting, value } => {
                push_le16(&mut out, SMART_POWER_SAFE_WORD);
                out.push(*setting);
                push_le16(&mut out, *value);
            },
            Request::BattgoWriteParameters {
                channel,
                charging_current_ma,
                store_volt_mv,
                full_charged_volt_mv,
                self_discharging_days,
            } => {
                out.push(*channel);
                push_le32(&mut out, *charging_current_ma);
                push_le16(&mut out, *store_volt_mv);
                push_le16(&mut out, *full_charged_volt_mv);
                out.push(*self_discharging_days);
            },
            Request::Calibrate6 { channel, mode, cell_mv, input_mv, output_mv } => {
                out.push(*channel);
                out.push(mode.code());
                push_le16_all(&mut out, cell_mv.as_slice());
                push_le16(&mut out, *input_mv);
                push_le16(&mut out, *output_mv);
            },
            Request::Calibrate8 { channel, mode, cell_mv, input_mv, output_mv } => {
                out.push(*channel);
                out.push(mode.code());
                push_le16_all(&mut out, cell_mv.as_slice());
                push_le16(&mut out, *input_mv);
                push_le16(&mut out, *output_mv);
            },
            Request::EnterBootloader => {
                out.push(BOOTLOADER_MAGIC);
            },
            Request::EraseApp { start_address, size } => {
                out.push(0x00);
                push_le32(&mut out, *start_address);
                push_le32(&mut out, *size);
            },
            Request::WriteApp { start_address, data } => {
                out.push(0x00);
                push_le32(&mut out, *start_address);
                push_all(&mut out, data.as_slice());
            },
            Request::ChecksumApp { start_address, size, checksum } => {
                out.push(0x35);
                out.push(0x00);
                push_le32(&mut out, *start_address);
                push_le32(&mut out, *size);
                push_le32(&mut out, *checksum);
            },
            Request::Reboot => {
                out.push(REBOOT_MAGIC);
            },
            Request::Raw { .. } => {},
        }
        assert(out@ == data_of(*self));
        out
    }

    /// Builds the complete stuffed frame ready to hand to the transport.
    pub fn encode(&self) -> (r: Result<Vec<u8>, FrameError>)
        ensures
            data_of(*self).len() > MAX_DATA_LEN ==> r == Err::<Vec<u8>, FrameError>(
                FrameError::TooLong(data_of(*self).len() as usize),
            ),
            data_of(*self).len() <= MAX_DATA_LEN ==> (r matches Ok(v) && v@ == frame_bytes(
                ADDR_TO_DEVICE,
                data_of(*self),
            )),
    {
        let data = self.data();
        crate::frame::encode(data.as_slice())
    }
}

/// The little-endian 16 bit number in the two bytes of `d` from `i` on.
pub open spec fn read16(d: Seq<u8>, i: int) -> int {
    d[i] + 256 * d[i + 1]
}

/// The little-endian 32 bit number in the four bytes of `d` from `i` on.
pub open spec fn read32(d: Seq<u8>, i: int) -> int {
    d[i] + 256 * d[i + 1] + 65536 * d[i + 2] + 16777216 * d[i + 3]
}

proof fn lemma_read16(d: Seq<u8>, i: int, v: u16)
    requires
        0 <= i,
        i + 2 <= d.len(),
        d.subrange(i, i + 2) == le16(v),
    ensures
        read16(d, i) == v,
{
    assert(d[i] == d.subrange(i, i + 2)[0] && d[i + 1] == d.subrange(i, i + 2)[1]);
    assert((v % 256) + 256 * (v / 256) == v) by (nonlinear_arith);
}

proof fn lemma_read32(d: Seq<u8>, i: int, v: u32)
    requires
        0 <= i,
        i + 4 <= d.len(),
        d.subrange(i, i + 4) == le32(v),
    ensures
        read32(d, i) == v,
{
    let w = d.subrange(i, i + 4);
    assert(d[i] == w[0] && d[i + 1] == w[1] && d[i + 2] == w[2] && d[i + 3] == w[3]);
    assert((v % 256) + 256 * ((v / 256) % 256) + 65536 * ((v / 65536) % 256) + 16777216 * (v
        / 16777216) == v) by (nonlinear_arith);
}

/// A limits write carries its command word, then the cutoff as a
/// little-endian 16 bit number in the next two bytes, then the power ceiling
/// as a little-endian 32 bit number in the four after that: reading those
/// bytes back gives the two values.
pub proof fn law_set_limits_layout(min_input_volt_mv: u16, max_input_power_mw: u32)
    ensures
        ({
            let d = data_of(Request::SetLimitParameters { min_input_volt_mv, max_input_power_mw });
            &&& d.len() == 7
            &&& d[0] == 0xD0
            &&& read16(d, 1) == min_input_volt_mv
            &&& read32(d, 3) == max_input_power_mw
        }),
{
    let d = data_of(Request::SetLimitParameters { min_input_volt_mv, max_input_power_mw });
    assert(d.subrange(1, 3) == le16(min_input_volt_mv));
    assert(d.subrange(3, 7) == le32(max_input_power_mw));
    lemma_read16(d, 1, min_input_volt_mv);
    lemma_read32(d, 3, max_input_power_mw);
}

/// A task start carries, after its command word, the channel, the task,
/// chemistry and link codes, the current as a little-endian 32 bit number,
/// the cell count, and the per-cell voltage as a little-endian 16 bit
/// number.
pub proof fn law_set_task_layout(
    channel: u8,
    task: TaskType,
    battery: BatteryKind,
    link: LinkType,
    work_current_ma: u32,
    cell_count: u8,
    full_charged_volt_mv: u16,
)
    ensures
        ({
            let d = data_of(
                Request::SetTask {
                    channel,
                    task,
                    battery,
                    link,
                    work_current_ma,
                    cell_count,
                    full_charged_volt_mv,
                },
            );
            &&& d.len() == 12
            &&& d[0] == 0xEA
            &&& d[1] == channel
            &&& d[2] == task_code(task)
            &&& d[3] == battery_code(battery)
            &&& d[4] == link_code(link)
            &&& read32(d, 5) == work_current_ma
            &&& d[9] == cell_count
            &&& read16(d, 10) == full_charged_volt_mv
        }),
{
    let d = data_of(
        Request::SetTask {
            channel,
            task,
            battery,
            link,
            work_current_ma,
            cell_count,
            full_charged_volt_mv,
        },
    );
    assert(d.subrange(5, 9) == le32(work_current_ma));
    assert(d.subrange(10, 12) == le16(full_charged_volt_mv));
    lemma_read32(d, 5, work_current_ma);
    lemma_read16(d, 10, full_charged_volt_mv);
}

/// A one-key-launch write carries, after its command word, the enabled flag
/// (one or zero), the chemistry code, the cell count, the per-cell voltage
/// as a little-endian 16 bit number and the current as a little-endian 32
/// bit number.
pub proof fn law_set_one_key_launch_layout(
    enabled: bool,
    battery: BatteryKind,
    cell_count: u8,
    full_charged_volt_mv: u16,
    work_current_ma: u32,
)
    ensures
        ({
            let d = data_of(
                Request::SetOneKeyLaunch {
                    enabled,
                    battery,
                    cell_count,
                    full_charged_volt_mv,
                    work_current_ma,
                },
            );
            &&& d.len() == 10
            &&& d[0] == 0xD2
            &&& d[1] == (if enabled {
                1u8
            } else {
                0u8
            })
            &&& d[2] == battery_code(battery)
            &&& d[3] == cell_count
            &&& read16(d, 4) == full_charged_volt_mv
            &&& read32(d, 6) == work_current_ma
        }),
{
    let d = data_of(
        Request::SetOneKeyLaunch { enabled, battery, cell_count, full_charged_volt_mv, work_current_ma },
    );
    assert(d.subrange(4, 6) == le16(full_charged_volt_mv));
    assert(d.subrange(6, 10) == le32(work_current_ma));
    lemma_read16(d, 4, full_charged_volt_mv);
    lemma_read32(d, 6, work_current_ma);
}

/// A pack parameter write carries, after its command word, the channel, the
/// charge current as a little-endian 32 bit number, the storage and full
/// voltages as little-endian 16 bit numbers in that order, and the
/// self-discharge days.
pub proof fn law_battgo_write_layout(
    channel: u8,
    charging_current_ma: u32,
    store_volt_mv: u16,
    full_charged_volt_mv: u16,
    self_discharging_days: u8,
)
    ensures
        ({
            let d = data_of(
                Request::BattgoWriteParameters {
                    channel,
                    charging_current_ma,
                    store_volt_mv,
                    full_charged_volt_mv,
                    self_discharging_days,
                },
            );
            &&& d.len() == 11
            &&& d[0] == 0x46
            &&& d[1] == channel
            &&& read32(d, 2) == charging_current_ma
            &&& read16(d, 6) == store_volt_mv
            &&& read16(d, 8) == full_charged_volt_mv
            &&& d[10] == self_discharging_days
        }),
{
    let d = data_of(
        Request::BattgoWriteParameters {
            channel,
            charging_current_ma,
            store_volt_mv,
            full_charged_volt_mv,
            self_discharging_days,
        },
    );
    assert(d.subrange(2, 6) == le32(charging_current_ma));
    assert(d.subrange(6, 8) == le16(store_volt_mv));
    assert(d.subrange(8, 10) == le16(full_charged_volt_mv));
    lemma_read32(d, 2, charging_current_ma);
    lemma_read16(d, 6, store_volt_mv);
    lemma_read16(d, 8, full_charged_volt_mv);
}

/// A smart power write carries, after its command word, the safe word as a
/// little-endian 16 bit number, the setting, and the value as a
/// little-endian 16 bit number.
pub proof fn law_set_smart_power_layout(setting: u8, value: u16)
    ensures
        ({
            let d = data_of(Request::SetSmartPower { setting, value });
            &&& d.len() == 6
            &&& d[0] == 0xBC
            &&& read16(d, 1) == SMART_POWER_SAFE_WORD
            &&& d[3] == setting
            &&& read16(d, 4) == value
        }),
{
    let d = data_of(Request::SetSmartPower { setting, value });
    assert(d.subrange(1, 3) == le16(SMART_POWER_SAFE_WORD));
    assert(d.subrange(4, 6) == le16(value));
    lemma_read16(d, 1, SMART_POWER_SAFE_WORD);
    lemma_read16(d, 4, value);
}

/// An erase carries, after its command word and a zero byte, the start
/// address and then the size, each a little-endian 32 bit number.
pub proof fn law_erase_app_layout(start_address: u32, size: u32)
    ensures
        ({
            let d = data_of(Request::EraseApp { start_address, size });
            &&& d.len() == 10
            &&& d[0] == 0xF2
            &&& d[1] == 0
            &&& read32(d, 2) == start_address
            &&& read32(d, 6) == size
        }),
{
    let d = data_of(Request::EraseApp { start_address, size });
    assert(d.subrange(2, 6) == le32(start_address));
    assert(d.subrange(6, 10) == le32(size));
    lemma_read32(d, 2, start_address);
    lemma_read32(d, 6, size);
}

/// A checksum request carries, after its command word and the bytes `0x35`
/// and zero, the start address, the size and the checksum, each a
/// little-endian 32 bit number, in that order.
pub proof fn law_checksum_app_layout(start_address: u32, size: u32, checksum: u32)
    ensures
        ({
            let d = data_of(Request::ChecksumApp { start_address, size, checksum });
            &&& d.len() == 15
            &&& d[0] == 0xF6
            &&& d[1] == 0x35
            &&& d[2] == 0
            &&& read32(d, 3) == start_address
            &&& read32(d, 7) == size
            &&& read32(d, 11) == checksum
        }),
{
    let d = data_of(Request::ChecksumApp { start_address, size, checksum });
    assert(d.subrange(3, 7) == le32(start_address));
    assert(d.subrange(7, 11) == le32(size));
    assert(d.subrange(11, 15) == le32(checksum));
    lemma_read32(d, 3, start_address);
    lemma_read32(d, 7, size);
    lemma_read32(d, 11, checksum);
}

} // verus!
