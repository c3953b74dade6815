//! Enumerations carried on the wire.
//!
//! Every code here is taken from a constant or lookup table in the ISDT
//! Android app. Values the app has no name for are preserved as
//! `Unknown(u8)` rather than dropped, so an unfamiliar firmware still
//! round-trips.

use vstd::prelude::*;

use crate::text::{decimal, join, push_decimal, push_str, string_of};

verus! {

/// "unknown (N)", the label of a code no table names.
pub open spec fn unknown_label(code: u8) -> Seq<char> {
    "unknown ("@ + decimal(code as nat) + ")"@
}

fn unknown_label_string(code: u8) -> (r: String)
    ensures
        r@ == unknown_label(code),
{
    let mut s = string_of("unknown (");
    push_decimal(&mut s, code as u64);
    push_str(&mut s, ")");
    s
}

// ---- task type -------------------------------------------------------------------

/// What a channel should do with the pack attached to it.
#[derive(Debug, Clone, Copy, PartialEq, Eq, Structural)]
pub enum TaskType {
    /// Charge to the configured per-cell voltage.
    Charge,
    /// Charge or discharge to the storage voltage for the chemistry.
    Storage,
    /// Discharge to the cutoff voltage.
    Discharge,
    /// Halt the channel.
    Stop,
}

/// The wire code of a task type.
pub open spec fn task_code(t: TaskType) -> u8 {
    match t {
        TaskType::Charge => 0,
        TaskType::Storage => 1,
        TaskType::Discharge => 2,
        TaskType::Stop => 3,
    }
}

/// The task type a code names, if any.
pub open spec fn task_from_code(code: u8) -> Option<TaskType> {
    if code == 0 {
        Some(TaskType::Charge)
    } else if code == 1 {
        Some(TaskType::Storage)
    } else if code == 2 {
        Some(TaskType::Discharge)
    } else if code == 3 {
        Some(TaskType::Stop)
    } else {
        None
    }
}

impl TaskType {
    /// Decodes a task code, or `None` if the charger reported one the app
    /// does not define.
    pub fn from_code(code: u8) -> (r: Option<Self>)
        ensures
            r == task_from_code(code),
    {
        match code {
            0 => Some(TaskType::Charge),
            1 => Some(TaskType::Storage),
            2 => Some(TaskType::Discharge),
            3 => Some(TaskType::Stop),
            _ => None,
        }
    }

    /// The wire code of a task type.
    pub fn code(self) -> (r: u8)
        ensures
            r == task_code(self),
    {
        match self {
            TaskType::Charge => 0,
            TaskType::Storage => 1,
            TaskType::Discharge => 2,
            TaskType::Stop => 3,
        }
    }
}

// ---- link type -------------------------------------------------------------------

/// Which leads of the pack are connected.
#[derive(Debug, Clone, Copy, PartialEq, Eq, Structural)]
pub enum LinkType {
    /// Nothing connected.
    Nothing,
    /// Main leads only, no balance connector.
    SerialOnly,
    /// Balance connector only.
    BalanceOnly,
    /// Main leads and balance connector.
    Both,
}

/// The wire code of a link type.
pub open spec fn link_code(l: LinkType) -> u8 {
    match l {
        LinkType::Nothing => 0,
        LinkType::SerialOnly => 1,
        LinkType::BalanceOnly => 2,
        LinkType::Both => 3,
    }
}

/// The link type a code names, if any.
pub open spec fn link_from_code(code: u8) -> Option<LinkType> {
    if code == 0 {
        Some(LinkType::Nothing)
    } else if code == 1 {
        Some(LinkType::SerialOnly)
    } else if code == 2 {
        Some(LinkType::BalanceOnly)
    } else if code == 3 {
        Some(LinkType::Both)
    } else {
        None
    }
}

impl LinkType {
    /// Decodes a link code, or `None` for a value the app does not define.
    pub fn from_code(code: u8) -> (r: Option<Self>)
        ensures
            r == link_from_code(code),
    {
        match code {
            0 => Some(LinkType::Nothing),
            1 => Some(LinkType::SerialOnly),
            2 => Some(LinkType::BalanceOnly),
            3 => Some(LinkType::Both),
            _ => None,
        }
    }

    /// The wire code for this link type.
    pub fn code(self) -> (r: u8)
        ensures
            r == link_code(self),
    {
        match self {
            LinkType::Nothing => 0,
            LinkType::SerialOnly => 1,
            LinkType::BalanceOnly => 2,
            LinkType::Both => 3,
        }
    }
}

// ---- chemistry -------------------------------------------------------------------

/// A battery chemistry as selected when starting a task.
///
/// The codes are the positions in the list backing the app's chemistry
/// picker. The charger reports chemistry back on the same scale.
#[derive(Debug, Clone, Copy, PartialEq, Eq, Structural)]
pub enum BatteryKind {
    /// Lithium high voltage, 4.35 V per cell.
    LiHv,
    /// Lithium polymer, 4.20 V per cell.
    LiPo,
    /// Lithium ion, 4.10 V per cell.
    LiIon,
    /// Lithium iron phosphate, 3.65 V per cell.
    LiFe,
    /// Lead acid, 2.40 V per cell.
    Pb,
    /// Nickel metal hydride or nickel cadmium.
    NiMhCd,
    /// Ultra high voltage lithium, 4.45 V per cell.
    ULiHv,
    /// A chemistry code this library does not name.
    Unknown(u8),
}

/// The wire code of a chemistry.
pub open spec fn battery_code(k: BatteryKind) -> u8 {
    match k {
        BatteryKind::LiHv => 0,
        BatteryKind::LiPo => 1,
        BatteryKind::LiIon => 2,
        BatteryKind::LiFe => 3,
        BatteryKind::Pb => 4,
        BatteryKind::NiMhCd => 5,
        BatteryKind::ULiHv => 6,
        BatteryKind::Unknown(code) => code,
    }
}

/// The chemistry a code names.
pub open spec fn battery_from_code(code: u8) -> BatteryKind {
    if code == 0 {
        BatteryKind::LiHv
    } else if code == 1 {
        BatteryKind::LiPo
    } else if code == 2 {
        BatteryKind::LiIon
    } else if code == 3 {
        BatteryKind::LiFe
    } else if code == 4 {
        BatteryKind::Pb
    } else if code == 5 {
        BatteryKind::NiMhCd
    } else if code == 6 {
        BatteryKind::ULiHv
    } else {
        BatteryKind::Unknown(code)
    }
}

/// The name the app shows for a chemistry.
pub open spec fn battery_label(k: BatteryKind) -> Seq<char> {
    match k {
        BatteryKind::LiHv => "LiHv"@,
        BatteryKind::LiPo => "LiPo"@,
        BatteryKind::LiIon => "LiIon"@,
        BatteryKind::LiFe => "LiFe"@,
        BatteryKind::Pb => "Pb"@,
        BatteryKind::NiMhCd => "NiMH/Cd"@,
        BatteryKind::ULiHv => "ULiHv"@,
        BatteryKind::Unknown(code) => unknown_label(code),
    }
}

/// The fully charged voltage per cell, in millivolts, where there is one.
pub open spec fn battery_max_cell_mv(k: BatteryKind) -> Option<u16> {
    match k {
        BatteryKind::LiHv => Some(4350),
        BatteryKind::LiPo => Some(4200),
        BatteryKind::LiIon => Some(4100),
        BatteryKind::LiFe => Some(3650),
        BatteryKind::Pb => Some(2400),
        BatteryKind::ULiHv => Some(4450),
        _ => None,
    }
}

/// The storage voltage per cell, in millivolts, where there is one.
pub open spec fn battery_store_cell_mv(k: BatteryKind) -> Option<u16> {
    match k {
        BatteryKind::LiHv => Some(3850),
        BatteryKind::LiPo => Some(3800),
        BatteryKind::LiIon => Some(3700),
        BatteryKind::LiFe => Some(3300),
        _ => None,
    }
}

/// The discharge cutoff per cell, in millivolts, where there is one.
pub open spec fn battery_discharge_cell_mv(k: BatteryKind) -> Option<u16> {
    match k {
        BatteryKind::LiHv => Some(3400),
        BatteryKind::LiPo => Some(3300),
        BatteryKind::LiIon => Some(3200),
        BatteryKind::LiFe => Some(2900),
        BatteryKind::Pb => Some(1800),
        BatteryKind::NiMhCd => Some(900),
        _ => None,
    }
}

/// The largest cell count the app offers for a chemistry, where it sets one.
pub open spec fn battery_max_cells(k: BatteryKind) -> Option<u8> {
    match k {
        BatteryKind::LiHv | BatteryKind::LiPo | BatteryKind::LiIon | BatteryKind::LiFe
        | BatteryKind::ULiHv => Some(6),
        BatteryKind::Pb => Some(12),
        _ => None,
    }
}

/// A chemistry name as typed on a command line, lower-cased and with `/`,
/// `-` and `_` removed.
pub open spec fn chemistry_key(s: Seq<char>) -> Seq<char> {
    crate::text::lower_all(s).filter(|c: char| c != '/' && c != '-' && c != '_')
}

/// The chemistry a normalised name selects, if any.
pub open spec fn chemistry_of_key(key: Seq<char>) -> Option<BatteryKind> {
    if key == "lihv"@ {
        Some(BatteryKind::LiHv)
    } else if key == "lipo"@ {
        Some(BatteryKind::LiPo)
    } else if key == "liion"@ {
        Some(BatteryKind::LiIon)
    } else if key == "life"@ {
        Some(BatteryKind::LiFe)
    } else if key == "pb"@ || key == "lead"@ {
        Some(BatteryKind::Pb)
    } else if key == "nimh"@ || key == "nicd"@ || key == "nimhcd"@ {
        Some(BatteryKind::NiMhCd)
    } else if key == "ulihv"@ {
        Some(BatteryKind::ULiHv)
    } else {
        None
    }
}

/// How `str`'s `Debug` formatting renders a string: quoted, with escapes.
pub uninterp spec fn str_debug(s: Seq<char>) -> Seq<char>;

/// True for characters `Debug` prints as themselves inside a quoted string.
pub open spec fn debug_plain(c: char) -> bool {
    0x20 <= (c as u32) && (c as u32) <= 0x7E && c != '"' && c != '\\'
}

/// Renders `s` the way `format!("{:?}", s)` does.
///
/// Calls `str`'s `Debug` implementation. Its result is named by
/// [`str_debug`]; the contract adds only that printable ASCII other than a
/// quote or a backslash is shown as itself between double quotes, which is
/// what `char::escape_debug` documents. How other characters are escaped is
/// left unsaid.
#[verifier::external_body]
fn debug_string(s: &str) -> (r: String)
    ensures
        r@ == str_debug(s@),
        (forall|i: int| 0 <= i < s@.len() ==> debug_plain(#[trigger] s@[i])) ==> r@ == seq!['"']
            + s@ + seq!['"'],
{
    format!("{s:?}")
}

/// The error a chemistry name nobody knows produces.
pub open spec fn chemistry_error(key: Seq<char>) -> Seq<char> {
    "unknown chemistry "@ + str_debug(key)
        + ", expected one of lihv, lipo, liion, life, pb, nimh, ulihv"@
}

/// True when `a` holds exactly the characters of `b`.
pub fn chars_equal(a: &Vec<char>, b: &str) -> (r: bool)
    ensures
        r == (a@ == b@),
{
    let n = b.unicode_len();
    if a.len() != n {
        return false;
    }
    let mut i: usize = 0;
    while i < n
        invariant
            n == b@.len() == a@.len(),
            i <= n,
            forall|j: int| 0 <= j < i ==> a@[j] == b@[j],
        decreases n - i,
    {
        if a[i] != b.get_char(i) {
            return false;
        }
        i = i + 1;
    }
    assert(a@ == b@);
    true
}

impl BatteryKind {
    /// The wire code for this chemistry.
    pub fn code(self) -> (r: u8)
        ensures
            r == battery_code(self),
    {
        match self {
            BatteryKind::LiHv => 0,
            BatteryKind::LiPo => 1,
            BatteryKind::LiIon => 2,
            BatteryKind::LiFe => 3,
            BatteryKind::Pb => 4,
            BatteryKind::NiMhCd => 5,
            BatteryKind::ULiHv => 6,
            BatteryKind::Unknown(code) => code,
        }
    }

    /// Decodes a chemistry code.
    pub fn from_code(code: u8) -> (r: Self)
        ensures
            r == battery_from_code(code),
    {
        match code {
            0 => BatteryKind::LiHv,
            1 => BatteryKind::LiPo,
            2 => BatteryKind::LiIon,
            3 => BatteryKind::LiFe,
            4 => BatteryKind::Pb,
            5 => BatteryKind::NiMhCd,
            6 => BatteryKind::ULiHv,
            other => BatteryKind::Unknown(other),
        }
    }

    /// The fully charged voltage per cell in millivolts. Nickel chemistries
    /// terminate on voltage delta rather than a fixed ceiling, so they have
    /// none.
    pub fn max_cell_mv(self) -> (r: Option<u16>)
        ensures
            r == battery_max_cell_mv(self),
    {
        match self {
            BatteryKind::LiHv => Some(4350),
            BatteryKind::LiPo => Some(4200),
            BatteryKind::LiIon => Some(4100),
            BatteryKind::LiFe => Some(3650),
            BatteryKind::Pb => Some(2400),
            BatteryKind::ULiHv => Some(4450),
            BatteryKind::NiMhCd | BatteryKind::Unknown(_) => None,
        }
    }

    /// The storage voltage per cell in millivolts.
    pub fn store_cell_mv(self) -> (r: Option<u16>)
        ensures
            r == battery_store_cell_mv(self),
    {
        match self {
            BatteryKind::LiHv => Some(3850),
            BatteryKind::LiPo => Some(3800),
            BatteryKind::LiIon => Some(3700),
            BatteryKind::LiFe => Some(3300),
            BatteryKind::Pb | BatteryKind::NiMhCd | BatteryKind::ULiHv => None,
            BatteryKind::Unknown(_) => None,
        }
    }

    /// The discharge cutoff per cell in millivolts.
    pub fn discharge_cell_mv(self) -> (r: Option<u16>)
        ensures
            r == battery_discharge_cell_mv(self),
    {
        match self {
            BatteryKind::LiHv => Some(3400),
            BatteryKind::LiPo => Some(3300),
            BatteryKind::LiIon => Some(3200),
            BatteryKind::LiFe => Some(2900),
            BatteryKind::Pb => Some(1800),
            BatteryKind::NiMhCd => Some(900),
            BatteryKind::ULiHv => None,
            BatteryKind::Unknown(_) => None,
        }
    }

    /// The largest cell count the app offers for this chemistry. Nickel
    /// packs are not series limited there and report none.
    pub fn max_cells(self) -> (r: Option<u8>)
        ensures
            r == battery_max_cells(self),
    {
        match self {
            BatteryKind::LiHv
            | BatteryKind::LiPo
            | BatteryKind::LiIon
            | BatteryKind::LiFe
            | BatteryKind::ULiHv => Some(6),
            BatteryKind::Pb => Some(12),
            BatteryKind::NiMhCd | BatteryKind::Unknown(_) => None,
        }
    }

    /// The name the app shows for this chemistry.
    pub fn label(self) -> (r: String)
        ensures
            r@ == battery_label(self),
    {
        match self {
            BatteryKind::LiHv => string_of("LiHv"),
            BatteryKind::LiPo => string_of("LiPo"),
            BatteryKind::LiIon => string_of("LiIon"),
            BatteryKind::LiFe => string_of("LiFe"),
            BatteryKind::Pb => string_of("Pb"),
            BatteryKind::NiMhCd => string_of("NiMH/Cd"),
            BatteryKind::ULiHv => string_of("ULiHv"),
            BatteryKind::Unknown(code) => unknown_label_string(code),
        }
    }

    /// Reads a chemistry name as typed on a command line. Case is ignored,
    /// as are `/`, `-` and `_`.
    pub fn parse(s: &str) -> (r: Result<Self, String>)
        ensures
            chemistry_of_key(chemistry_key(s@)) matches Some(k) ==> r == Ok::<BatteryKind, String>(
                k,
            ),
            chemistry_of_key(chemistry_key(s@)) is None ==> (r matches Err(e) && e@
                == chemistry_error(chemistry_key(s@))),
    {
        let lowered = crate::text::ascii_lowercase(s);
        let chars = crate::text::chars_of(lowered.as_str());
        let mut key: Vec<char> = Vec::new();
        let mut i: usize = 0;
        let ghost keep = |c: char| c != '/' && c != '-' && c != '_';
        while i < chars.len()
            invariant
                i <= chars@.len(),
                chars@ == crate::text::lower_all(s@),
                keep == (|c: char| c != '/' && c != '-' && c != '_'),
                key@ == chars@.take(i as int).filter(keep),
            decreases chars@.len() - i,
        {
            let c = chars[i];
            proof {
                reveal_with_fuel(Seq::filter, 1);
                assert(chars@.take(i + 1).drop_last() == chars@.take(i as int));
            }
            if c != '/' && c != '-' && c != '_' {
                key.push(c);
            }
            proof {
                let t = chars@.take(i + 1);
                assert(t.last() == c);
                assert(t.filter(keep) == (if keep(c) {
                    chars@.take(i as int).filter(keep).push(c)
                } else {
                    chars@.take(i as int).filter(keep)
                }));
            }
            i = i + 1;
        }
        assert(chars@.take(chars@.len() as int) == chars@);
        assert(key@ == chemistry_key(s@));
        if chars_equal(&key, "lihv") {
            Ok(BatteryKind::LiHv)
        } else if chars_equal(&key, "lipo") {
            Ok(BatteryKind::LiPo)
        } else if chars_equal(&key, "liion") {
            Ok(BatteryKind::LiIon)
        } else if chars_equal(&key, "life") {
            Ok(BatteryKind::LiFe)
        } else if chars_equal(&key, "pb") || chars_equal(&key, "lead") {
            Ok(BatteryKind::Pb)
        } else if chars_equal(&key, "nimh") || chars_equal(&key, "nicd") || chars_equal(
            &key,
            "nimhcd",
        ) {
            Ok(BatteryKind::NiMhCd)
        } else if chars_equal(&key, "ulihv") {
            Ok(BatteryKind::ULiHv)
        } else {
            let key_text = crate::text::string_from_chars(&key, 0, key.len());
            assert(key@.subrange(0, key@.len() as int) == key@);
            let mut msg = string_of("unknown chemistry ");
            let quoted = debug_string(key_text.as_str());
            push_str(&mut msg, quoted.as_str());
            push_str(&mut msg, ", expected one of lihv, lipo, liion, life, pb, nimh, ulihv");
            Err(msg)
        }
    }
}

// ---- the other chemistry table -----------------------------------------------------

/// A second chemistry table the app carries, on a different scale from
/// [`BatteryKind`]: it starts at `Auto` and carries a no-battery sentinel.
#[derive(Debug, Clone, Copy, PartialEq, Eq, Structural)]
pub enum ReportedBattery {
    /// The charger is detecting the chemistry itself.
    Auto,
    /// Lithium high voltage.
    LiHv,
    /// Lithium ion.
    LiIon,
    /// Lithium iron phosphate.
    LiFe,
    /// Nickel zinc.
    NiZn,
    /// Nothing attached.
    NoBattery,
    /// Nickel metal hydride or nickel cadmium.
    NiMhCd,
    /// A chemistry code this library does not name.
    Unknown(u8),
}

/// The reported chemistry a code names.
pub open spec fn reported_from_code(code: u8) -> ReportedBattery {
    if code == 0 {
        ReportedBattery::Auto
    } else if code == 1 {
        ReportedBattery::LiHv
    } else if code == 2 {
        ReportedBattery::LiIon
    } else if code == 3 {
        ReportedBattery::LiFe
    } else if code == 4 {
        ReportedBattery::NiZn
    } else if code == 5 {
        ReportedBattery::NoBattery
    } else if code == 6 {
        ReportedBattery::NiMhCd
    } else {
        ReportedBattery::Unknown(code)
    }
}

/// The name the app shows for a reported chemistry.
pub open spec fn reported_label(k: ReportedBattery) -> Seq<char> {
    match k {
        ReportedBattery::Auto => "auto"@,
        ReportedBattery::LiHv => "LiHv"@,
        ReportedBattery::LiIon => "LiIon"@,
        ReportedBattery::LiFe => "LiFe"@,
        ReportedBattery::NiZn => "NiZn"@,
        ReportedBattery::NoBattery => "no battery"@,
        ReportedBattery::NiMhCd => "NiMH/Cd"@,
        ReportedBattery::Unknown(code) => unknown_label(code),
    }
}

impl ReportedBattery {
    /// Decodes a reported chemistry code.
    pub fn from_code(code: u8) -> (r: Self)
        ensures
            r == reported_from_code(code),
    {
        match code {
            0 => ReportedBattery::Auto,
            1 => ReportedBattery::LiHv,
            2 => ReportedBattery::LiIon,
            3 => ReportedBattery::LiFe,
            4 => ReportedBattery::NiZn,
            5 => ReportedBattery::NoBattery,
            6 => ReportedBattery::NiMhCd,
            other => ReportedBattery::Unknown(other),
        }
    }

    /// The name the app shows for this chemistry.
    pub fn label(self) -> (r: String)
        ensures
            r@ == reported_label(self),
    {
        match self {
            ReportedBattery::Auto => string_of("auto"),
            ReportedBattery::LiHv => string_of("LiHv"),
            ReportedBattery::LiIon => string_of("LiIon"),
            ReportedBattery::LiFe => string_of("LiFe"),
            ReportedBattery::NiZn => string_of("NiZn"),
            ReportedBattery::NoBattery => string_of("no battery"),
            ReportedBattery::NiMhCd => string_of("NiMH/Cd"),
            ReportedBattery::Unknown(code) => unknown_label_string(code),
        }
    }
}

// ---- charger state -----------------------------------------------------------------

/// What a charger channel is doing right now: the twelve cases of the app's
/// charger screen. Several codes share a label, so [`ChargerState::label`]
/// gives the app's wording and the variant keeps the distinction.
#[derive(Debug, Clone, Copy, PartialEq, Eq, Structural)]
pub enum ChargerState {
    /// Idle.
    Standby,
    /// Waking a deeply discharged pack.
    Activating,
    /// Ramping the charge current up.
    CurrentRise,
    /// Constant current charging.
    ConstantCurrent,
    /// Constant voltage charging.
    ConstantVoltage,
    /// Balancing at the target voltage. The app calls this fast charge complete.
    ConstantVoltageBalance,
    /// Trickle balancing. The app calls this charge complete.
    TrickleBalance,
    /// Charging up to the storage voltage.
    StorageCharging,
    /// Discharging down to the storage voltage.
    StorageDischarging,
    /// Storage voltage reached.
    Stored,
    /// Discharging.
    Discharging,
    /// Discharge finished.
    Discharged,
    /// A state code this library does not name.
    Unknown(u8),
}

/// The charger state a code names.
pub open spec fn charger_state_from_code(code: u8) -> ChargerState {
    if code == 0 {
        ChargerState::Standby
    } else if code == 1 {
        ChargerState::Activating
    } else if code == 2 {
        ChargerState::CurrentRise
    } else if code == 3 {
        ChargerState::ConstantCurrent
    } else if code == 4 {
        ChargerState::ConstantVoltage
    } else if code == 5 {
        ChargerState::ConstantVoltageBalance
    } else if code == 6 {
        ChargerState::TrickleBalance
    } else if code == 7 {
        ChargerState::StorageCharging
    } else if code == 8 {
        ChargerState::StorageDischarging
    } else if code == 9 {
        ChargerState::Stored
    } else if code == 10 {
        ChargerState::Discharging
    } else if code == 11 {
        ChargerState::Discharged
    } else {
        ChargerState::Unknown(code)
    }
}

/// The wire code of a charger state.
pub open spec fn charger_state_code(s: ChargerState) -> u8 {
    match s {
        ChargerState::Standby => 0,
        ChargerState::Activating => 1,
        ChargerState::CurrentRise => 2,
        ChargerState::ConstantCurrent => 3,
        ChargerState::ConstantVoltage => 4,
        ChargerState::ConstantVoltageBalance => 5,
        ChargerState::TrickleBalance => 6,
        ChargerState::StorageCharging => 7,
        ChargerState::StorageDischarging => 8,
        ChargerState::Stored => 9,
        ChargerState::Discharging => 10,
        ChargerState::Discharged => 11,
        ChargerState::Unknown(code) => code,
    }
}

/// True in the states where the app shows a stop button.
pub open spec fn charger_state_running(s: ChargerState) -> bool {
    !(s matches ChargerState::Standby || s matches ChargerState::Stored
        || s matches ChargerState::Discharged || s matches ChargerState::Unknown(_))
}

/// True once a task has finished.
pub open spec fn charger_state_complete(s: ChargerState) -> bool {
    s matches ChargerState::ConstantVoltageBalance || s matches ChargerState::TrickleBalance
        || s matches ChargerState::Stored || s matches ChargerState::Discharged
}

/// The wording the app shows for a charger state.
pub open spec fn charger_state_label(s: ChargerState) -> Seq<char> {
    match s {
        ChargerState::Standby => "Standby"@,
        ChargerState::Activating => "Activating"@,
        ChargerState::CurrentRise | ChargerState::ConstantCurrent | ChargerState::ConstantVoltage
        | ChargerState::StorageCharging => "Charging"@,
        ChargerState::ConstantVoltageBalance => "Fast charge completed"@,
        ChargerState::TrickleBalance => "Charge completed"@,
        ChargerState::StorageDischarging => "Storing"@,
        ChargerState::Stored => "Stored"@,
        ChargerState::Discharging => "Discharging"@,
        ChargerState::Discharged => "Discharged"@,
        ChargerState::Unknown(code) => unknown_label(code),
    }
}

impl ChargerState {
    /// Decodes a charger state code.
    pub fn from_code(code: u8) -> (r: Self)
        ensures
            r == charger_state_from_code(code),
    {
        match code {
            0 => ChargerState::Standby,
            1 => ChargerState::Activating,
            2 => ChargerState::CurrentRise,
            3 => ChargerState::ConstantCurrent,
            4 => ChargerState::ConstantVoltage,
            5 => ChargerState::ConstantVoltageBalance,
            6 => ChargerState::TrickleBalance,
            7 => ChargerState::StorageCharging,
            8 => ChargerState::StorageDischarging,
            9 => ChargerState::Stored,
            10 => ChargerState::Discharging,
            11 => ChargerState::Discharged,
            other => ChargerState::Unknown(other),
        }
    }

    /// True while the channel is moving energy: the states in which the app
    /// shows a stop button rather than a start button.
    pub fn is_running(self) -> (r: bool)
        ensures
            r == charger_state_running(self),
    {
        !matches!(
            self,
            ChargerState::Standby | ChargerState::Stored | ChargerState::Discharged
                | ChargerState::Unknown(_)
        )
    }

    /// True once the task has finished and the charger has stopped working.
    pub fn is_complete(self) -> (r: bool)
        ensures
            r == charger_state_complete(self),
    {
        matches!(
            self,
            ChargerState::ConstantVoltageBalance | ChargerState::TrickleBalance
                | ChargerState::Stored | ChargerState::Discharged
        )
    }

    /// The wording the app shows for this state.
    pub fn label(self) -> (r: String)
        ensures
            r@ == charger_state_label(self),
    {
        match self {
            ChargerState::Standby => string_of("Standby"),
            ChargerState::Activating => string_of("Activating"),
            ChargerState::CurrentRise
            | ChargerState::ConstantCurrent
            | ChargerState::ConstantVoltage
            | ChargerState::StorageCharging => string_of("Charging"),
            ChargerState::ConstantVoltageBalance => string_of("Fast charge completed"),
            ChargerState::TrickleBalance => string_of("Charge completed"),
            ChargerState::StorageDischarging => string_of("Storing"),
            ChargerState::Stored => string_of("Stored"),
            ChargerState::Discharging => string_of("Discharging"),
            ChargerState::Discharged => string_of("Discharged"),
            ChargerState::Unknown(code) => unknown_label_string(code),
        }
    }
}

// ---- cell-slot charger state ---------------------------------------------------------

/// The other work-state table the app carries, used by ISDT's cell-slot
/// chargers.
#[derive(Debug, Clone, Copy, PartialEq, Eq, Structural)]
pub enum ChannelState {
    /// Nothing attached.
    NoBattery,
    /// A pack is attached and idle.
    BatteryPresent,
    /// A pack is attached with reversed polarity.
    BatteryReversed,
    /// Charging.
    Charging,
    /// Charge finished.
    Charged,
    /// Discharging.
    Discharging,
    /// Discharge finished.
    Discharged,
    /// Moving the pack to its storage voltage.
    Storing,
    /// Storage voltage reached.
    Stored,
    /// Running a charge and discharge cycle.
    Cycling,
    /// Cycling finished.
    Cycled,
    /// A state code this library does not name.
    Unknown(u8),
}

/// The channel state a code names.
pub open spec fn channel_state_from_code(code: u8) -> ChannelState {
    if code == 0 {
        ChannelState::NoBattery
    } else if code == 1 {
        ChannelState::BatteryPresent
    } else if code == 2 {
        ChannelState::BatteryReversed
    } else if code == 3 {
        ChannelState::Charging
    } else if code == 4 {
        ChannelState::Charged
    } else if code == 5 {
        ChannelState::Discharging
    } else if code == 6 {
        ChannelState::Discharged
    } else if code == 7 {
        ChannelState::Storing
    } else if code == 8 {
        ChannelState::Stored
    } else if code == 9 {
        ChannelState::Cycling
    } else if code == 10 {
        ChannelState::Cycled
    } else {
        ChannelState::Unknown(code)
    }
}

/// The label the app shows for a channel state.
pub open spec fn channel_state_label(s: ChannelState) -> Seq<char> {
    match s {
        ChannelState::NoBattery => "no battery"@,
        ChannelState::BatteryPresent => "battery exist"@,
        ChannelState::BatteryReversed => "battery reversed"@,
        ChannelState::Charging => "charging"@,
        ChannelState::Charged => "charged"@,
        ChannelState::Discharging => "discharging"@,
        ChannelState::Discharged => "discharged"@,
        ChannelState::Storing => "storing"@,
        ChannelState::Stored => "stored"@,
        ChannelState::Cycling => "cycling"@,
        ChannelState::Cycled => "cycled"@,
        ChannelState::Unknown(code) => unknown_label(code),
    }
}

impl ChannelState {
    /// Decodes a channel state code.
    pub fn from_code(code: u8) -> (r: Self)
        ensures
            r == channel_state_from_code(code),
    {
        match code {
            0 => ChannelState::NoBattery,
            1 => ChannelState::BatteryPresent,
            2 => ChannelState::BatteryReversed,
            3 => ChannelState::Charging,
            4 => ChannelState::Charged,
            5 => ChannelState::Discharging,
            6 => ChannelState::Discharged,
            7 => ChannelState::Storing,
            8 => ChannelState::Stored,
            9 => ChannelState::Cycling,
            10 => ChannelState::Cycled,
            other => ChannelState::Unknown(other),
        }
    }

    /// True while the channel is moving energy.
    pub fn is_running(self) -> (r: bool)
        ensures
            r == (self matches ChannelState::Charging || self matches ChannelState::Discharging
                || self matches ChannelState::Storing || self matches ChannelState::Cycling),
    {
        matches!(
            self,
            ChannelState::Charging | ChannelState::Discharging | ChannelState::Storing
                | ChannelState::Cycling
        )
    }

    /// The label the app shows for this state.
    pub fn label(self) -> (r: String)
        ensures
            r@ == channel_state_label(self),
    {
        match self {
            ChannelState::NoBattery => string_of("no battery"),
            ChannelState::BatteryPresent => string_of("battery exist"),
            ChannelState::BatteryReversed => string_of("battery reversed"),
            ChannelState::Charging => string_of("charging"),
            ChannelState::Charged => string_of("charged"),
            ChannelState::Discharging => string_of("discharging"),
            ChannelState::Discharged => string_of("discharged"),
            ChannelState::Storing => string_of("storing"),
            ChannelState::Stored => string_of("stored"),
            ChannelState::Cycling => string_of("cycling"),
            ChannelState::Cycled => string_of("cycled"),
            ChannelState::Unknown(code) => unknown_label_string(code),
        }
    }
}

// ---- calibration and power -----------------------------------------------------------

/// Whether a calibration frame writes new constants or restores the factory set.
#[derive(Debug, Clone, Copy, PartialEq, Eq, Structural)]
pub enum CalibrationMode {
    /// Store the supplied reference voltages as the new constants.
    Calibrate,
    /// Discard the stored constants and return to the factory set.
    RestoreDefaults,
}

/// The wire code of a calibration mode.
pub open spec fn calibration_code(m: CalibrationMode) -> u8 {
    match m {
        CalibrationMode::Calibrate => 0,
        CalibrationMode::RestoreDefaults => 255,
    }
}

impl CalibrationMode {
    /// The wire code for this mode.
    pub fn code(self) -> (r: u8)
        ensures
            r == calibration_code(self),
    {
        match self {
            CalibrationMode::Calibrate => 0,
            CalibrationMode::RestoreDefaults => 255,
        }
    }
}

/// What kind of supply is feeding the charger.
#[derive(Debug, Clone, Copy, PartialEq, Eq, Structural)]
pub enum PowerType {
    /// A BattGo smart pack.
    Battgo,
    /// An ISDT smart power supply.
    SmartPower,
    /// A supply code this library does not name.
    Unknown(u8),
}

/// The supply kind a code names.
pub open spec fn power_type_from_code(code: u8) -> PowerType {
    if code == 0 {
        PowerType::Battgo
    } else if code == 1 {
        PowerType::SmartPower
    } else {
        PowerType::Unknown(code)
    }
}

impl PowerType {
    /// Decodes a supply code.
    pub fn from_code(code: u8) -> (r: Self)
        ensures
            r == power_type_from_code(code),
    {
        match code {
            0 => PowerType::Battgo,
            1 => PowerType::SmartPower,
            other => PowerType::Unknown(other),
        }
    }
}

// ---- fault mask ------------------------------------------------------------------------

/// The label of one fault bit, in the charger set the app uses.
pub open spec fn error_flag_label(bit: nat) -> Seq<char> {
    if bit == 0 {
        "output overcurrent"@
    } else if bit == 1 {
        "output overvoltage"@
    } else if bit == 2 {
        "input overvoltage"@
    } else if bit == 3 {
        "input undervoltage"@
    } else if bit == 4 {
        "input unstable voltage"@
    } else if bit == 5 {
        "temperature anomaly"@
    } else if bit == 6 {
        "charging timeout"@
    } else if bit == 7 {
        "linking state destroyed"@
    } else if bit == 8 {
        "battery cell overvoltage"@
    } else if bit == 9 {
        "battery reversed"@
    } else if bit == 10 {
        "balance charging unsupported"@
    } else if bit == 11 {
        "battery node linking error"@
    } else if bit == 12 {
        "output no battery"@
    } else if bit == 13 {
        "unknown error"@
    } else if bit == 14 {
        "unknown error 1"@
    } else {
        "unknown error 2"@
    }
}

/// True when bit `bit` of `mask` is set.
pub open spec fn bit_set(mask: u16, bit: u16) -> bool {
    mask & (1u16 << bit) != 0
}

/// The labels of the set bits among the lowest `n`, lowest bit first.
pub open spec fn flag_labels(mask: u16, n: nat) -> Seq<Seq<char>>
    decreases n,
{
    if n == 0 {
        Seq::empty()
    } else {
        let bit = (n - 1) as nat;
        let rest = flag_labels(mask, bit);
        if bit_set(mask, bit as u16) {
            rest.push(error_flag_label(bit))
        } else {
            rest
        }
    }
}

/// The text views of a list of labels.
pub open spec fn label_views(v: Seq<&str>) -> Seq<Seq<char>> {
    v.map_values(|s: &str| s@)
}

/// How the app prints a fault mask: "none", or the labels joined by commas.
pub open spec fn error_flags_text(mask: u16) -> Seq<char> {
    if mask == 0 {
        "none"@
    } else {
        join(flag_labels(mask, 16), ", "@)
    }
}

fn flag_label_str(bit: u16) -> (r: &'static str)
    requires
        bit < 16,
    ensures
        r@ == error_flag_label(bit as nat),
{
    match bit {
        0 => "output overcurrent",
        1 => "output overvoltage",
        2 => "input overvoltage",
        3 => "input undervoltage",
        4 => "input unstable voltage",
        5 => "temperature anomaly",
        6 => "charging timeout",
        7 => "linking state destroyed",
        8 => "battery cell overvoltage",
        9 => "battery reversed",
        10 => "balance charging unsupported",
        11 => "battery node linking error",
        12 => "output no battery",
        13 => "unknown error",
        14 => "unknown error 1",
        _ => "unknown error 2",
    }
}

/// A charger fault mask: sixteen bits, several of which can be set at once.
#[derive(Debug, Clone, Copy, PartialEq, Eq, Structural)]
pub struct ErrorFlags(pub u16);

impl ErrorFlags {
    /// True when the charger reported no fault.
    pub fn is_clear(self) -> (r: bool)
        ensures
            r == (self.0 == 0),
    {
        self.0 == 0
    }

    /// The label of every set bit, lowest bit first.
    pub fn labels(self) -> (r: Vec<&'static str>)
        ensures
            label_views(r@) == flag_labels(self.0, 16),
    {
        let mut out: Vec<&'static str> = Vec::new();
        let mut bit: u16 = 0;
        while bit < 16
            invariant
                bit <= 16,
                label_views(out@) == flag_labels(self.0, bit as nat),
            decreases 16 - bit,
        {
            let ghost before = label_views(out@);
            if self.0 & (1u16 << bit) != 0 {
                let l = flag_label_str(bit);
                out.push(l);
                assert(label_views(out@) == before.push(l@));
            }
            bit = bit + 1;
        }
        out
    }

    /// The text the app shows for this mask: `none`, or the labels of the
    /// set bits joined with commas.
    pub fn to_string(self) -> (r: String)
        ensures
            r@ == error_flags_text(self.0),
    {
        if self.is_clear() {
            return string_of("none");
        }
        let labels = self.labels();
        let mut out = String::new();
        let mut i: usize = 0;
        let ghost items = label_views(labels@);
        while i < labels.len()
            invariant
                i <= labels@.len(),
                items == label_views(labels@),
                out@ == join(items.take(i as int), ", "@),
            decreases labels@.len() - i,
        {
            assert(items.take(i + 1).drop_last() == items.take(i as int));
            if i > 0 {
                push_str(&mut out, ", ");
            } else {
                assert(items.take(0).len() == 0);
            }
            push_str(&mut out, labels[i]);
            proof {
                if i == 0 {
                    assert(items.take(1)[0] == items[0]);
                }
            }
            i = i + 1;
        }
        assert(items.take(items.len() as int) == items);
        out
    }
}

// ---- ranges the app enforces ----------------------------------------------------------

/// Smallest charge and discharge current the CM1620 screen accepts, in milliamps.
pub const WORK_CURRENT_MA_MIN: u32 = 100;

/// Largest charge and discharge current the CM1620 screen accepts, in milliamps.
pub const WORK_CURRENT_MA_MAX: u32 = 5000;

/// Smallest cell count the CM1620 charge sheet accepts.
pub const CM1620_CELLS_MIN: u8 = 2;

/// Largest cell count the CM1620 charge sheet accepts.
pub const CM1620_CELLS_MAX: u8 = 16;

/// Smallest input power ceiling the settings screen accepts, in watts.
pub const MAX_INPUT_POWER_W_MIN: u32 = 100;

/// Largest input power ceiling the settings screen accepts, in watts.
pub const MAX_INPUT_POWER_W_MAX: u32 = 1100;

/// Smallest input undervoltage cutoff the settings screen accepts, in volts.
pub const MIN_INPUT_VOLT_V_MIN: u32 = 11;

/// Largest input undervoltage cutoff the settings screen accepts, in volts.
pub const MIN_INPUT_VOLT_V_MAX: u32 = 70;

/// Largest internal resistance the app treats as a real measurement, in
/// milliohms.
pub const MAX_INNER_RESISTANCE: u16 = 6553;

// ---- laws ----------------------------------------------------------------------

/// Every chemistry code survives decoding and re-encoding.
pub proof fn law_battery_code_round_trip(code: u8)
    ensures
        battery_code(battery_from_code(code)) == code,
{
}

/// Every named chemistry survives encoding and decoding; so does an unknown
/// one, unless its code belongs to a named chemistry.
pub proof fn law_battery_kind_round_trip(k: BatteryKind)
    requires
        !(k matches BatteryKind::Unknown(c) && c <= 6),
    ensures
        battery_from_code(battery_code(k)) == k,
{
}

/// A task type survives encoding and decoding, and exactly the codes below
/// four name one.
pub proof fn law_task_code_round_trip(t: TaskType, code: u8)
    ensures
        task_from_code(task_code(t)) == Some(t),
        task_from_code(code) is Some <==> code < 4,
        task_from_code(code) matches Some(u) ==> task_code(u) == code,
{
}

/// A link type survives encoding and decoding, and exactly the codes below
/// four name one.
pub proof fn law_link_code_round_trip(l: LinkType, code: u8)
    ensures
        link_from_code(link_code(l)) == Some(l),
        link_from_code(code) is Some <==> code < 4,
        link_from_code(code) matches Some(u) ==> link_code(u) == code,
{
}

/// Every work-state byte survives decoding and re-encoding, and every named
/// state survives the other way.
pub proof fn law_charger_state_round_trip(code: u8, s: ChargerState)
    ensures
        charger_state_code(charger_state_from_code(code)) == code,
        !(s matches ChargerState::Unknown(c) && c <= 11) ==> charger_state_from_code(
            charger_state_code(s),
        ) == s,
{
}

proof fn lemma_no_labels_no_bits(mask: u16, n: nat)
    requires
        n <= 16,
        flag_labels(mask, n).len() == 0,
    ensures
        forall|b: u16| b < n ==> !bit_set(mask, b),
    decreases n,
{
    if n > 0 {
        let bit = (n - 1) as nat;
        lemma_no_labels_no_bits(mask, bit);
        assert(!bit_set(mask, bit as u16));
        assert forall|b: u16| b < n implies !bit_set(mask, b) by {
            if b < bit {
            } else {
                assert(b == bit as u16);
            }
        }
    }
}

proof fn lemma_zero_has_no_labels(n: nat)
    requires
        n <= 16,
    ensures
        flag_labels(0, n).len() == 0,
    decreases n,
{
    if n > 0 {
        let bit = (n - 1) as u16;
        lemma_zero_has_no_labels((n - 1) as nat);
        assert(0u16 & (1u16 << bit) == 0) by (bit_vector)
            requires
                bit < 16,
        ;
    }
}

/// A mask is clear exactly when it names no fault.
pub proof fn law_clear_iff_no_labels(mask: u16)
    ensures
        (mask == 0) <==> flag_labels(mask, 16).len() == 0,
{
    if mask == 0 {
        lemma_zero_has_no_labels(16);
    }
    if flag_labels(mask, 16).len() == 0 {
        lemma_no_labels_no_bits(mask, 16);
        assert(!bit_set(mask, 0) && !bit_set(mask, 1) && !bit_set(mask, 2) && !bit_set(mask, 3)
            && !bit_set(mask, 4) && !bit_set(mask, 5) && !bit_set(mask, 6) && !bit_set(mask, 7)
            && !bit_set(mask, 8) && !bit_set(mask, 9) && !bit_set(mask, 10) && !bit_set(mask, 11)
            && !bit_set(mask, 12) && !bit_set(mask, 13) && !bit_set(mask, 14) && !bit_set(
            mask,
            15,
        ));
        assert(mask == 0) by (bit_vector)
            requires
                mask & (1u16 << 0u16) == 0,
                mask & (1u16 << 1u16) == 0,
                mask & (1u16 << 2u16) == 0,
                mask & (1u16 << 3u16) == 0,
                mask & (1u16 << 4u16) == 0,
                mask & (1u16 << 5u16) == 0,
                mask & (1u16 << 6u16) == 0,
                mask & (1u16 << 7u16) == 0,
                mask & (1u16 << 8u16) == 0,
                mask & (1u16 << 9u16) == 0,
                mask & (1u16 << 10u16) == 0,
                mask & (1u16 << 11u16) == 0,
                mask & (1u16 << 12u16) == 0,
                mask & (1u16 << 13u16) == 0,
                mask & (1u16 << 14u16) == 0,
                mask & (1u16 << 15u16) == 0,
        ;
    }
}

/// The charger's fault labels, bit 0 first.
pub open spec fn fault_label_table() -> Seq<Seq<char>> {
    seq![
        "output overcurrent"@,
        "output overvoltage"@,
        "input overvoltage"@,
        "input undervoltage"@,
        "input unstable voltage"@,
        "temperature anomaly"@,
        "charging timeout"@,
        "linking state destroyed"@,
        "battery cell overvoltage"@,
        "battery reversed"@,
        "balance charging unsupported"@,
        "battery node linking error"@,
        "output no battery"@,
        "unknown error"@,
        "unknown error 1"@,
        "unknown error 2"@,
    ]
}

/// Each fault bit carries its own label from the charger's table, bit 0
/// first.
pub proof fn law_fault_label_table(bit: nat)
    requires
        bit < 16,
    ensures
        error_flag_label(bit) == fault_label_table()[bit as int],
        fault_label_table().len() == 16,
{
}

proof fn lemma_single_fault(b: u16, n: nat)
    requires
        b < 16,
        n <= 16,
    ensures
        flag_labels(1u16 << b, n) == (if n <= b {
            Seq::<Seq<char>>::empty()
        } else {
            seq![error_flag_label(b as nat)]
        }),
    decreases n,
{
    if n > 0 {
        let j = (n - 1) as u16;
        lemma_single_fault(b, (n - 1) as nat);
        assert(bit_set(1u16 << b, j) <==> j == b) by (bit_vector)
            requires
                b < 16,
                j < 16,
        ;
        if j == b {
            assert(Seq::<Seq<char>>::empty().push(error_flag_label(b as nat)) == seq![
                error_flag_label(b as nat),
            ]);
        }
    }
}

/// A mask with the single bit `b` set names exactly that bit's fault, from
/// the charger's table.
pub proof fn law_single_fault(b: u16)
    requires
        b < 16,
    ensures
        flag_labels(1u16 << b, 16) == seq![fault_label_table()[b as int]],
{
    lemma_single_fault(b, 16);
    law_fault_label_table(b as nat);
}

/// A channel is running while it moves energy: from activation through the
/// storage discharge (codes 1 to 8) and while discharging (code 10). Standby,
/// the two finished states and codes without a name are not running.
pub proof fn law_running_states(s: ChargerState, code: u8)
    ensures
        charger_state_running(s) <==> (s is Activating || s is CurrentRise || s is ConstantCurrent
            || s is ConstantVoltage || s is ConstantVoltageBalance || s is TrickleBalance
            || s is StorageCharging || s is StorageDischarging || s is Discharging),
        charger_state_running(charger_state_from_code(code)) <==> (1 <= code <= 8 || code == 10),
{
}

/// The wire codes the charger uses, enumeration by enumeration: tasks
/// charge, storage, discharge, stop are 0 to 3; links none, main leads,
/// balance connector, both are 0 to 3; chemistries LiHv, LiPo, LiIon, LiFe,
/// Pb, NiMH/Cd, ULiHv are 0 to 6; and the charger states run from standby
/// (0) through discharged (11) in the order the charger numbers them.
pub proof fn law_wire_codes(code: u8)
    ensures
        task_code(TaskType::Charge) == 0 && task_code(TaskType::Storage) == 1 && task_code(
            TaskType::Discharge,
        ) == 2 && task_code(TaskType::Stop) == 3,
        link_code(LinkType::Nothing) == 0 && link_code(LinkType::SerialOnly) == 1 && link_code(
            LinkType::BalanceOnly,
        ) == 2 && link_code(LinkType::Both) == 3,
        battery_code(BatteryKind::LiHv) == 0 && battery_code(BatteryKind::LiPo) == 1
            && battery_code(BatteryKind::LiIon) == 2 && battery_code(BatteryKind::LiFe) == 3
            && battery_code(BatteryKind::Pb) == 4 && battery_code(BatteryKind::NiMhCd) == 5
            && battery_code(BatteryKind::ULiHv) == 6,
        charger_state_from_code(code) == (if code == 0 {
            ChargerState::Standby
        } else if code == 1 {
            ChargerState::Activating
        } else if code == 2 {
            ChargerState::CurrentRise
        } else if code == 3 {
            ChargerState::ConstantCurrent
        } else if code == 4 {
            ChargerState::ConstantVoltage
        } else if code == 5 {
            ChargerState::ConstantVoltageBalance
        } else if code == 6 {
            ChargerState::TrickleBalance
        } else if code == 7 {
            ChargerState::StorageCharging
        } else if code == 8 {
            ChargerState::StorageDischarging
        } else if code == 9 {
            ChargerState::Stored
        } else if code == 10 {
            ChargerState::Discharging
        } else if code == 11 {
            ChargerState::Discharged
        } else {
            ChargerState::Unknown(code)
        }),
{
}

/// The number of bits set in `x`.
pub open spec fn count_ones(x: u16) -> nat
    decreases x,
{
    if x == 0 {
        0
    } else {
        proof {
            assert(x != 0 ==> (x >> 1u16) < x) by (bit_vector);
        }
        ((x & 1u16) as nat) + count_ones(x >> 1u16)
    }
}

proof fn lemma_label_count(mask: u16, n: nat)
    requires
        n <= 16,
    ensures
        flag_labels(mask, n).len() + count_ones(mask >> (n as u16)) == count_ones(mask),
    decreases n,
{
    if n == 0 {
        assert(mask >> 0u16 == mask) by (bit_vector);
    } else {
        let b = (n - 1) as u16;
        lemma_label_count(mask, (n - 1) as nat);
        let x = mask >> b;
        let c = n as u16;
        assert((x >> 1u16) == mask >> c && (bit_set(mask, b) <==> (x & 1u16) == 1u16) && (x
            & 1u16) <= 1u16) by (bit_vector)
            requires
                x == mask >> b,
                b < 16,
                c == b + 1,
        ;
        assert(count_ones(x) == ((x & 1u16) as nat) + count_ones(x >> 1u16)) by {
            if x == 0 {
                assert((0u16 >> 1u16) == 0u16 && (0u16 & 1u16) == 0u16) by (bit_vector);
            }
        }
    }
}

/// The labels of a mask name each set bit once: there are as many labels
/// as bits set.
pub proof fn law_label_count(mask: u16)
    ensures
        flag_labels(mask, 16).len() == count_ones(mask),
{
    lemma_label_count(mask, 16);
    assert(mask >> 16u16 == 0u16) by (bit_vector);
}

impl std::str::FromStr for BatteryKind {
    type Err = String;

    fn from_str(s: &str) -> (r: Result<BatteryKind, String>)
        ensures
            chemistry_of_key(chemistry_key(s@)) matches Some(k) ==> r == Ok::<BatteryKind, String>(
                k,
            ),
            chemistry_of_key(chemistry_key(s@)) is None ==> (r matches Err(e) && e@
                == chemistry_error(chemistry_key(s@))),
    {
        BatteryKind::parse(s)
    }
}

} // verus!
