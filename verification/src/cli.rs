//! What the command line front end decides before and after it talks to a
//! charger: parsing its own arguments, checking them the way the app does,
//! choosing an identifier to present, and laying out what it prints.

use vstd::prelude::*;
use vstd::string::*;

use crate::ble::WriteChannel;
use crate::request::Request;
use crate::session::{task_voltage, task_voltage_spec};
use crate::text::{
    char_is_space, chars_of, decimal, decimal_pad2, is_space, push_char, push_decimal, push_str,
    string_from_chars, trim, trimmed,
};
use crate::tokens::{parse, parse_spec, ClientId, TokenError};
use crate::types::{
    BatteryKind, CalibrationMode, TaskType, CM1620_CELLS_MAX, CM1620_CELLS_MIN,
    MAX_INPUT_POWER_W_MAX, MAX_INPUT_POWER_W_MIN, MIN_INPUT_VOLT_V_MAX, MIN_INPUT_VOLT_V_MIN,
    WORK_CURRENT_MA_MAX, WORK_CURRENT_MA_MIN,
};

verus! {

// ---- printing ------------------------------------------------------------------------

/// `h:mm:ss`, each field at least two digits.
pub open spec fn elapsed_text(secs: nat) -> Seq<char> {
    decimal_pad2(secs / 3600) + seq![':'] + decimal_pad2((secs % 3600) / 60) + seq![':']
        + decimal_pad2(secs % 60)
}

fn push_pad2(s: &mut String, n: u64)
    ensures
        final(s)@ == old(s)@ + decimal_pad2(n as nat),
{
    if n < 10 {
        push_char(s, '0');
        push_decimal(s, n);
        assert(decimal_pad2(n as nat) == seq!['0'] + decimal(n as nat));
    } else {
        push_decimal(s, n);
    }
}

/// A task's elapsed time, given in whole seconds, as `hh:mm:ss`.
pub fn format_elapsed(secs: u64) -> (r: String)
    ensures
        r@ == elapsed_text(secs as nat),
{
    let mut s = String::new();
    push_pad2(&mut s, secs / 3600);
    push_char(&mut s, ':');
    push_pad2(&mut s, (secs % 3600) / 60);
    push_char(&mut s, ':');
    push_pad2(&mut s, secs % 60);
    s
}

/// A four part version as `a.b.c.d`.
pub open spec fn version_text(v: [u8; 4]) -> Seq<char> {
    decimal(v[0] as nat) + seq!['.'] + decimal(v[1] as nat) + seq!['.'] + decimal(v[2] as nat)
        + seq!['.'] + decimal(v[3] as nat)
}

/// A four part version as `a.b.c.d`.
pub fn version(v: &[u8; 4]) -> (r: String)
    ensures
        r@ == version_text(*v),
{
    let mut s = String::new();
    push_decimal(&mut s, v[0] as u64);
    push_char(&mut s, '.');
    push_decimal(&mut s, v[1] as u64);
    push_char(&mut s, '.');
    push_decimal(&mut s, v[2] as u64);
    push_char(&mut s, '.');
    push_decimal(&mut s, v[3] as u64);
    s
}

/// How many cell positions to show: up to and including the last connected
/// cell, so a gap reads as an unconnected cell rather than a short pack.
pub open spec fn shown_cells(cells: Seq<u16>) -> nat
    decreases cells.len(),
{
    if cells.len() == 0 {
        0
    } else if cells.last() > 0 {
        cells.len()
    } else {
        shown_cells(cells.drop_last())
    }
}

/// How many cell positions to show, as [`shown_cells`] describes.
pub fn last_connected(cells: &Vec<u16>) -> (r: usize)
    ensures
        r == shown_cells(cells@),
{
    let mut n = cells.len();
    assert(cells@.take(n as int) == cells@);
    while n > 0 && cells[n - 1] == 0
        invariant
            n <= cells@.len(),
            shown_cells(cells@) == shown_cells(cells@.take(n as int)),
        decreases n,
    {
        assert(cells@.take(n as int).drop_last() == cells@.take(n - 1));
        n = n - 1;
    }
    n
}

/// What the scan table says of binding: waiting, bound, or unknown.
pub open spec fn binding_label_spec(binding_mode: Option<bool>) -> Seq<char> {
    match binding_mode {
        Some(true) => "waiting"@,
        Some(false) => "bound"@,
        None => "-"@,
    }
}

/// What the scan table says of binding.
pub fn binding_label(binding_mode: Option<bool>) -> (r: &'static str)
    ensures
        r@ == binding_label_spec(binding_mode),
{
    match binding_mode {
        Some(true) => "waiting",
        Some(false) => "bound",
        None => "-",
    }
}

/// A signal strength as the scan table shows it: the number, or `-`.
pub open spec fn rssi_text_spec(rssi: Option<i16>) -> Seq<char> {
    match rssi {
        None => "-"@,
        Some(r) => if r < 0 {
            seq!['-'] + decimal((-r) as nat)
        } else {
            decimal(r as nat)
        },
    }
}

/// A signal strength as the scan table shows it.
pub fn rssi_text(rssi: Option<i16>) -> (r: String)
    ensures
        r@ == rssi_text_spec(rssi),
{
    let mut s = String::new();
    match rssi {
        None => push_str(&mut s, "-"),
        Some(r) => {
            if r < 0 {
                push_char(&mut s, '-');
                let magnitude: u64 = (0i32 - r as i32) as u64;
                push_decimal(&mut s, magnitude);
            } else {
                push_decimal(&mut s, r as u64);
            }
        },
    }
    s
}

// ---- parsing numbers -----------------------------------------------------------------

/// Why a number did not parse, as the standard library reports it.
#[derive(Debug, Clone, Copy, PartialEq, Eq, Structural)]
pub enum IntError {
    /// There was nothing to parse.
    Empty,
    /// A character was not a digit of the radix.
    InvalidDigit,
    /// The value does not fit.
    PosOverflow,
}

/// The message the standard library gives for each kind of parse failure.
pub open spec fn int_error_message(e: IntError) -> Seq<char> {
    match e {
        IntError::Empty => "cannot parse integer from empty string"@,
        IntError::InvalidDigit => "invalid digit found in string"@,
        IntError::PosOverflow => "number too large to fit in target type"@,
    }
}

impl IntError {
    /// The message the standard library gives for this failure.
    pub fn message(self) -> (r: &'static str)
        ensures
            r@ == int_error_message(self),
    {
        match self {
            IntError::Empty => "cannot parse integer from empty string",
            IntError::InvalidDigit => "invalid digit found in string",
            IntError::PosOverflow => "number too large to fit in target type",
        }
    }
}

/// The value of `c` as a digit, for a radix up to 36, if it is one.
pub open spec fn digit_value(c: char, radix: nat) -> Option<nat> {
    let v: nat = if '0' <= c && c <= '9' {
        (c as nat - 48) as nat
    } else if 'a' <= c && c <= 'z' {
        (c as nat - 87) as nat
    } else if 'A' <= c && c <= 'Z' {
        (c as nat - 55) as nat
    } else {
        99
    };
    if v < radix {
        Some(v)
    } else {
        None
    }
}

/// Reading digits left to right from position `i` onto `acc`: the first
/// character that is not a digit, or the first digit that takes the value
/// past `max`, decides the failure.
pub open spec fn digits_from(d: Seq<char>, radix: nat, max: nat, acc: nat, i: int) -> Result<
    nat,
    IntError,
>
    decreases d.len() - i,
{
    if i < 0 || i >= d.len() {
        Ok(acc)
    } else {
        match digit_value(d[i], radix) {
            None => Err(IntError::InvalidDigit),
            Some(v) => if acc * radix + v > max {
                Err(IntError::PosOverflow)
            } else {
                digits_from(d, radix, max, acc * radix + v, i + 1)
            },
        }
    }
}

/// How an unsigned integer type's `from_str_radix` reads `s`: an empty
/// string is empty, a lone sign is an invalid digit, one leading `+` is
/// allowed, and the rest must be digits whose value stays at most `max`.
pub open spec fn parse_uint(s: Seq<char>, radix: nat, max: nat) -> Result<nat, IntError> {
    if s.len() == 0 {
        Err(IntError::Empty)
    } else if s.len() == 1 && (s[0] == '+' || s[0] == '-') {
        Err(IntError::InvalidDigit)
    } else if s[0] == '+' {
        digits_from(s, radix, max, 0, 1)
    } else {
        digits_from(s, radix, max, 0, 0)
    }
}

fn char_digit(c: char, radix: u32) -> (r: Option<u32>)
    requires
        2 <= radix <= 36,
    ensures
        match digit_value(c, radix as nat) {
            Some(v) => r == Some(v as u32),
            None => r is None,
        },
{
    let v: u32 = if '0' <= c && c <= '9' {
        (c as u32) - 48
    } else if 'a' <= c && c <= 'z' {
        (c as u32) - 87
    } else if 'A' <= c && c <= 'Z' {
        (c as u32) - 55
    } else {
        99
    };
    if v < radix {
        Some(v)
    } else {
        None
    }
}

/// Reads `s[from..to]` as an unsigned number in `radix` no larger than `max`,
/// as [`parse_uint`] describes.
pub fn parse_radix(s: &Vec<char>, from: usize, to: usize, radix: u32, max: u32) -> (r: Result<
    u32,
    IntError,
>)
    requires
        from <= to <= s.len(),
        2 <= radix <= 36,
    ensures
        match parse_uint(s@.subrange(from as int, to as int), radix as nat, max as nat) {
            Ok(v) => r matches Ok(x) && x as nat == v,
            Err(e) => r == Err::<u32, IntError>(e),
        },
        r matches Ok(v) ==> v <= max,
{
    let ghost d = s@.subrange(from as int, to as int);
    if from == to {
        return Err(IntError::Empty);
    }
    if to - from == 1 && (s[from] == '+' || s[from] == '-') {
        return Err(IntError::InvalidDigit);
    }
    let mut i = if s[from] == '+' {
        from + 1
    } else {
        from
    };
    let mut acc: u32 = 0;
    assert(parse_uint(d, radix as nat, max as nat) == digits_from(
        d,
        radix as nat,
        max as nat,
        acc as nat,
        i - from,
    ));
    while i < to
        invariant
            from <= i <= to <= s.len(),
            2 <= radix <= 36,
            d == s@.subrange(from as int, to as int),
            acc <= max,
            parse_uint(d, radix as nat, max as nat) == digits_from(
                d,
                radix as nat,
                max as nat,
                acc as nat,
                i - from,
            ),
        decreases to - i,
    {
        assert(d[i - from] == s@[i as int]);
        match char_digit(s[i], radix) {
            None => {
                return Err(IntError::InvalidDigit);
            },
            Some(v) => {
                assert((acc as u64) * (radix as u64) <= 0xFFFF_FFFFu64 * 36) by (nonlinear_arith)
                    requires
                        acc <= 0xFFFF_FFFFu32,
                        radix <= 36,
                ;
                let wide: u64 = (acc as u64) * (radix as u64) + (v as u64);
                if wide > max as u64 {
                    return Err(IntError::PosOverflow);
                }
                acc = wide as u32;
            },
        }
        i = i + 1;
    }
    Ok(acc)
}

/// How a flash address is read: surrounding whitespace is ignored, and a
/// `0x` or `0X` prefix makes it hexadecimal.
pub open spec fn address_value(s: Seq<char>) -> Result<nat, IntError> {
    let t = trim(s);
    if t.len() >= 2 && t[0] == '0' && (t[1] == 'x' || t[1] == 'X') {
        parse_uint(t.skip(2), 16, u32::MAX as nat)
    } else {
        parse_uint(t, 10, u32::MAX as nat)
    }
}

/// Reads a flash address, decimal or `0x` hexadecimal, reporting a failure
/// in the standard library's words.
pub fn parse_u32(s: &str) -> (r: Result<u32, String>)
    ensures
        match address_value(s@) {
            Ok(v) => r matches Ok(x) && x as nat == v,
            Err(e) => r matches Err(m) && m@ == int_error_message(e),
        },
{
    let chars = chars_of(s);
    let t = trimmed(&chars);
    let tc = chars_of(t.as_str());
    let parsed = if tc.len() >= 2 && tc[0] == '0' && (tc[1] == 'x' || tc[1] == 'X') {
        assert(tc@.subrange(2, tc@.len() as int) == tc@.skip(2));
        parse_radix(&tc, 2, tc.len(), 16, u32::MAX)
    } else {
        assert(tc@.subrange(0, tc@.len() as int) == tc@);
        parse_radix(&tc, 0, tc.len(), 10, u32::MAX)
    };
    match parsed {
        Ok(v) => Ok(v),
        Err(e) => Err(crate::text::string_of(e.message())),
    }
}

/// Why a hexadecimal byte string did not parse.
#[derive(Debug, Clone, PartialEq, Eq)]
pub enum HexError {
    /// The digits do not pair up into bytes.
    OddLength,
    /// This pair of characters is not a byte.
    NotAByte(String),
}

/// Whether a character separates bytes in typed hexadecimal: whitespace, a
/// comma or a colon.
pub open spec fn hex_separator(c: char) -> bool {
    is_space(c) || c == ',' || c == ':'
}

/// The characters of typed hexadecimal that are not separators.
pub open spec fn hex_cleaned(s: Seq<char>) -> Seq<char> {
    s.filter(|c: char| !hex_separator(c))
}

/// Whether `c` is a single byte in UTF-8.
pub open spec fn ascii_char(c: char) -> bool {
    (c as u32) < 0x80
}

/// How many bytes UTF-8 spends on `c`.
pub open spec fn utf8_len(c: char) -> nat {
    if (c as u32) < 0x80 {
        1
    } else if (c as u32) < 0x800 {
        2
    } else if (c as u32) < 0x10000 {
        3
    } else {
        4
    }
}

/// How many bytes UTF-8 spends on `s`.
pub open spec fn utf8_size(s: Seq<char>) -> nat
    decreases s.len(),
{
    if s.len() == 0 {
        0
    } else {
        utf8_size(s.drop_last()) + utf8_len(s.last())
    }
}

/// The bytes that the digits of `d` spell, pairing UTF-8 bytes from the
/// character at `i` on, or the first pair that is not a byte. A pair that is
/// not two ASCII characters is never a byte: it is reported by the
/// characters it touches.
pub open spec fn hex_from(d: Seq<char>, i: int) -> Result<Seq<u8>, Seq<char>>
    decreases d.len() - i,
{
    if i < 0 || i >= d.len() {
        Ok(Seq::empty())
    } else if !ascii_char(d[i]) {
        Err(d.subrange(i, i + 1))
    } else if i + 1 >= d.len() {
        Err(d.subrange(i, d.len() as int))
    } else if !ascii_char(d[i + 1]) {
        Err(d.subrange(i, i + 2))
    } else {
        let pair = d.subrange(i, i + 2);
        match parse_uint(pair, 16, 255) {
            Err(_) => Err(pair),
            Ok(v) => match hex_from(d, i + 2) {
                Ok(rest) => Ok(seq![v as u8] + rest),
                Err(p) => Err(p),
            },
        }
    }
}

/// What typed hexadecimal holds: separators are dropped, the UTF-8 bytes of
/// what remains must pair up, and each pair is read as the standard library
/// reads a base sixteen `u8`.
pub open spec fn hex_bytes(s: Seq<char>) -> Result<Seq<u8>, Option<Seq<char>>> {
    let d = hex_cleaned(s);
    if utf8_size(d) % 2 != 0 {
        Err(None)
    } else {
        match hex_from(d, 0) {
            Ok(b) => Ok(b),
            Err(p) => Err(Some(p)),
        }
    }
}

/// Text of ASCII characters takes one byte per character.
proof fn lemma_ascii_size(d: Seq<char>, n: int)
    requires
        0 <= n <= d.len(),
        forall|j: int| 0 <= j < n ==> ascii_char(#[trigger] d[j]),
    ensures
        utf8_size(d.take(n)) == n,
    decreases n,
{
    if n > 0 {
        assert(d.take(n).drop_last() == d.take(n - 1));
        lemma_ascii_size(d, n - 1);
    }
}

/// Whether `c` is a single byte in UTF-8.
fn is_ascii_char(c: char) -> (r: bool)
    ensures
        r == ascii_char(c),
{
    (c as u32) < 0x80
}

/// Whether UTF-8 spends an odd number of bytes on `c`.
fn odd_utf8_len(c: char) -> (r: bool)
    ensures
        r == (utf8_len(c) % 2 == 1),
{
    let v = c as u32;
    v < 0x80 || (0x800 <= v && v < 0x10000)
}

/// The characters of `s` that are not separators.
fn hex_digits(s: &str) -> (r: (Vec<char>, bool))
    ensures
        r.0@ == hex_cleaned(s@),
        r.1 == (utf8_size(hex_cleaned(s@)) % 2 == 1),
{
    let chars = chars_of(s);
    let mut cleaned: Vec<char> = Vec::new();
    let mut odd = false;
    let mut i: usize = 0;
    let ghost keep = |c: char| !hex_separator(c);
    while i < chars.len()
        invariant
            i <= chars@.len(),
            chars@ == s@,
            keep == (|c: char| !hex_separator(c)),
            cleaned@ == chars@.take(i as int).filter(keep),
            odd == (utf8_size(cleaned@) % 2 == 1),
        decreases chars.len() - i,
    {
        let c = chars[i];
        let ghost before = cleaned@;
        if !(char_is_space(c) || c == ',' || c == ':') {
            cleaned.push(c);
            assert(cleaned@.drop_last() == before);
            if odd_utf8_len(c) {
                odd = !odd;
            }
        }
        proof {
            let t = chars@.take(i + 1);
            assert(t.drop_last() == chars@.take(i as int));
            assert(t.last() == c);
            reveal_with_fuel(Seq::filter, 1);
        }
        i = i + 1;
    }
    assert(chars@.take(chars@.len() as int) == chars@);
    (cleaned, odd)
}

/// Reads bytes typed as hexadecimal, such as `e4 00` or `e4:00`.
///
/// The UTF-8 bytes of the digits are paired; a pair that is not two ASCII
/// characters is reported as not a byte.
pub fn parse_hex(s: &str) -> (r: Result<Vec<u8>, HexError>)
    ensures
        match hex_bytes(s@) {
            Ok(b) => r matches Ok(v) && v@ == b,
            Err(None) => r == Err::<Vec<u8>, HexError>(HexError::OddLength),
            Err(Some(p)) => r matches Err(HexError::NotAByte(t)) && t@ == p,
        },
{
    let (cleaned, odd) = hex_digits(s);
    if odd {
        return Err(HexError::OddLength);
    }
    let ghost d = cleaned@;
    let mut out: Vec<u8> = Vec::new();
    let mut i: usize = 0;
    while i < cleaned.len()
        invariant
            d == cleaned@,
            d == hex_cleaned(s@),
            utf8_size(d) % 2 == 0,
            i <= d.len(),
            i % 2 == 0,
            forall|j: int| 0 <= j < i ==> ascii_char(#[trigger] d[j]),
            hex_from(d, 0) == match hex_from(d, i as int) {
                Ok(rest) => Ok(out@ + rest),
                Err(p) => Err::<Seq<u8>, Seq<char>>(p),
            },
        decreases d.len() - i,
    {
        if !is_ascii_char(cleaned[i]) {
            return Err(HexError::NotAByte(string_from_chars(&cleaned, i, i + 1)));
        }
        if i + 1 >= cleaned.len() {
            proof {
                lemma_ascii_size(d, i + 1);
                assert(d.take(i + 1) == d);
            }
        }
        if !is_ascii_char(cleaned[i + 1]) {
            return Err(HexError::NotAByte(string_from_chars(&cleaned, i, i + 2)));
        }
        let ghost pair = d.subrange(i as int, i + 2);
        match parse_radix(&cleaned, i, i + 2, 16, 255) {
            Err(_) => {
                return Err(HexError::NotAByte(string_from_chars(&cleaned, i, i + 2)));
            },
            Ok(v) => {
                proof {
                    assert(parse_uint(pair, 16, 255) == Ok::<nat, IntError>(v as nat));
                    match hex_from(d, i + 2) {
                        Ok(rest) => {
                            assert(out@ + (seq![v as u8] + rest) == out@.push(v as u8) + rest);
                        },
                        Err(_) => {},
                    }
                }
                out.push(v as u8);
            },
        }
        i = i + 2;
    }
    assert(hex_from(d, i as int) == Ok::<Seq<u8>, Seq<char>>(Seq::empty()));
    assert(out@ + Seq::<u8>::empty() == out@);
    Ok(out)
}

// ---- checking what the user asked for --------------------------------------------------

/// Which characteristic carries writes, per `--wide`.
pub fn write_channel(wide: bool) -> (r: WriteChannel)
    ensures
        wide ==> r == WriteChannel::Wide,
        !wide ==> r == WriteChannel::Narrow,
{
    if wide {
        WriteChannel::Wide
    } else {
        WriteChannel::Narrow
    }
}

/// Why a task was not started.
#[derive(Debug, Clone, Copy, PartialEq, Eq, Structural)]
pub enum TaskCheck {
    /// No voltage was given and the chemistry has none for the task asked for.
    NoVoltage,
    /// The current is outside the range the app allows.
    Current,
    /// The cell count is outside the range the app allows.
    Cells,
}

/// The voltage a task is started with, or why it is not started: a given
/// voltage is used as it is, otherwise the chemistry's own; then, unless
/// forced, the current and the cell count must be within the app's ranges.
pub open spec fn task_check_spec(
    task: TaskType,
    battery: BatteryKind,
    cells: u8,
    current_ma: u32,
    volt_mv: Option<u16>,
    force: bool,
) -> Result<u16, TaskCheck> {
    let volt = match volt_mv {
        Some(v) => Some(v),
        None => task_voltage_spec(task, battery),
    };
    match volt {
        None => Err(TaskCheck::NoVoltage),
        Some(v) => if !force && !(WORK_CURRENT_MA_MIN <= current_ma <= WORK_CURRENT_MA_MAX) {
            Err(TaskCheck::Current)
        } else if !force && !(CM1620_CELLS_MIN <= cells <= CM1620_CELLS_MAX) {
            Err(TaskCheck::Cells)
        } else {
            Ok(v)
        },
    }
}

/// Checks a task the way the app does before it is started.
pub fn check_task(
    task: TaskType,
    battery: BatteryKind,
    cells: u8,
    current_ma: u32,
    volt_mv: Option<u16>,
    force: bool,
) -> (r: Result<u16, TaskCheck>)
    ensures
        r == task_check_spec(task, battery, cells, current_ma, volt_mv, force),
{
    let volt = match volt_mv {
        Some(v) => v,
        None => match task_voltage(task, battery) {
            Some(v) => v,
            None => {
                return Err(TaskCheck::NoVoltage);
            },
        },
    };
    if !force {
        if !(WORK_CURRENT_MA_MIN <= current_ma && current_ma <= WORK_CURRENT_MA_MAX) {
            return Err(TaskCheck::Current);
        }
        if !(CM1620_CELLS_MIN <= cells && cells <= CM1620_CELLS_MAX) {
            return Err(TaskCheck::Cells);
        }
    }
    Ok(volt)
}

/// What a `limits` command does.
#[derive(Debug, Clone, Copy, PartialEq, Eq, Structural)]
pub enum LimitsPlan {
    /// Read the ceilings.
    Read,
    /// Write this cutoff, in millivolts, and this ceiling, in milliwatts.
    Write {
        /// Input undervoltage cutoff, in millivolts.
        min_input_volt_mv: u16,
        /// Input power ceiling, in milliwatts.
        max_input_power_mw: u32,
    },
}

/// Why a `limits` command was refused.
#[derive(Debug, Clone, Copy, PartialEq, Eq, Structural)]
pub enum LimitsError {
    /// The cutoff is outside the range the app allows.
    Volt,
    /// The ceiling is outside the range the app allows.
    Power,
    /// Only one of the two was given.
    NotTogether,
}

/// What a `limits` command with these arguments does. The cutoff goes out in
/// millivolts in a 16 bit field, which holds at most 65535: a cutoff of 66 V
/// or more does not fit it, and only its low 16 bits are sent.
pub open spec fn limits_spec(min_volt: Option<u32>, power: Option<u32>) -> Result<
    LimitsPlan,
    LimitsError,
> {
    match (min_volt, power) {
        (Some(v), Some(w)) => if !(MIN_INPUT_VOLT_V_MIN <= v <= MIN_INPUT_VOLT_V_MAX) {
            Err(LimitsError::Volt)
        } else if !(MAX_INPUT_POWER_W_MIN <= w <= MAX_INPUT_POWER_W_MAX) {
            Err(LimitsError::Power)
        } else {
            Ok(
                LimitsPlan::Write {
                    min_input_volt_mv: ((v * 1000) % 0x10000) as u16,
                    max_input_power_mw: (w * 1000) as u32,
                },
            )
        },
        (None, None) => Ok(LimitsPlan::Read),
        _ => Err(LimitsError::NotTogether),
    }
}

/// Decides what a `limits` command does, checking its arguments the way the
/// app does.
pub fn plan_limits(min_volt: Option<u32>, power: Option<u32>) -> (r: Result<LimitsPlan, LimitsError>)
    ensures
        r == limits_spec(min_volt, power),
{
    match (min_volt, power) {
        (Some(volt), Some(watts)) => {
            if !(MIN_INPUT_VOLT_V_MIN <= volt && volt <= MIN_INPUT_VOLT_V_MAX) {
                return Err(LimitsError::Volt);
            }
            if !(MAX_INPUT_POWER_W_MIN <= watts && watts <= MAX_INPUT_POWER_W_MAX) {
                return Err(LimitsError::Power);
            }
            let mv: u32 = volt * 1000;
            let low = (mv % 0x10000) as u16;
            Ok(LimitsPlan::Write { min_input_volt_mv: low, max_input_power_mw: watts * 1000 })
        },
        (None, None) => Ok(LimitsPlan::Read),
        _ => Err(LimitsError::NotTogether),
    }
}

/// A name fits when its UTF-8 encoding is at most sixteen bytes.
pub fn name_fits(name: &str) -> (r: bool)
    ensures
        r == (name.spec_bytes().len() as usize <= 16),
{
    name.len() <= 16
}

/// The calibration request for the measured cell voltages: six or eight of
/// them, or the count given when it is neither.
pub fn calibration_request(
    channel: u8,
    restore: bool,
    cells_mv: &Vec<u16>,
    input_mv: u16,
    output_mv: u16,
) -> (r: Result<Request, usize>)
    ensures
        cells_mv@.len() != 6 && cells_mv@.len() != 8 ==> r == Err::<Request, usize>(cells_mv.len()),
        cells_mv@.len() == 6 ==> (r matches Ok(
            Request::Calibrate6 { channel: c, mode, cell_mv, input_mv: i, output_mv: o },
        ) && c == channel && cell_mv@ == cells_mv@ && i == input_mv && o == output_mv && mode == (
        if restore {
            CalibrationMode::RestoreDefaults
        } else {
            CalibrationMode::Calibrate
        })),
        cells_mv@.len() == 8 ==> (r matches Ok(
            Request::Calibrate8 { channel: c, mode, cell_mv, input_mv: i, output_mv: o },
        ) && c == channel && cell_mv@ == cells_mv@ && i == input_mv && o == output_mv && mode == (
        if restore {
            CalibrationMode::RestoreDefaults
        } else {
            CalibrationMode::Calibrate
        })),
{
    let mode = if restore {
        CalibrationMode::RestoreDefaults
    } else {
        CalibrationMode::Calibrate
    };
    let n = cells_mv.len();
    if n == 6 {
        let mut cell_mv = [0u16; 6];
        let mut i: usize = 0;
        while i < 6
            invariant
                cells_mv@.len() == 6,
                i <= 6,
                forall|j: int| 0 <= j < i ==> cell_mv@[j] == cells_mv@[j],
            decreases 6 - i,
        {
            cell_mv[i] = cells_mv[i];
            i = i + 1;
        }
        assert(cell_mv@ == cells_mv@);
        Ok(Request::Calibrate6 { channel, mode, cell_mv, input_mv, output_mv })
    } else if n == 8 {
        let mut cell_mv = [0u16; 8];
        let mut i: usize = 0;
        while i < 8
            invariant
                cells_mv@.len() == 8,
                i <= 8,
                forall|j: int| 0 <= j < i ==> cell_mv@[j] == cells_mv@[j],
            decreases 8 - i,
        {
            cell_mv[i] = cells_mv[i];
            i = i + 1;
        }
        assert(cell_mv@ == cells_mv@);
        Ok(Request::Calibrate8 { channel, mode, cell_mv, input_mv, output_mv })
    } else {
        Err(n)
    }
}

// ---- which identifier to present -------------------------------------------------------

/// What a connection presents to the charger before the command runs.
#[derive(Debug, Clone, Copy, PartialEq, Eq)]
pub enum Presenting {
    /// Nothing: the command binds and establishes the identifier itself.
    Nothing,
    /// This identifier.
    Identifier(ClientId),
    /// Nothing is known for this charger, so the command cannot run.
    Unknown,
}

/// What a connection presents: nothing when binding, otherwise the
/// identifier given on the command line, then the one stored for the charger.
pub fn presenting(binding: bool, given: Option<ClientId>, stored: Option<ClientId>) -> (r:
    Presenting)
    ensures
        binding ==> r == Presenting::Nothing,
        !binding ==> (given matches Some(g) ==> r == Presenting::Identifier(g)),
        !binding && given is None ==> (stored matches Some(s) ==> r == Presenting::Identifier(s)),
        !binding && given is None && stored is None ==> r == Presenting::Unknown,
{
    if binding {
        Presenting::Nothing
    } else {
        match given {
            Some(g) => Presenting::Identifier(g),
            None => match stored {
                Some(s) => Presenting::Identifier(s),
                None => Presenting::Unknown,
            },
        }
    }
}

/// The identifier a bind presents, and whether it was generated. The most
/// specific source wins: the argument, then the global option, then what is
/// stored for the charger, and only then a fresh one. Both texts are parsed
/// before either is used, so a malformed global option is refused even when
/// the argument is good.
pub fn bind_identifier(argument: Option<&str>, global: Option<&str>, stored: Option<ClientId>) -> (r:
    Result<(ClientId, bool), TokenError>)
    ensures
        argument matches Some(a) ==> (parse_spec(a@) is None ==> (r matches Err(
            TokenError::BadToken(t),
        ) && t@ == a@)),
        (argument matches Some(a) ==> parse_spec(a@) is Some) ==> (global matches Some(g) ==> (
        parse_spec(g@) is None ==> (r matches Err(TokenError::BadToken(t)) && t@ == g@))),
        (argument matches Some(a) ==> parse_spec(a@) is Some) && (global matches Some(g)
            ==> parse_spec(g@) is Some) ==> {
            &&& r is Ok
            &&& argument matches Some(a) ==> r->Ok_0.0@ == parse_spec(a@)->0 && !r->Ok_0.1
            &&& argument is None ==> (global matches Some(g) ==> r->Ok_0.0@ == parse_spec(g@)->0
                && !r->Ok_0.1)
            &&& argument is None && global is None ==> (stored matches Some(s) ==> r->Ok_0.0 == s
                && !r->Ok_0.1)
            &&& argument is None && global is None && stored is None ==> r->Ok_0.1 && r->Ok_0.0[6]
                & 0xF0u8 == 0x40u8 && r->Ok_0.0[8] & 0xC0u8 == 0x80u8
        },
{
    let from_argument = match argument {
        Some(a) => match parse(a) {
            Ok(id) => Some(id),
            Err(e) => {
                return Err(e);
            },
        },
        None => None,
    };
    let from_global = match global {
        Some(g) => match parse(g) {
            Ok(id) => Some(id),
            Err(e) => {
                return Err(e);
            },
        },
        None => None,
    };
    match from_argument {
        Some(id) => Ok((id, false)),
        None => match from_global {
            Some(id) => Ok((id, false)),
            None => match stored {
                Some(id) => Ok((id, false)),
                None => Ok((crate::tokens::generate(), true)),
            },
        },
    }
}

// ---- the interactive session ----------------------------------------------------------

/// What one line typed at the session prompt asks for.
#[derive(Debug, Clone, PartialEq, Eq)]
pub enum ShellStep {
    /// Nothing was typed.
    Skip,
    /// Leave the session.
    Leave,
    /// Run the command these words spell.
    Run {
        /// The line, surrounding whitespace removed.
        text: String,
        /// The line divided into words as a shell would.
        words: Vec<String>,
    },
    /// The line could not be divided into words.
    Unreadable {
        /// The line, surrounding whitespace removed.
        text: String,
        /// Why it could not.
        error: String,
    },
}

#[verifier::external_type_specification]
#[verifier::external_body]
pub struct ExShellParseError(shell_words::ParseError);

/// How `shell_words::split` divides a line into words; `None` where it
/// reports an error.
pub uninterp spec fn shell_split(line: Seq<char>) -> Option<Seq<Seq<char>>>;

/// The text of each word.
pub open spec fn word_views(v: Seq<String>) -> Seq<Seq<char>> {
    v.map_values(|w: String| w@)
}

/// Divides a line into words as a POSIX shell would.
///
/// Calls `shell_words::split`, whose result depends on the line alone: the
/// words where every quote is closed, an error otherwise. What the words are
/// is named by [`shell_split`], not spelled out.
#[verifier::external_body]
fn split_words(line: &str) -> (r: Result<Vec<String>, shell_words::ParseError>)
    ensures
        r is Ok <==> shell_split(line@) is Some,
        r matches Ok(v) ==> shell_split(line@) == Some(word_views(v@)),
{
    shell_words::split(line)
}

/// The message of a `shell_words::ParseError`.
///
/// Calls its `Display`, which writes the fixed text `missing closing quote`.
#[verifier::external_body]
fn parse_error_text(e: &shell_words::ParseError) -> (r: String)
    ensures
        r@ == "missing closing quote"@,
{
    e.to_string()
}

/// What a line that is neither blank nor a request to leave asks for, given
/// how it divides into words: the command those words spell, or the reason
/// the line could not be read.
pub fn read_words(text: String, split: Result<Vec<String>, String>) -> (r: ShellStep)
    ensures
        match split {
            Ok(w) => r == (ShellStep::Run { text, words: w }),
            Err(e) => r == (ShellStep::Unreadable { text, error: e }),
        },
{
    match split {
        Ok(words) => ShellStep::Run { text, words },
        Err(error) => ShellStep::Unreadable { text, error },
    }
}

/// Whether a trimmed line asks to leave the session.
pub open spec fn leave_word(t: Seq<char>) -> bool {
    t == "exit"@ || t == "quit"@ || t == "q"@
}

/// What a typed line asks for: a blank line is skipped, `exit`, `quit` and
/// `q` leave, and anything else, surrounding whitespace removed, is divided
/// into words as a shell would, or reported where it cannot be.
pub fn shell_step(line: &str) -> (r: ShellStep)
    ensures
        trim(line@).len() == 0 ==> r == ShellStep::Skip,
        trim(line@).len() > 0 && leave_word(trim(line@)) ==> r == ShellStep::Leave,
        trim(line@).len() > 0 && !leave_word(trim(line@)) ==> match shell_split(trim(line@)) {
            Some(w) => r matches ShellStep::Run { text, words } && text@ == trim(line@)
                && word_views(words@) == w,
            None => r matches ShellStep::Unreadable { text, error } && text@ == trim(line@)
                && error@ == "missing closing quote"@,
        },
{
    let chars = chars_of(line);
    let t = trimmed(&chars);
    let tc = chars_of(t.as_str());
    if tc.len() == 0 {
        return ShellStep::Skip;
    }
    proof {
        reveal_strlit("exit");
        reveal_strlit("quit");
        reveal_strlit("q");
    }
    let is_exit = tc.len() == 4 && tc[0] == 'e' && tc[1] == 'x' && tc[2] == 'i' && tc[3] == 't';
    let is_quit = tc.len() == 4 && tc[0] == 'q' && tc[1] == 'u' && tc[2] == 'i' && tc[3] == 't';
    let is_q = tc.len() == 1 && tc[0] == 'q';
    proof {
        assert(is_exit == (tc@ == "exit"@)) by {
            if tc@ == "exit"@ {
                assert(tc@[0] == 'e' && tc@[1] == 'x' && tc@[2] == 'i' && tc@[3] == 't');
            }
            if is_exit {
                assert(tc@ == "exit"@);
            }
        }
        assert(is_quit == (tc@ == "quit"@)) by {
            if tc@ == "quit"@ {
                assert(tc@[0] == 'q' && tc@[1] == 'u' && tc@[2] == 'i' && tc@[3] == 't');
            }
            if is_quit {
                assert(tc@ == "quit"@);
            }
        }
        assert(is_q == (tc@ == "q"@)) by {
            if tc@ == "q"@ {
                assert(tc@[0] == 'q');
            }
            if is_q {
                assert(tc@ == "q"@);
            }
        }
    }
    if is_exit || is_quit || is_q {
        ShellStep::Leave
    } else {
        let split = match split_words(t.as_str()) {
            Ok(words) => Ok(words),
            Err(e) => Err(parse_error_text(&e)),
        };
        read_words(t, split)
    }
}

/// A forced discharge with no voltage given runs down to the chemistry's
/// discharge cutoff, and is refused for want of a voltage exactly where the
/// chemistry has none; a given voltage is used as it is.
pub proof fn law_discharge_defaults_to_cutoff(battery: BatteryKind, cells: u8, current_ma: u32, v: u16)
    ensures
        task_check_spec(TaskType::Discharge, battery, cells, current_ma, None, true) == match
            crate::types::battery_discharge_cell_mv(battery) {
            Some(c) => Ok::<u16, TaskCheck>(c),
            None => Err(TaskCheck::NoVoltage),
        },
        task_check_spec(TaskType::Discharge, BatteryKind::LiPo, cells, current_ma, None, true)
            == Ok::<u16, TaskCheck>(3300),
        task_check_spec(TaskType::Discharge, BatteryKind::NiMhCd, cells, current_ma, None, true)
            == Ok::<u16, TaskCheck>(900),
        task_check_spec(TaskType::Discharge, battery, cells, current_ma, Some(v), true) == Ok::<
            u16,
            TaskCheck,
        >(v),
{
}

} // verus!
