//! What the Bluetooth Low Energy side decides, apart from the radio itself.
//!
//! ISDT chargers advertise service `0000FFF0` and expose three characteristics
//! under it:
//!
//! | Characteristic | Role |
//! |---|---|
//! | `0000FFF6` | notify, and write on the 20 byte channel |
//! | `0000FFF7` | write on the wide channel, used once the MTU passes 140 |
//! | `0000FFF8` | write, used for the initial version handshake |
//!
//! Notifications always arrive on FFF6. This module holds the identifiers,
//! the choice of write channel, what a scan keeps and matches, and the
//! structure ISDT encodes into a charger's advertised name.

use vstd::prelude::*;

use crate::text::{ascii_lowercase, ascii_uppercase, chars_of, lower_all, trim, trimmed, upper_all};
use crate::tokens::has_fragment;

verus! {

/// The service every ISDT charger advertises, as a 128 bit UUID.
pub const SERVICE: u128 = 0x0000fff0_0000_1000_8000_00805f9b34fb;

/// Notify characteristic, and the write characteristic on the 20 byte channel.
pub const CHAR_FFF6: u128 = 0x0000fff6_0000_1000_8000_00805f9b34fb;

/// Write characteristic used once the MTU passes 140 bytes.
pub const CHAR_FFF7: u128 = 0x0000fff7_0000_1000_8000_00805f9b34fb;

/// Write characteristic used for the version handshake.
pub const CHAR_FFF8: u128 = 0x0000fff8_0000_1000_8000_00805f9b34fb;

/// Payload budget on the legacy channel: 20 bytes minus the length prefix.
pub const MTU_SMALL: usize = 20;

/// Payload budget the app assumes once it has negotiated the wide channel.
pub const MTU_WIDE: usize = 140;

/// Shortest gap the charger tolerates between frames, in milliseconds.
///
/// These units are Bluetooth-to-serial bridges, and the app never sends two
/// packets closer together than this (`BleMng3.BLE_DO_SLEEP_TIME`). Writing
/// back to back overruns the bridge and the frame is silently dropped.
pub const MIN_WRITE_GAP_MS: u64 = 150;

/// Which characteristic carries host-to-charger writes.
#[derive(Debug, Clone, Copy, PartialEq, Eq, Structural)]
pub enum WriteChannel {
    /// FFF6 with 20 byte writes. Every charger supports this.
    Narrow,
    /// FFF7 with wide writes, for chargers that negotiated a larger MTU.
    Wide,
    /// FFF8, which the app uses only for the version handshake.
    Handshake,
}

impl Default for WriteChannel {
    fn default() -> (r: WriteChannel)
        ensures
            r == WriteChannel::Narrow,
    {
        WriteChannel::Narrow
    }
}

/// The characteristic a channel writes to.
pub open spec fn channel_uuid(c: WriteChannel) -> u128 {
    match c {
        WriteChannel::Narrow => CHAR_FFF6,
        WriteChannel::Wide => CHAR_FFF7,
        WriteChannel::Handshake => CHAR_FFF8,
    }
}

/// The payload budget of a channel.
pub open spec fn channel_mtu(c: WriteChannel) -> usize {
    match c {
        WriteChannel::Narrow => MTU_SMALL,
        WriteChannel::Wide | WriteChannel::Handshake => MTU_WIDE,
    }
}

impl WriteChannel {
    /// The characteristic this channel writes to.
    pub fn uuid(self) -> (r: u128)
        ensures
            r == channel_uuid(self),
    {
        match self {
            WriteChannel::Narrow => CHAR_FFF6,
            WriteChannel::Wide => CHAR_FFF7,
            WriteChannel::Handshake => CHAR_FFF8,
        }
    }

    /// The payload budget of this channel.
    pub fn mtu(self) -> (r: usize)
        ensures
            r == channel_mtu(self),
    {
        match self {
            WriteChannel::Narrow => MTU_SMALL,
            WriteChannel::Wide | WriteChannel::Handshake => MTU_WIDE,
        }
    }
}

/// The characteristic a connection writes to and the payload budget in force.
#[derive(Debug, Clone, Copy, PartialEq, Eq, Structural)]
pub struct WriteSetup {
    /// The characteristic writes go to.
    pub characteristic: u128,
    /// The payload budget, in bytes.
    pub mtu: usize,
}

/// Chooses where writes go once the charger's characteristics are known: the
/// requested channel when the charger offers it writable, otherwise the
/// narrow FFF6 channel, which is what the app does. When neither is
/// writable the requested characteristic is reported missing.
pub fn choose_write(channel: WriteChannel, wanted_writable: bool, narrow_writable: bool) -> (r:
    Result<WriteSetup, u128>)
    ensures
        wanted_writable ==> r == Ok::<WriteSetup, u128>(
            WriteSetup {
                characteristic: channel_uuid(channel),
                mtu: if channel_uuid(channel) == CHAR_FFF6 {
                    MTU_SMALL
                } else {
                    channel_mtu(channel)
                },
            },
        ),
        !wanted_writable && narrow_writable ==> r == Ok::<WriteSetup, u128>(
            WriteSetup { characteristic: CHAR_FFF6, mtu: MTU_SMALL },
        ),
        !wanted_writable && !narrow_writable ==> r == Err::<WriteSetup, u128>(
            channel_uuid(channel),
        ),
{
    let wanted = channel.uuid();
    let characteristic = if wanted_writable {
        wanted
    } else if narrow_writable {
        CHAR_FFF6
    } else {
        return Err(wanted);
    };
    let mtu = if characteristic == CHAR_FFF6 {
        MTU_SMALL
    } else {
        channel.mtu()
    };
    Ok(WriteSetup { characteristic, mtu })
}

/// Whether a scan keeps a peripheral: it advertises the ISDT service, or its
/// name contains `ISDT` in any case, since some units do not advertise the
/// service identifier.
pub open spec fn keeps(advertises_service: bool, name: Option<Seq<char>>) -> bool {
    advertises_service || (name matches Some(n) && has_fragment(
        upper_all(n),
        seq!['I', 'S', 'D', 'T'],
    ))
}

/// Whether a scan keeps a peripheral, as [`keeps`] describes.
pub fn keep_peripheral(advertises_service: bool, name: Option<&str>) -> (r: bool)
    ensures
        r == keeps(advertises_service, opt_view(name)),
{
    if advertises_service {
        return true;
    }
    match name {
        None => false,
        Some(n) => {
            let upper = ascii_uppercase(n);
            let hay = chars_of(upper.as_str());
            let tag = chars_of("ISDT");
            proof {
                reveal_strlit("ISDT");
            }
            assert(tag@ == seq!['I', 'S', 'D', 'T']);
            crate::tokens::find_fragment(&hay, &tag)
        },
    }
}

/// An optional string by its characters.
pub open spec fn opt_view(s: Option<&str>) -> Option<Seq<char>> {
    match s {
        Some(t) => Some(t@),
        None => None,
    }
}

/// Whether a charger matches what the user typed: the identifier or the
/// advertised name contains it, ignoring ASCII case.
pub open spec fn matches_needle(id: Seq<char>, name: Option<Seq<char>>, needle: Seq<char>) -> bool {
    has_fragment(lower_all(id), lower_all(needle)) || (name matches Some(n) && has_fragment(
        lower_all(n),
        lower_all(needle),
    ))
}

/// One charger seen while scanning.
#[derive(Debug, Clone, PartialEq, Eq)]
pub struct Discovered {
    /// Platform address or, on macOS, the system-assigned peripheral identifier.
    pub id: String,
    /// The advertised local name, when the charger sent one.
    pub name: Option<String>,
    /// Signal strength from the last advertisement.
    pub rssi: Option<i16>,
}

/// An optional owned string by its characters.
pub open spec fn opt_string(s: Option<String>) -> Option<Seq<char>> {
    match s {
        Some(t) => Some(t@),
        None => None,
    }
}

impl Discovered {
    /// A copy of this record.
    pub fn duplicate(&self) -> (r: Discovered)
        ensures
            r == *self,
    {
        let name = match &self.name {
            Some(n) => Some(n.clone()),
            None => None,
        };
        Discovered { id: self.id.clone(), name, rssi: self.rssi }
    }

    /// The advertised name, or the identifier when the charger sent none.
    pub fn label(&self) -> (r: String)
        ensures
            r@ == match self.name {
                Some(n) => n@,
                None => self.id@,
            },
    {
        match &self.name {
            Some(n) => n.clone(),
            None => self.id.clone(),
        }
    }

    /// The ISDT-structured part of the advertised name, if there is one.
    pub fn isdt_name(&self) -> (r: Option<IsdtName>)
        ensures
            self.name is None ==> r is None,
            self.name matches Some(n) ==> name_fields(r) == isdt_name_spec(n@),
    {
        match &self.name {
            None => None,
            Some(n) => IsdtName::parse(n.as_str()),
        }
    }

    /// Whether this charger matches what the user typed, as [`matches_needle`]
    /// describes.
    pub fn matches(&self, needle: &str) -> (r: bool)
        ensures
            r == matches_needle(self.id@, opt_string(self.name), needle@),
    {
        let n = chars_of(ascii_lowercase(needle).as_str());
        let id = chars_of(ascii_lowercase(self.id.as_str()).as_str());
        if crate::tokens::find_fragment(&id, &n) {
            return true;
        }
        match &self.name {
            None => false,
            Some(name) => {
                let hay = chars_of(ascii_lowercase(name.as_str()).as_str());
                crate::tokens::find_fragment(&hay, &n)
            },
        }
    }
}

/// The structure ISDT encodes into a charger's advertised name.
///
/// From `IsdtBleProtocol.isOnBindMode`, `getType` and `getName`, which index
/// the name at fixed offsets:
///
/// ```text
/// ISDT 1 CM1620␣␣
/// ^^^^ ^ ^^^^^^^^ ^^^^^^^^
/// tag  | model    user name
///      binding mode flag
/// ```
///
/// Some units wrap this inside another string, so the tag is located rather
/// than assumed to start at offset zero.
#[derive(Debug, Clone, PartialEq, Eq)]
pub struct IsdtName {
    /// True while the charger is waiting to be bound.
    pub binding_mode: bool,
    /// The model, such as `CM1620`.
    pub model: String,
    /// The name the owner gave it.
    pub name: String,
}

/// Whether the tag `ISDT` starts at `i` in `s`.
pub open spec fn tag_at(s: Seq<char>, i: int) -> bool {
    0 <= i && i + 4 <= s.len() && s.subrange(i, i + 4) == seq!['I', 'S', 'D', 'T']
}

/// The first position at or after `i` where the tag starts.
pub open spec fn tag_from(s: Seq<char>, i: int) -> Option<int>
    decreases s.len() - i,
{
    if i < 0 || i + 4 > s.len() {
        None
    } else if tag_at(s, i) {
        Some(i)
    } else {
        tag_from(s, i + 1)
    }
}

/// Whether a character closes the string a tag was wrapped in.
pub open spec fn is_closer(c: char) -> bool {
    c == ']' || c == ')' || c == '>'
}

/// `s` without the closing brackets at its end.
pub open spec fn strip_closers(s: Seq<char>) -> Seq<char>
    decreases s.len(),
{
    if s.len() > 0 && is_closer(s.last()) {
        strip_closers(s.drop_last())
    } else {
        s
    }
}

/// The fields of an advertised name: the binding flag, the model and the
/// owner's name. The tag is the first `ISDT`; at least thirteen characters
/// must follow from it. The flag is the character after the tag; the model is
/// the next eight characters, trimmed; the owner's name is the rest with
/// trailing closing brackets dropped, then trimmed.
pub open spec fn isdt_name_spec(advertised: Seq<char>) -> Option<(bool, Seq<char>, Seq<char>)> {
    match tag_from(advertised, 0) {
        None => None,
        Some(start) => {
            let rest = advertised.skip(start);
            if rest.len() < 13 {
                None
            } else {
                Some(
                    (
                        rest[4] == '1',
                        trim(rest.subrange(5, 13)),
                        trim(strip_closers(rest.skip(13))),
                    ),
                )
            }
        },
    }
}

/// A parsed name by its fields.
pub open spec fn name_fields(n: Option<IsdtName>) -> Option<(bool, Seq<char>, Seq<char>)> {
    match n {
        Some(v) => Some((v.binding_mode, v.model@, v.name@)),
        None => None,
    }
}

fn find_tag(s: &Vec<char>) -> (r: Option<usize>)
    ensures
        r matches Some(i) ==> tag_from(s@, 0) == Some(i as int) && i + 4 <= s@.len(),
        r is None ==> tag_from(s@, 0) is None,
{
    if s.len() < 4 {
        return None;
    }
    let mut i: usize = 0;
    while i <= s.len() - 4
        invariant
            4 <= s.len(),
            i <= s.len() - 3,
            tag_from(s@, 0) == tag_from(s@, i as int),
        decreases s.len() - i,
    {
        if s[i] == 'I' && s[i + 1] == 'S' && s[i + 2] == 'D' && s[i + 3] == 'T' {
            assert(s@.subrange(i as int, i + 4) == seq!['I', 'S', 'D', 'T']);
            return Some(i);
        }
        assert(!tag_at(s@, i as int)) by {
            if tag_at(s@, i as int) {
                assert(s@.subrange(i as int, i + 4)[0] == s@[i as int]);
                assert(s@.subrange(i as int, i + 4)[1] == s@[i + 1]);
                assert(s@.subrange(i as int, i + 4)[2] == s@[i + 2]);
                assert(s@.subrange(i as int, i + 4)[3] == s@[i + 3]);
            }
        }
        i = i + 1;
    }
    None
}

fn sub_vec(s: &Vec<char>, from: usize, to: usize) -> (r: Vec<char>)
    requires
        from <= to <= s.len(),
    ensures
        r@ == s@.subrange(from as int, to as int),
{
    let mut out: Vec<char> = Vec::new();
    let mut i = from;
    while i < to
        invariant
            from <= i <= to <= s.len(),
            out@ == s@.subrange(from as int, i as int),
        decreases to - i,
    {
        out.push(s[i]);
        assert(s@.subrange(from as int, i + 1) == s@.subrange(from as int, i as int).push(
            s@[i as int],
        ));
        i = i + 1;
    }
    out
}

impl IsdtName {
    /// Extracts the structured name, or `None` when the string has no ISDT tag
    /// or is too short to carry the fields.
    pub fn parse(advertised: &str) -> (r: Option<IsdtName>)
        ensures
            name_fields(r) == isdt_name_spec(advertised@),
    {
        let chars = chars_of(advertised);
        let start = match find_tag(&chars) {
            None => {
                return None;
            },
            Some(i) => i,
        };
        let ghost rest = chars@.skip(start as int);
        if chars.len() - start < 13 {
            return None;
        }
        let binding_mode = chars[start + 4] == '1';
        let model = trimmed(&sub_vec(&chars, start + 5, start + 13));
        assert(chars@.subrange(start + 5, start + 13) == rest.subrange(5, 13));
        let mut end = chars.len();
        assert(chars@.subrange(start + 13, end as int) == rest.skip(13));
        while end > start + 13 && (chars[end - 1] == ']' || chars[end - 1] == ')' || chars[end
            - 1] == '>')
            invariant
                start + 13 <= end <= chars@.len(),
                rest == chars@.skip(start as int),
                strip_closers(rest.skip(13)) == strip_closers(
                    chars@.subrange(start + 13, end as int),
                ),
            decreases end,
        {
            assert(chars@.subrange(start + 13, end as int).drop_last() == chars@.subrange(
                start + 13,
                end - 1,
            ));
            end = end - 1;
        }
        let name = trimmed(&sub_vec(&chars, start + 13, end));
        Some(IsdtName { binding_mode, model, name })
    }
}

/// A charger's signal strength for ordering: one that reported none sorts
/// as the weakest possible.
pub open spec fn signal(d: Discovered) -> int {
    match d.rssi {
        Some(r) => r as int,
        None => i16::MIN as int,
    }
}

/// Whether a list runs from the strongest signal to the weakest.
pub open spec fn strongest_first(s: Seq<Discovered>) -> bool {
    forall|i: int, j: int| 0 <= i < j < s.len() ==> signal(#[trigger] s[i]) >= signal(#[trigger] s[j])
}

fn signal_of(d: &Discovered) -> (r: i16)
    ensures
        r as int == signal(*d),
{
    match d.rssi {
        Some(r) => r,
        None => i16::MIN,
    }
}

/// The chargers of `s` with signal `k`, in order.
pub open spec fn with_signal(s: Seq<Discovered>, k: int) -> Seq<Discovered> {
    s.filter(|x: Discovered| signal(x) == k)
}

proof fn lemma_insert_by_signal(s: Seq<Discovered>, p: int, d: Discovered, k: int)
    requires
        0 <= p <= s.len(),
        forall|q: int| p <= q < s.len() ==> signal(#[trigger] s[q]) < signal(d),
    ensures
        with_signal(s.insert(p, d), k) == if signal(d) == k {
            with_signal(s, k).push(d)
        } else {
            with_signal(s, k)
        },
{
    let f = |x: Discovered| signal(x) == k;
    let a = s.take(p);
    let b = s.skip(p);
    assert(s == a + b);
    assert(s.insert(p, d) == a + seq![d] + b);
    Seq::filter_distributes_over_add(a, b, f);
    Seq::filter_distributes_over_add(a + seq![d], b, f);
    Seq::filter_distributes_over_add(a, seq![d], f);
    reveal_with_fuel(Seq::filter, 2);
    assert(seq![d].drop_last() == Seq::<Discovered>::empty());
    if signal(d) == k {
        assert(b.all(|x: Discovered| !f(x))) by {
            assert forall|q: int| 0 <= q < b.len() implies !f(#[trigger] b[q]) by {
                assert(b[q] == s[p + q]);
            }
        }
        b.lemma_all_neg_filter_empty(f);
        assert(b.filter(f) == Seq::<Discovered>::empty());
        assert(a.filter(f) + seq![d] + Seq::<Discovered>::empty() == (a.filter(f)
            + Seq::<Discovered>::empty()).push(d));
    } else {
        assert(seq![d].filter(f) == Seq::<Discovered>::empty());
        assert(a.filter(f) + Seq::<Discovered>::empty() == a.filter(f));
    }
}

/// Orders what a scan found from the strongest signal to the weakest; among
/// equal signals the scan's own order is kept.
pub fn order_by_signal(found: Vec<Discovered>) -> (r: Vec<Discovered>)
    ensures
        strongest_first(r@),
        r@.to_multiset() == found@.to_multiset(),
        forall|k: int| #[trigger] with_signal(r@, k) == with_signal(found@, k),
{
    let ghost orig = found@;
    let mut rest = found;
    let mut out: Vec<Discovered> = Vec::new();
    let ghost mut i: int = 0;
    proof {
        broadcast use vstd::seq_lib::group_to_multiset_ensures;
        assert(orig.take(0) == Seq::<Discovered>::empty());
    }
    while rest.len() > 0
        invariant
            0 <= i <= orig.len(),
            rest@ == orig.skip(i),
            strongest_first(out@),
            out@.to_multiset() == orig.take(i).to_multiset(),
            forall|k: int| #[trigger] with_signal(out@, k) == with_signal(orig.take(i), k),
        decreases rest.len(),
    {
        let d = rest.remove(0);
        let k = signal_of(&d);
        let mut p: usize = 0;
        while p < out.len() && signal_of(&out[p]) >= k
            invariant
                p <= out@.len(),
                strongest_first(out@),
                forall|q: int| 0 <= q < p ==> signal(#[trigger] out@[q]) >= k,
            decreases out.len() - p,
        {
            p = p + 1;
        }
        let ghost before = out@;
        proof {
            assert forall|q: int| p <= q < before.len() implies signal(#[trigger] before[q]) < k by {
                if q > p {
                    assert(signal(before[p as int]) >= signal(before[q]));
                }
            }
        }
        out.insert(p, d);
        proof {
            assert(out@ == before.insert(p as int, d));
            assert forall|a: int, b: int| 0 <= a < b < out@.len() implies signal(
                #[trigger] out@[a],
            ) >= signal(#[trigger] out@[b]) by {
                if b < p {
                    assert(out@[a] == before[a] && out@[b] == before[b]);
                } else if b == p {
                    assert(out@[a] == before[a]);
                } else if a < p {
                    assert(out@[a] == before[a] && out@[b] == before[b - 1]);
                } else if a == p {
                    assert(out@[b] == before[b - 1]);
                } else {
                    assert(out@[a] == before[a - 1] && out@[b] == before[b - 1]);
                }
            }
            vstd::seq_lib::to_multiset_insert(before, p as int, d);
            assert(d == orig[i]);
            assert(orig.take(i + 1) == orig.take(i).push(d));
            vstd::seq_lib::to_multiset_build(orig.take(i), d);
            assert forall|k: int| #[trigger] with_signal(out@, k) == with_signal(orig.take(i + 1), k) by {
                lemma_insert_by_signal(before, p as int, d, k);
                reveal_with_fuel(Seq::filter, 1);
                assert(orig.take(i + 1).drop_last() == orig.take(i));
            }
            assert(rest@ == orig.skip(i + 1));
            i = i + 1;
        }
    }
    proof {
        assert(orig.take(i) == orig);
    }
    out
}

/// Which charger a search picks: without a needle the first, which after
/// [`order_by_signal`] is the strongest; with one, the first that
/// [`matches_needle`].
pub fn pick(found: &Vec<Discovered>, needle: Option<&str>) -> (r: Option<usize>)
    ensures
        needle is None ==> r == (if found@.len() > 0 {
            Some(0usize)
        } else {
            None::<usize>
        }),
        needle matches Some(n) ==> match r {
            Some(i) => i < found@.len() && matches_needle(
                found@[i as int].id@,
                opt_string(found@[i as int].name),
                n@,
            ) && forall|j: int|
                0 <= j < i ==> !matches_needle(
                    #[trigger] found@[j].id@,
                    opt_string(found@[j].name),
                    n@,
                ),
            None => forall|j: int|
                0 <= j < found@.len() ==> !matches_needle(
                    #[trigger] found@[j].id@,
                    opt_string(found@[j].name),
                    n@,
                ),
        },
{
    match needle {
        None => if found.len() > 0 {
            Some(0)
        } else {
            None
        },
        Some(n) => {
            let mut i: usize = 0;
            while i < found.len()
                invariant
                    i <= found@.len(),
                    needle == Some(n),
                    forall|j: int|
                        0 <= j < i ==> !matches_needle(
                            #[trigger] found@[j].id@,
                            opt_string(found@[j].name),
                            n@,
                        ),
                decreases found.len() - i,
            {
                if found[i].matches(n) {
                    return Some(i);
                }
                i = i + 1;
            }
            None
        },
    }
}

} // verus!
