//! Client identifiers, and the store that keeps them between runs.
//!
//! A charger stores the 16 byte token it was bound with and then expects the
//! same one from whoever connects. It has no way to hand the token back, so
//! losing it means putting the charger into binding mode and starting over.
//! The store keeps tokens as text, one charger per line:
//!
//! ```text
//! # peripheral-id  token
//! 0d1952d6-dc9e-4121-ae9b-84f5489980f7  9102782c5bfb5047a4533d071feb6eca
//! ```

use vstd::prelude::*;

use crate::text::{
    ascii_lowercase, char_is_space, chars_of, is_space, lower_all, push_char, push_str,
    string_from_chars, string_of, trim, trimmed,
};

verus! {

/// A 16 byte client identifier.
pub type ClientId = [u8; 16];

/// Errors from reading or writing the token store.
#[derive(Debug, Clone, PartialEq, Eq)]
pub enum TokenError {
    /// The file could not be read or written.
    Io {
        /// Which file.
        path: String,
        /// What went wrong.
        message: String,
    },
    /// A token was not 32 hexadecimal digits.
    BadToken(String),
    /// The home directory could not be located.
    NoHome,
}

// ---- hexadecimal ----------------------------------------------------------------------

/// True for `0-9`, `a-f` and `A-F`.
pub open spec fn is_hex(c: char) -> bool {
    ('0' <= c && c <= '9') || ('a' <= c && c <= 'f') || ('A' <= c && c <= 'F')
}

/// The value of a hexadecimal digit.
pub open spec fn hex_value(c: char) -> nat {
    if '0' <= c && c <= '9' {
        (c as nat - '0' as nat) as nat
    } else if 'a' <= c && c <= 'f' {
        (c as nat - 'a' as nat + 10) as nat
    } else {
        (c as nat - 'A' as nat + 10) as nat
    }
}

/// The lower-case hexadecimal digit for a value below sixteen.
pub open spec fn hex_char(v: nat) -> char {
    if v < 10 {
        ((v + 48) as u32) as char
    } else {
        ((v + 87) as u32) as char
    }
}

/// The hexadecimal digits of `s`, everything else dropped.
pub open spec fn hex_digits(s: Seq<char>) -> Seq<char> {
    s.filter(|c: char| is_hex(c))
}

/// The byte the digit pair at `2i` of `digits` spells.
pub open spec fn pair_value(digits: Seq<char>, i: int) -> u8 {
    (16 * hex_value(digits[2 * i]) + hex_value(digits[2 * i + 1])) as u8
}

/// The identifier a text spells, if it holds at least 32 hexadecimal digits:
/// the first 32 of them, two per byte.
pub open spec fn parse_spec(text: Seq<char>) -> Option<Seq<u8>> {
    let d = hex_digits(text);
    if d.len() < 32 {
        None
    } else {
        Some(Seq::new(16, |i: int| pair_value(d, i)))
    }
}

/// An identifier as 32 lower-case hexadecimal digits.
pub open spec fn hex_spec(id: Seq<u8>) -> Seq<char>
    decreases id.len(),
{
    if id.len() == 0 {
        Seq::empty()
    } else {
        hex_spec(id.drop_last()).push(hex_char(id.last() as nat / 16)).push(
            hex_char(id.last() as nat % 16),
        )
    }
}

fn char_is_hex(c: char) -> (r: bool)
    ensures
        r == is_hex(c),
{
    ('0' <= c && c <= '9') || ('a' <= c && c <= 'f') || ('A' <= c && c <= 'F')
}

fn char_hex_value(c: char) -> (r: u8)
    requires
        is_hex(c),
    ensures
        r == hex_value(c),
        r < 16,
{
    if '0' <= c && c <= '9' {
        (c as u8) - 48
    } else if 'a' <= c && c <= 'f' {
        (c as u8) - 87
    } else {
        (c as u8) - 55
    }
}

fn value_hex_char(v: u8) -> (r: char)
    requires
        v < 16,
    ensures
        r == hex_char(v as nat),
{
    if v < 10 {
        (v + 48) as char
    } else {
        (v + 87) as char
    }
}

/// Parses 32 hexadecimal digits into a client identifier.
///
/// Separators and whitespace are ignored, and anything past the first 32
/// digits is dropped, which is what the Android app does with its own
/// newline-terminated value.
pub fn parse(text: &str) -> (r: Result<ClientId, TokenError>)
    ensures
        parse_spec(text@) matches Some(id) ==> (r matches Ok(v) && v@ == id),
        parse_spec(text@) is None ==> (r matches Err(TokenError::BadToken(t)) && t@ == text@),
{
    let chars = crate::text::chars_of(text);
    let mut digits: Vec<char> = Vec::new();
    let mut i: usize = 0;
    let ghost keep = |c: char| is_hex(c);
    while i < chars.len()
        invariant
            i <= chars@.len(),
            chars@ == text@,
            keep == (|c: char| is_hex(c)),
            digits@ == chars@.take(i as int).filter(keep),
        decreases chars@.len() - i,
    {
        let c = chars[i];
        if char_is_hex(c) {
            digits.push(c);
        }
        proof {
            let t = chars@.take(i + 1);
            assert(t.drop_last() == chars@.take(i as int));
            assert(t.last() == c);
            reveal_with_fuel(Seq::filter, 1);
        }
        i = i + 1;
    }
    assert(chars@.take(chars@.len() as int) == chars@);
    assert(digits@ == hex_digits(text@));
    if digits.len() < 32 {
        return Err(TokenError::BadToken(string_of(text)));
    }
    proof {
        assert forall|j: int| 0 <= j < digits@.len() implies is_hex(#[trigger] digits@[j]) by {
            digits@.filter_lemma(keep);
        }
    }
    let mut id = [0u8; 16];
    let mut k: usize = 0;
    while k < 16
        invariant
            k <= 16,
            digits@.len() >= 32,
            digits@ == hex_digits(text@),
            forall|j: int| 0 <= j < digits@.len() ==> is_hex(#[trigger] digits@[j]),
            forall|j: int| 0 <= j < k ==> id@[j] == pair_value(digits@, j),
        decreases 16 - k,
    {
        let hi = char_hex_value(digits[2 * k]);
        let lo = char_hex_value(digits[2 * k + 1]);
        id[k] = hi * 16 + lo;
        k = k + 1;
    }
    assert(id@ == Seq::new(16, |i: int| pair_value(digits@, i)));
    Ok(id)
}

/// Renders a client identifier as 32 lowercase hexadecimal digits.
pub fn to_hex(id: &ClientId) -> (r: String)
    ensures
        r@ == hex_spec(id@),
{
    let mut out = String::new();
    let mut i: usize = 0;
    assert(id@.take(0) == Seq::<u8>::empty());
    while i < 16
        invariant
            i <= 16,
            out@ == hex_spec(id@.take(i as int)),
        decreases 16 - i,
    {
        let b = id[i];
        push_char(&mut out, value_hex_char(b / 16));
        push_char(&mut out, value_hex_char(b % 16));
        assert(id@.take(i + 1).drop_last() == id@.take(i as int));
        i = i + 1;
    }
    assert(id@.take(16) == id@);
    out
}

proof fn lemma_hex_spec_shape(id: Seq<u8>)
    ensures
        hex_spec(id).len() == 2 * id.len(),
        forall|i: int|
            0 <= i < id.len() ==> #[trigger] hex_spec(id)[2 * i] == hex_char(id[i] as nat / 16)
                && hex_spec(id)[2 * i + 1] == hex_char(id[i] as nat % 16),
    decreases id.len(),
{
    if id.len() > 0 {
        let rest = id.drop_last();
        lemma_hex_spec_shape(rest);
        let n = id.len() - 1;
        let h0 = hex_spec(rest);
        let h = hex_spec(id);
        assert(h == h0.push(hex_char(id.last() as nat / 16)).push(hex_char(id.last() as nat % 16)));
        assert(h0.len() == 2 * n);
        assert forall|i: int| 0 <= i < id.len() implies #[trigger] hex_spec(id)[2 * i] == hex_char(
            id[i] as nat / 16,
        ) && hex_spec(id)[2 * i + 1] == hex_char(id[i] as nat % 16) by {
            if i < n {
                assert(rest[i] == id[i]);
                assert(h0[2 * i] == hex_char(rest[i] as nat / 16));
                assert(h[2 * i] == h0[2 * i]);
                assert(h[2 * i + 1] == h0[2 * i + 1]);
            } else {
                assert(id[i] == id.last());
                assert(h[2 * i] == hex_char(id.last() as nat / 16));
                assert(h[2 * i + 1] == hex_char(id.last() as nat % 16));
            }
        }
    }
}

/// Rendering an identifier and parsing the text back gives the identifier.
pub proof fn law_token_round_trip(id: Seq<u8>)
    requires
        id.len() == 16,
    ensures
        parse_spec(hex_spec(id)) == Some(id),
{
    let h = hex_spec(id);
    lemma_hex_spec_shape(id);
    lemma_hex_spec_is_hex(id);
    lemma_filter_all(h);
    let d = hex_digits(h);
    assert forall|i: int| 0 <= i < 16 implies pair_value(d, i) == id[i] by {
        assert(h[2 * i] == hex_char(id[i] as nat / 16));
        assert(h[2 * i + 1] == hex_char(id[i] as nat % 16));
    }
    assert(Seq::new(16, |i: int| pair_value(d, i)) == id);
}

/// Every character of a rendered identifier is a hexadecimal digit.
proof fn lemma_hex_spec_is_hex(id: Seq<u8>)
    ensures
        forall|j: int| 0 <= j < hex_spec(id).len() ==> is_hex(#[trigger] hex_spec(id)[j]),
{
    let h = hex_spec(id);
    lemma_hex_spec_shape(id);
    assert forall|j: int| 0 <= j < h.len() implies is_hex(#[trigger] h[j]) by {
        let i = j / 2;
        assert(j == 2 * i || j == 2 * i + 1);
        if j == 2 * i {
            assert(h[2 * i] == hex_char(id[i] as nat / 16));
        } else {
            assert(h[2 * i] == hex_char(id[i] as nat / 16));
            assert(h[2 * i + 1] == hex_char(id[i] as nat % 16));
        }
    }
}

proof fn lemma_filter_all(s: Seq<char>)
    requires
        forall|j: int| 0 <= j < s.len() ==> is_hex(#[trigger] s[j]),
    ensures
        hex_digits(s) == s,
    decreases s.len(),
{
    reveal_with_fuel(Seq::filter, 1);
    if s.len() > 0 {
        lemma_filter_all(s.drop_last());
        assert(s.drop_last().push(s.last()) == s);
    }
}

// ---- fresh identifiers ------------------------------------------------------------------

/// The bytes of a random version 4 UUID.
///
/// Calls `uuid::Uuid::new_v4`, which draws 128 bits from the operating
/// system and then sets the version nibble to 4 and the variant bits to
/// `10`. That masking is all that is stated: the other bits are random.
#[verifier::external_body]
fn random_uuid_bytes() -> (r: [u8; 16])
    ensures
        r@[6] & 0xF0u8 == 0x40u8,
        r@[8] & 0xC0u8 == 0x80u8,
{
    uuid::Uuid::new_v4().into_bytes()
}

/// Generates a fresh random client identifier: a random version 4 UUID, so
/// the identifier carries that version and variant; the rest is random.
pub fn generate() -> (r: ClientId)
    ensures
        r@[6] & 0xF0u8 == 0x40u8,
        r@[8] & 0xC0u8 == 0x80u8,
{
    let mut id = [0u8; 16];
    let bytes = random_uuid_bytes();
    let mut i: usize = 0;
    while i < 16
        invariant
            i <= 16,
            forall|j: int| 0 <= j < i ==> id@[j] == bytes@[j],
        decreases 16 - i,
    {
        id[i] = bytes[i];
        i = i + 1;
    }
    id
}


// ---- the store ----------------------------------------------------------------------

/// Whether `a` sorts before `b` when both agree on their first `i` characters:
/// character by character on code points, a proper prefix first. On strings
/// this is the order of their UTF-8 bytes, which is how `str` orders.
pub open spec fn lt_from(a: Seq<char>, b: Seq<char>, i: nat) -> bool
    decreases a.len() - i,
{
    if i >= a.len() {
        i < b.len()
    } else if i >= b.len() {
        false
    } else if a[i as int] != b[i as int] {
        a[i as int] < b[i as int]
    } else {
        lt_from(a, b, i + 1)
    }
}

/// The order charger identifiers are kept and listed in.
pub open spec fn key_lt(a: Seq<char>, b: Seq<char>) -> bool {
    lt_from(a, b, 0)
}

proof fn lemma_lt_irreflexive(a: Seq<char>, i: nat)
    ensures
        !lt_from(a, a, i),
    decreases a.len() - i,
{
    if i < a.len() {
        lemma_lt_irreflexive(a, i + 1);
    }
}

proof fn lemma_lt_transitive(a: Seq<char>, b: Seq<char>, c: Seq<char>, i: nat)
    requires
        lt_from(a, b, i),
        lt_from(b, c, i),
    ensures
        lt_from(a, c, i),
    decreases a.len() - i,
{
    if i < a.len() && i < b.len() && i < c.len() && a[i as int] == b[i as int] && b[i as int]
        == c[i as int] {
        lemma_lt_transitive(a, b, c, i + 1);
    }
}

proof fn lemma_lt_total(a: Seq<char>, b: Seq<char>, i: nat)
    requires
        i <= a.len(),
        i <= b.len(),
        a.take(i as int) == b.take(i as int),
    ensures
        a == b || lt_from(a, b, i) || lt_from(b, a, i),
    decreases a.len() - i,
{
    if i == a.len() && i == b.len() {
        assert(a == a.take(i as int));
        assert(b == b.take(i as int));
    } else if i == a.len() {
        assert(lt_from(a, b, i));
    } else if i == b.len() {
        assert(lt_from(b, a, i));
    } else if a[i as int] != b[i as int] {
    } else {
        assert(a.take((i + 1) as int) == a.take(i as int).push(a[i as int]));
        assert(b.take((i + 1) as int) == b.take(i as int).push(b[i as int]));
        lemma_lt_total(a, b, i + 1);
    }
}

/// Two identifiers that neither sort before the other are the same.
proof fn lemma_key_order(a: Seq<char>, b: Seq<char>)
    ensures
        a == b || key_lt(a, b) || key_lt(b, a),
        !(key_lt(a, b) && key_lt(b, a)),
        !key_lt(a, a),
{
    assert(a.take(0) == b.take(0));
    lemma_lt_total(a, b, 0);
    lemma_lt_irreflexive(a, 0);
    if key_lt(a, b) && key_lt(b, a) {
        lemma_lt_transitive(a, b, a, 0);
    }
}

/// Executable form of [`key_lt`].
fn key_less(a: &Vec<char>, b: &Vec<char>) -> (r: bool)
    ensures
        r == key_lt(a@, b@),
{
    let mut i: usize = 0;
    while i < a.len() && i < b.len() && a[i] == b[i]
        invariant
            i <= a.len(),
            i <= b.len(),
            key_lt(a@, b@) == lt_from(a@, b@, i as nat),
        decreases a.len() - i,
    {
        i = i + 1;
    }
    if i >= a.len() {
        i < b.len()
    } else if i >= b.len() {
        false
    } else {
        a[i] < b[i]
    }
}

/// One stored entry as plain values: identifier and token.
pub open spec fn entry_view(e: (String, ClientId)) -> (Seq<char>, Seq<u8>) {
    (e.0@, e.1@)
}

/// Entries whose identifiers strictly ascend in [`key_lt`] order.
pub open spec fn keys_sorted(l: Seq<(Seq<char>, Seq<u8>)>) -> bool {
    forall|i: int, j: int| 0 <= i < j < l.len() ==> key_lt(#[trigger] l[i].0, #[trigger] l[j].0)
}

/// Whether some entry has identifier `k`.
pub open spec fn has_key(l: Seq<(Seq<char>, Seq<u8>)>, k: Seq<char>) -> bool {
    exists|i: int| 0 <= i < l.len() && #[trigger] l[i].0 == k
}

/// Some position of an entry with identifier `k`.
pub open spec fn key_index(l: Seq<(Seq<char>, Seq<u8>)>, k: Seq<char>) -> int {
    choose|i: int| 0 <= i < l.len() && #[trigger] l[i].0 == k
}

/// The map from identifier to token that a list of entries describes.
pub open spec fn listing_map(l: Seq<(Seq<char>, Seq<u8>)>) -> Map<Seq<char>, Seq<u8>> {
    Map::new(|k: Seq<char>| has_key(l, k), |k: Seq<char>| l[key_index(l, k)].1)
}

/// Whether `needle` occurs in `hay` as a run of consecutive characters.
pub open spec fn has_fragment(hay: Seq<char>, needle: Seq<char>) -> bool {
    exists|i: int|
        0 <= i && i + needle.len() <= hay.len() && #[trigger] hay.subrange(i, i + needle.len())
            == needle
}

/// Whether an entry's identifier, lower-cased, contains `needle`.
pub open spec fn fragment_of(e: (Seq<char>, Seq<u8>), needle: Seq<char>) -> bool {
    has_fragment(lower_all(e.0), needle)
}

/// The entries whose lower-cased identifier contains `needle`, in order.
pub open spec fn fragment_hits(l: Seq<(Seq<char>, Seq<u8>)>, needle: Seq<char>) -> Seq<
    (Seq<char>, Seq<u8>),
> {
    l.filter(|e: (Seq<char>, Seq<u8>)| fragment_of(e, needle))
}

/// What a lookup of `device_id` finds: the exact identifier first, otherwise
/// the one entry whose identifier contains it, ignoring ASCII case. A fragment
/// that several identifiers share finds nothing.
pub open spec fn lookup(l: Seq<(Seq<char>, Seq<u8>)>, device_id: Seq<char>) -> Option<Seq<u8>> {
    if has_key(l, device_id) {
        Some(listing_map(l)[device_id])
    } else {
        let hits = fragment_hits(l, lower_all(device_id));
        if hits.len() == 1 {
            Some(hits[0].1)
        } else {
            None
        }
    }
}

proof fn lemma_unique(l: Seq<(Seq<char>, Seq<u8>)>, i: int, j: int)
    requires
        keys_sorted(l),
        0 <= i < l.len(),
        0 <= j < l.len(),
        l[i].0 == l[j].0,
    ensures
        i == j,
{
    lemma_key_order(l[i].0, l[j].0);
    if i < j {
        assert(key_lt(l[i].0, l[j].0));
    } else if j < i {
        assert(key_lt(l[j].0, l[i].0));
    }
}

proof fn lemma_lookup(l: Seq<(Seq<char>, Seq<u8>)>, i: int)
    requires
        keys_sorted(l),
        0 <= i < l.len(),
    ensures
        listing_map(l).contains_key(l[i].0),
        listing_map(l)[l[i].0] == l[i].1,
{
    let k = l[i].0;
    assert(has_key(l, k));
    let j = key_index(l, k);
    lemma_unique(l, i, j);
}

/// Whether `needle` occurs in `hay`.
pub fn find_fragment(hay: &Vec<char>, needle: &Vec<char>) -> (r: bool)
    ensures
        r == has_fragment(hay@, needle@),
{
    let n = needle.len();
    if n > hay.len() {
        return false;
    }
    let mut i: usize = 0;
    while i <= hay.len() - n
        invariant
            n == needle@.len(),
            n <= hay@.len(),
            i <= hay@.len() - n + 1,
            forall|j: int| 0 <= j < i ==> #[trigger] hay@.subrange(j, j + n) != needle@,
        decreases hay.len() + 1 - i,
    {
        let mut k: usize = 0;
        let mut same = true;
        while k < n
            invariant
                n == needle@.len(),
                i + n <= hay.len(),
                k <= n,
                same == (forall|m: int| 0 <= m < k ==> hay@[i + m] == needle@[m]),
            decreases n - k,
        {
            if hay[i + k] != needle[k] {
                same = false;
            }
            k = k + 1;
        }
        if same {
            assert(hay@.subrange(i as int, i + n) == needle@);
            return true;
        }
        assert(hay@.subrange(i as int, i + n)[0] == hay@[i as int]);
        assert(hay@.subrange(i as int, i + n) != needle@) by {
            let m = choose|m: int| 0 <= m < n && hay@[i + m] != needle@[m];
            assert(hay@.subrange(i as int, i + n)[m] == hay@[i + m]);
        }
        i = i + 1;
    }
    false
}

/// The tokens known for each charger, keyed by peripheral identifier.
///
/// Entries are kept in ascending identifier order with no identifier twice,
/// so listing and saving come out in a stable order.
#[derive(Debug)]
pub struct Store {
    entries: Vec<(String, ClientId)>,
}

impl Store {
    /// The entries, in the order they are kept.
    pub closed spec fn listing(self) -> Seq<(Seq<char>, Seq<u8>)> {
        self.entries@.map_values(|e: (String, ClientId)| entry_view(e))
    }

    /// Identifier to token.
    pub open spec fn view(self) -> Map<Seq<char>, Seq<u8>> {
        listing_map(self.listing())
    }

    #[verifier::type_invariant]
    spec fn sorted(self) -> bool {
        keys_sorted(self.listing())
    }

    /// An empty store.
    pub fn new() -> (r: Store)
        ensures
            r.listing() == Seq::<(Seq<char>, Seq<u8>)>::empty(),
            r@ == Map::<Seq<char>, Seq<u8>>::empty(),
    {
        let r = Store { entries: Vec::new() };
        assert(r.listing() == Seq::<(Seq<char>, Seq<u8>)>::empty());
        assert(r@ == Map::<Seq<char>, Seq<u8>>::empty());
        r
    }

    /// A copy of the store.
    pub fn duplicate(&self) -> (r: Store)
        ensures
            r.listing() == self.listing(),
            r@ == self@,
    {
        proof {
            use_type_invariant(self);
        }
        let mut entries: Vec<(String, ClientId)> = Vec::new();
        let mut i: usize = 0;
        while i < self.entries.len()
            invariant
                i <= self.entries@.len(),
                entries@.len() == i,
                forall|j: int| 0 <= j < i ==> entry_view(#[trigger] entries@[j]) == entry_view(self.entries@[j]),
            decreases self.entries.len() - i,
        {
            entries.push((self.entries[i].0.clone(), self.entries[i].1));
            i = i + 1;
        }
        assert(entries@.map_values(|e: (String, ClientId)| entry_view(e)) == self.listing());
        let r = Store { entries };
        r
    }

    /// True when nothing is stored.
    pub fn is_empty(&self) -> (r: bool)
        ensures
            r == (self.listing().len() == 0),
            r == (self@ == Map::<Seq<char>, Seq<u8>>::empty()),
    {
        let r = self.entries.len() == 0;
        if !r {
            proof {
                use_type_invariant(self);
                lemma_lookup(self.listing(), 0);
                assert(self@.contains_key(self.listing()[0].0));
            }
        } else {
            assert(self@ == Map::<Seq<char>, Seq<u8>>::empty());
        }
        r
    }

    /// Every charger the store knows, as identifier and token, in order.
    pub fn iter(&self) -> (r: Vec<(String, ClientId)>)
        ensures
            r@.map_values(|e: (String, ClientId)| entry_view(e)) == self.listing(),
            keys_sorted(self.listing()),
            forall|i: int|
                0 <= i < self.listing().len() ==> #[trigger] self@.contains_key(
                    self.listing()[i].0,
                ) && self@[self.listing()[i].0] == self.listing()[i].1,
    {
        proof {
            use_type_invariant(self);
            assert forall|i: int| 0 <= i < self.listing().len() implies #[trigger] self@.contains_key(
                self.listing()[i].0,
            ) && self@[self.listing()[i].0] == self.listing()[i].1 by {
                lemma_lookup(self.listing(), i);
            }
        }
        let mut out: Vec<(String, ClientId)> = Vec::new();
        let mut i: usize = 0;
        while i < self.entries.len()
            invariant
                i <= self.entries@.len(),
                out@.len() == i,
                forall|j: int| 0 <= j < i ==> entry_view(#[trigger] out@[j]) == entry_view(self.entries@[j]),
            decreases self.entries.len() - i,
        {
            let key = self.entries[i].0.clone();
            let token = self.entries[i].1;
            out.push((key, token));
            i = i + 1;
        }
        assert(out@.map_values(|e: (String, ClientId)| entry_view(e)) == self.listing());
        out
    }

    /// The token for a charger, matched on any unique fragment of its
    /// identifier so the same abbreviation works here as on the command line.
    pub fn get(&self, device_id: &str) -> (r: Option<ClientId>)
        ensures
            lookup(self.listing(), device_id@) == (match r {
                Some(t) => Some(t@),
                None => None::<Seq<u8>>,
            }),
    {
        proof {
            use_type_invariant(self);
        }
        let ghost l = self.listing();
        let key = chars_of(device_id);
        let n = self.entries.len();
        let mut i: usize = 0;
        while i < n
            invariant
                n == self.entries@.len(),
                i <= n,
                l == self.listing(),
                keys_sorted(l),
                key@ == device_id@,
                forall|j: int| 0 <= j < i ==> #[trigger] l[j].0 != device_id@,
            decreases n - i,
        {
            let other = chars_of(self.entries[i].0.as_str());
            assert(l[i as int] == entry_view(self.entries@[i as int]));
            if !key_less(&other, &key) && !key_less(&key, &other) {
                proof {
                    lemma_key_order(other@, key@);
                    lemma_lookup(l, i as int);
                }
                return Some(self.entries[i].1);
            }
            proof {
                lemma_key_order(other@, key@);
            }
            i = i + 1;
        }
        assert(!has_key(l, device_id@));
        let lowered = ascii_lowercase(device_id);
        let needle = chars_of(lowered.as_str());
        let ghost f = |e: (Seq<char>, Seq<u8>)| fragment_of(e, lower_all(device_id@));
        let mut count: usize = 0;
        let mut first: ClientId = [0u8; 16];
        let mut k: usize = 0;
        while k < n
            invariant
                n == self.entries@.len(),
                k <= n,
                l == self.listing(),
                needle@ == lower_all(device_id@),
                f == (|e: (Seq<char>, Seq<u8>)| fragment_of(e, lower_all(device_id@))),
                count == l.take(k as int).filter(f).len(),
                count <= k,
                count >= 1 ==> first@ == l.take(k as int).filter(f)[0].1,
            decreases n - k,
        {
            let hay = chars_of(ascii_lowercase(self.entries[k].0.as_str()).as_str());
            let hit = find_fragment(&hay, &needle);
            proof {
                let t = l.take(k + 1);
                assert(t.drop_last() == l.take(k as int));
                assert(t.last() == l[k as int]);
                assert(l[k as int] == entry_view(self.entries@[k as int]));
                reveal_with_fuel(Seq::filter, 1);
                assert(hit == f(t.last()));
            }
            if hit {
                if count == 0 {
                    first = self.entries[k].1;
                }
                count = count + 1;
            }
            k = k + 1;
        }
        assert(l.take(n as int) == l);
        if count == 1 {
            Some(first)
        } else {
            None
        }
    }

    /// Records the token for a charger, replacing any previous one.
    pub fn set(&mut self, device_id: &str, token: ClientId)
        ensures
            final(self)@ == old(self)@.insert(device_id@, token@),
    {
        proof {
            use_type_invariant(&*self);
        }
        let key = chars_of(device_id);
        let ghost l = self.listing();
        let ghost k = device_id@;
        let ghost v = token@;
        let n = self.entries.len();
        let mut p: usize = 0;
        while p < n && key_less(&chars_of(self.entries[p].0.as_str()), &key)
            invariant
                n == self.entries@.len(),
                p <= n,
                l == self.listing(),
                key@ == k,
                forall|j: int| 0 <= j < p ==> key_lt(#[trigger] l[j].0, k),
            decreases n - p,
        {
            p = p + 1;
        }
        let mut entries: Vec<(String, ClientId)> = Vec::new();
        std::mem::swap(&mut entries, &mut self.entries);
        assert(entries@.map_values(|e: (String, ClientId)| entry_view(e)) == l);
        let found = p < n && !key_less(&key, &chars_of(entries[p].0.as_str()));
        if found {
            proof {
                assert(l[p as int] == entry_view(entries@[p as int]));
                lemma_key_order(l[p as int].0, k);
            }
            entries.remove(p);
            entries.insert(p, (string_of(device_id), token));
        } else {
            entries.insert(p, (string_of(device_id), token));
        }
        let ghost l2 = entries@.map_values(|e: (String, ClientId)| entry_view(e));
        proof {
            if found {
                assert(l2 == l.update(p as int, (k, v)));
                assert(l2[p as int].0 == l[p as int].0);
                assert forall|i: int, j: int| 0 <= i < j < l2.len() implies key_lt(
                    #[trigger] l2[i].0,
                    #[trigger] l2[j].0,
                ) by {
                    assert(l2[i].0 == l[i].0);
                    assert(l2[j].0 == l[j].0);
                }
                lemma_map_update(l, l2, p as int, k, v);
            } else {
                assert(l2 == l.insert(p as int, (k, v)));
                if p < n {
                    assert(l[p as int] == entry_view(entries@[p as int + 1]));
                }
                lemma_sorted_insert(l, p as int, k, v);
                lemma_map_insert(l, p as int, k, v);
            }
        }
        self.entries = entries;
    }
}

/// Replacing the token of an entry with identifier `k`.
proof fn lemma_map_update(
    l: Seq<(Seq<char>, Seq<u8>)>,
    l2: Seq<(Seq<char>, Seq<u8>)>,
    p: int,
    k: Seq<char>,
    v: Seq<u8>,
)
    requires
        keys_sorted(l),
        keys_sorted(l2),
        0 <= p < l.len(),
        l[p].0 == k,
        l2 == l.update(p, (k, v)),
    ensures
        listing_map(l2) == listing_map(l).insert(k, v),
{
    let m = listing_map(l).insert(k, v);
    assert forall|x: Seq<char>| #[trigger] listing_map(l2).contains_key(x) == m.contains_key(x) by {
        if has_key(l2, x) {
            let i = choose|i: int| 0 <= i < l2.len() && #[trigger] l2[i].0 == x;
            assert(l[i].0 == x);
        }
        if has_key(l, x) {
            let i = choose|i: int| 0 <= i < l.len() && #[trigger] l[i].0 == x;
            assert(l2[i].0 == x);
        }
        if x == k {
            assert(l2[p].0 == x);
        }
    }
    assert forall|x: Seq<char>| #[trigger] listing_map(l2).contains_key(x) implies listing_map(
        l2,
    )[x] == m[x] by {
        let i = choose|i: int| 0 <= i < l2.len() && #[trigger] l2[i].0 == x;
        lemma_lookup(l2, i);
        if i != p {
            assert(l[i] == l2[i]);
            lemma_lookup(l, i);
            if x == k {
                lemma_unique(l, i, p);
            }
        }
    }
    assert(listing_map(l2) =~= m);
}

/// A new identifier fits at `p` when everything before it sorts lower and
/// everything from `p` on sorts higher.
proof fn lemma_sorted_insert(l: Seq<(Seq<char>, Seq<u8>)>, p: int, k: Seq<char>, v: Seq<u8>)
    requires
        keys_sorted(l),
        0 <= p <= l.len(),
        forall|j: int| 0 <= j < p ==> key_lt(#[trigger] l[j].0, k),
        p < l.len() ==> key_lt(k, l[p].0),
    ensures
        keys_sorted(l.insert(p, (k, v))),
        forall|j: int| 0 <= j < l.len() ==> l[j].0 != k,
{
    let l2 = l.insert(p, (k, v));
    assert forall|j: int| p <= j < l.len() implies key_lt(k, #[trigger] l[j].0) by {
        if j > p {
            assert(key_lt(l[p].0, l[j].0));
            lemma_lt_transitive(k, l[p].0, l[j].0, 0);
        }
    }
    assert forall|i: int, j: int| 0 <= i < j < l2.len() implies key_lt(
        #[trigger] l2[i].0,
        #[trigger] l2[j].0,
    ) by {
        if j < p {
            assert(key_lt(l[i].0, l[j].0));
        } else if j == p {
            assert(key_lt(l[i].0, k));
        } else if i < p {
            assert(key_lt(l[i].0, k));
            assert(key_lt(k, l[j - 1].0));
            lemma_lt_transitive(l[i].0, k, l[j - 1].0, 0);
        } else if i == p {
            assert(key_lt(k, l[j - 1].0));
        } else {
            assert(key_lt(l[i - 1].0, l[j - 1].0));
        }
    }
    assert forall|j: int| 0 <= j < l.len() implies l[j].0 != k by {
        lemma_key_order(k, k);
        if j < p {
            assert(key_lt(l[j].0, k));
        } else {
            assert(key_lt(k, l[j].0));
        }
    }
}

/// Inserting an entry for a new identifier adds it to the map.
proof fn lemma_map_insert(l: Seq<(Seq<char>, Seq<u8>)>, p: int, k: Seq<char>, v: Seq<u8>)
    requires
        keys_sorted(l),
        keys_sorted(l.insert(p, (k, v))),
        0 <= p <= l.len(),
        forall|j: int| 0 <= j < l.len() ==> l[j].0 != k,
    ensures
        listing_map(l.insert(p, (k, v))) == listing_map(l).insert(k, v),
{
    let l2 = l.insert(p, (k, v));
    let m = listing_map(l).insert(k, v);
    assert forall|x: Seq<char>| #[trigger] listing_map(l2).contains_key(x) == m.contains_key(x) by {
        if has_key(l2, x) {
            let i = choose|i: int| 0 <= i < l2.len() && #[trigger] l2[i].0 == x;
            if i < p {
                assert(l[i].0 == x);
            } else if i > p {
                assert(l[i - 1].0 == x);
            }
        }
        if has_key(l, x) {
            let i = choose|i: int| 0 <= i < l.len() && #[trigger] l[i].0 == x;
            if i < p {
                assert(l2[i].0 == x);
            } else {
                assert(l2[i + 1].0 == x);
            }
        }
        if x == k {
            assert(l2[p].0 == x);
        }
    }
    assert forall|x: Seq<char>| #[trigger] listing_map(l2).contains_key(x) implies listing_map(
        l2,
    )[x] == m[x] by {
        let i = choose|i: int| 0 <= i < l2.len() && #[trigger] l2[i].0 == x;
        lemma_lookup(l2, i);
        if i < p {
            assert(l[i] == l2[i]);
            lemma_lookup(l, i);
        } else if i > p {
            assert(l[i - 1] == l2[i]);
            lemma_lookup(l, i - 1);
        }
    }
    assert(listing_map(l2) =~= m);
}


// ---- the token file ------------------------------------------------------------------

/// Position of the first whitespace character of `s` at or after `i`, or its length.
pub open spec fn word_end(s: Seq<char>, i: int) -> int
    decreases s.len() - i,
{
    if i < 0 || i >= s.len() || is_space(s[i]) {
        i
    } else {
        word_end(s, i + 1)
    }
}

/// Position of the first non-whitespace character of `s` at or after `i`, or its length.
pub open spec fn word_start(s: Seq<char>, i: int) -> int
    decreases s.len() - i,
{
    if i < 0 || i >= s.len() || !is_space(s[i]) {
        i
    } else {
        word_start(s, i + 1)
    }
}

/// The entry one line of the token file holds. A line that is blank or starts
/// with `#` holds none; otherwise its first two whitespace-separated words are
/// the identifier and the token, and a line whose token does not parse is
/// skipped rather than refused.
pub open spec fn line_entry(line: Seq<char>) -> Option<(Seq<char>, Seq<u8>)> {
    let t = trim(line);
    if t.len() == 0 || t[0] == '#' {
        None
    } else {
        let e1 = word_end(t, 0);
        let s2 = word_start(t, e1);
        if s2 >= t.len() {
            None
        } else {
            match parse_spec(t.subrange(s2, word_end(t, s2))) {
                Some(id) => Some((t.subrange(0, e1), id)),
                None => None,
            }
        }
    }
}

/// `m` after reading one line: a later line for the same charger wins.
pub open spec fn apply_line(m: Map<Seq<char>, Seq<u8>>, line: Seq<char>) -> Map<
    Seq<char>,
    Seq<u8>,
> {
    match line_entry(line) {
        Some(e) => m.insert(e.0, e.1),
        None => m,
    }
}

/// Reading `s` character by character: what the finished lines give, and the
/// line still open.
pub open spec fn scan_text(s: Seq<char>) -> (Map<Seq<char>, Seq<u8>>, Seq<char>)
    decreases s.len(),
{
    if s.len() == 0 {
        (Map::empty(), Seq::empty())
    } else {
        let prev = scan_text(s.drop_last());
        if s.last() == '\n' {
            (apply_line(prev.0, prev.1), Seq::empty())
        } else {
            (prev.0, prev.1.push(s.last()))
        }
    }
}

/// The tokens a file holds.
pub open spec fn load_spec(s: Seq<char>) -> Map<Seq<char>, Seq<u8>> {
    apply_line(scan_text(s).0, scan_text(s).1)
}

fn find_word_end(s: &Vec<char>, i: usize) -> (r: usize)
    requires
        i <= s.len(),
    ensures
        r == word_end(s@, i as int),
        i <= r <= s.len(),
{
    let mut j = i;
    while j < s.len() && !char_is_space(s[j])
        invariant
            i <= j <= s.len(),
            word_end(s@, i as int) == word_end(s@, j as int),
        decreases s.len() - j,
    {
        j = j + 1;
    }
    j
}

fn find_word_start(s: &Vec<char>, i: usize) -> (r: usize)
    requires
        i <= s.len(),
    ensures
        r == word_start(s@, i as int),
        i <= r <= s.len(),
{
    let mut j = i;
    while j < s.len() && char_is_space(s[j])
        invariant
            i <= j <= s.len(),
            word_start(s@, i as int) == word_start(s@, j as int),
        decreases s.len() - j,
    {
        j = j + 1;
    }
    j
}

impl Store {
    /// Reads one line of the token file into the store.
    fn add_line(&mut self, line: &Vec<char>)
        ensures
            final(self)@ == apply_line(old(self)@, line@),
    {
        let t = trimmed(line);
        let tc = chars_of(t.as_str());
        if tc.len() == 0 || tc[0] == '#' {
            return;
        }
        let e1 = find_word_end(&tc, 0);
        let s2 = find_word_start(&tc, e1);
        if s2 >= tc.len() {
            return;
        }
        let e2 = find_word_end(&tc, s2);
        let token = string_from_chars(&tc, s2, e2);
        match parse(token.as_str()) {
            Ok(id) => {
                let key = string_from_chars(&tc, 0, e1);
                self.set(key.as_str(), id);
            },
            Err(_) => {},
        }
    }

    /// The store a token file's text describes.
    ///
    /// Blank lines and lines starting with `#` are skipped, and so is a line
    /// whose token does not parse, so one corrupt line does not lose the rest.
    pub fn from_text(text: &str) -> (r: Store)
        ensures
            r@ == load_spec(text@),
    {
        let chars = chars_of(text);
        let mut store = Store::new();
        let mut line: Vec<char> = Vec::new();
        let mut i: usize = 0;
        while i < chars.len()
            invariant
                i <= chars@.len(),
                (store@, line@) == scan_text(chars@.take(i as int)),
            decreases chars.len() - i,
        {
            assert(chars@.take(i + 1).drop_last() == chars@.take(i as int));
            if chars[i] == '\n' {
                store.add_line(&line);
                line = Vec::new();
            } else {
                line.push(chars[i]);
            }
            i = i + 1;
        }
        assert(chars@.take(chars@.len() as int) == text@);
        store.add_line(&line);
        store
    }
}


/// The comment lines that open a saved token file.
pub open spec fn header_lines() -> (Seq<char>, Seq<char>, Seq<char>) {
    (
        "# ISDT client identifiers."@,
        "# One charger per line: <peripheral id> <32 hex digits>."@,
        "# A charger cannot tell you its token back, so keep this file."@,
    )
}

/// The opening comment of a saved token file, each line ended.
pub open spec fn header_text() -> Seq<char> {
    let (a, b, c) = header_lines();
    a + seq!['\n'] + b + seq!['\n'] + c + seq!['\n']
}

/// One saved entry: identifier, two spaces, token in hexadecimal.
pub open spec fn entry_line(e: (Seq<char>, Seq<u8>)) -> Seq<char> {
    e.0 + seq![' ', ' '] + hex_spec(e.1)
}

/// The saved lines for `l`, in order, each ended.
pub open spec fn render_entries(l: Seq<(Seq<char>, Seq<u8>)>) -> Seq<char>
    decreases l.len(),
{
    if l.len() == 0 {
        Seq::empty()
    } else {
        render_entries(l.drop_last()) + entry_line(l.last()) + seq!['\n']
    }
}

/// The text a store is saved as.
pub open spec fn render(l: Seq<(Seq<char>, Seq<u8>)>) -> Seq<char> {
    header_text() + render_entries(l)
}

impl Store {
    /// The text the store is saved as: a comment, then one line per charger
    /// in identifier order.
    pub fn to_text(&self) -> (r: String)
        ensures
            r@ == render(self.listing()),
            keys_sorted(self.listing()),
    {
        proof {
            use_type_invariant(self);
        }
        let ghost l = self.listing();
        let mut out = String::new();
        push_str(&mut out, "# ISDT client identifiers.");
        push_char(&mut out, '\n');
        push_str(&mut out, "# One charger per line: <peripheral id> <32 hex digits>.");
        push_char(&mut out, '\n');
        push_str(&mut out, "# A charger cannot tell you its token back, so keep this file.");
        push_char(&mut out, '\n');
        assert(out@ == header_text());
        let mut i: usize = 0;
        assert(l.take(0) == Seq::<(Seq<char>, Seq<u8>)>::empty());
        while i < self.entries.len()
            invariant
                i <= self.entries@.len(),
                l == self.listing(),
                out@ == header_text() + render_entries(l.take(i as int)),
            decreases self.entries.len() - i,
        {
            push_str(&mut out, self.entries[i].0.as_str());
            push_char(&mut out, ' ');
            push_char(&mut out, ' ');
            let hex = to_hex(&self.entries[i].1);
            push_str(&mut out, hex.as_str());
            push_char(&mut out, '\n');
            proof {
                let t = l.take(i + 1);
                assert(t.drop_last() == l.take(i as int));
                assert(t.last() == entry_view(self.entries@[i as int]));
                assert(out@ == header_text() + render_entries(l.take(i as int)) + entry_line(
                    t.last(),
                ) + seq!['\n']);
            }
            i = i + 1;
        }
        assert(l.take(self.entries@.len() as int) == l);
        out
    }
}

impl Default for Store {
    fn default() -> (r: Store)
        ensures
            r@ == Map::<Seq<char>, Seq<u8>>::empty(),
            r.listing() == Seq::<(Seq<char>, Seq<u8>)>::empty(),
    {
        Store::new()
    }
}


// ---- saving and loading again ----------------------------------------------------------

/// An identifier the token file can carry: not empty, free of whitespace, and
/// not starting with `#`, which would read back as a comment.
pub open spec fn storable_key(k: Seq<char>) -> bool {
    &&& k.len() > 0
    &&& k[0] != '#'
    &&& forall|i: int| 0 <= i < k.len() ==> !is_space(#[trigger] k[i])
}

proof fn lemma_scan_append(a: Seq<char>, b: Seq<char>)
    requires
        forall|j: int| 0 <= j < b.len() ==> #[trigger] b[j] != '\n',
    ensures
        scan_text(a + b) == (scan_text(a).0, scan_text(a).1 + b),
    decreases b.len(),
{
    if b.len() == 0 {
        assert(a + b == a);
        assert(scan_text(a).1 + b == scan_text(a).1);
    } else {
        let b1 = b.drop_last();
        assert((a + b).drop_last() == a + b1);
        assert((a + b).last() == b.last());
        lemma_scan_append(a, b1);
        assert(scan_text(a).1 + b1 + seq![b.last()] == scan_text(a).1 + b);
    }
}

proof fn lemma_scan_line(a: Seq<char>, b: Seq<char>)
    requires
        scan_text(a).1 == Seq::<char>::empty(),
        forall|j: int| 0 <= j < b.len() ==> #[trigger] b[j] != '\n',
    ensures
        scan_text(a + b + seq!['\n']) == (apply_line(scan_text(a).0, b), Seq::<char>::empty()),
{
    lemma_scan_append(a, b);
    let s = a + b + seq!['\n'];
    assert(s.drop_last() == a + b);
    assert(Seq::<char>::empty() + b == b);
}

proof fn lemma_comment_line(line: Seq<char>)
    requires
        line.len() > 0,
        line[0] == '#',
    ensures
        line_entry(line) is None,
{
    crate::text::lemma_trim_end_index(line);
    let t = line.take(crate::text::trim_end_index(line) as int);
    assert(!is_space(line[0]));
    assert(t[0] == '#');
    assert(t.first() == '#');
    assert(trim(line) == t.skip(0));
    assert(t.skip(0) == t);
}

proof fn lemma_word_end(s: Seq<char>, i: int, e: int)
    requires
        0 <= i <= e <= s.len(),
        forall|j: int| i <= j < e ==> !is_space(#[trigger] s[j]),
        e == s.len() || is_space(s[e]),
    ensures
        word_end(s, i) == e,
    decreases e - i,
{
    if i < e {
        lemma_word_end(s, i + 1, e);
    }
}

proof fn lemma_word_start(s: Seq<char>, i: int, e: int)
    requires
        0 <= i <= e <= s.len(),
        forall|j: int| i <= j < e ==> is_space(#[trigger] s[j]),
        e == s.len() || !is_space(s[e]),
    ensures
        word_start(s, i) == e,
    decreases e - i,
{
    if i < e {
        lemma_word_start(s, i + 1, e);
    }
}

/// A saved entry line reads back as the entry.
proof fn lemma_entry_line(e: (Seq<char>, Seq<u8>))
    requires
        storable_key(e.0),
        e.1.len() == 16,
    ensures
        line_entry(entry_line(e)) == Some(e),
        forall|j: int| 0 <= j < entry_line(e).len() ==> #[trigger] entry_line(e)[j] != '\n',
{
    let k = e.0;
    let h = hex_spec(e.1);
    let line = entry_line(e);
    let n = k.len() as int;
    lemma_hex_spec_shape(e.1);
    lemma_hex_spec_is_hex(e.1);
    assert(h.len() == 32);
    assert forall|j: int| 0 <= j < h.len() implies !is_space(#[trigger] h[j]) by {
        assert(is_hex(h[j]));
    }
    assert forall|j: int| 0 <= j < n implies #[trigger] line[j] == k[j] by {}
    assert(line[n] == ' ');
    assert(line[n + 1] == ' ');
    assert forall|j: int| n + 2 <= j < line.len() implies #[trigger] line[j] == h[j - n - 2] by {}
    assert forall|j: int| 0 <= j < line.len() implies #[trigger] line[j] != '\n' by {
        if j < n {
            assert(line[j] == k[j]);
            assert(!is_space(k[j]));
        } else if j >= n + 2 {
            assert(line[j] == h[j - n - 2]);
            assert(!is_space(h[j - n - 2]));
        }
    }
    assert(line.len() == n + 34);
    assert(line.last() == h[31]);
    assert(!is_space(line.last()));
    assert(crate::text::trim_end_index(line) == line.len());
    assert(line.take(line.len() as int) == line);
    assert(line.first() == k[0]);
    assert(!is_space(k[0]));
    assert(crate::text::trim_start_index(line) == 0);
    assert(line.skip(0) == line);
    assert(trim(line) == line);
    lemma_word_end(line, 0, n);
    lemma_word_start(line, n, n + 2);
    lemma_word_end(line, n + 2, line.len() as int);
    assert(line.subrange(n + 2, line.len() as int) == h);
    assert(line.subrange(0, n) == k);
    law_token_round_trip(e.1);
}

proof fn lemma_header()
    ensures
        scan_text(header_text()) == (Map::<Seq<char>, Seq<u8>>::empty(), Seq::<char>::empty()),
{
    reveal_strlit("# ISDT client identifiers.");
    reveal_strlit("# One charger per line: <peripheral id> <32 hex digits>.");
    reveal_strlit("# A charger cannot tell you its token back, so keep this file.");
    let (a, b, c) = header_lines();
    let nl = seq!['\n'];
    assert(forall|j: int| 0 <= j < a.len() ==> #[trigger] a[j] != '\n');
    assert(forall|j: int| 0 <= j < b.len() ==> #[trigger] b[j] != '\n');
    assert(forall|j: int| 0 <= j < c.len() ==> #[trigger] c[j] != '\n');
    lemma_comment_line(a);
    lemma_comment_line(b);
    lemma_comment_line(c);
    let empty = Seq::<char>::empty();
    assert(scan_text(empty) == (Map::<Seq<char>, Seq<u8>>::empty(), empty));
    lemma_scan_line(empty, a);
    assert(empty + a + nl == a + nl);
    lemma_scan_line(a + nl, b);
    lemma_scan_line(a + nl + b + nl, c);
}

proof fn lemma_render(l: Seq<(Seq<char>, Seq<u8>)>)
    requires
        keys_sorted(l),
        forall|i: int| 0 <= i < l.len() ==> storable_key(#[trigger] l[i].0) && l[i].1.len() == 16,
    ensures
        scan_text(header_text() + render_entries(l)) == (listing_map(l), Seq::<char>::empty()),
    decreases l.len(),
{
    lemma_header();
    if l.len() == 0 {
        assert(header_text() + render_entries(l) == header_text());
        assert(listing_map(l) == Map::<Seq<char>, Seq<u8>>::empty());
    } else {
        let l1 = l.drop_last();
        let e = l.last();
        assert forall|i: int, j: int| 0 <= i < j < l1.len() implies key_lt(
            #[trigger] l1[i].0,
            #[trigger] l1[j].0,
        ) by {
            assert(l1[i] == l[i]);
            assert(l1[j] == l[j]);
        }
        assert forall|i: int| 0 <= i < l1.len() implies storable_key(#[trigger] l1[i].0)
            && l1[i].1.len() == 16 by {
            assert(l1[i] == l[i]);
        }
        lemma_render(l1);
        assert(storable_key(l[l.len() - 1].0));
        lemma_entry_line(e);
        let prefix = header_text() + render_entries(l1);
        assert(header_text() + render_entries(l) == prefix + entry_line(e) + seq!['\n']);
        lemma_scan_line(prefix, entry_line(e));
        assert(l1.insert(l1.len() as int, e) == l);
        assert forall|j: int| 0 <= j < l1.len() implies l1[j].0 != e.0 by {
            assert(key_lt(l[j].0, l[l.len() - 1].0));
            lemma_key_order(e.0, e.0);
        }
        lemma_map_insert(l1, l1.len() as int, e.0, e.1);
    }
}

/// Saving a store and reading the text back gives the same tokens, for every
/// store whose identifiers the file format can carry.
pub proof fn law_save_then_load(l: Seq<(Seq<char>, Seq<u8>)>)
    requires
        keys_sorted(l),
        forall|i: int| 0 <= i < l.len() ==> storable_key(#[trigger] l[i].0) && l[i].1.len() == 16,
    ensures
        load_spec(render(l)) == listing_map(l),
{
    lemma_render(l);
    let empty = Seq::<char>::empty();
    assert(empty.take(0) == empty);
    assert(empty.skip(0) == empty);
    assert(trim(empty) == empty);
}

/// Setting a token and looking the identifier up again finds that token.
pub proof fn law_get_after_set(
    before: Map<Seq<char>, Seq<u8>>,
    after: Seq<(Seq<char>, Seq<u8>)>,
    k: Seq<char>,
    t: Seq<u8>,
)
    requires
        listing_map(after) == before.insert(k, t),
    ensures
        lookup(after, k) == Some(t),
{
    assert(listing_map(after).contains_key(k));
}

} // verus!
