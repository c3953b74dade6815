//! Small text utilities shared by the other modules: decimal rendering,
//! ASCII case folding, whitespace trimming and joining.

use vstd::prelude::*;
use vstd::string::*;

verus! {

/// The ASCII digit for `d`, which must be below ten.
pub open spec fn digit_char(d: nat) -> char {
    ((d + 48) as u32) as char
}

/// `n` written in decimal with no leading zeroes.
pub open spec fn decimal(n: nat) -> Seq<char>
    decreases n,
{
    if n < 10 {
        seq![digit_char(n)]
    } else {
        decimal(n / 10).push(digit_char(n % 10))
    }
}

/// `n` written in decimal, left-padded with zeroes to at least two digits.
pub open spec fn decimal_pad2(n: nat) -> Seq<char> {
    if n < 10 {
        seq!['0', digit_char(n)]
    } else {
        decimal(n)
    }
}

/// Appends one character to a string.
///
/// Wraps `String::push`, which the standard library documents as appending
/// the character to the end of the string.
#[verifier::external_body]
pub(crate) fn push_char(s: &mut String, c: char)
    ensures
        final(s)@ == old(s)@.push(c),
{
    s.push(c);
}

/// The character for a decimal digit.
pub fn digit_to_char(d: u64) -> (c: char)
    requires
        d < 10,
    ensures
        c == digit_char(d as nat),
{
    let v: u8 = 48u8 + (d as u8);
    v as char
}

/// Appends `n` in decimal to `s`.
pub fn push_decimal(s: &mut String, n: u64)
    ensures
        final(s)@ == old(s)@ + decimal(n as nat),
    decreases n,
{
    if n >= 10 {
        push_decimal(s, n / 10);
    }
    push_char(s, digit_to_char(n % 10));
    proof {
        if n >= 10 {
            assert(decimal(n as nat) == decimal((n / 10) as nat).push(digit_char((n % 10) as nat)));
        } else {
            assert(n % 10 == n);
        }
    }
}

/// A string holding `text`.
pub fn string_of(text: &str) -> (r: String)
    ensures
        r@ == text@,
{
    String::from_str(text)
}

/// Appends `text` to `s`.
pub fn push_str(s: &mut String, text: &str)
    ensures
        final(s)@ == old(s)@ + text@,
{
    s.append(text);
}

/// True for the characters Unicode gives the `White_Space` property, which
/// is what `char::is_whitespace` tests.
pub open spec fn is_space(c: char) -> bool {
    let v = c as u32;
    (0x09 <= v && v <= 0x0D) || v == 0x20 || v == 0x85 || v == 0xA0 || v == 0x1680
        || (0x2000 <= v && v <= 0x200A) || v == 0x2028 || v == 0x2029 || v == 0x202F
        || v == 0x205F || v == 0x3000
}

/// Executable form of [`is_space`].
pub fn char_is_space(c: char) -> (b: bool)
    ensures
        b == is_space(c),
{
    let v = c as u32;
    (0x09 <= v && v <= 0x0D) || v == 0x20 || v == 0x85 || v == 0xA0 || v == 0x1680 || (0x2000
        <= v && v <= 0x200A) || v == 0x2028 || v == 0x2029 || v == 0x202F || v == 0x205F || v
        == 0x3000
}

/// The ASCII lower-case form of one character; everything else is kept.
pub open spec fn lower(c: char) -> char {
    if 'A' <= c && c <= 'Z' {
        ((c as u32) + 32) as char
    } else {
        c
    }
}

/// The ASCII lower-case form of a string.
pub open spec fn lower_all(s: Seq<char>) -> Seq<char> {
    s.map_values(|c: char| lower(c))
}

/// Executable form of [`lower`].
pub fn char_lower(c: char) -> (r: char)
    ensures
        r == lower(c),
{
    if 'A' <= c && c <= 'Z' {
        let v: u8 = (c as u8) + 32;
        v as char
    } else {
        c
    }
}

/// The ASCII lower-case form of `s`, as `str::to_ascii_lowercase` gives it.
pub fn ascii_lowercase(s: &str) -> (r: String)
    ensures
        r@ == lower_all(s@),
{
    let mut out = String::new();
    let n = s.unicode_len();
    let mut i: usize = 0;
    while i < n
        invariant
            n == s@.len(),
            i <= n,
            out@ == lower_all(s@.take(i as int)),
        decreases n - i,
    {
        let c = s.get_char(i);
        push_char(&mut out, char_lower(c));
        assert(lower_all(s@.take(i + 1)) == lower_all(s@.take(i as int)).push(lower(c)));
        i = i + 1;
    }
    assert(s@.take(n as int) == s@);
    out
}

/// The ASCII upper-case form of one character; everything else is kept.
pub open spec fn upper(c: char) -> char {
    if 'a' <= c && c <= 'z' {
        ((c as u32) - 32) as char
    } else {
        c
    }
}

/// The ASCII upper-case form of a string.
pub open spec fn upper_all(s: Seq<char>) -> Seq<char> {
    s.map_values(|c: char| upper(c))
}

/// Executable form of [`upper`].
pub fn char_upper(c: char) -> (r: char)
    ensures
        r == upper(c),
{
    if 'a' <= c && c <= 'z' {
        let v: u8 = (c as u8) - 32;
        v as char
    } else {
        c
    }
}

/// The ASCII upper-case form of `s`, as `str::to_ascii_uppercase` gives it.
pub fn ascii_uppercase(s: &str) -> (r: String)
    ensures
        r@ == upper_all(s@),
{
    let mut out = String::new();
    let n = s.unicode_len();
    let mut i: usize = 0;
    while i < n
        invariant
            n == s@.len(),
            i <= n,
            out@ == upper_all(s@.take(i as int)),
        decreases n - i,
    {
        let c = s.get_char(i);
        push_char(&mut out, char_upper(c));
        assert(upper_all(s@.take(i + 1)) == upper_all(s@.take(i as int)).push(upper(c)));
        i = i + 1;
    }
    assert(s@.take(n as int) == s@);
    out
}

/// Index just past the last non-space character of `s`, or zero.
pub open spec fn trim_end_index(s: Seq<char>) -> nat
    decreases s.len(),
{
    if s.len() == 0 {
        0
    } else if is_space(s.last()) {
        trim_end_index(s.drop_last())
    } else {
        s.len()
    }
}

/// Index of the first non-space character of `s`, or its length.
pub open spec fn trim_start_index(s: Seq<char>) -> nat
    decreases s.len(),
{
    if s.len() == 0 {
        0
    } else if is_space(s.first()) {
        1 + trim_start_index(s.drop_first())
    } else {
        0
    }
}

/// `s` with leading and trailing whitespace removed, as `str::trim` gives it.
pub open spec fn trim(s: Seq<char>) -> Seq<char> {
    let t = s.take(trim_end_index(s) as int);
    t.skip(trim_start_index(t) as int)
}

/// Everything from [`trim_end_index`] on is whitespace, and the character
/// just before it is not.
pub proof fn lemma_trim_end_index(s: Seq<char>)
    ensures
        trim_end_index(s) <= s.len(),
        trim_end_index(s) > 0 ==> !is_space(s[trim_end_index(s) - 1]),
        forall|i: int| trim_end_index(s) <= i < s.len() ==> is_space(#[trigger] s[i]),
    decreases s.len(),
{
    if s.len() > 0 && is_space(s.last()) {
        lemma_trim_end_index(s.drop_last());
        assert forall|i: int| trim_end_index(s) <= i < s.len() implies is_space(#[trigger] s[i]) by {
            if i < s.len() - 1 {
                assert(s[i] == s.drop_last()[i]);
            }
        }
    }
}

/// Everything before [`trim_start_index`] is whitespace, and the character
/// at it is not.
pub proof fn lemma_trim_start_index(s: Seq<char>)
    ensures
        trim_start_index(s) <= s.len(),
        trim_start_index(s) < s.len() ==> !is_space(s[trim_start_index(s) as int]),
        forall|i: int| 0 <= i < trim_start_index(s) ==> is_space(#[trigger] s[i]),
    decreases s.len(),
{
    if s.len() > 0 && is_space(s.first()) {
        lemma_trim_start_index(s.drop_first());
        assert forall|i: int| 0 <= i < trim_start_index(s) implies is_space(#[trigger] s[i]) by {
            if i > 0 {
                assert(s[i] == s.drop_first()[i - 1]);
            }
        }
        if trim_start_index(s) < s.len() {
            assert(s[trim_start_index(s) as int] == s.drop_first()[trim_start_index(
                s.drop_first(),
            ) as int]);
        }
    }
}

/// Finds `trim_end_index` by scanning backwards.
pub fn find_trim_end(s: &Vec<char>) -> (r: usize)
    ensures
        r == trim_end_index(s@),
{
    let mut j: usize = s.len();
    assert(s@.take(j as int) == s@);
    while j > 0 && char_is_space(s[j - 1])
        invariant
            j <= s.len(),
            trim_end_index(s@) == trim_end_index(s@.take(j as int)),
        decreases j,
    {
        assert(s@.take(j as int).drop_last() == s@.take(j - 1));
        j = j - 1;
    }
    proof {
        if j == 0 {
            assert(s@.take(0).len() == 0);
        }
    }
    j
}

/// Finds `trim_start_index` of the first `end` characters by scanning forwards.
pub fn find_trim_start(s: &Vec<char>, end: usize) -> (r: usize)
    requires
        end <= s.len(),
    ensures
        r == trim_start_index(s@.take(end as int)),
        r <= end,
{
    let ghost t = s@.take(end as int);
    let mut i: usize = 0;
    assert(t.skip(0) == t);
    while i < end && char_is_space(s[i])
        invariant
            i <= end <= s.len(),
            t == s@.take(end as int),
            trim_start_index(t) == i + trim_start_index(t.skip(i as int)),
        decreases end - i,
    {
        assert(t.skip(i as int).drop_first() == t.skip(i + 1));
        assert(t.skip(i as int).first() == s@[i as int]);
        i = i + 1;
    }
    proof {
        if i < end {
            assert(t.skip(i as int).first() == s@[i as int]);
        } else {
            assert(t.skip(i as int).len() == 0);
        }
    }
    i
}

/// The characters of `s`, in order.
pub fn chars_of(s: &str) -> (r: Vec<char>)
    ensures
        r@ == s@,
{
    let mut out: Vec<char> = Vec::new();
    let n = s.unicode_len();
    let mut i: usize = 0;
    while i < n
        invariant
            n == s@.len(),
            i <= n,
            out@ == s@.take(i as int),
        decreases n - i,
    {
        out.push(s.get_char(i));
        assert(s@.take(i + 1) == s@.take(i as int).push(s@[i as int]));
        i = i + 1;
    }
    assert(s@.take(n as int) == s@);
    out
}

/// A string holding `chars[from..to]`.
pub fn string_from_chars(chars: &Vec<char>, from: usize, to: usize) -> (r: String)
    requires
        from <= to <= chars.len(),
    ensures
        r@ == chars@.subrange(from as int, to as int),
{
    let mut out = String::new();
    let mut i = from;
    while i < to
        invariant
            from <= i <= to <= chars.len(),
            out@ == chars@.subrange(from as int, i as int),
        decreases to - i,
    {
        push_char(&mut out, chars[i]);
        assert(chars@.subrange(from as int, i + 1) == chars@.subrange(from as int, i as int).push(
            chars@[i as int],
        ));
        i = i + 1;
    }
    out
}

/// `s` with surrounding whitespace removed, as `str::trim` gives it.
pub fn trimmed(s: &Vec<char>) -> (r: String)
    ensures
        r@ == trim(s@),
{
    let end = find_trim_end(s);
    proof {
        lemma_trim_end_index(s@);
    }
    let start = find_trim_start(s, end);
    let r = string_from_chars(s, start, end);
    assert(r@ == s@.take(end as int).skip(start as int));
    r
}

/// `items` joined with `sep` between neighbours.
pub open spec fn join(items: Seq<Seq<char>>, sep: Seq<char>) -> Seq<char>
    decreases items.len(),
{
    if items.len() == 0 {
        Seq::empty()
    } else if items.len() == 1 {
        items[0]
    } else {
        join(items.drop_last(), sep) + sep + items.last()
    }
}

} // verus!
